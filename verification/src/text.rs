//! Character-level text operations used by validation and error redaction.

use vstd::prelude::*;

verus! {

/// Unicode `White_Space` property, as used by `char::is_whitespace` and `str::trim`.
pub open spec fn is_white_space(c: char) -> bool {
    let u = c as u32;
    ||| 0x9 <= u <= 0xd
    ||| u == 0x20
    ||| u == 0x85
    ||| u == 0xa0
    ||| u == 0x1680
    ||| 0x2000 <= u <= 0x200a
    ||| u == 0x2028
    ||| u == 0x2029
    ||| u == 0x202f
    ||| u == 0x205f
    ||| u == 0x3000
}

/// A text is blank when trimming it leaves nothing: every character is white space.
pub open spec fn all_white_space(s: Seq<char>) -> bool {
    forall|i: int| 0 <= i < s.len() ==> is_white_space(#[trigger] s[i])
}

/// Executable test for Unicode white space.
pub fn char_is_white_space(c: char) -> (r: bool)
    ensures
        r == is_white_space(c),
{
    let u = c as u32;
    (0x9 <= u && u <= 0xd) || u == 0x20 || u == 0x85 || u == 0xa0 || u == 0x1680 || (0x2000
        <= u && u <= 0x200a) || u == 0x2028 || u == 0x2029 || u == 0x202f || u == 0x205f || u
        == 0x3000
}

/// The characters of `s`, in order.
pub fn chars_of(s: &str) -> (v: Vec<char>)
    ensures
        v@ == s@,
{
    let n = s.unicode_len();
    let mut v: Vec<char> = Vec::new();
    let mut i: usize = 0;
    while i < n
        invariant
            n == s@.len(),
            i <= n,
            v@ == s@.subrange(0, i as int),
        decreases n - i,
    {
        let c = s.get_char(i);
        v.push(c);
        i = i + 1;
    }
    v
}

/// Whether `a` and `b` are the same text.
pub fn same_text(a: &str, b: &str) -> (r: bool)
    ensures
        r == (a@ == b@),
{
    a.to_owned() == b.to_owned()
}

/// `true` exactly when `s.trim()` is empty.
pub fn is_blank(s: &str) -> (r: bool)
    ensures
        r == all_white_space(s@),
{
    let v = chars_of(s);
    let mut i: usize = 0;
    while i < v.len()
        invariant
            v@ == s@,
            i <= v.len(),
            forall|j: int| 0 <= j < i ==> is_white_space(#[trigger] s@[j]),
        decreases v.len() - i,
    {
        if !char_is_white_space(v[i]) {
            return false;
        }
        i = i + 1;
    }
    true
}


/// The decimal digit character for `d < 10`.
pub open spec fn decimal_digit(d: nat) -> char {
    if d == 0 { '0' }
    else if d == 1 { '1' }
    else if d == 2 { '2' }
    else if d == 3 { '3' }
    else if d == 4 { '4' }
    else if d == 5 { '5' }
    else if d == 6 { '6' }
    else if d == 7 { '7' }
    else if d == 8 { '8' }
    else { '9' }
}

/// The decimal representation of `n`, most significant digit first, without
/// leading zeros (as `Display` writes an unsigned integer).
pub open spec fn decimal(n: nat) -> Seq<char>
    decreases n,
{
    if n < 10 {
        seq![decimal_digit(n)]
    } else {
        decimal(n / 10).push(decimal_digit(n % 10))
    }
}

/// The number that the decimal digits `s` denote, most significant first.
pub open spec fn digits_value(s: Seq<char>) -> int
    decreases s.len(),
{
    if s.len() == 0 {
        0
    } else {
        digits_value(s.drop_last()) * 10 + (s.last() as int - '0' as int)
    }
}

/// `s` holds only the characters `0` to `9`.
pub open spec fn all_decimal_digits(s: Seq<char>) -> bool {
    forall|i: int| 0 <= i < s.len() ==> '0' <= #[trigger] s[i] <= '9'
}

proof fn lemma_decimal_digit_value(d: nat)
    requires
        d < 10,
    ensures
        decimal_digit(d) as int - '0' as int == d,
        '0' <= decimal_digit(d) <= '9',
{
    assert('0' as int == 48);
    assert('9' as int == 57);
    if d == 0 { assert('0' as int == 48); }
    else if d == 1 { assert('1' as int == 49); }
    else if d == 2 { assert('2' as int == 50); }
    else if d == 3 { assert('3' as int == 51); }
    else if d == 4 { assert('4' as int == 52); }
    else if d == 5 { assert('5' as int == 53); }
    else if d == 6 { assert('6' as int == 54); }
    else if d == 7 { assert('7' as int == 55); }
    else if d == 8 { assert('8' as int == 56); }
    else { assert('9' as int == 57); }
}

/// The decimal text of `n` is made of digits and reads back as `n`.
pub proof fn lemma_decimal_reads_back(n: nat)
    ensures
        all_decimal_digits(decimal(n)),
        digits_value(decimal(n)) == n,
        decimal(n).len() > 0,
    decreases n,
{
    if n >= 10 {
        lemma_decimal_reads_back(n / 10);
        lemma_decimal_digit_value(n % 10);
        let d = decimal(n);
        assert(d.drop_last() =~= decimal(n / 10));
        assert(d.last() == decimal_digit(n % 10));
        assert(digits_value(d) == digits_value(d.drop_last()) * 10 + (d.last() as int - '0' as int));
        assert((n / 10) * 10 + n % 10 == n);
        assert forall|i: int| 0 <= i < d.len() implies '0' <= #[trigger] d[i] <= '9' by {
            if i < d.len() - 1 {
                assert(d[i] == decimal(n / 10)[i]);
            }
        }
    } else {
        lemma_decimal_digit_value(n);
        let d = decimal(n);
        assert(d.drop_last() =~= Seq::<char>::empty());
        assert(digits_value(d.drop_last()) == 0);
        assert(digits_value(d) == digits_value(d.drop_last()) * 10 + (d.last() as int - '0' as int));
    }
}

fn decimal_digit_text(d: u16) -> (r: &'static str)
    requires
        d < 10,
    ensures
        r@ == seq![decimal_digit(d as nat)],
{
    proof {
        reveal_strlit("0");
        reveal_strlit("1");
        reveal_strlit("2");
        reveal_strlit("3");
        reveal_strlit("4");
        reveal_strlit("5");
        reveal_strlit("6");
        reveal_strlit("7");
        reveal_strlit("8");
        reveal_strlit("9");
    }
    if d == 0 { "0" }
    else if d == 1 { "1" }
    else if d == 2 { "2" }
    else if d == 3 { "3" }
    else if d == 4 { "4" }
    else if d == 5 { "5" }
    else if d == 6 { "6" }
    else if d == 7 { "7" }
    else if d == 8 { "8" }
    else { "9" }
}

/// Appends the decimal representation of `n` to `out`.
pub fn push_decimal(out: &mut String, n: u16)
    ensures
        final(out)@ == old(out)@ + decimal(n as nat),
    decreases n,
{
    if n >= 10 {
        push_decimal(out, n / 10);
    }
    let d = decimal_digit_text(n % 10);
    out.append(d);
    assert(n >= 10 ==> decimal(n as nat) == decimal((n / 10) as nat).push(decimal_digit((n % 10) as nat)));
}


/// `pat` occurs in `s` starting at position `i`.
pub open spec fn starts_with_at(s: Seq<char>, i: int, pat: Seq<char>) -> bool {
    0 <= i && i + pat.len() <= s.len() && s.subrange(i, i + pat.len()) == pat
}

/// Whether `pat` occurs in `v` starting at position `i`.
pub fn matches_at(v: &Vec<char>, i: usize, pat: &Vec<char>) -> (r: bool)
    ensures
        r == starts_with_at(v@, i as int, pat@),
{
    if i > v.len() || pat.len() > v.len() - i {
        return false;
    }
    let mut k: usize = 0;
    while k < pat.len()
        invariant
            i + pat.len() <= v.len(),
            k <= pat.len(),
            forall|j: int| 0 <= j < k ==> v@[i + j] == pat@[j],
        decreases pat.len() - k,
    {
        if v[i + k] != pat[k] {
            assert(v@.subrange(i as int, i + pat.len())[k as int] != pat@[k as int]);
            return false;
        }
        k = k + 1;
    }
    assert(v@.subrange(i as int, i + pat.len()) =~= pat@);
    true
}

/// The text `password=`, which introduces a password in a connection string.
pub open spec fn password_field() -> Seq<char> {
    seq!['p', 'a', 's', 's', 'w', 'o', 'r', 'd', '=']
}

/// The text `[redacted]`, written in place of a password.
pub open spec fn redaction_tag() -> Seq<char> {
    seq!['[', 'r', 'e', 'd', 'a', 'c', 't', 'e', 'd', ']']
}

/// Redaction of `s`, which continues a password value when `in_value` holds.
/// A password value is the run of characters after `password=` up to the
/// next white space; it is dropped, and `[redacted]` stands in its place.
pub open spec fn scrub(s: Seq<char>, in_value: bool) -> Seq<char>
    decreases s.len(),
{
    if s.len() == 0 {
        Seq::empty()
    } else if in_value && !is_white_space(s[0]) {
        scrub(s.subrange(1, s.len() as int), true)
    } else if starts_with_at(s, 0, password_field()) {
        password_field() + redaction_tag() + scrub(s.subrange(9, s.len() as int), true)
    } else {
        seq![s[0]] + scrub(s.subrange(1, s.len() as int), false)
    }
}

/// `s` with the value after every `password=`, up to the next white space,
/// replaced by `[redacted]`.
pub open spec fn redact(s: Seq<char>) -> Seq<char> {
    scrub(s, false)
}

/// Every `password=` in `t` is followed by `[redacted]` and then by white
/// space or the end of `t`: no password value follows it.
pub open spec fn password_fields_show_only_tag(t: Seq<char>) -> bool {
    forall|j: int|
        #[trigger] starts_with_at(t, j, password_field()) ==> {
            &&& starts_with_at(t, j + 9, redaction_tag())
            &&& (j + 19 == t.len() || is_white_space(t[j + 19]))
        }
}

/// `m` is `a`, then `password=`, then the password value `p`, then `b`: `a`
/// holds no `password=`, `p` is a non-empty run without white space, and `b`
/// is empty or starts with white space.
pub open spec fn is_password_split(m: Seq<char>, a: Seq<char>, p: Seq<char>, b: Seq<char>) -> bool {
    &&& m == a + password_field() + p + b
    &&& forall|j: int| !(#[trigger] starts_with_at(a, j, password_field()))
    &&& p.len() > 0
    &&& forall|k: int| 0 <= k < p.len() ==> !is_white_space(#[trigger] p[k])
    &&& (b.len() == 0 || is_white_space(b[0]))
}

/// `s` redacted: the value after every `password=`, up to the next white
/// space, is replaced by `[redacted]`.
pub fn redact_text(s: &str) -> (r: String)
    ensures
        r@ == redact(s@),
{
    proof {
        reveal_strlit("password=");
    }
    let v = chars_of(s);
    let pat = chars_of("password=");
    assert(pat@ =~= password_field());
    let n = v.len();
    let mut out = String::new();
    let mut in_value = false;
    let mut i: usize = 0;
    assert(s@.subrange(0, n as int) =~= s@);
    while i < n
        invariant
            v@ == s@,
            pat@ == password_field(),
            n == v.len(),
            i <= n,
            redact(s@) == out@ + scrub(s@.subrange(i as int, n as int), in_value),
        decreases n - i,
    {
        let ghost tail = s@.subrange(i as int, n as int);
        let ghost before = out@;
        assert(tail[0] == s@[i as int]);
        if in_value && !char_is_white_space(v[i]) {
            assert(tail.subrange(1, tail.len() as int) =~= s@.subrange(i + 1, n as int));
            i = i + 1;
        } else if matches_at(&v, i, &pat) {
            assert(tail.subrange(0, 9) =~= s@.subrange(i as int, i + 9));
            assert(tail.subrange(9, tail.len() as int) =~= s@.subrange(i + 9, n as int));
            out.append("password=[redacted]");
            proof {
                reveal_strlit("password=[redacted]");
            }
            assert("password=[redacted]"@ =~= password_field() + redaction_tag());
            assert(out@ + scrub(s@.subrange(i + 9, n as int), true) =~= before + (password_field()
                + redaction_tag() + scrub(s@.subrange(i + 9, n as int), true)));
            i = i + 9;
            in_value = true;
        } else {
            assert(i + 9 <= n ==> tail.subrange(0, 9) =~= s@.subrange(i as int, i + 9));
            assert(tail.subrange(1, tail.len() as int) =~= s@.subrange(i + 1, n as int));
            let c = s.substring_char(i, i + 1);
            out.append(c);
            assert(s@.subrange(i as int, i + 1) =~= seq![s@[i as int]]);
            assert(out@ + scrub(s@.subrange(i + 1, n as int), false) =~= before + (seq![s@[i as int]]
                + scrub(s@.subrange(i + 1, n as int), false)));
            i = i + 1;
            in_value = false;
        }
    }
    assert(s@.subrange(n as int, n as int) =~= Seq::<char>::empty());
    assert(out@ + Seq::<char>::empty() =~= out@);
    out
}

/// White space is not the letter `p`.
proof fn lemma_white_space_is_not_p(c: char)
    requires
        is_white_space(c),
    ensures
        c != 'p',
{
}

/// After a password value is dropped, what follows is empty or starts with
/// white space.
proof fn lemma_scrub_value_then_space(t: Seq<char>)
    ensures
        scrub(t, true).len() == 0 || is_white_space(scrub(t, true)[0]),
    decreases t.len(),
{
    if t.len() > 0 {
        if !is_white_space(t[0]) {
            lemma_scrub_value_then_space(t.subrange(1, t.len() as int));
        } else {
            lemma_white_space_is_not_p(t[0]);
            assert(t.len() >= 9 ==> t.subrange(0, 9)[0] == t[0]);
            assert(!starts_with_at(t, 0, password_field()));
            assert(scrub(t, true) == seq![t[0]] + scrub(t.subrange(1, t.len() as int), false));
        }
    }
}

/// A prefix without the letter `p` in a redacted text was already there.
proof fn lemma_scrub_keeps_prefix_without_p(t: Seq<char>, w: Seq<char>)
    requires
        forall|k: int| 0 <= k < w.len() ==> w[k] != 'p',
        starts_with_at(scrub(t, false), 0, w),
    ensures
        starts_with_at(t, 0, w),
    decreases w.len(),
{
    let pf = password_field();
    let rep = pf + redaction_tag();
    let r = scrub(t, false);
    if w.len() == 0 {
        assert(t.subrange(0, 0) =~= w);
    } else if t.len() == 0 {
        assert(r.len() == 0);
    } else if starts_with_at(t, 0, pf) {
        let t1 = t.subrange(9, t.len() as int);
        assert(r == rep + scrub(t1, true));
        assert(rep[0] == 'p');
        assert(r.subrange(0, w.len() as int)[0] == w[0]);
    } else {
        let t1 = t.subrange(1, t.len() as int);
        let r1 = scrub(t1, false);
        assert(r == seq![t[0]] + r1);
        let w1 = w.subrange(1, w.len() as int);
        assert(r.subrange(0, w.len() as int) == w);
        assert(r1.subrange(0, w1.len() as int) =~= r.subrange(1, w.len() as int));
        assert(r.subrange(0, w.len() as int).subrange(1, w.len() as int) =~= r.subrange(
            1,
            w.len() as int,
        ));
        assert(w1 =~= r.subrange(1, w.len() as int));
        assert(starts_with_at(r1, 0, w1));
        lemma_scrub_keeps_prefix_without_p(t1, w1);
        assert(r.subrange(0, w.len() as int)[0] == w[0]);
        assert(t.subrange(0, w.len() as int) =~= seq![t[0]] + t1.subrange(0, w1.len() as int));
        assert(w =~= seq![w[0]] + w1);
    }
}

/// The characters of `password=[redacted]` after the first are not `p`.
proof fn lemma_replacement_has_one_p()
    ensures
        forall|j: int|
            1 <= j < 19 ==> (#[trigger] (password_field() + redaction_tag())[j]) != 'p',
{
    let rep = password_field() + redaction_tag();
    assert(rep =~= seq![
        'p', 'a', 's', 's', 'w', 'o', 'r', 'd', '=', '[', 'r', 'e', 'd', 'a', 'c', 't', 'e', 'd', ']',
    ]);
}

/// The case where `s` starts with `password=`.
proof fn lemma_show_only_tag_after_field(s: Seq<char>)
    requires
        starts_with_at(s, 0, password_field()),
        password_fields_show_only_tag(scrub(s.subrange(9, s.len() as int), true)),
    ensures
        password_fields_show_only_tag(password_field() + redaction_tag() + scrub(
            s.subrange(9, s.len() as int),
            true,
        )),
{
    let pf = password_field();
    let tag = redaction_tag();
    let rep = pf + tag;
    let r1 = scrub(s.subrange(9, s.len() as int), true);
    let out = rep + r1;
    lemma_scrub_value_then_space(s.subrange(9, s.len() as int));
    lemma_replacement_has_one_p();
    assert forall|j: int| #[trigger] starts_with_at(out, j, pf) implies {
        &&& starts_with_at(out, j + 9, tag)
        &&& (j + 19 == out.len() || is_white_space(out[j + 19]))
    } by {
        if j == 0 {
            assert(out.subrange(9, 19) =~= tag);
            assert(out.len() > 19 ==> out[19] == r1[0]);
        } else if j < 19 {
            assert(out.subrange(j, j + 9)[0] == out[j]);
            assert(out[j] == rep[j]);
        } else {
            assert(out.subrange(j, j + 9) =~= r1.subrange(j - 19, j - 10));
            assert(starts_with_at(r1, j - 19, pf));
            assert(out.subrange(j + 9, j + 19) =~= r1.subrange(j - 10, j));
            assert(j + 19 < out.len() ==> out[j + 19] == r1[j]);
        }
    }
}

/// The case where the first character of `s` is copied.
proof fn lemma_show_only_tag_after_copy(s: Seq<char>)
    requires
        s.len() > 0,
        !starts_with_at(s, 0, password_field()),
        password_fields_show_only_tag(scrub(s.subrange(1, s.len() as int), false)),
    ensures
        password_fields_show_only_tag(seq![s[0]] + scrub(s.subrange(1, s.len() as int), false)),
{
    let pf = password_field();
    let tag = redaction_tag();
    let s1 = s.subrange(1, s.len() as int);
    let r1 = scrub(s1, false);
    let out = seq![s[0]] + r1;
    assert forall|j: int| #[trigger] starts_with_at(out, j, pf) implies {
        &&& starts_with_at(out, j + 9, tag)
        &&& (j + 19 == out.len() || is_white_space(out[j + 19]))
    } by {
        if j == 0 {
            let w = pf.subrange(1, 9);
            assert(r1.subrange(0, 8) =~= out.subrange(1, 9));
            assert(out.subrange(1, 9) =~= out.subrange(0, 9).subrange(1, 9));
            assert(w =~= seq!['a', 's', 's', 'w', 'o', 'r', 'd', '=']);
            assert(starts_with_at(r1, 0, w));
            lemma_scrub_keeps_prefix_without_p(s1, w);
            assert(out.subrange(0, 9)[0] == out[0]);
            assert(s.subrange(0, 9) =~= seq![s[0]] + s1.subrange(0, 8));
            assert(pf =~= seq![pf[0]] + w);
        } else {
            assert(out.subrange(j, j + 9) =~= r1.subrange(j - 1, j + 8));
            assert(starts_with_at(r1, j - 1, pf));
            assert(out.subrange(j + 9, j + 19) =~= r1.subrange(j + 8, j + 18));
            assert(j + 19 < out.len() ==> out[j + 19] == r1[j + 18]);
        }
    }
}

proof fn lemma_scrub_shows_only_tag(s: Seq<char>, in_value: bool)
    ensures
        password_fields_show_only_tag(scrub(s, in_value)),
    decreases s.len(),
{
    if s.len() == 0 {
        assert(scrub(s, in_value).len() == 0);
    } else if in_value && !is_white_space(s[0]) {
        lemma_scrub_shows_only_tag(s.subrange(1, s.len() as int), true);
    } else if starts_with_at(s, 0, password_field()) {
        lemma_scrub_shows_only_tag(s.subrange(9, s.len() as int), true);
        lemma_show_only_tag_after_field(s);
    } else {
        lemma_scrub_shows_only_tag(s.subrange(1, s.len() as int), false);
        lemma_show_only_tag_after_copy(s);
    }
}

/// Redaction leaves no password value: in a redacted text, each `password=` is
/// followed by `[redacted]` and then by white space or the end of the text.
pub proof fn lemma_redaction_shows_only_tags(s: Seq<char>)
    ensures
        password_fields_show_only_tag(redact(s)),
{
    lemma_scrub_shows_only_tag(s, false);
}

/// A value without white space, ended by white space or the end of the text,
/// is dropped whole.
proof fn lemma_scrub_drops_value(p: Seq<char>, b: Seq<char>)
    requires
        forall|k: int| 0 <= k < p.len() ==> !is_white_space(#[trigger] p[k]),
        b.len() == 0 || is_white_space(b[0]),
    ensures
        scrub(p + b, true) == scrub(b, false),
    decreases p.len(),
{
    if p.len() == 0 {
        assert(p + b =~= b);
        if b.len() > 0 {
            lemma_white_space_is_not_p(b[0]);
            assert(b.len() >= 9 ==> b.subrange(0, 9)[0] == b[0]);
            assert(!starts_with_at(b, 0, password_field()));
        }
    } else {
        let p1 = p.subrange(1, p.len() as int);
        assert((p + b)[0] == p[0]);
        assert((p + b).subrange(1, (p + b).len() as int) =~= p1 + b);
        lemma_scrub_drops_value(p1, b);
    }
}

/// A prefix without `password=` is copied unchanged when `password=` follows it.
proof fn lemma_scrub_copies_clean_prefix(a: Seq<char>, x: Seq<char>)
    requires
        forall|j: int| !(#[trigger] starts_with_at(a, j, password_field())),
        starts_with_at(x, 0, password_field()),
    ensures
        scrub(a + x, false) == a + scrub(x, false),
    decreases a.len(),
{
    let pf = password_field();
    if a.len() == 0 {
        assert(a + x =~= x);
    } else {
        let ax = a + x;
        if a.len() >= 9 {
            assert(ax.subrange(0, 9) =~= a.subrange(0, 9));
            assert(!starts_with_at(a, 0, pf));
        } else {
            let la = a.len() as int;
            assert(ax[la] == x[0]);
            assert(x.subrange(0, 9)[0] == pf[0]);
            assert(pf =~= seq!['p', 'a', 's', 's', 'w', 'o', 'r', 'd', '=']);
            assert(pf[la] != 'p');
            assert(ax.len() >= 9 ==> ax.subrange(0, 9)[la] == ax[la]);
        }
        assert(!starts_with_at(ax, 0, pf));
        let a1 = a.subrange(1, a.len() as int);
        assert(ax.subrange(1, ax.len() as int) =~= a1 + x);
        assert forall|j: int| !(#[trigger] starts_with_at(a1, j, pf)) by {
            if starts_with_at(a1, j, pf) {
                assert(a.subrange(j + 1, j + 10) =~= a1.subrange(j, j + 9));
                assert(starts_with_at(a, j + 1, pf));
            }
        }
        lemma_scrub_copies_clean_prefix(a1, x);
        assert(ax[0] == a[0]);
        assert(a =~= seq![a[0]] + a1);
    }
}

/// The password value is dropped: a message made of `a`, `password=`, a value
/// and `b` (see `is_password_split`) redacts to `a`, `password=[redacted]` and
/// the redacted `b`, whatever the value was.
pub proof fn lemma_redaction_drops_password_value(m: Seq<char>, a: Seq<char>, p: Seq<char>, b: Seq<char>)
    requires
        is_password_split(m, a, p, b),
    ensures
        redact(m) == a + password_field() + redaction_tag() + redact(b),
{
    let pf = password_field();
    let x = pf + p + b;
    assert(m =~= a + x);
    assert(x.subrange(0, 9) =~= pf);
    lemma_scrub_copies_clean_prefix(a, x);
    assert(x.subrange(9, x.len() as int) =~= p + b);
    lemma_scrub_drops_value(p, b);
    assert(scrub(x, false) == pf + redaction_tag() + scrub(p + b, true));
    assert(a + (pf + redaction_tag() + redact(b)) =~= a + pf + redaction_tag() + redact(b));
}

/// The redacted message does not depend on the password value: two messages
/// that differ only in the value after `password=` redact to the same text.
pub proof fn lemma_redaction_ignores_password_value(
    a: Seq<char>,
    p: Seq<char>,
    q: Seq<char>,
    b: Seq<char>,
)
    requires
        is_password_split(a + password_field() + p + b, a, p, b),
        is_password_split(a + password_field() + q + b, a, q, b),
    ensures
        redact(a + password_field() + p + b) == redact(a + password_field() + q + b),
{
    lemma_redaction_drops_password_value(a + password_field() + p + b, a, p, b);
    lemma_redaction_drops_password_value(a + password_field() + q + b, a, q, b);
}

/// Text without any `password=` is left unchanged by redaction.
pub proof fn lemma_redaction_keeps_text_without_passwords(s: Seq<char>)
    requires
        forall|j: int| !(#[trigger] starts_with_at(s, j, password_field())),
    ensures
        redact(s) == s,
    decreases s.len(),
{
    if s.len() > 0 {
        let s1 = s.subrange(1, s.len() as int);
        assert(!starts_with_at(s, 0, password_field()));
        assert forall|j: int| !(#[trigger] starts_with_at(s1, j, password_field())) by {
            if starts_with_at(s1, j, password_field()) {
                assert(s.subrange(j + 1, j + 10) =~= s1.subrange(j, j + 9));
                assert(starts_with_at(s, j + 1, password_field()));
            }
        }
        lemma_redaction_keeps_text_without_passwords(s1);
        assert(redact(s) == seq![s[0]] + redact(s1));
        assert(s =~= seq![s[0]] + s1);
    }
}

} // verus!
