//! Saved PostgreSQL connection metadata and the validation of user input.

use vstd::prelude::*;

use crate::error::AppError;
use crate::text::{all_white_space, is_blank};

verus! {

/// The identifier of a saved connection: the 128-bit value of its UUID.
pub type ConnectionId = u128;

/// The deployment environment of a connection; `Production` connections are
/// shown with a distinct warning in the UI.
#[derive(Clone, Copy, Debug, PartialEq, Eq, Structural)]
pub enum ConnectionEnvironment {
    Local,
    Uat,
    Production,
}

/// What the user submits to create or update a connection.
#[derive(Clone, Debug)]
pub struct ConnectionInput {
    pub name: String,
    pub host: String,
    pub port: u16,
    pub database: String,
    pub username: String,
    pub password: String,
    pub environment: ConnectionEnvironment,
    pub read_only: bool,
}

/// Non-secret metadata of a saved connection; it never holds the password.
#[derive(Clone, Debug)]
pub struct SavedConnection {
    pub id: ConnectionId,
    pub name: String,
    pub host: String,
    pub port: u16,
    pub database: String,
    pub username: String,
    pub environment: ConnectionEnvironment,
    pub read_only: bool,
}

/// The first problem with `input`, checking name, host, database, username
/// and port in that order; `None` when the input is valid.
pub open spec fn input_error(input: ConnectionInput) -> Option<AppError> {
    if all_white_space(input.name@) {
        Some(AppError::EmptyName)
    } else if all_white_space(input.host@) {
        Some(AppError::EmptyHost)
    } else if all_white_space(input.database@) {
        Some(AppError::EmptyDatabase)
    } else if all_white_space(input.username@) {
        Some(AppError::EmptyUsername)
    } else if input.port == 0 {
        Some(AppError::InvalidPort)
    } else {
        None
    }
}

/// The first problem with `input` when it creates a connection: the checks of
/// `input_error`, then a non-empty password.
pub open spec fn create_error(input: ConnectionInput) -> Option<AppError> {
    match input_error(input) {
        Some(e) => Some(e),
        None => if input.password@.len() == 0 {
            Some(AppError::EmptyPassword)
        } else {
            None
        },
    }
}

/// The result that a check reporting `problem` returns.
pub open spec fn check_result(problem: Option<AppError>) -> Result<(), AppError> {
    match problem {
        Some(e) => Err(e),
        None => Ok(()),
    }
}

/// `saved` is the metadata of `input` under the identifier `id`.
pub open spec fn describes(saved: SavedConnection, id: ConnectionId, input: ConnectionInput) -> bool {
    &&& saved.id == id
    &&& saved.name@ == input.name@
    &&& saved.host@ == input.host@
    &&& saved.port == input.port
    &&& saved.database@ == input.database@
    &&& saved.username@ == input.username@
    &&& saved.environment == input.environment
    &&& saved.read_only == input.read_only
}

impl ConnectionInput {
    /// Checks that name, host, database and username are not blank and that
    /// the port is not zero; reports the first failing check.
    pub fn validate(&self) -> (r: Result<(), AppError>)
        ensures
            r == check_result(input_error(*self)),
            all_white_space(self.name@) ==> r matches Err(AppError::EmptyName),
            !all_white_space(self.name@) && all_white_space(self.host@) ==> r matches Err(
                AppError::EmptyHost,
            ),
            !all_white_space(self.name@) && !all_white_space(self.host@) && all_white_space(
                self.database@,
            ) ==> r matches Err(AppError::EmptyDatabase),
            !all_white_space(self.name@) && !all_white_space(self.host@) && !all_white_space(
                self.database@,
            ) && all_white_space(self.username@) ==> r matches Err(AppError::EmptyUsername),
            !all_white_space(self.name@) && !all_white_space(self.host@) && !all_white_space(
                self.database@,
            ) && !all_white_space(self.username@) ==> (r is Ok <==> self.port != 0) && (r is Err
                ==> r matches Err(AppError::InvalidPort)),
    {
        if is_blank(self.name.as_str()) {
            return Err(AppError::EmptyName);
        }
        if is_blank(self.host.as_str()) {
            return Err(AppError::EmptyHost);
        }
        if is_blank(self.database.as_str()) {
            return Err(AppError::EmptyDatabase);
        }
        if is_blank(self.username.as_str()) {
            return Err(AppError::EmptyUsername);
        }
        if self.port == 0 {
            return Err(AppError::InvalidPort);
        }
        Ok(())
    }

    /// `validate`, and then a password must be given.
    pub fn validate_for_create(&self) -> (r: Result<(), AppError>)
        ensures
            r == check_result(create_error(*self)),
            input_error(*self) matches Some(e) ==> r == Err::<(), AppError>(e),
            input_error(*self) is None ==> (r is Ok <==> self.password@.len() > 0),
            input_error(*self) is None && self.password@.len() == 0 ==> r matches Err(
                AppError::EmptyPassword,
            ),
    {
        match self.validate() {
            Err(e) => return Err(e),
            Ok(()) => {},
        }
        if self.password.as_str().is_empty() {
            return Err(AppError::EmptyPassword);
        }
        Ok(())
    }
}

/// Input accepted for creation is accepted by `validate` too, and input that
/// `validate` rejects is rejected for creation with the same error.
pub proof fn lemma_create_check_extends_validation(input: ConnectionInput)
    ensures
        check_result(create_error(input)) is Ok ==> check_result(input_error(input)) is Ok,
        input_error(input) is Some ==> check_result(create_error(input)) == check_result(
            input_error(input),
        ),
{
}

/// Validation checks the fields in the order name, host, database, username,
/// port, and reports the first that fails; input passing all of them is valid.
pub proof fn lemma_validation_order(input: ConnectionInput)
    ensures
        all_white_space(input.name@) ==> input_error(input) == Some(AppError::EmptyName),
        !all_white_space(input.name@) && all_white_space(input.host@) ==> input_error(input)
            == Some(AppError::EmptyHost),
        !all_white_space(input.name@) && !all_white_space(input.host@) && all_white_space(
            input.database@,
        ) ==> input_error(input) == Some(AppError::EmptyDatabase),
        !all_white_space(input.name@) && !all_white_space(input.host@) && !all_white_space(
            input.database@,
        ) && all_white_space(input.username@) ==> input_error(input) == Some(
            AppError::EmptyUsername,
        ),
        !all_white_space(input.name@) && !all_white_space(input.host@) && !all_white_space(
            input.database@,
        ) && !all_white_space(input.username@) && input.port == 0 ==> input_error(input) == Some(
            AppError::InvalidPort,
        ),
        !all_white_space(input.name@) && !all_white_space(input.host@) && !all_white_space(
            input.database@,
        ) && !all_white_space(input.username@) && input.port != 0 ==> input_error(input) is None,
{
}

/// For valid input, creation fails exactly when the password is empty, and
/// then with `EmptyPassword`, whatever the environment and read-only flag.
pub proof fn lemma_create_needs_password(input: ConnectionInput)
    ensures
        input_error(input) is None ==> (create_error(input) is None <==> input.password@.len()
            > 0),
        input_error(input) is None && input.password@.len() == 0 ==> create_error(input) == Some(
            AppError::EmptyPassword,
        ),
{
}

/// Metadata that describes an input copies each of its fields unchanged.
pub proof fn lemma_description_copies_fields(
    saved: SavedConnection,
    id: ConnectionId,
    input: ConnectionInput,
)
    requires
        describes(saved, id, input),
    ensures
        saved.id == id,
        saved.name@ == input.name@,
        saved.host@ == input.host@,
        saved.port == input.port,
        saved.database@ == input.database@,
        saved.username@ == input.username@,
        saved.environment == input.environment,
        saved.read_only == input.read_only,
{
}

/// The lowercase hexadecimal digit for `d < 16`.
pub open spec fn hex_digit(d: nat) -> char {
    if d == 0 { '0' }
    else if d == 1 { '1' }
    else if d == 2 { '2' }
    else if d == 3 { '3' }
    else if d == 4 { '4' }
    else if d == 5 { '5' }
    else if d == 6 { '6' }
    else if d == 7 { '7' }
    else if d == 8 { '8' }
    else if d == 9 { '9' }
    else if d == 10 { 'a' }
    else if d == 11 { 'b' }
    else if d == 12 { 'c' }
    else if d == 13 { 'd' }
    else if d == 14 { 'e' }
    else { 'f' }
}

/// The last `n` hexadecimal digits of `x`, most significant first.
pub open spec fn hex_digits(x: nat, n: nat) -> Seq<char>
    decreases n,
{
    if n == 0 {
        Seq::empty()
    } else {
        hex_digits(x / 16, (n - 1) as nat).push(hex_digit(x % 16))
    }
}

/// `16` to the power `n`.
pub open spec fn hex_bound(n: nat) -> nat
    decreases n,
{
    if n == 0 {
        1
    } else {
        16 * hex_bound((n - 1) as nat)
    }
}

/// The credential-store account of a connection: its UUID in the hyphenated
/// lowercase form `xxxxxxxx-xxxx-xxxx-xxxx-xxxxxxxxxxxx`.
pub open spec fn account_key_text(id: ConnectionId) -> Seq<char> {
    let h = hex_digits(id as nat, 32);
    h.subrange(0, 8) + seq!['-'] + h.subrange(8, 12) + seq!['-'] + h.subrange(12, 16) + seq!['-']
        + h.subrange(16, 20) + seq!['-'] + h.subrange(20, 32)
}

/// The identifier carries the UUID version 4 and the RFC 4122 variant.
pub open spec fn is_random_uuid(id: ConnectionId) -> bool {
    &&& (id >> 76u128) & 0xfu128 == 4
    &&& (id >> 62u128) & 0x3u128 == 2
}

/// A fresh random connection identifier.
///
/// Calls `uuid::Uuid::new_v4` and reads it back with `Uuid::as_u128`. The
/// contract claims only the version and variant bits that `new_v4` sets; the
/// other bits are random.
#[verifier::external_body]
pub(crate) fn new_connection_id() -> (id: ConnectionId)
    ensures
        is_random_uuid(id),
{
    uuid::Uuid::new_v4().as_u128()
}

/// `id` is a value that a call of `new_connection_id` may return: a fresh
/// random draw. (Closed because the function it names is private; what
/// callers may rely on is `lemma_drawn_id_is_random`.)
pub closed spec fn is_drawn_id(id: ConnectionId) -> bool {
    call_ensures(new_connection_id, (), id)
}

/// What a call of `new_connection_id` returned is a drawn identifier.
pub(crate) proof fn lemma_returned_id_is_drawn(id: ConnectionId)
    requires
        call_ensures(new_connection_id, (), id),
    ensures
        is_drawn_id(id),
{
}

/// A drawn identifier carries the UUID version 4 and the RFC 4122 variant.
pub proof fn lemma_drawn_id_is_random(id: ConnectionId)
    requires
        is_drawn_id(id),
    ensures
        is_random_uuid(id),
{
}

/// The credential-store account of the connection `id`.
///
/// Calls `Display` of `uuid::Uuid` (built by `Uuid::from_u128`, which reads the
/// value big-endian). The contract claims the hyphenated lowercase hex form
/// that `uuid` documents and writes.
#[verifier::external_body]
pub(crate) fn account_key(id: ConnectionId) -> (key: String)
    ensures
        key@ == account_key_text(id),
{
    uuid::Uuid::from_u128(id).to_string()
}

proof fn lemma_hex_digits_len(x: nat, n: nat)
    ensures
        hex_digits(x, n).len() == n,
    decreases n,
{
    if n > 0 {
        lemma_hex_digits_len(x / 16, (n - 1) as nat);
    }
}

proof fn lemma_hex_digit_injective(a: nat, b: nat)
    requires
        a < 16,
        b < 16,
        hex_digit(a) == hex_digit(b),
    ensures
        a == b,
{
}

proof fn lemma_hex_digits_injective(x: nat, y: nat, n: nat)
    requires
        x < hex_bound(n),
        y < hex_bound(n),
        hex_digits(x, n) == hex_digits(y, n),
    ensures
        x == y,
    decreases n,
{
    if n > 0 {
        let m = (n - 1) as nat;
        let hx = hex_digits(x, n);
        let hy = hex_digits(y, n);
        assert(hx.drop_last() =~= hex_digits(x / 16, m));
        assert(hy.drop_last() =~= hex_digits(y / 16, m));
        assert(hx.last() == hex_digit(x % 16));
        assert(hy.last() == hex_digit(y % 16));
        lemma_hex_digit_injective(x % 16, y % 16);
        assert(x / 16 < hex_bound(m));
        assert(y / 16 < hex_bound(m));
        lemma_hex_digits_injective(x / 16, y / 16, m);
    }
}

/// Distinct connections have distinct credential-store accounts.
pub proof fn lemma_account_keys_distinct(a: ConnectionId, b: ConnectionId)
    requires
        a != b,
    ensures
        account_key_text(a) != account_key_text(b),
{
    let ha = hex_digits(a as nat, 32);
    let hb = hex_digits(b as nat, 32);
    lemma_hex_digits_len(a as nat, 32);
    lemma_hex_digits_len(b as nat, 32);
    if account_key_text(a) == account_key_text(b) {
        let ka = account_key_text(a);
        assert(ka.subrange(0, 8) =~= ha.subrange(0, 8));
        assert(ka.subrange(9, 13) =~= ha.subrange(8, 12));
        assert(ka.subrange(14, 18) =~= ha.subrange(12, 16));
        assert(ka.subrange(19, 23) =~= ha.subrange(16, 20));
        assert(ka.subrange(24, 36) =~= ha.subrange(20, 32));
        let kb = account_key_text(b);
        assert(kb.subrange(0, 8) =~= hb.subrange(0, 8));
        assert(kb.subrange(9, 13) =~= hb.subrange(8, 12));
        assert(kb.subrange(14, 18) =~= hb.subrange(12, 16));
        assert(kb.subrange(19, 23) =~= hb.subrange(16, 20));
        assert(kb.subrange(24, 36) =~= hb.subrange(20, 32));
        assert(ha =~= ha.subrange(0, 8) + ha.subrange(8, 12) + ha.subrange(12, 16) + ha.subrange(
            16,
            20,
        ) + ha.subrange(20, 32));
        assert(hb =~= hb.subrange(0, 8) + hb.subrange(8, 12) + hb.subrange(12, 16) + hb.subrange(
            16,
            20,
        ) + hb.subrange(20, 32));
        assert(ha == hb);
        reveal_with_fuel(hex_bound, 33);
        assert(hex_bound(32) == 0x1_0000_0000_0000_0000_0000_0000_0000_0000);
        lemma_hex_digits_injective(a as nat, b as nat, 32);
    }
}

} // verus!
