//! Password storage, kept apart from connection metadata.

use vstd::prelude::*;

use crate::error::AppError;

verus! {

/// The service under which every connection password is stored.
const SERVICE: &'static str = "com.oakko.database-ide.postgres";

/// Where connection passwords live, keyed by account.
pub trait CredentialStore {
    /// Stores `password` for `account`, replacing any earlier one.
    fn set_password(&self, account: &str, password: &str) -> Result<(), AppError>;

    /// The password stored for `account`.
    fn get_password(&self, account: &str) -> Result<String, AppError>;

    /// Removes the password stored for `account`.
    fn delete_password(&self, account: &str) -> Result<(), AppError>;
}

/// The operating system's credential manager (Keychain on macOS), reached
/// through the `keyring` crate.
pub struct OsCredentialStore;

impl Default for OsCredentialStore {
    fn default() -> (r: Self)
        ensures
            r == OsCredentialStore,
    {
        OsCredentialStore
    }
}

#[verifier::external_type_specification]
#[verifier::external_body]
pub struct ExKeyringEntry(keyring::Entry);

#[verifier::external_type_specification]
#[verifier::external_body]
pub struct ExKeyringError(keyring::Error);

/// Calls `keyring::Entry::new`. Nothing is claimed of the result: which entry
/// or error comes back depends on the platform's credential store.
#[verifier::external_body]
fn keyring_entry(service: &str, user: &str) -> (r: Result<keyring::Entry, keyring::Error>) {
    keyring::Entry::new(service, user)
}

/// Calls `keyring::Entry::set_password`. Nothing is claimed of the result: it
/// depends on the platform's credential store.
#[verifier::external_body]
fn keyring_set_password(entry: &keyring::Entry, password: &str) -> (r: Result<(), keyring::Error>) {
    entry.set_password(password)
}

/// Calls `keyring::Entry::get_password`. Nothing is claimed of the result: it
/// depends on what the platform's credential store holds.
#[verifier::external_body]
fn keyring_get_password(entry: &keyring::Entry) -> (r: Result<String, keyring::Error>) {
    entry.get_password()
}

/// Calls `keyring::Entry::delete_credential`. Nothing is claimed of the
/// result: it depends on the platform's credential store.
#[verifier::external_body]
fn keyring_delete_credential(entry: &keyring::Entry) -> (r: Result<(), keyring::Error>) {
    entry.delete_credential()
}

/// Calls `Display` of `keyring::Error`. Nothing is claimed of the text: the
/// error's contents are opaque here.
#[verifier::external_body]
fn keyring_error_text(error: &keyring::Error) -> (r: String) {
    error.to_string()
}

/// `text` is what `Display` of `error` may give. Closed, like the four below,
/// because it names a private wrapper; each names one outside call's answer.
pub closed spec fn is_error_text(error: keyring::Error, text: String) -> bool {
    call_ensures(keyring_error_text, (&error,), text)
}

/// `made` is what `keyring::Entry::new(SERVICE, account)` may give.
pub closed spec fn is_entry_answer(account: &str, made: Result<keyring::Entry, keyring::Error>) -> bool {
    call_ensures(keyring_entry, (SERVICE, account), made)
}

/// `raw` is what `entry.set_password(password)` may give.
pub closed spec fn is_set_answer(entry: keyring::Entry, password: &str, raw: Result<(), keyring::Error>) -> bool {
    call_ensures(keyring_set_password, (&entry, password), raw)
}

/// `raw` is what `entry.get_password()` may give.
pub closed spec fn is_get_answer(entry: keyring::Entry, raw: Result<String, keyring::Error>) -> bool {
    call_ensures(keyring_get_password, (&entry,), raw)
}

/// `raw` is what `entry.delete_credential()` may give.
pub closed spec fn is_delete_answer(entry: keyring::Entry, raw: Result<(), keyring::Error>) -> bool {
    call_ensures(keyring_delete_credential, (&entry,), raw)
}

/// `r` is the library's form of the `keyring` result `raw`: a value passes
/// through unchanged, and a failure becomes a credential-storage error that
/// carries the failure's text.
pub open spec fn storage_form<T>(raw: Result<T, keyring::Error>, r: Result<T, AppError>) -> bool {
    match raw {
        Ok(v) => r == Ok::<T, AppError>(v),
        Err(error) => r matches Err(AppError::CredentialStorage(text)) && is_error_text(error, text),
    }
}

/// Any error in `r` is a credential-storage error.
pub open spec fn is_storage_result<T>(r: Result<T, AppError>) -> bool {
    r matches Err(e) ==> e is CredentialStorage
}

/// `r` follows from the entry that `keyring::Entry::new(SERVICE, account)`
/// may give: its failure is reported in `storage_form`, and an entry it made
/// is handed to `then`.
pub open spec fn keyring_entry_outcome<T>(
    account: &str,
    r: Result<T, AppError>,
    then: spec_fn(keyring::Entry) -> bool,
) -> bool {
    exists|made: Result<keyring::Entry, keyring::Error>|
        #[trigger] is_entry_answer(account, made) && match made {
            Err(error) => r matches Err(AppError::CredentialStorage(text)) && is_error_text(
                error,
                text,
            ),
            Ok(entry) => then(entry),
        }
}

/// `r` is what storing `password` for `account` through `keyring` may give:
/// the entry for `SERVICE` and `account` is made, `password` is set on it,
/// and the answer is reported in `storage_form`.
pub open spec fn keyring_set_outcome(account: &str, password: &str, r: Result<(), AppError>) -> bool {
    keyring_entry_outcome(
        account,
        r,
        |entry: keyring::Entry|
            exists|raw: Result<(), keyring::Error>|
                #[trigger] is_set_answer(entry, password, raw) && storage_form(raw, r),
    )
}

/// `r` is what reading the password of `account` through `keyring` may give.
pub open spec fn keyring_get_outcome(account: &str, r: Result<String, AppError>) -> bool {
    keyring_entry_outcome(
        account,
        r,
        |entry: keyring::Entry|
            exists|raw: Result<String, keyring::Error>|
                #[trigger] is_get_answer(entry, raw) && storage_form(raw, r),
    )
}

/// `r` is what deleting the password of `account` through `keyring` may give.
pub open spec fn keyring_delete_outcome(account: &str, r: Result<(), AppError>) -> bool {
    keyring_entry_outcome(
        account,
        r,
        |entry: keyring::Entry|
            exists|raw: Result<(), keyring::Error>|
                #[trigger] is_delete_answer(entry, raw) && storage_form(raw, r),
    )
}

impl OsCredentialStore {
    /// The library's form of a `keyring` result: a value passes through
    /// unchanged, and a failure becomes `CredentialStorage` carrying the
    /// failure's text.
    pub fn storage_result<T>(result: Result<T, keyring::Error>) -> (r: Result<T, AppError>)
        ensures
            storage_form(result, r),
    {
        match result {
            Ok(v) => Ok(v),
            Err(error) => {
                let text = keyring_error_text(&error);
                assert(call_ensures(keyring_error_text, (&error,), text));
                Err(AppError::CredentialStorage(text))
            },
        }
    }

    fn entry(account: &str) -> (r: Result<keyring::Entry, AppError>)
        ensures
            is_storage_result(r),
            exists|made: Result<keyring::Entry, keyring::Error>|
                #[trigger] is_entry_answer(account, made) && storage_form(made, r),
    {
        let made = keyring_entry(SERVICE, account);
        assert(call_ensures(keyring_entry, (SERVICE, account), made));
        assert(is_entry_answer(account, made));
        Self::storage_result(made)
    }
}

impl CredentialStore for OsCredentialStore {
    fn set_password(&self, account: &str, password: &str) -> (r: Result<(), AppError>)
        ensures
            is_storage_result(r),
            keyring_set_outcome(account, password, r),
    {
        let entry = match Self::entry(account) {
            Ok(entry) => entry,
            Err(e) => return Err(e),
        };
        let raw = keyring_set_password(&entry, password);
        assert(call_ensures(keyring_set_password, (&entry, password), raw));
        assert(is_set_answer(entry, password, raw));
        Self::storage_result(raw)
    }

    fn get_password(&self, account: &str) -> (r: Result<String, AppError>)
        ensures
            is_storage_result(r),
            keyring_get_outcome(account, r),
    {
        let entry = match Self::entry(account) {
            Ok(entry) => entry,
            Err(e) => return Err(e),
        };
        let raw = keyring_get_password(&entry);
        assert(call_ensures(keyring_get_password, (&entry,), raw));
        assert(is_get_answer(entry, raw));
        Self::storage_result(raw)
    }

    fn delete_password(&self, account: &str) -> (r: Result<(), AppError>)
        ensures
            is_storage_result(r),
            keyring_delete_outcome(account, r),
    {
        let entry = match Self::entry(account) {
            Ok(entry) => entry,
            Err(e) => return Err(e),
        };
        let raw = keyring_delete_credential(&entry);
        assert(call_ensures(keyring_delete_credential, (&entry,), raw));
        assert(is_delete_answer(entry, raw));
        Self::storage_result(raw)
    }
}

} // verus!
