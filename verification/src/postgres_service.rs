//! The connection service: creates, updates, deletes and tests saved
//! connections, keeping passwords in a credential store and out of metadata.

use vstd::prelude::*;

use crate::connections::{
    account_key, account_key_text, create_error, is_drawn_id, lemma_returned_id_is_drawn, describes, input_error, is_random_uuid, new_connection_id,
    ConnectionId, ConnectionInput, SavedConnection,
};
use crate::credentials::CredentialStore;
use crate::error::AppError;
use crate::text::{
    decimal, is_password_split, password_field, password_fields_show_only_tag, push_decimal, redact,
    redact_text, redaction_tag,
};

verus! {

/// The libpq-style connection string for `m` with the given password:
/// `host=.. port=.. dbname=.. user=.. password=..`.
pub open spec fn connection_string_text(m: SavedConnection, password: Seq<char>) -> Seq<char> {
    "host="@ + m.host@ + " port="@ + decimal(m.port as nat) + " dbname="@ + m.database@
        + " user="@ + m.username@ + " password="@ + password
}

/// `store.set_password(account, password)` may answer so that `r` follows:
/// on `Ok(())`, `r` is `Ok` of the metadata of `input` under `id`; on an
/// error, `r` is that error.
pub open spec fn stored_with<C: CredentialStore>(
    store: &C,
    account: &str,
    password: &str,
    r: Result<SavedConnection, AppError>,
    id: ConnectionId,
    input: ConnectionInput,
) -> bool {
    match r {
        Ok(saved) => describes(saved, id, input) && call_ensures(
            C::set_password,
            (store, account, password),
            Ok::<(), AppError>(()),
        ),
        Err(e) => call_ensures(C::set_password, (store, account, password), Err::<(), AppError>(e)),
    }
}

/// `store.get_password(account)` may answer so that `r` follows: on
/// `Ok(stored)`, `r` is `Ok` of the connection string of `m` with `stored`; on
/// an error, `r` is that error.
pub open spec fn configured_with<C: CredentialStore>(
    store: &C,
    account: &str,
    m: SavedConnection,
    r: Result<String, AppError>,
) -> bool {
    match r {
        Ok(config) => exists|stored: String|
            #[trigger] call_ensures(C::get_password, (store, account), Ok::<String, AppError>(stored))
                && config@ == connection_string_text(m, stored@),
        Err(e) => call_ensures(C::get_password, (store, account), Err::<String, AppError>(e)),
    }
}

/// Manages saved connections on top of a credential store.
pub struct ConnectionService<C: CredentialStore> {
    pub credentials: C,
}

impl<C: CredentialStore> ConnectionService<C> {
    /// A service that keeps passwords in `credentials`.
    pub fn new(credentials: C) -> (r: Self)
        ensures
            r.credentials == credentials,
    {
        Self { credentials }
    }

    /// Validates `input` for creation, stores its password under the account
    /// of a freshly drawn identifier, and returns the metadata without the
    /// password. A store error is returned unchanged.
    pub fn create(&self, input: ConnectionInput) -> (r: Result<SavedConnection, AppError>)
        ensures
            create_error(input) matches Some(e) ==> r == Err::<SavedConnection, AppError>(e),
            r matches Ok(saved) ==> {
                &&& create_error(input) is None
                &&& describes(saved, saved.id, input)
                &&& is_random_uuid(saved.id)
                &&& is_drawn_id(saved.id)
            },
            create_error(input) is None ==> exists|id: ConnectionId, account: &str, password: &str|
                {
                    &&& is_drawn_id(id)
                    &&& is_random_uuid(id)
                    &&& account@ == account_key_text(id)
                    &&& password@ == input.password@
                    &&& #[trigger] stored_with(&self.credentials, account, password, r, id, input)
                },
    {
        match input.validate_for_create() {
            Err(e) => return Err(e),
            Ok(()) => {},
        }
        let id = new_connection_id();
        assert(call_ensures(new_connection_id, (), id));
        proof {
            lemma_returned_id_is_drawn(id);
        }
        self.create_with_id(id, input)
    }

    /// Validates `input` for creation, stores its password under the account
    /// of `id`, and returns the metadata of `input` under `id` without the
    /// password. A store error is returned unchanged.
    pub fn create_with_id(&self, id: ConnectionId, input: ConnectionInput) -> (r: Result<
        SavedConnection,
        AppError,
    >)
        ensures
            create_error(input) matches Some(e) ==> r == Err::<SavedConnection, AppError>(e),
            r matches Ok(saved) ==> create_error(input) is None && describes(saved, id, input),
            create_error(input) is None ==> exists|account: &str, password: &str|
                {
                    &&& account@ == account_key_text(id)
                    &&& password@ == input.password@
                    &&& #[trigger] stored_with(&self.credentials, account, password, r, id, input)
                },
    {
        match input.validate_for_create() {
            Err(e) => return Err(e),
            Ok(()) => {},
        }
        let account = account_key(id);
        let account_text = account.as_str();
        let password_text = input.password.as_str();
        let stored = self.credentials.set_password(account_text, password_text);
        assert(call_ensures(C::set_password, (&self.credentials, account_text, password_text), stored));
        match stored {
            Err(e) => {
                assert(stored_with(&self.credentials, account_text, password_text, Err(e), id, input));
                return Err(e);
            },
            Ok(v) => {
                assert(stored == Ok::<(), AppError>(v));
                assert(v == ());
            },
        }
        let saved = Self::metadata(id, &input);
        assert(stored_with(&self.credentials, account_text, password_text, Ok(saved), id, input));
        Ok(saved)
    }

    /// Validates `input` and returns the metadata of connection `id`. A
    /// non-empty password replaces the one stored under the account of `id`,
    /// and a store error is returned unchanged; an empty password leaves the
    /// stored one untouched.
    pub fn update(&self, id: ConnectionId, input: ConnectionInput) -> (r: Result<
        SavedConnection,
        AppError,
    >)
        ensures
            input_error(input) matches Some(e) ==> r == Err::<SavedConnection, AppError>(e),
            r matches Ok(saved) ==> input_error(input) is None && describes(saved, id, input),
            input_error(input) is None && input.password@.len() == 0 ==> (r matches Ok(saved)
                && describes(saved, id, input)),
            input_error(input) is None && input.password@.len() > 0 ==> exists|
                account: &str,
                password: &str,
            |
                {
                    &&& account@ == account_key_text(id)
                    &&& password@ == input.password@
                    &&& #[trigger] stored_with(&self.credentials, account, password, r, id, input)
                },
    {
        match input.validate() {
            Err(e) => return Err(e),
            Ok(()) => {},
        }
        if !input.password.as_str().is_empty() {
            let account = account_key(id);
            let account_text = account.as_str();
            let password_text = input.password.as_str();
            let stored = self.credentials.set_password(account_text, password_text);
            assert(call_ensures(C::set_password, (&self.credentials, account_text, password_text), stored));
            match stored {
                Err(e) => {
                    assert(stored_with(&self.credentials, account_text, password_text, Err(e), id, input));
                    return Err(e);
                },
                Ok(v) => {
                    assert(stored == Ok::<(), AppError>(v));
                    assert(v == ());
                },
            }
            let saved = Self::metadata(id, &input);
            assert(stored_with(&self.credentials, account_text, password_text, Ok(saved), id, input));
            return Ok(saved);
        }
        Ok(Self::metadata(id, &input))
    }

    /// Removes the password stored under the account of connection `id`, and
    /// returns the store's answer unchanged.
    pub fn delete(&self, id: ConnectionId) -> (r: Result<(), AppError>)
        ensures
            exists|account: &str|
                {
                    &&& account@ == account_key_text(id)
                    &&& #[trigger] call_ensures(C::delete_password, (&self.credentials, account), r)
                },
    {
        let account = account_key(id);
        let account_text = account.as_str();
        let r = self.credentials.delete_password(account_text);
        assert(call_ensures(C::delete_password, (&self.credentials, account_text), r));
        r
    }

    /// The connection string for testing connection `id` described by
    /// `metadata`, with the password read from the store under the account of
    /// `id`; a store error is returned unchanged.
    pub fn connection_config(&self, id: ConnectionId, metadata: &SavedConnection) -> (r: Result<
        String,
        AppError,
    >)
        ensures
            exists|account: &str|
                {
                    &&& account@ == account_key_text(id)
                    &&& #[trigger] configured_with(&self.credentials, account, *metadata, r)
                },
    {
        let account = account_key(id);
        let account_text = account.as_str();
        let read = self.credentials.get_password(account_text);
        assert(call_ensures(C::get_password, (&self.credentials, account_text), read));
        let password = match read {
            Ok(password) => password,
            Err(e) => {
                assert(configured_with(&self.credentials, account_text, *metadata, Err(e)));
                return Err(e);
            },
        };
        let config = Self::connection_string(metadata, password.as_str());
        assert(configured_with(&self.credentials, account_text, *metadata, Ok(config)));
        Ok(config)
    }

    /// The connection string for `metadata` with `password`.
    pub fn connection_string(metadata: &SavedConnection, password: &str) -> (r: String)
        ensures
            r@ == connection_string_text(*metadata, password@),
    {
        let mut config = String::from_str("host=");
        config.append(metadata.host.as_str());
        config.append(" port=");
        push_decimal(&mut config, metadata.port);
        config.append(" dbname=");
        config.append(metadata.database.as_str());
        config.append(" user=");
        config.append(metadata.username.as_str());
        config.append(" password=");
        config.append(password);
        config
    }

    /// The error reported when connecting fails with `message`, with the
    /// password value after every `password=` in the message redacted.
    pub fn connection_error(message: &str) -> (r: AppError)
        ensures
            r matches AppError::Database(detail) && {
                &&& detail@ == redact(message@)
                &&& password_fields_show_only_tag(detail@)
                &&& forall|a: Seq<char>, p: Seq<char>, b: Seq<char>|
                    #[trigger] is_password_split(message@, a, p, b) ==> detail@ == a
                        + password_field() + redaction_tag() + redact(b)
            },
    {
        AppError::Database(Self::safe_db_error(message))
    }

    fn metadata(id: ConnectionId, input: &ConnectionInput) -> (r: SavedConnection)
        ensures
            describes(r, id, *input),
            r.id == id,
            r.name@ == input.name@,
            r.host@ == input.host@,
            r.port == input.port,
            r.database@ == input.database@,
            r.username@ == input.username@,
            r.environment == input.environment,
            r.read_only == input.read_only,
    {
        SavedConnection {
            id,
            name: input.name.clone(),
            host: input.host.clone(),
            port: input.port,
            database: input.database.clone(),
            username: input.username.clone(),
            environment: input.environment,
            read_only: input.read_only,
        }
    }

    /// `message` with the value after every `password=`, up to the next white
    /// space, replaced by `[redacted]`.
    pub fn safe_db_error(message: &str) -> (r: String)
        ensures
            r@ == redact(message@),
            password_fields_show_only_tag(r@),
            forall|a: Seq<char>, p: Seq<char>, b: Seq<char>|
                #[trigger] is_password_split(message@, a, p, b) ==> r@ == a + password_field()
                    + redaction_tag() + redact(b),
    {
        proof {
            crate::text::lemma_redaction_shows_only_tags(message@);
            assert forall|a: Seq<char>, p: Seq<char>, b: Seq<char>|
                #[trigger] is_password_split(message@, a, p, b) implies redact(message@) == a
                + password_field() + redaction_tag() + redact(b) by {
                crate::text::lemma_redaction_drops_password_value(message@, a, p, b);
            }
        }
        redact_text(message)
    }
}

} // verus!
