use std::collections::HashMap;
use std::sync::Mutex;

use database_ide::connections::{ConnectionEnvironment, ConnectionInput, SavedConnection};
use database_ide::credentials::CredentialStore;
use database_ide::postgres_service::ConnectionService;
use database_ide::AppError;

struct Fake(Mutex<HashMap<String, String>>);

impl CredentialStore for Fake {
    fn set_password(&self, a: &str, p: &str) -> Result<(), AppError> {
        self.0.lock().unwrap().insert(a.into(), p.into());
        Ok(())
    }
    fn get_password(&self, a: &str) -> Result<String, AppError> {
        Ok(self.0.lock().unwrap().get(a).cloned().unwrap_or_default())
    }
    fn delete_password(&self, a: &str) -> Result<(), AppError> {
        self.0.lock().unwrap().remove(a);
        Ok(())
    }
}

/// Records every call it receives.
struct Recorder {
    calls: Mutex<Vec<String>>,
    fail: bool,
}

impl Recorder {
    fn new(fail: bool) -> Self {
        Recorder { calls: Mutex::new(Vec::new()), fail }
    }
    fn calls(&self) -> Vec<String> {
        self.calls.lock().unwrap().clone()
    }
}

impl CredentialStore for Recorder {
    fn set_password(&self, a: &str, p: &str) -> Result<(), AppError> {
        self.calls.lock().unwrap().push(format!("set {a} {p}"));
        if self.fail {
            Err(AppError::CredentialStorage("locked".into()))
        } else {
            Ok(())
        }
    }
    fn get_password(&self, a: &str) -> Result<String, AppError> {
        self.calls.lock().unwrap().push(format!("get {a}"));
        if self.fail {
            Err(AppError::CredentialStorage("locked".into()))
        } else {
            Ok("s3cret".into())
        }
    }
    fn delete_password(&self, a: &str) -> Result<(), AppError> {
        self.calls.lock().unwrap().push(format!("delete {a}"));
        Ok(())
    }
}

fn input(name: &str, password: &str) -> ConnectionInput {
    ConnectionInput {
        name: name.into(),
        host: "localhost".into(),
        port: 5432,
        database: "app".into(),
        username: "dev".into(),
        password: password.into(),
        environment: ConnectionEnvironment::Local,
        read_only: false,
    }
}

const ID: u128 = 0xa1a2a3a4b1b2c1c2d1d2d3d4d5d6d7d8;
const ID_KEY: &str = "a1a2a3a4-b1b2-c1c2-d1d2-d3d4d5d6d7d8";

#[test]
fn create_stores_only_metadata_in_return_value() {
    let service = ConnectionService::new(Fake(Mutex::new(HashMap::new())));
    let result = service
        .create(ConnectionInput {
            name: "Local".into(),
            host: "localhost".into(),
            port: 5432,
            database: "app".into(),
            username: "dev".into(),
            password: "secret".into(),
            environment: ConnectionEnvironment::Local,
            read_only: false,
        })
        .unwrap();
    assert_eq!(result.name, "Local");
}

#[test]
fn invalid_input_is_rejected() {
    let service = ConnectionService::new(Fake(Mutex::new(HashMap::new())));
    let result = service.create(ConnectionInput {
        name: "".into(),
        host: "localhost".into(),
        port: 5432,
        database: "app".into(),
        username: "dev".into(),
        password: "secret".into(),
        environment: ConnectionEnvironment::Local,
        read_only: false,
    });
    assert!(matches!(result, Err(AppError::EmptyName)));
}

#[test]
fn create_copies_metadata_and_stores_password_under_uuid_account() {
    let service = ConnectionService::new(Recorder::new(false));
    let mut inp = input("Prod", "pw");
    inp.environment = ConnectionEnvironment::Production;
    inp.read_only = true;
    let saved: SavedConnection = service.create(inp).unwrap();
    assert_eq!(saved.name, "Prod");
    assert_eq!(saved.host, "localhost");
    assert_eq!(saved.port, 5432);
    assert_eq!(saved.database, "app");
    assert_eq!(saved.username, "dev");
    assert_eq!(saved.environment, ConnectionEnvironment::Production);
    assert!(saved.read_only);
    // A version 4 UUID with the RFC 4122 variant.
    assert_eq!((saved.id >> 76) & 0xf, 4);
    assert_eq!((saved.id >> 62) & 0x3, 2);
    let key = uuid::Uuid::from_u128(saved.id).to_string();
    assert_eq!(service.credentials.calls(), vec![format!("set {key} pw")]);
}

#[test]
fn create_with_id_stores_under_the_given_account() {
    let service = ConnectionService::new(Recorder::new(false));
    let saved = service.create_with_id(ID, input("Local", "pw")).unwrap();
    assert_eq!(saved.id, ID);
    assert_eq!(saved.name, "Local");
    assert_eq!(service.credentials.calls(), vec![format!("set {ID_KEY} pw")]);
    let failing = ConnectionService::new(Recorder::new(true));
    match failing.create_with_id(ID, input("Local", "pw")) {
        Err(AppError::CredentialStorage(detail)) => assert_eq!(detail, "locked"),
        other => panic!("unexpected {other:?}"),
    }
    assert!(matches!(service.create_with_id(ID, input("Local", "")), Err(AppError::EmptyPassword)));
}

#[test]
fn each_created_connection_gets_its_own_account() {
    let service = ConnectionService::new(Recorder::new(false));
    let a = service.create(input("A", "pw")).unwrap();
    let b = service.create(input("B", "pw")).unwrap();
    assert_ne!(a.id, b.id);
    let calls = service.credentials.calls();
    assert_ne!(calls[0], calls[1]);
}

#[test]
fn create_requires_a_password_and_writes_nothing_when_invalid() {
    let service = ConnectionService::new(Recorder::new(false));
    assert!(matches!(service.create(input("Local", "")), Err(AppError::EmptyPassword)));
    let mut bad_port = input("Local", "pw");
    bad_port.port = 0;
    assert!(matches!(service.create(bad_port), Err(AppError::InvalidPort)));
    assert!(service.credentials.calls().is_empty());
}

#[test]
fn create_reports_credential_store_failure() {
    let service = ConnectionService::new(Recorder::new(true));
    match service.create(input("Local", "pw")) {
        Err(AppError::CredentialStorage(detail)) => assert_eq!(detail, "locked"),
        other => panic!("unexpected {other:?}"),
    }
}

#[test]
fn update_replaces_password_under_the_connection_account() {
    let service = ConnectionService::new(Recorder::new(false));
    let saved = service.update(ID, input("Renamed", "new")).unwrap();
    assert_eq!(saved.id, ID);
    assert_eq!(saved.name, "Renamed");
    assert_eq!(service.credentials.calls(), vec![format!("set {ID_KEY} new")]);
}

#[test]
fn update_returns_the_store_error_unchanged() {
    let service = ConnectionService::new(Recorder::new(true));
    match service.update(ID, input("Renamed", "new")) {
        Err(AppError::CredentialStorage(detail)) => assert_eq!(detail, "locked"),
        other => panic!("unexpected {other:?}"),
    }
    assert_eq!(service.credentials.calls(), vec![format!("set {ID_KEY} new")]);
}

#[test]
fn create_then_delete_removes_the_stored_password() {
    let service = ConnectionService::new(Fake(Mutex::new(HashMap::new())));
    let saved = service.create(input("Local", "pw")).unwrap();
    let key = uuid::Uuid::from_u128(saved.id).to_string();
    assert_eq!(service.credentials.0.lock().unwrap().get(&key), Some(&"pw".to_string()));
    service.delete(saved.id).unwrap();
    assert!(service.credentials.0.lock().unwrap().is_empty());
}

#[test]
fn update_without_password_leaves_the_stored_password_untouched() {
    let service = ConnectionService::new(Recorder::new(true));
    let saved = service.update(ID, input("Renamed", "")).unwrap();
    assert_eq!(saved.id, ID);
    assert!(service.credentials.calls().is_empty());
}

#[test]
fn update_rejects_invalid_input_before_touching_the_store() {
    let service = ConnectionService::new(Recorder::new(false));
    let mut inp = input("Local", "pw");
    inp.host = " \t".into();
    assert!(matches!(service.update(ID, inp), Err(AppError::EmptyHost)));
    assert!(service.credentials.calls().is_empty());
}

#[test]
fn delete_removes_the_connection_account() {
    let service = ConnectionService::new(Recorder::new(false));
    service.delete(ID).unwrap();
    assert_eq!(service.credentials.calls(), vec![format!("delete {ID_KEY}")]);
}

#[test]
fn stored_password_reads_back_through_the_same_account() {
    let service = ConnectionService::new(Fake(Mutex::new(HashMap::new())));
    let saved = service.create(input("Local", "hunter2")).unwrap();
    let config = service.connection_config(saved.id, &saved).unwrap();
    assert_eq!(config, "host=localhost port=5432 dbname=app user=dev password=hunter2");
}

#[test]
fn connection_config_uses_the_stored_password() {
    let service = ConnectionService::new(Recorder::new(false));
    let saved = service.update(ID, input("Local", "")).unwrap();
    let config = service.connection_config(ID, &saved).unwrap();
    assert_eq!(config, "host=localhost port=5432 dbname=app user=dev password=s3cret");
    assert_eq!(service.credentials.calls(), vec![format!("get {ID_KEY}")]);
}

#[test]
fn connection_config_reports_credential_store_failure() {
    let service = ConnectionService::new(Recorder::new(true));
    let saved = ConnectionService::new(Recorder::new(false)).update(ID, input("Local", "")).unwrap();
    match service.connection_config(ID, &saved) {
        Err(AppError::CredentialStorage(detail)) => assert_eq!(detail, "locked"),
        other => panic!("unexpected {other:?}"),
    }
    assert_eq!(service.credentials.calls(), vec![format!("get {ID_KEY}")]);
}

#[test]
fn connection_string_formats_every_field() {
    let saved = SavedConnection {
        id: 1,
        name: "n".into(),
        host: "db.internal".into(),
        port: 7,
        database: "sales".into(),
        username: "ro".into(),
        environment: ConnectionEnvironment::Uat,
        read_only: true,
    };
    assert_eq!(
        ConnectionService::<Fake>::connection_string(&saved, "p w"),
        "host=db.internal port=7 dbname=sales user=ro password=p w"
    );
    let mut wide = saved.clone();
    wide.port = 65535;
    assert_eq!(
        ConnectionService::<Fake>::connection_string(&wide, ""),
        "host=db.internal port=65535 dbname=sales user=ro password="
    );
    wide.port = 10;
    assert!(ConnectionService::<Fake>::connection_string(&wide, "").contains(" port=10 "));
}

#[test]
fn safe_db_error_redacts_passwords() {
    let msg = "error connecting: host=h password=topsecret user=u";
    let safe = ConnectionService::<Fake>::safe_db_error(msg);
    assert_eq!(safe, "error connecting: host=h password=[redacted] user=u");
    assert!(!safe.contains("topsecret"));
}

#[test]
fn credentials_never_reach_the_error_text() {
    let safe = ConnectionService::<Fake>::safe_db_error("connection failed: host=db user=dev password=secret");
    assert_eq!(safe, "connection failed: host=db user=dev password=[redacted]");
    assert!(!safe.contains("secret"));
}

#[test]
fn safe_db_error_keeps_messages_without_passwords() {
    let msg = "timeout after 30s; pass word = x";
    assert_eq!(ConnectionService::<Fake>::safe_db_error(msg), msg);
    assert_eq!(ConnectionService::<Fake>::safe_db_error(""), "");
}

#[test]
fn password_value_ends_at_white_space() {
    assert_eq!(
        ConnectionService::<Fake>::safe_db_error("password=abc\u{3000}next\tpassword=x y"),
        "password=[redacted]\u{3000}next\tpassword=[redacted] y"
    );
}

#[test]
fn redacted_text_does_not_depend_on_the_password() {
    let a = ConnectionService::<Fake>::safe_db_error("login as dev password=hunter2 rejected");
    let b = ConnectionService::<Fake>::safe_db_error("login as dev password=0xDEADBEEF rejected");
    assert_eq!(a, b);
    assert_eq!(a, "login as dev password=[redacted] rejected");
}

#[test]
fn every_password_field_is_followed_only_by_the_tag() {
    let cases = [
        ("password=password=x", "password=[redacted]"),
        ("xpassword=", "xpassword=[redacted]"),
        ("ppassword==", "ppassword=[redacted]"),
        ("password=[redacted]", "password=[redacted]"),
        ("a password= b", "a password=[redacted] b"),
    ];
    for (msg, expected) in cases {
        let safe = ConnectionService::<Fake>::safe_db_error(msg);
        assert_eq!(safe, expected);
        for (i, _) in safe.match_indices("password=") {
            let after = &safe[i + 9..];
            assert!(after.starts_with("[redacted]"), "{safe}");
            let rest = &after[10..];
            assert!(rest.is_empty() || rest.starts_with(char::is_whitespace), "{safe}");
        }
    }
}

#[test]
fn connection_error_is_a_redacted_database_error() {
    match ConnectionService::<Fake>::connection_error("auth failed for password=abc") {
        AppError::Database(detail) => assert_eq!(detail, "auth failed for password=[redacted]"),
        other => panic!("unexpected {other:?}"),
    }
}

#[test]
fn distinct_connections_have_distinct_accounts() {
    let service = ConnectionService::new(Recorder::new(false));
    service.delete(ID).unwrap();
    service.delete(ID + 1).unwrap();
    service.delete(0).unwrap();
    let calls = service.credentials.calls();
    assert_eq!(calls[0], format!("delete {ID_KEY}"));
    assert_eq!(calls[1], "delete a1a2a3a4-b1b2-c1c2-d1d2-d3d4d5d6d7d9");
    assert_eq!(calls[2], "delete 00000000-0000-0000-0000-000000000000");
}
