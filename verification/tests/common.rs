use cli_assistant::daemon::authorization::{verify_internal_user, verify_unix_user};
use cli_assistant::errors::ClaError;
use cli_assistant::files::{guess_mimetype, lock_file_name};
use cli_assistant::session::UserSessionManager;
use cli_assistant::system::{os_id, os_name, os_version, parse_os_release_field};
use uuid::Uuid;

fn manager(text: &str) -> UserSessionManager {
    UserSessionManager::with_machine_id(Uuid::parse_str(text).unwrap().into_bytes())
}

fn session_manager() -> UserSessionManager {
    UserSessionManager::from_raw_machine_id("09e28913cb074ed995a239c93b07fd8a")
        .ok()
        .expect("valid machine id")
}

#[test]
fn exit_codes_match_python() {
    assert_eq!(ClaError::chat("test").exit_code(), 80);
    assert_eq!(ClaError::shell("test").exit_code(), 81);
    assert_eq!(ClaError::history("test").exit_code(), 82);
    assert_eq!(ClaError::feedback("test").exit_code(), 83);
    assert_eq!(ClaError::config("test").exit_code(), 1);
    assert_eq!(ClaError::session("test").exit_code(), 1);
}

#[test]
fn error_display() {
    let err = ClaError::chat("connection refused");
    assert!(err.to_string().contains("connection refused"));
}

#[test]
fn error_messages_name_their_domain() {
    assert_eq!(ClaError::history("x").to_string(), "history command error: x");
    assert_eq!(ClaError::config_with_source("bad", "io").to_string(), "configuration error: bad");
    let io = ClaError::io(Some("/tmp/a \"b\"".to_string()), "denied".to_string());
    assert_eq!(io.to_string(), "I/O error at Some(\"/tmp/a \\\"b\\\"\"): denied");
    assert_eq!(io.exit_code(), 1);
    assert_eq!(ClaError::io(None, "gone".to_string()).to_string(), "I/O error at None: gone");
    assert_eq!(ClaError::UuidParse("bad".to_string()).to_string(), "UUID parse error: bad");
}

#[test]
fn guess_mimetype_known_types() {
    assert_eq!(guess_mimetype("image.png"), "image/png");
    assert_eq!(guess_mimetype("readme.txt"), "text/plain");
    assert_eq!(guess_mimetype("data.json"), "application/json");
}

#[test]
fn guess_mimetype_unknown_defaults_to_octet_stream() {
    assert_eq!(guess_mimetype("file.unknownext123"), "application/octet-stream");
}

#[test]
fn lock_names_lose_their_separators() {
    assert_eq!(lock_file_name("terminal"), "terminal.lock");
    assert_eq!(lock_file_name("a/b\\c"), "a_b_c.lock");
}

#[test]
fn get_user_id_is_deterministic() {
    let mgr = manager("a1b2c3d4-e5f6-7890-abcd-ef1234567890");

    let id1 = mgr.get_user_id(1000);
    let id2 = mgr.get_user_id(1000);
    assert_eq!(id1, id2);
}

#[test]
fn different_euids_produce_different_ids() {
    let mgr = manager("a1b2c3d4-e5f6-7890-abcd-ef1234567890");

    let id_root = mgr.get_user_id(0);
    let id_user = mgr.get_user_id(1000);
    assert_ne!(id_root, id_user);
}

#[test]
fn different_machine_ids_produce_different_user_ids() {
    let mgr1 = manager("00000000-0000-0000-0000-000000000001");
    let mgr2 = manager("00000000-0000-0000-0000-000000000002");

    assert_ne!(mgr1.get_user_id(1000), mgr2.get_user_id(1000));
}

#[test]
fn user_id_is_valid_uuid() {
    let mgr = manager("a1b2c3d4-e5f6-7890-abcd-ef1234567890");
    let uid = mgr.get_user_id(1000);
    assert!(Uuid::parse_str(&uid).is_ok());
}

#[test]
fn machine_id_accessor() {
    let mid = Uuid::parse_str("a1b2c3d4-e5f6-7890-abcd-ef1234567890").unwrap();
    let mgr = UserSessionManager::with_machine_id(mid.into_bytes());
    assert_eq!(mgr.machine_id(), mid.into_bytes());
}

#[test]
fn user_id_is_the_v5_uuid_of_machine_and_user() {
    let mid = Uuid::parse_str("a1b2c3d4-e5f6-7890-abcd-ef1234567890").unwrap();
    let mgr = UserSessionManager::with_machine_id(mid.into_bytes());
    let expected = Uuid::new_v5(&mid, b"1000").to_string();
    assert_eq!(mgr.get_user_id(1000), expected);
    assert_eq!(mgr.get_user_id(1000), "9428fb40-f84d-5e70-917c-96f82cd1a35f");
}

#[test]
fn raw_machine_ids_are_padded_and_checked() {
    let mgr = session_manager();
    let expected = Uuid::parse_str("09e28913-cb07-4ed9-95a2-39c93b07fd8a").unwrap();
    assert_eq!(mgr.machine_id(), expected.into_bytes());
    let padded = UserSessionManager::from_raw_machine_id("  09e28913-cb07-4ed9-95a2-39c93b07fd8a\n")
        .ok()
        .unwrap();
    assert_eq!(padded.machine_id(), expected.into_bytes());
    match UserSessionManager::from_raw_machine_id("  \n") {
        Err(e) => assert_eq!(e.to_string(), "session error: machine-id file is empty"),
        Ok(_) => panic!("an empty machine-id is refused"),
    }
    match UserSessionManager::from_raw_machine_id("not-a-uuid") {
        Err(e) => assert_eq!(
            e.to_string(),
            "session error: invalid machine-id format: not-a-uuid"
        ),
        Ok(_) => panic!("a malformed machine-id is refused"),
    }
}

#[test]
fn unix_user_authorization_matches() {
    assert!(verify_unix_user(1000, 1000).is_ok());
    assert!(verify_unix_user(1000, 1001).is_err());
}

#[test]
fn internal_user_authorization_matches() {
    let session = session_manager();
    let user_id = session.get_user_id(1000);

    assert!(verify_internal_user(1000, &user_id, &session).is_ok());
    assert!(verify_internal_user(1001, &user_id, &session).is_err());
}

#[test]
fn internal_user_authorization_rejects_wrong_id() {
    let session = session_manager();
    assert!(verify_internal_user(1000, "not-the-user", &session).is_err());
}

#[test]
fn os_name_returns_string() {
    // Without the file the fallback is used.
    assert_eq!(os_name(None), "Linux");
}

#[test]
fn os_release_fields_are_read() {
    let content = "NAME=\"Fedora Linux\"\nVERSION_ID=40\nID=fedora\nPRETTY_NAME=\"Fedora Linux 40\"\n";
    assert_eq!(os_name(Some(content)), "Fedora Linux 40");
    assert_eq!(os_version(Some(content)), "40");
    assert_eq!(os_id(Some(content)), "unknown");
    assert_eq!(os_id(Some("ID=\"rhel\"\nPLATFORM_ID=\"platform:el9\"\n")), "platform:el9");
    assert_eq!(os_name(Some("PRETTY_NAME_X=\"no\"\nPRETTY_NAME=\"yes\"\n")), "yes");
    assert_eq!(parse_os_release_field("ID_LIKE=fedora\nID=rhel\n", "ID").as_deref(), Some("rhel"));
    assert_eq!(os_version(Some("NAME=x\n")), "unknown");
    assert_eq!(os_id(None), "unknown");
    assert_eq!(parse_os_release_field("KEY = \"v\" \n", "KEY").as_deref(), Some("v"));
}
