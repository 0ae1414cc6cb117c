use fractal::keystore::KeystoreError;
use fractal::session_data::{SerializedSession, SessionsFormatError, StoredSession};
use zeroize::Zeroizing;
use fractal::session_store::{
    decode_failure, decrypt_failure, delete_session_inner, file_read_failure, load_sessions,
    store_session_inner, AfterLoad, DeletePlan, LoadError, SessionStoreError,
};

fn error_of<T>(result: Result<T, LoadError>) -> LoadError {
    match result {
        Ok(_) => panic!("an error was expected"),
        Err(error) => error,
    }
}

type Session = StoredSession<Zeroizing<String>>;

fn session(id: &str, passphrase: &str) -> Session {
    let serialized = SerializedSession {
        homeserver: "https://matrix.example.org/".to_owned(),
        user_id: "@alice:example.org".to_owned(),
        device_id: "ABCDEFGHIJ".to_owned(),
        id: id.to_owned(),
        client_id: None,
        passphrase: Zeroizing::new(passphrase.to_owned()),
    };
    match StoredSession::try_from_serialized(serialized) {
        Ok(session) => session,
        Err(error) => panic!("the test session should be valid: {error:?}"),
    }
}

fn ids(sessions: &[Session]) -> Vec<&str> {
    sessions.iter().map(|session| session.id()).collect()
}

fn io_error() -> std::io::Error {
    std::io::Error::new(std::io::ErrorKind::PermissionDenied, "denied")
}

#[test]
fn store_adds_a_new_session_last() {
    let stored = vec![session("a", "1"), session("b", "2")];
    let to_write = store_session_inner(Ok(stored), session("c", "3")).unwrap();
    assert_eq!(ids(&to_write), vec!["a", "b", "c"]);
}

#[test]
fn store_replaces_the_session_with_the_same_id() {
    let stored = vec![session("a", "1"), session("b", "2"), session("c", "3")];
    let to_write = store_session_inner(Ok(stored), session("b", "new")).unwrap();
    assert_eq!(ids(&to_write), vec!["a", "c", "b"]);
    assert_eq!(to_write[2].passphrase().as_str(), "new");
}

#[test]
fn store_is_idempotent() {
    let stored = vec![session("a", "1"), session("b", "2")];
    let once = store_session_inner(Ok(stored), session("a", "x")).unwrap();
    let once_ids: Vec<String> = ids(&once).into_iter().map(str::to_owned).collect();
    let twice = store_session_inner(Ok(once), session("a", "x")).unwrap();
    assert_eq!(ids(&twice), once_ids);
    assert_eq!(twice[1].passphrase().as_str(), "x");
}

#[test]
fn store_starts_fresh_without_readable_sessions() {
    let to_write = store_session_inner(Err(LoadError::NoSessions), session("a", "1")).unwrap();
    assert_eq!(ids(&to_write), vec!["a"]);

    let unreadable = LoadError::Unreadable(SessionStoreError::Keystore(KeystoreError::NoKey));
    let to_write = store_session_inner(Err(unreadable), session("b", "2")).unwrap();
    assert_eq!(ids(&to_write), vec!["b"]);
}

#[test]
fn store_refuses_to_overwrite() {
    let unsupported = LoadError::UnsupportedVersion(SessionsFormatError::UnsupportedVersion(2));
    let error = error_of(store_session_inner(Err(unsupported), session("a", "1")));
    assert!(matches!(
        error,
        LoadError::UnsupportedVersion(SessionsFormatError::UnsupportedVersion(2))
    ));

    let retained = LoadError::Retained(SessionStoreError::Keystore(KeystoreError::NoJavaVm));
    let error = error_of(store_session_inner(Err(retained), session("a", "1")));
    assert!(matches!(
        error,
        LoadError::Retained(SessionStoreError::Keystore(KeystoreError::NoJavaVm))
    ));
}

#[test]
fn delete_keeps_every_other_session() {
    let stored = vec![session("a", "1"), session("b", "2"), session("c", "3")];
    match delete_session_inner(Ok(stored), "b") {
        DeletePlan::Write(sessions) => assert_eq!(ids(&sessions), vec!["a", "c"]),
        _ => panic!("the remaining sessions should be written"),
    }
}

#[test]
fn delete_of_an_unknown_session_writes_nothing() {
    let stored = vec![session("a", "1"), session("b", "2")];
    assert!(matches!(
        delete_session_inner(Ok(stored), "z"),
        DeletePlan::Keep
    ));
    assert!(matches!(
        delete_session_inner::<Zeroizing<String>>(Err(LoadError::NoSessions), "a"),
        DeletePlan::Keep
    ));
    assert!(matches!(
        delete_session_inner::<Zeroizing<String>>(Ok(Vec::new()), "a"),
        DeletePlan::Keep
    ));
}

#[test]
fn delete_of_the_last_session_removes_everything() {
    let stored = vec![session("a", "1")];
    assert!(matches!(
        delete_session_inner(Ok(stored), "a"),
        DeletePlan::RemoveAll
    ));
}

#[test]
fn delete_discards_unreadable_sessions() {
    let unreadable = LoadError::Unreadable(SessionStoreError::Keystore(KeystoreError::NoKey));
    assert!(matches!(
        delete_session_inner::<Zeroizing<String>>(Err(unreadable), "a"),
        DeletePlan::DiscardUnreadable(LoadError::Unreadable(_))
    ));
}

#[test]
fn delete_keeps_sessions_that_might_be_read_later() {
    let retained = LoadError::Retained(SessionStoreError::Keystore(KeystoreError::NoJavaVm));
    assert!(matches!(
        delete_session_inner::<Zeroizing<String>>(Err(retained), "a"),
        DeletePlan::KeepAndReport(LoadError::Retained(_))
    ));
    let unsupported = LoadError::UnsupportedVersion(SessionsFormatError::UnsupportedVersion(3));
    assert!(matches!(
        delete_session_inner::<Zeroizing<String>>(Err(unsupported), "a"),
        DeletePlan::KeepAndReport(LoadError::UnsupportedVersion(_))
    ));
}

#[test]
fn load_error_messages() {
    assert_eq!(
        LoadError::NoSessions.message(),
        "there are no stored sessions"
    );
    assert_eq!(
        LoadError::UnsupportedVersion(SessionsFormatError::UnsupportedVersion(2)).message(),
        "Sessions were stored with the unsupported version 2"
    );
    assert_eq!(
        LoadError::Retained(SessionStoreError::Keystore(KeystoreError::NoJavaVm)).message(),
        "The Java virtual machine of the application is not available"
    );
    assert_eq!(
        LoadError::Unreadable(SessionStoreError::Io(io_error())).message(),
        "denied"
    );
    assert_eq!(
        SessionStoreError::Format(SessionsFormatError::InvalidField("homeserver")).message(),
        "Stored session has an invalid `homeserver` field"
    );
}

#[test]
fn load_outcomes() {
    let (sessions, after) = load_sessions(Ok(vec![session("a", "1"), session("b", "2")]));
    assert_eq!(ids(&sessions), vec!["a", "b"]);
    assert!(matches!(after, AfterLoad::Nothing));

    let (sessions, after) = load_sessions::<Zeroizing<String>>(Err(LoadError::NoSessions));
    assert!(sessions.is_empty());
    assert!(matches!(after, AfterLoad::Nothing));

    let (sessions, after) = load_sessions::<Zeroizing<String>>(Err(LoadError::Unreadable(SessionStoreError::Io(
        io_error(),
    ))));
    assert!(sessions.is_empty());
    assert!(matches!(after, AfterLoad::ForgetEverything(SessionStoreError::Io(_))));

    let (sessions, after) = load_sessions::<Zeroizing<String>>(Err(LoadError::UnsupportedVersion(
        SessionsFormatError::UnsupportedVersion(2),
    )));
    assert!(sessions.is_empty());
    assert!(matches!(
        after,
        AfterLoad::KeepUnsupported(SessionsFormatError::UnsupportedVersion(2))
    ));

    let (sessions, after) = load_sessions::<Zeroizing<String>>(Err(LoadError::Retained(SessionStoreError::Keystore(
        KeystoreError::NoJavaVm,
    ))));
    assert!(sessions.is_empty());
    assert!(matches!(after, AfterLoad::KeepRetained(_)));
}

#[test]
fn read_failures() {
    assert!(matches!(
        file_read_failure(true, io_error()),
        LoadError::NoSessions
    ));
    assert!(matches!(
        file_read_failure(false, io_error()),
        LoadError::Unreadable(SessionStoreError::Io(_))
    ));
}

#[test]
fn decrypt_failures() {
    assert!(matches!(
        decrypt_failure(KeystoreError::MalformedCiphertext),
        LoadError::Unreadable(SessionStoreError::Keystore(KeystoreError::MalformedCiphertext))
    ));
    assert!(matches!(
        decrypt_failure(KeystoreError::Java("javax.crypto.AEADBadTagException".to_owned())),
        LoadError::Unreadable(SessionStoreError::Keystore(KeystoreError::Java(_)))
    ));
    assert!(matches!(
        decrypt_failure(KeystoreError::NoJavaVm),
        LoadError::Retained(SessionStoreError::Keystore(KeystoreError::NoJavaVm))
    ));
}

#[test]
fn decode_failures() {
    assert!(matches!(
        decode_failure(SessionsFormatError::UnsupportedVersion(9)),
        LoadError::UnsupportedVersion(SessionsFormatError::UnsupportedVersion(9))
    ));
    assert!(matches!(
        decode_failure(SessionsFormatError::InvalidField("user_id")),
        LoadError::Unreadable(SessionStoreError::Format(SessionsFormatError::InvalidField(
            "user_id"
        )))
    ));
}
