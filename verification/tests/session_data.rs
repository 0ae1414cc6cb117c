use fractal::session_data::{
    parsed_fields, SerializedSession, SerializedSessions, SessionsFormatError, StoredSession,
    CURRENT_VERSION,
};
use zeroize::Zeroizing;

type Session = StoredSession<Zeroizing<String>>;

fn error_of<T>(result: Result<T, SessionsFormatError>) -> SessionsFormatError {
    match result {
        Ok(_) => panic!("an error was expected"),
        Err(error) => error,
    }
}

fn serialized(id: &str, client_id: Option<&str>) -> SerializedSession<Zeroizing<String>> {
    SerializedSession {
        homeserver: "https://matrix.example.org/".to_owned(),
        user_id: "@alice:example.org".to_owned(),
        device_id: "ABCDEFGHIJ".to_owned(),
        id: id.to_owned(),
        client_id: client_id.map(|client_id| client_id.to_owned()),
        passphrase: "correct horse battery staple".to_owned().into(),
    }
}

fn session(id: &str, client_id: Option<&str>) -> Session {
    match StoredSession::try_from_serialized(serialized(id, client_id)) {
        Ok(session) => session,
        Err(error) => panic!("the test session should be valid: {error:?}"),
    }
}

#[test]
fn round_trip() {
    let sessions = vec![
        session("12345678", Some("client-id")),
        session("abcdefgh", None),
    ];
    let expected = vec![
        session("12345678", Some("client-id")),
        session("abcdefgh", None),
    ];

    let serialized = SerializedSessions::from_sessions(sessions);
    assert_eq!(serialized.version, CURRENT_VERSION);
    let decoded = serialized.into_sessions().unwrap();

    assert_eq!(decoded.len(), expected.len());

    for (decoded, session) in decoded.iter().zip(&expected) {
        assert_eq!(decoded.homeserver(), session.homeserver());
        assert_eq!(decoded.user_id(), session.user_id());
        assert_eq!(decoded.device_id(), session.device_id());
        assert_eq!(decoded.id(), session.id());
        assert_eq!(decoded.client_id(), session.client_id());
        assert_eq!(**decoded.passphrase(), **session.passphrase());
    }
}

#[test]
fn no_sessions() {
    let serialized = SerializedSessions::<Zeroizing<String>>::from_sessions(Vec::new());
    assert!(serialized.into_sessions().unwrap().is_empty());
}

#[test]
fn unsupported_version() {
    let sessions = SerializedSessions {
        version: CURRENT_VERSION + 1,
        sessions: vec![SerializedSession::from_stored(session("12345678", None))],
    };

    let error = error_of(sessions.into_sessions());
    assert!(matches!(error, SessionsFormatError::UnsupportedVersion(_)));
}

#[test]
fn invalid_field() {
    let mut serialized = SerializedSession::from_stored(session("12345678", None));
    serialized.user_id = "not a user ID".to_owned();

    let sessions = SerializedSessions {
        version: CURRENT_VERSION,
        sessions: vec![serialized],
    };

    let error = error_of(sessions.into_sessions());
    assert!(matches!(
        error,
        SessionsFormatError::InvalidField("user_id")
    ));
}

#[test]
fn unsupported_version_is_checked_before_the_fields() {
    let mut invalid = serialized("12345678", None);
    invalid.homeserver = "not a URL".to_owned();
    let sessions = SerializedSessions {
        version: 7,
        sessions: vec![invalid],
    };

    let error = error_of(sessions.into_sessions());
    assert!(matches!(error, SessionsFormatError::UnsupportedVersion(7)));
}

#[test]
fn older_version_is_read() {
    let sessions = SerializedSessions {
        version: 0,
        sessions: vec![serialized("12345678", None)],
    };

    let decoded = sessions.into_sessions().unwrap();
    assert_eq!(decoded.len(), 1);
    assert_eq!(decoded[0].id(), "12345678");
}

#[test]
fn invalid_homeserver_is_reported_first() {
    let mut invalid = serialized("12345678", None);
    invalid.homeserver = "matrix.example.org".to_owned();
    invalid.user_id = "not a user ID".to_owned();

    let error = error_of(StoredSession::try_from_serialized(invalid));
    assert!(matches!(error, SessionsFormatError::InvalidField("homeserver")));
}

#[test]
fn first_invalid_session_fails_the_restoration() {
    let mut second = serialized("abcdefgh", None);
    second.homeserver = "not a URL".to_owned();
    let mut third = serialized("ijklmnop", None);
    third.user_id = "alice".to_owned();
    let sessions = SerializedSessions {
        version: CURRENT_VERSION,
        sessions: vec![serialized("12345678", None), second, third],
    };

    let error = error_of(sessions.into_sessions());
    assert!(matches!(error, SessionsFormatError::InvalidField("homeserver")));
}

#[test]
fn homeserver_is_normalized() {
    let mut value = serialized("12345678", Some("client-id"));
    value.homeserver = "HTTPS://Matrix.Example.org".to_owned();

    let restored = StoredSession::try_from_serialized(value).unwrap();
    assert_eq!(restored.homeserver(), "https://matrix.example.org/");
    assert_eq!(restored.user_id(), "@alice:example.org");
    assert_eq!(restored.device_id(), "ABCDEFGHIJ");
    assert_eq!(restored.client_id(), Some("client-id"));
    assert_eq!(
        restored.passphrase().as_str(),
        "correct horse battery staple"
    );
}

#[test]
fn serialized_session_keeps_every_field() {
    let serialized = SerializedSession::from_stored(session("12345678", Some("client-id")));
    assert_eq!(serialized.homeserver, "https://matrix.example.org/");
    assert_eq!(serialized.user_id, "@alice:example.org");
    assert_eq!(serialized.device_id, "ABCDEFGHIJ");
    assert_eq!(serialized.id, "12345678");
    assert_eq!(serialized.client_id.as_deref(), Some("client-id"));
    assert_eq!(serialized.passphrase.as_str(), "correct horse battery staple");
}

#[test]
fn parsed_fields_decisions() {
    let error = error_of(parsed_fields(None, Some("@alice:example.org".to_owned())));
    assert!(matches!(error, SessionsFormatError::InvalidField("homeserver")));
    let error = error_of(parsed_fields(None, None));
    assert!(matches!(error, SessionsFormatError::InvalidField("homeserver")));
    let error = error_of(parsed_fields(Some("https://a.example/".to_owned()), None));
    assert!(matches!(error, SessionsFormatError::InvalidField("user_id")));
    let (homeserver, user_id) =
        parsed_fields(Some("https://a.example/".to_owned()), Some("@b:a.example".to_owned()))
            .unwrap();
    assert_eq!(homeserver, "https://a.example/");
    assert_eq!(user_id, "@b:a.example");
}

#[test]
fn format_error_messages() {
    assert_eq!(
        SessionsFormatError::UnsupportedVersion(2).message(),
        "Sessions were stored with the unsupported version 2"
    );
    assert_eq!(
        SessionsFormatError::UnsupportedVersion(0).message(),
        "Sessions were stored with the unsupported version 0"
    );
    assert_eq!(
        SessionsFormatError::UnsupportedVersion(10).message(),
        "Sessions were stored with the unsupported version 10"
    );
    assert_eq!(
        SessionsFormatError::UnsupportedVersion(109).message(),
        "Sessions were stored with the unsupported version 109"
    );
    assert_eq!(
        SessionsFormatError::UnsupportedVersion(255).message(),
        "Sessions were stored with the unsupported version 255"
    );
    assert_eq!(
        SessionsFormatError::InvalidField("user_id").message(),
        "Stored session has an invalid `user_id` field"
    );
}
