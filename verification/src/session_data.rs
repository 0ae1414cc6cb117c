//! The stored form of the sessions of a secret backend that stores them all in
//! a single blob.
//!
//! A backend that has only a key at its disposal -- the Android Keystore --
//! has to serialize everything itself. The sessions are turned into
//! [`SerializedSessions`], whose fields are the strings that the identifiers
//! are, so that the stored format does not follow the types of the Matrix
//! SDK; that value is what gets written as MessagePack. Reading goes the
//! other way, and checks the version and every field on the way.

use vstd::prelude::*;
use vstd::string::StringExecFns;

verus! {

/// A failure to decode MessagePack, as reported by `rmp_serde`.
#[verifier::external_type_specification]
#[verifier::external_body]
pub struct ExDecodeError(rmp_serde::decode::Error);

/// A failure to encode MessagePack, as reported by `rmp_serde`.
#[verifier::external_type_specification]
#[verifier::external_body]
pub struct ExEncodeError(rmp_serde::encode::Error);

/// The version of the format written by this version of Fractal.
pub const CURRENT_VERSION: u8 = 1;

/// The fields of a session, as text.
pub struct SessionView<P> {
    /// The URL of the homeserver where the account lives.
    pub homeserver: Seq<char>,
    /// The unique identifier of the user.
    pub user_id: Seq<char>,
    /// The unique identifier of the session on the homeserver.
    pub device_id: Seq<char>,
    /// The unique local identifier of the session.
    pub id: Seq<char>,
    /// The unique identifier of the client with the homeserver.
    pub client_id: Option<Seq<char>>,
    /// The passphrase used to encrypt the local databases.
    pub passphrase: P,
}

/// The text of an optional string.
pub open spec fn optional_text(value: Option<String>) -> Option<Seq<char>> {
    match value {
        Some(text) => Some(text@),
        None => None,
    }
}

/// The data of a session, as the secret backend stores and restores it.
///
/// The homeserver is held as the serialization of its URL and the user as
/// the text of its Matrix user ID. A session is only ever made from a
/// serialized session whose homeserver is a URL and whose user ID is valid,
/// and its type invariant records that it is read back unchanged once
/// written. The passphrase is of the type `P` that the caller chooses, such
/// as a string that is overwritten with zeros when it is dropped.
pub struct StoredSession<P> {
    /// The URL of the homeserver where the account lives.
    pub(crate) homeserver: String,
    /// The unique identifier of the user.
    pub(crate) user_id: String,
    /// The unique identifier of the session on the homeserver.
    pub(crate) device_id: String,
    /// The unique local identifier of the session.
    pub(crate) id: String,
    /// The unique identifier of the client with the homeserver.
    pub(crate) client_id: Option<String>,
    /// The passphrase used to encrypt the local databases.
    pub(crate) passphrase: P,
}

impl<P> View for StoredSession<P> {
    type V = SessionView<P>;

    closed spec fn view(&self) -> SessionView<P> {
        SessionView {
            homeserver: self.homeserver@,
            user_id: self.user_id@,
            device_id: self.device_id@,
            id: self.id@,
            client_id: optional_text(self.client_id),
            passphrase: self.passphrase,
        }
    }
}

/// Whether the given session is one that the secret backend can hold: its
/// homeserver is the serialization of a URL, which parses back to itself, and
/// its user ID is valid. Such a session is read back unchanged once written.
pub open spec fn holdable<P>(session: SessionView<P>) -> bool {
    &&& stable_homeserver(session.homeserver)
    &&& user_id_accepted(session.user_id)
}

impl<P> StoredSession<P> {
    /// Every session is one that the secret backend can hold.
    #[verifier::type_invariant]
    pub(crate) open spec fn type_holdable(self) -> bool {
        holdable(self@)
    }

    /// The URL of the homeserver where the account lives.
    pub fn homeserver(&self) -> (homeserver: &str)
        ensures
            homeserver@ == self@.homeserver,
    {
        self.homeserver.as_str()
    }

    /// The unique identifier of the user.
    pub fn user_id(&self) -> (user_id: &str)
        ensures
            user_id@ == self@.user_id,
    {
        self.user_id.as_str()
    }

    /// The unique identifier of the session on the homeserver.
    pub fn device_id(&self) -> (device_id: &str)
        ensures
            device_id@ == self@.device_id,
    {
        self.device_id.as_str()
    }

    /// The unique local identifier of the session.
    pub fn id(&self) -> (id: &str)
        ensures
            id@ == self@.id,
    {
        self.id.as_str()
    }

    /// The unique local identifier of the session, as a string.
    pub(crate) fn id_text(&self) -> (id: &String)
        ensures
            id@ == self@.id,
    {
        &self.id
    }

    /// The unique identifier of the client with the homeserver.
    pub fn client_id(&self) -> (client_id: Option<&str>)
        ensures
            match client_id {
                Some(text) => self@.client_id == Some(text@),
                None => self@.client_id is None,
            },
    {
        match &self.client_id {
            Some(text) => Some(text.as_str()),
            None => None,
        }
    }

    /// The passphrase used to encrypt the local databases.
    pub fn passphrase(&self) -> (passphrase: &P)
        ensures
            *passphrase == self@.passphrase,
    {
        &self.passphrase
    }
}

/// A single session, as it is serialized.
///
/// The identifiers are stored as the strings they are rather than as the types
/// of the Matrix SDK, so that the stored format does not follow the types.
pub struct SerializedSession<P> {
    /// The URL of the homeserver where the account lives.
    pub homeserver: String,
    /// The unique identifier of the user.
    pub user_id: String,
    /// The unique identifier of the session on the homeserver.
    pub device_id: String,
    /// The unique local identifier of the session.
    pub id: String,
    /// The unique identifier of the client with the homeserver.
    pub client_id: Option<String>,
    /// The passphrase used to encrypt the local databases.
    pub passphrase: P,
}

impl<P> View for SerializedSession<P> {
    type V = SessionView<P>;

    open spec fn view(&self) -> SessionView<P> {
        SessionView {
            homeserver: self.homeserver@,
            user_id: self.user_id@,
            device_id: self.device_id@,
            id: self.id@,
            client_id: optional_text(self.client_id),
            passphrase: self.passphrase,
        }
    }
}

/// All the sessions of a secret backend, as they are serialized.
///
/// The version is the first field so that a format written by a later version
/// of Fractal is recognized before anything else is interpreted.
pub struct SerializedSessions<P> {
    /// The version of the format.
    pub version: u8,
    /// The sessions.
    pub sessions: Vec<SerializedSession<P>>,
}

/// The content of [`SerializedSessions`].
pub struct SerializedSessionsView<P> {
    /// The version of the format.
    pub version: u8,
    /// The sessions.
    pub sessions: Seq<SessionView<P>>,
}

/// The views of the given serialized sessions.
pub open spec fn serialized_views<P>(sessions: Seq<SerializedSession<P>>) -> Seq<SessionView<P>> {
    sessions.map_values(|session: SerializedSession<P>| session@)
}

/// The views of the given stored sessions.
pub open spec fn stored_views<P>(sessions: Seq<StoredSession<P>>) -> Seq<SessionView<P>> {
    sessions.map_values(|session: StoredSession<P>| session@)
}

impl<P> View for SerializedSessions<P> {
    type V = SerializedSessionsView<P>;

    open spec fn view(&self) -> SerializedSessionsView<P> {
        SerializedSessionsView { version: self.version, sessions: serialized_views(self.sessions@) }
    }
}

/// All errors that can occur when serializing or deserializing sessions.
#[derive(Debug)]
pub enum SessionsFormatError {
    /// The sessions were written by a later version of Fractal.
    UnsupportedVersion(u8),
    /// A field of a session, whose name this is, does not have the expected
    /// form.
    InvalidField(&'static str),
    /// An error occurred when decoding the sessions.
    Decode(rmp_serde::decode::Error),
    /// An error occurred when encoding the sessions.
    Encode(rmp_serde::encode::Error),
}

/// Why serialized sessions cannot be restored.
pub enum FormatProblem {
    /// The sessions were written by the later version of the format given.
    UnsupportedVersion(u8),
    /// A field of a session, whose name this is, does not have the expected
    /// form.
    InvalidField(Seq<char>),
}

impl SessionsFormatError {
    /// The problem with the serialized sessions that this error reports, if it
    /// reports one.
    pub open spec fn problem(self) -> Option<FormatProblem> {
        match self {
            SessionsFormatError::UnsupportedVersion(version) => Some(
                FormatProblem::UnsupportedVersion(version),
            ),
            SessionsFormatError::InvalidField(field) => Some(FormatProblem::InvalidField(field@)),
            SessionsFormatError::Decode(_) | SessionsFormatError::Encode(_) => None,
        }
    }
}

/// The decimal digit `digit` as text.
pub open spec fn digit_text(digit: nat) -> Seq<char> {
    if digit == 0 {
        "0"@
    } else if digit == 1 {
        "1"@
    } else if digit == 2 {
        "2"@
    } else if digit == 3 {
        "3"@
    } else if digit == 4 {
        "4"@
    } else if digit == 5 {
        "5"@
    } else if digit == 6 {
        "6"@
    } else if digit == 7 {
        "7"@
    } else if digit == 8 {
        "8"@
    } else {
        "9"@
    }
}

/// The decimal notation of `value`, without leading zeros.
pub open spec fn decimal(value: nat) -> Seq<char>
    decreases value,
{
    if value < 10 {
        digit_text(value)
    } else {
        decimal(value / 10) + digit_text(value % 10)
    }
}

/// Append the decimal digit `digit` to `text`.
fn append_digit(text: &mut String, digit: u8)
    requires
        digit < 10,
    ensures
        final(text)@ == old(text)@ + digit_text(digit as nat),
{
    if digit == 0 {
        text.append("0");
    } else if digit == 1 {
        text.append("1");
    } else if digit == 2 {
        text.append("2");
    } else if digit == 3 {
        text.append("3");
    } else if digit == 4 {
        text.append("4");
    } else if digit == 5 {
        text.append("5");
    } else if digit == 6 {
        text.append("6");
    } else if digit == 7 {
        text.append("7");
    } else if digit == 8 {
        text.append("8");
    } else {
        text.append("9");
    }
}

/// Append the decimal notation of `value` to `text`.
fn append_decimal(text: &mut String, value: u8)
    ensures
        final(text)@ == old(text)@ + decimal(value as nat),
{
    let ghost start = text@;
    if value >= 100 {
        append_digit(text, value / 100);
        append_digit(text, value / 10 % 10);
        append_digit(text, value % 10);
        assert(decimal(value as nat / 100) == digit_text(value as nat / 100));
        assert(value as nat / 10 / 10 == value as nat / 100);
        assert(decimal(value as nat / 10) == decimal(value as nat / 10 / 10) + digit_text(
            value as nat / 10 % 10,
        ));
        assert(text@ =~= start + decimal(value as nat));
    } else if value >= 10 {
        append_digit(text, value / 10);
        append_digit(text, value % 10);
        assert(decimal(value as nat / 10) == digit_text(value as nat / 10));
        assert(text@ =~= start + decimal(value as nat));
    } else {
        append_digit(text, value);
    }
}

impl SessionsFormatError {
    /// Whether `text` is the message of this error.
    ///
    /// An error of `rmp_serde` reads as `rmp_serde` displays it.
    pub open spec fn is_message(&self, text: String) -> bool {
        match self {
            SessionsFormatError::UnsupportedVersion(version) => text@
                == "Sessions were stored with the unsupported version "@ + decimal(*version as nat),
            SessionsFormatError::InvalidField(field) => text@ == "Stored session has an invalid `"@
                + field@ + "` field"@,
            SessionsFormatError::Decode(error) => vstd::string::to_string_from_display_ensures::<
                rmp_serde::decode::Error,
            >(error, text),
            SessionsFormatError::Encode(error) => vstd::string::to_string_from_display_ensures::<
                rmp_serde::encode::Error,
            >(error, text),
        }
    }

    /// The message of this error.
    pub fn message(&self) -> (text: String)
        ensures
            self.is_message(text),
    {
        match self {
            SessionsFormatError::UnsupportedVersion(version) => {
                let mut text = "Sessions were stored with the unsupported version ".to_owned();
                append_decimal(&mut text, *version);
                text
            },
            SessionsFormatError::InvalidField(field) => {
                let mut text = "Stored session has an invalid `".to_owned();
                text.append(field);
                text.append("` field");
                text
            },
            SessionsFormatError::Decode(error) => error.to_string(),
            SessionsFormatError::Encode(error) => error.to_string(),
        }
    }
}

/// The serialization of the URL that `Url::parse` of the `url` crate parses
/// from the given text, or `None` when the text is not an absolute URL.
pub uninterp spec fn url_serialization(input: Seq<char>) -> Option<Seq<char>>;

/// `url::Url::parse`, followed by the conversion of the parsed URL into its
/// serialization (`From<Url> for String`, which hands out the serialization
/// that the URL holds).
///
/// The contract names the result: what `Url::parse` accepts and how it
/// normalizes is the URL Standard, and it depends on the input alone. It
/// also states that the serialization parses back to itself, one of the
/// invariants that the methods of `Url` assume and that the crate's own
/// invariant check asserts.
#[verifier::external_body]
fn parse_url(input: &str) -> (serialization: Option<String>)
    ensures
        optional_text(serialization) == url_serialization(input@),
        serialization matches Some(text) ==> url_serialization(text@) == Some(text@),
{
    match url::Url::parse(input) {
        Ok(url) => Some(String::from(url)),
        Err(_) => None,
    }
}

/// Whether `UserId::parse` of `ruma` accepts the given text as a Matrix user
/// ID.
pub uninterp spec fn user_id_accepted(input: Seq<char>) -> bool;

/// `ruma::UserId::parse`, followed by the conversion of the parsed user ID
/// into its text (`From<&UserId> for String`).
///
/// `UserId::parse` runs the validation of user IDs and, when it passes, keeps
/// the text it was given unchanged, which is what the contract states; which
/// texts pass the validation is named, not stated.
#[verifier::external_body]
fn parse_user_id(input: &str) -> (user_id: Option<String>)
    ensures
        user_id is Some == user_id_accepted(input@),
        user_id matches Some(text) ==> text@ == input@,
{
    match ruma::UserId::parse(input) {
        Ok(user_id) => Some(String::from(&*user_id)),
        Err(_) => None,
    }
}

/// The name of the first field of the given session that does not have the
/// expected form, if any.
pub open spec fn invalid_field<P>(session: SessionView<P>) -> Option<Seq<char>> {
    if url_serialization(session.homeserver) is None {
        Some("homeserver"@)
    } else if !user_id_accepted(session.user_id) {
        Some("user_id"@)
    } else {
        None
    }
}

/// The session restored from the given serialized session, when it has no
/// invalid field: the homeserver is normalized to the serialization of its
/// URL, every other field is kept as it is.
pub open spec fn restored<P>(session: SessionView<P>) -> SessionView<P> {
    SessionView {
        homeserver: url_serialization(session.homeserver).unwrap(),
        user_id: session.user_id,
        device_id: session.device_id,
        id: session.id,
        client_id: session.client_id,
        passphrase: session.passphrase,
    }
}

/// The name of the first invalid field of the first session that has one.
pub open spec fn first_invalid_field<P>(sessions: Seq<SessionView<P>>) -> Option<Seq<char>>
    decreases sessions.len(),
{
    if sessions.len() == 0 {
        None
    } else {
        match invalid_field(sessions[0]) {
            Some(field) => Some(field),
            None => first_invalid_field(sessions.drop_first()),
        }
    }
}

/// What restoring the given serialized sessions gives: the restored sessions,
/// in order, or the first problem found.
///
/// The version is checked before anything else.
pub open spec fn decoded<P>(serialized: SerializedSessionsView<P>) -> Result<
    Seq<SessionView<P>>,
    FormatProblem,
> {
    if serialized.version > CURRENT_VERSION {
        Err(FormatProblem::UnsupportedVersion(serialized.version))
    } else {
        match first_invalid_field(serialized.sessions) {
            Some(field) => Err(FormatProblem::InvalidField(field)),
            None => Ok(serialized.sessions.map_values(|session: SessionView<P>| restored(session))),
        }
    }
}

/// What serializing the given sessions gives.
pub open spec fn encoded<P>(sessions: Seq<SessionView<P>>) -> SerializedSessionsView<P> {
    SerializedSessionsView { version: CURRENT_VERSION, sessions }
}

/// Whether the given homeserver is the serialization of a URL that
/// `Url::parse` parses back to itself.
pub open spec fn stable_homeserver(homeserver: Seq<char>) -> bool {
    url_serialization(homeserver) == Some(homeserver)
}

/// The homeserver and the user ID of a session, given what parsing them gave:
/// the serialization of the homeserver's URL, if it is a URL, and the user ID,
/// if it is valid.
///
/// The homeserver is checked first.
pub fn parsed_fields(homeserver: Option<String>, user_id: Option<String>) -> (res: Result<
    (String, String),
    SessionsFormatError,
>)
    ensures
        match (homeserver, user_id) {
            (None, _) => res matches Err(error) && error.problem() == Some(
                FormatProblem::InvalidField("homeserver"@),
            ),
            (Some(_), None) => res matches Err(error) && error.problem() == Some(
                FormatProblem::InvalidField("user_id"@),
            ),
            (Some(homeserver), Some(user_id)) => res == Ok::<_, SessionsFormatError>(
                (homeserver, user_id),
            ),
        },
{
    match (homeserver, user_id) {
        (None, _) => Err(SessionsFormatError::InvalidField("homeserver")),
        (Some(_), None) => Err(SessionsFormatError::InvalidField("user_id")),
        (Some(homeserver), Some(user_id)) => Ok((homeserver, user_id)),
    }
}

impl<P> SerializedSession<P> {
    /// The serialized form of the given session.
    pub fn from_stored(value: StoredSession<P>) -> (serialized: SerializedSession<P>)
        ensures
            serialized@ == value@,
    {
        SerializedSession {
            homeserver: value.homeserver,
            user_id: value.user_id,
            device_id: value.device_id,
            id: value.id,
            client_id: value.client_id,
            passphrase: value.passphrase,
        }
    }
}

impl<P> StoredSession<P> {
    /// Restore the session from its serialized form, checking that the
    /// homeserver is a URL and that the user ID is valid.
    pub fn try_from_serialized(value: SerializedSession<P>) -> (res: Result<
        StoredSession<P>,
        SessionsFormatError,
    >)
        ensures
            match res {
                Ok(stored) => invalid_field(value@) is None && stored@ == restored(value@),
                Err(error) => invalid_field(value@) matches Some(field) && error.problem() == Some(
                    FormatProblem::InvalidField(field),
                ),
            },
    {
        let homeserver = parse_url(value.homeserver.as_str());
        let user_id = parse_user_id(value.user_id.as_str());
        let (homeserver, user_id) = match parsed_fields(homeserver, user_id) {
            Ok(fields) => fields,
            Err(error) => {
                return Err(error);
            },
        };
        assert(url_serialization(homeserver@) == Some(homeserver@));
        Ok(StoredSession {
            homeserver,
            user_id,
            device_id: value.device_id,
            id: value.id,
            client_id: value.client_id,
            passphrase: value.passphrase,
        })
    }
}

impl<P> SerializedSessions<P> {
    /// The serialized form of the given sessions, in the current version of
    /// the format.
    ///
    /// Restoring the result gives back the sessions.
    pub fn from_sessions(sessions: Vec<StoredSession<P>>) -> (serialized: SerializedSessions<P>)
        ensures
            serialized@ == encoded(stored_views(sessions@)),
            decoded(serialized@) == Ok::<_, FormatProblem>(stored_views(sessions@)),
    {
        let ghost all = sessions@;
        let mut rest = sessions;
        let mut out: Vec<SerializedSession<P>> = Vec::new();
        while rest.len() > 0
            invariant
                all.len() == out@.len() + rest@.len(),
                rest@ == all.skip(out@.len() as int),
                serialized_views(out@) == stored_views(all.take(out@.len() as int)),
                forall|j: int| 0 <= j < out@.len() ==> holdable(#[trigger] stored_views(all)[j]),
            decreases rest@.len(),
        {
            let ghost k = out@.len() as int;
            let session = rest.remove(0);
            proof {
                use_type_invariant(&session);
            }
            assert(session == all[k]);
            assert(stored_views(all)[k] == session@);
            let ghost before = out@;
            out.push(SerializedSession::from_stored(session));
            assert(rest@ =~= all.skip(k + 1));
            assert forall|i: int| 0 <= i < k + 1 implies #[trigger] serialized_views(out@)[i]
                == stored_views(all.take(k + 1))[i] by {
                if i < k {
                    assert(serialized_views(before)[i] == stored_views(all.take(k))[i]);
                }
            }
            assert(serialized_views(out@) =~= stored_views(all.take(k + 1)));
        }
        assert(all.take(all.len() as int) =~= all);
        proof {
            lemma_decode_after_encode(stored_views(all));
        }
        SerializedSessions { version: CURRENT_VERSION, sessions: out }
    }

    /// Restore the sessions from their serialized form.
    ///
    /// Sessions written by a later version of Fractal are refused before
    /// anything else is looked at; otherwise the first session with an
    /// invalid field makes the whole restoration fail.
    #[verifier::loop_isolation(false)]
    pub fn into_sessions(self) -> (res: Result<Vec<StoredSession<P>>, SessionsFormatError>)
        ensures
            res is Ok == decoded(self@) is Ok,
            res matches Ok(sessions) ==> decoded(self@) == Ok::<_, FormatProblem>(
                stored_views(sessions@),
            ),
            res matches Err(error) ==> decoded(self@) is Err && error.problem() == Some(
                decoded(self@)->Err_0,
            ),
    {
        if self.version > CURRENT_VERSION {
            // The sessions were written by a later version of Fractal. They
            // cannot be interpreted, and must not be overwritten either, or
            // downgrading once would log the user out for good.
            return Err(SessionsFormatError::UnsupportedVersion(self.version));
        }
        let ghost original = self@;
        let ghost all = serialized_views(self.sessions@);
        let mut rest = self.sessions;
        let mut out: Vec<StoredSession<P>> = Vec::new();
        assert(all.skip(0) =~= all);
        assert(all.take(0) =~= Seq::<SessionView<P>>::empty());
        while rest.len() > 0
            invariant
                all.len() == out@.len() + rest@.len(),
                serialized_views(rest@) == all.skip(out@.len() as int),
                first_invalid_field(all) == first_invalid_field(all.skip(out@.len() as int)),
                stored_views(out@) == all.take(out@.len() as int).map_values(
                    |session: SessionView<P>| restored(session),
                ),
            decreases rest@.len(),
        {
            let ghost k = out@.len() as int;
            let ghost rest_views = all.skip(k);
            assert(rest_views.drop_first() =~= all.skip(k + 1));
            let serialized = rest.remove(0);
            assert(serialized@ == all[k]);
            assert(rest_views[0] == all[k]);
            assert(serialized_views(rest@) =~= all.skip(k + 1));
            match StoredSession::try_from_serialized(serialized) {
                Ok(stored) => {
                    let ghost before = out@;
                    out.push(stored);
                    assert forall|i: int| 0 <= i < k + 1 implies #[trigger] stored_views(out@)[i]
                        == all.take(k + 1).map_values(|session: SessionView<P>| restored(session))[i] by {
                        if i < k {
                            assert(stored_views(before)[i] == all.take(k).map_values(
                                |session: SessionView<P>| restored(session),
                            )[i]);
                        }
                    }
                    assert(stored_views(out@) =~= all.take(k + 1).map_values(
                        |session: SessionView<P>| restored(session),
                    ));
                },
                Err(error) => {
                    assert(first_invalid_field(rest_views) == invalid_field(rest_views[0]));
                    assert(original.sessions == all);
                    assert(decoded(original) == Err::<Seq<SessionView<P>>, _>(
                        FormatProblem::InvalidField(invalid_field(all[k]).unwrap()),
                    ));
                    return Err(error);
                },
            }
        }
        assert(all.take(all.len() as int) =~= all);
        assert(all.skip(all.len() as int) =~= Seq::<SessionView<P>>::empty());
        Ok(out)
    }
}

/// Restoring serialized sessions gives back the sessions that were
/// serialized, whenever every one of them is a session that the secret
/// backend can hold.
pub proof fn lemma_decode_after_encode<P>(sessions: Seq<SessionView<P>>)
    ensures
        (forall|i: int| 0 <= i < sessions.len() ==> holdable(#[trigger] sessions[i]))
            ==> decoded(encoded(sessions)) == Ok::<_, FormatProblem>(sessions),
    decreases sessions.len(),
{
    if forall|i: int| 0 <= i < sessions.len() ==> holdable(#[trigger] sessions[i]) {
        if sessions.len() > 0 {
            let rest = sessions.drop_first();
            assert(holdable(sessions[0]));
            assert forall|i: int| 0 <= i < rest.len() implies holdable(#[trigger] rest[i]) by {
                assert(rest[i] == sessions[i + 1]);
            }
            lemma_decode_after_encode(rest);
        }
        assert(first_invalid_field(sessions) is None);
        assert(sessions.map_values(|session: SessionView<P>| restored(session)) =~= sessions);
    }
}

/// Sessions written by a later version of the format are refused as such,
/// whatever they hold.
pub proof fn lemma_later_version_refused<P>(serialized: SerializedSessionsView<P>)
    ensures
        serialized.version > CURRENT_VERSION <==> decoded(serialized)
            == Err::<Seq<SessionView<P>>, _>(FormatProblem::UnsupportedVersion(serialized.version)),
{
}

} // verus!
