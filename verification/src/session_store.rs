//! The decisions of the secret backend that keeps all the sessions in a single
//! encrypted file.
//!
//! Storing and deleting a session both read the whole file, change the list
//! of sessions, and write it back; loading reads it. Reading, decrypting and
//! writing are done by the caller, which hands the outcome of the read to the
//! functions here and carries out what they decide.

use vstd::prelude::*;

use crate::keystore::{KeystoreError, has_substring};
use crate::session_data::{
    FormatProblem, SessionView, SessionsFormatError, StoredSession, decoded, encoded,
    lemma_decode_after_encode, stored_views, holdable,
};

verus! {

/// The name of the file that holds the encrypted sessions.
///
/// It sits next to the per-session directories, whose names are eight
/// alphanumeric characters, so the dot keeps it from ever colliding with one.
pub const SESSIONS_FILE: &'static str = "sessions.mpack";

/// The extension of the temporary file through which the sessions file is
/// written whole, so that a crash halfway cannot leave a truncated,
/// undecryptable file.
pub const SESSIONS_TEMP_EXTENSION: &'static str = "mpack.tmp";

/// An input/output error of the standard library.
#[verifier::external_type_specification]
#[verifier::external_body]
pub struct ExIoError(std::io::Error);

/// An error while reading or writing the sessions file.
#[derive(Debug)]
pub enum SessionStoreError {
    /// An input/output error.
    Io(std::io::Error),
    /// An error with the serialized form of the sessions.
    Format(SessionsFormatError),
    /// An error with the Android Keystore.
    Keystore(KeystoreError),
}

/// Why the stored sessions could not be produced.
#[derive(Debug)]
pub enum LoadError {
    /// There are no stored sessions.
    NoSessions,
    /// The stored sessions cannot be read and never will be, so they are lost.
    Unreadable(SessionStoreError),
    /// The stored sessions could not be read this time, but might be later, so
    /// the file must be kept.
    Retained(SessionStoreError),
    /// The stored sessions were written by a later version of Fractal.
    UnsupportedVersion(SessionsFormatError),
}

impl SessionStoreError {
    /// Whether `text` is the message of this error: the message of the error
    /// it carries.
    pub open spec fn is_message(&self, text: String) -> bool {
        match self {
            SessionStoreError::Io(error) => vstd::string::to_string_from_display_ensures::<
                std::io::Error,
            >(error, text),
            SessionStoreError::Format(error) => error.is_message(text),
            SessionStoreError::Keystore(error) => error.is_message(text),
        }
    }

    /// The message of this error.
    pub fn message(&self) -> (text: String)
        ensures
            self.is_message(text),
    {
        match self {
            SessionStoreError::Io(error) => error.to_string(),
            SessionStoreError::Format(error) => error.message(),
            SessionStoreError::Keystore(error) => error.message(),
        }
    }
}

impl LoadError {
    /// Whether `text` is the message of this error.
    pub open spec fn is_message(&self, text: String) -> bool {
        match self {
            LoadError::NoSessions => text@ == "there are no stored sessions"@,
            LoadError::Unreadable(error) | LoadError::Retained(error) => error.is_message(text),
            LoadError::UnsupportedVersion(error) => error.is_message(text),
        }
    }

    /// The message of this error.
    pub fn message(&self) -> (text: String)
        ensures
            self.is_message(text),
    {
        match self {
            LoadError::NoSessions => "there are no stored sessions".to_owned(),
            LoadError::Unreadable(error) | LoadError::Retained(error) => error.message(),
            LoadError::UnsupportedVersion(error) => error.message(),
        }
    }
}

/// How a failure to read the sessions file is handled.
///
/// `not_found` tells whether the file does not exist, which only means that no
/// session was ever stored.
pub fn file_read_failure(not_found: bool, error: std::io::Error) -> (load_error: LoadError)
    ensures
        not_found ==> load_error is NoSessions,
        !not_found ==> load_error == LoadError::Unreadable(SessionStoreError::Io(error)),
{
    if not_found {
        LoadError::NoSessions
    } else {
        LoadError::Unreadable(SessionStoreError::Io(error))
    }
}

/// How a failure to decrypt the sessions file is handled.
///
/// The system invalidates the key of Fractal when the user changes the security
/// of the device, and the file becomes undecryptable then: the sessions are
/// lost. A transient failure, such as the Keystore being momentarily
/// unavailable, must not lose them.
pub fn decrypt_failure(error: KeystoreError) -> (load_error: LoadError)
    ensures
        load_error == decrypt_outcome(error),
        (error is NoKey || error is MalformedCiphertext) ==> load_error == LoadError::Unreadable(
            SessionStoreError::Keystore(error),
        ),
        (error is NoJavaVm || error is Jni) ==> load_error == LoadError::Retained(
            SessionStoreError::Keystore(error),
        ),
        error matches KeystoreError::Java(message) ==> load_error == if has_substring(
            message@,
            "AEADBadTagException"@,
        ) || has_substring(message@, "KeyPermanentlyInvalidatedException"@) || has_substring(
            message@,
            "BadPaddingException"@,
        ) {
            LoadError::Unreadable(SessionStoreError::Keystore(error))
        } else {
            LoadError::Retained(SessionStoreError::Keystore(error))
        },
{
    if error.is_permanent() {
        LoadError::Unreadable(SessionStoreError::Keystore(error))
    } else {
        LoadError::Retained(SessionStoreError::Keystore(error))
    }
}

/// What a failure to decrypt the sessions file means: the sessions are lost
/// when the failure is permanent, and kept for a later attempt otherwise.
pub open spec fn decrypt_outcome(error: KeystoreError) -> LoadError {
    if error.permanent() {
        LoadError::Unreadable(SessionStoreError::Keystore(error))
    } else {
        LoadError::Retained(SessionStoreError::Keystore(error))
    }
}

/// How a failure to restore the decrypted sessions is handled.
///
/// Sessions written by a later version of Fractal are kept apart, since they
/// must never be overwritten; anything else cannot be read.
pub fn decode_failure(error: SessionsFormatError) -> (load_error: LoadError)
    ensures
        load_error == decode_outcome(error),
        error is UnsupportedVersion ==> load_error == LoadError::UnsupportedVersion(error),
        !(error is UnsupportedVersion) ==> load_error == LoadError::Unreadable(
            SessionStoreError::Format(error),
        ),
{
    match error {
        SessionsFormatError::UnsupportedVersion(_) => LoadError::UnsupportedVersion(error),
        _ => LoadError::Unreadable(SessionStoreError::Format(error)),
    }
}

/// What a failure to restore the decrypted sessions means: sessions of a
/// later version are kept apart, anything else is unreadable.
pub open spec fn decode_outcome(error: SessionsFormatError) -> LoadError {
    match error {
        SessionsFormatError::UnsupportedVersion(_) => LoadError::UnsupportedVersion(error),
        _ => LoadError::Unreadable(SessionStoreError::Format(error)),
    }
}

/// The given sessions without the ones whose local identifier is `id`, in
/// order.
pub open spec fn without_id<P>(sessions: Seq<SessionView<P>>, id: Seq<char>) -> Seq<SessionView<P>>
    decreases sessions.len(),
{
    if sessions.len() == 0 {
        Seq::<SessionView<P>>::empty()
    } else if sessions[0].id == id {
        without_id(sessions.drop_first(), id)
    } else {
        seq![sessions[0]] + without_id(sessions.drop_first(), id)
    }
}

/// Whether one of the given sessions has the local identifier `id`.
pub open spec fn has_id<P>(sessions: Seq<SessionView<P>>, id: Seq<char>) -> bool {
    exists|i: int| 0 <= i < sessions.len() && #[trigger] sessions[i].id == id
}

/// The sessions after `session` was stored among the given ones: any session
/// with the same local identifier is replaced, and the new one comes last.
pub open spec fn after_store<P>(sessions: Seq<SessionView<P>>, session: SessionView<P>) -> Seq<
    SessionView<P>,
> {
    without_id(sessions, session.id).push(session)
}

/// Whether no two of the given sessions have the same local identifier.
pub open spec fn unique_ids<P>(sessions: Seq<SessionView<P>>) -> bool {
    forall|i: int, j: int|
        0 <= i < sessions.len() && 0 <= j < sessions.len() && i != j ==> #[trigger] sessions[i].id
            != #[trigger] sessions[j].id
}

/// Keep the sessions whose local identifier is not `id`, in order.
fn retain_other_ids<P>(sessions: Vec<StoredSession<P>>, id: &String) -> (kept: Vec<StoredSession<P>>)
    ensures
        stored_views(kept@) == without_id(stored_views(sessions@), id@),
        forall|i: int| 0 <= i < kept@.len() ==> holdable(#[trigger] stored_views(kept@)[i]),
{
    let ghost all = stored_views(sessions@);
    let mut rest = sessions;
    let mut kept: Vec<StoredSession<P>> = Vec::new();
    let ghost mut done: int = 0;
    assert(all.skip(0) =~= all);
    assert(stored_views(kept@) + without_id(all, id@) =~= without_id(all, id@));
    while rest.len() > 0
        invariant
            0 <= done <= all.len(),
            rest@.len() == all.len() - done,
            stored_views(rest@) == all.skip(done),
            without_id(all, id@) == stored_views(kept@) + without_id(all.skip(done), id@),
            forall|i: int| 0 <= i < kept@.len() ==> holdable(#[trigger] stored_views(kept@)[i]),
        decreases rest@.len(),
    {
        let ghost tail = all.skip(done);
        assert(tail.drop_first() =~= all.skip(done + 1));
        let session = rest.remove(0);
        proof {
            use_type_invariant(&session);
        }
        assert(session@ == tail[0]);
        assert(stored_views(rest@) =~= all.skip(done + 1));
        let ghost before = stored_views(kept@);
        if *session.id_text() != *id {
            kept.push(session);
            assert(stored_views(kept@) =~= before.push(tail[0]));
            assert(forall|i: int| 0 <= i < before.len() ==> stored_views(kept@)[i] == before[i]);
            assert(before + (seq![tail[0]] + without_id(all.skip(done + 1), id@)) =~= before.push(
                tail[0],
            ) + without_id(all.skip(done + 1), id@));
        }
        proof {
            done = done + 1;
        }
    }
    assert(all.skip(done) =~= Seq::<SessionView<P>>::empty());
    assert(stored_views(kept@) + Seq::<SessionView<P>>::empty() =~= stored_views(kept@));
    kept
}

/// What is left to do once the stored sessions were loaded.
#[derive(Debug)]
pub enum AfterLoad {
    /// Nothing: the sessions were read, or there were none.
    Nothing,
    /// The stored sessions can no longer be read: the file and the key must be
    /// removed, so that nothing useless is left behind.
    ForgetEverything(SessionStoreError),
    /// The stored sessions were written by a later version of Fractal: the
    /// file must be kept untouched, or downgrading once would destroy them.
    KeepUnsupported(SessionsFormatError),
    /// The stored sessions could not be read this time: the file is kept for
    /// the next attempt.
    KeepRetained(SessionStoreError),
}

/// What is left to do when the stored sessions could not be produced.
pub open spec fn after_load(error: LoadError) -> AfterLoad {
    match error {
        LoadError::NoSessions => AfterLoad::Nothing,
        LoadError::Unreadable(cause) => AfterLoad::ForgetEverything(cause),
        LoadError::UnsupportedVersion(cause) => AfterLoad::KeepUnsupported(cause),
        LoadError::Retained(cause) => AfterLoad::KeepRetained(cause),
    }
}

/// The sessions to start with, given the outcome of reading the stored ones,
/// and what is left to do.
///
/// The sessions are empty if there are none or if the stored ones can no
/// longer be read. That is not an error the user can act on -- the sessions
/// are simply gone -- so it is treated like an empty store.
pub fn load_sessions<P>(stored: Result<Vec<StoredSession<P>>, LoadError>) -> (loaded: (
    Vec<StoredSession<P>>,
    AfterLoad,
))
    ensures
        match stored {
            Ok(sessions) => loaded.0@ == sessions@ && loaded.1 is Nothing,
            Err(error) => loaded.0@.len() == 0 && loaded.1 == after_load(error),
        },
        stored matches Err(LoadError::NoSessions) ==> loaded.1 is Nothing,
        stored matches Err(LoadError::Unreadable(cause)) ==> loaded.1 == AfterLoad::ForgetEverything(
            cause,
        ),
        stored matches Err(LoadError::UnsupportedVersion(cause)) ==> loaded.1
            == AfterLoad::KeepUnsupported(cause),
        stored matches Err(LoadError::Retained(cause)) ==> loaded.1 == AfterLoad::KeepRetained(
            cause,
        ),
{
    match stored {
        Ok(sessions) => (sessions, AfterLoad::Nothing),
        Err(LoadError::NoSessions) => (Vec::new(), AfterLoad::Nothing),
        Err(LoadError::Unreadable(cause)) => (Vec::new(), AfterLoad::ForgetEverything(cause)),
        Err(LoadError::UnsupportedVersion(cause)) => (
            Vec::new(),
            AfterLoad::KeepUnsupported(cause),
        ),
        Err(LoadError::Retained(cause)) => (Vec::new(), AfterLoad::KeepRetained(cause)),
    }
}

/// Whether a session cannot be stored when reading the stored ones failed this
/// way: the stored sessions were written by a newer Fractal, which must never
/// be overwritten, or the failure might be temporary, which must not lose the
/// sessions.
pub open spec fn store_refused(error: LoadError) -> bool {
    error is UnsupportedVersion || error is Retained
}

/// The sessions to write to store `session`, keeping every other session that
/// is already stored, given the outcome of reading the stored ones.
///
/// Any session with the same identifier is replaced, so that storing is
/// idempotent, then the new one is added. When the previous sessions cannot
/// be read, they are lost either way, so a fresh store is the best that can be
/// done -- except when they were written by a newer Fractal, which must never
/// be overwritten, or when the failure might be temporary, which must not lose
/// the sessions: then the error is returned and nothing must be written.
pub fn store_session_inner<P>(
    stored: Result<Vec<StoredSession<P>>, LoadError>,
    session: StoredSession<P>,
) -> (to_write: Result<Vec<StoredSession<P>>, LoadError>)
    ensures
        match stored {
            Ok(sessions) => to_write matches Ok(list) && stored_views(list@) == after_store(
                stored_views(sessions@),
                session@,
            ),
            Err(error) => if store_refused(error) {
                to_write == Err::<Vec<StoredSession<P>>, _>(error)
            } else {
                to_write matches Ok(list) && stored_views(list@) == seq![session@]
            },
        },
        to_write matches Ok(list) ==> decoded(encoded(stored_views(list@))) == Ok::<
            _,
            FormatProblem,
        >(stored_views(list@)),
        stored matches Err(error) ==> ((error is NoSessions || error is Unreadable) ==> (
        to_write matches Ok(list) && stored_views(list@) == seq![session@])),
        stored matches Err(error) ==> ((error is UnsupportedVersion || error is Retained) ==> (
        to_write == Err::<Vec<StoredSession<P>>, _>(error))),
{
    let sessions = match stored {
        Ok(sessions) => sessions,
        Err(LoadError::NoSessions) | Err(LoadError::Unreadable(_)) => Vec::new(),
        Err(error) => {
            return Err(error);
        },
    };
    let ghost previous = stored_views(sessions@);
    let mut sessions = retain_other_ids(sessions, session.id_text());
    let ghost kept = stored_views(sessions@);
    proof {
        use_type_invariant(&session);
    }
    sessions.push(session);
    assert(stored_views(sessions@) =~= kept.push(session@));
    proof {
        let written = stored_views(sessions@);
        assert forall|i: int| 0 <= i < written.len() implies holdable(#[trigger] written[i]) by {
            if i < kept.len() {
                assert(written[i] == kept[i]);
            }
        }
        lemma_decode_after_encode(written);
        if previous.len() == 0 {
            assert(without_id(previous, session@.id) =~= Seq::<SessionView<P>>::empty());
            assert(kept.push(session@) =~= seq![session@]);
        }
    }
    Ok(sessions)
}

/// What deleting a session does to the sessions file.
pub enum DeletePlan<P> {
    /// Nothing: the session was not stored, so there is nothing to write.
    Keep,
    /// The file cannot be read and never will be, so there is nothing to
    /// delete from and nothing worth keeping: the file and the key are removed.
    DiscardUnreadable(LoadError),
    /// The file cannot be read now -- it was written by a later version of
    /// Fractal, or the failure might be temporary -- so nothing can be deleted
    /// from it, but it must be kept: the failure is only reported.
    KeepAndReport(LoadError),
    /// No session is left: both the file and the key can go, which also
    /// guarantees a clean key the next time a session is stored.
    RemoveAll,
    /// These sessions, every other session, are written back.
    Write(Vec<StoredSession<P>>),
}

/// Whether deleting a session removes the sessions file when reading the
/// stored sessions failed this way: only when they can never be read again.
pub open spec fn delete_discards(error: LoadError) -> bool {
    error is Unreadable
}

/// What to do to delete the session with the given identifier, keeping every
/// other session, given the outcome of reading the stored ones.
pub fn delete_session_inner<P>(stored: Result<Vec<StoredSession<P>>, LoadError>, id: &str) -> (plan:
    DeletePlan<P>)
    ensures
        match stored {
            Ok(sessions) => {
                let remaining = without_id(stored_views(sessions@), id@);
                if !has_id(stored_views(sessions@), id@) {
                    plan is Keep
                } else if remaining.len() == 0 {
                    plan is RemoveAll
                } else {
                    plan matches DeletePlan::Write(list) && stored_views(list@) == remaining
                }
            },
            Err(error) => if error is NoSessions {
                plan is Keep
            } else if delete_discards(error) {
                plan == DeletePlan::<P>::DiscardUnreadable(error)
            } else {
                plan == DeletePlan::<P>::KeepAndReport(error)
            },
        },
        plan matches DeletePlan::Write(list) ==> decoded(encoded(stored_views(list@))) == Ok::<
            _,
            FormatProblem,
        >(stored_views(list@)),
        stored matches Err(error) ==> (error is NoSessions ==> plan is Keep),
        stored matches Err(error) ==> (error is Unreadable ==> (plan
            == DeletePlan::<P>::DiscardUnreadable(error))),
        stored matches Err(error) ==> ((error is UnsupportedVersion || error is Retained) ==> (plan
            == DeletePlan::<P>::KeepAndReport(error))),
{
    let sessions = match stored {
        Ok(sessions) => sessions,
        Err(LoadError::NoSessions) => {
            return DeletePlan::Keep;
        },
        Err(LoadError::Unreadable(cause)) => {
            return DeletePlan::DiscardUnreadable(LoadError::Unreadable(cause));
        },
        Err(error) => {
            return DeletePlan::KeepAndReport(error);
        },
    };
    let ghost previous = stored_views(sessions@);
    let before = sessions.len();
    let id = id.to_owned();
    let sessions = retain_other_ids(sessions, &id);
    proof {
        lemma_without_id_len(previous, id@);
    }
    if sessions.len() == before {
        return DeletePlan::Keep;
    }
    if sessions.len() == 0 {
        return DeletePlan::RemoveAll;
    }
    proof {
        lemma_decode_after_encode(stored_views(sessions@));
    }
    DeletePlan::Write(sessions)
}

/// Removing the sessions with an identifier removes something exactly when
/// one of them has that identifier.
pub proof fn lemma_without_id_len<P>(sessions: Seq<SessionView<P>>, id: Seq<char>)
    ensures
        without_id(sessions, id).len() <= sessions.len(),
        without_id(sessions, id).len() == sessions.len() <==> !has_id(sessions, id),
    decreases sessions.len(),
{
    if sessions.len() > 0 {
        let rest = sessions.drop_first();
        lemma_without_id_len(rest, id);
        if has_id(rest, id) {
            let i = choose|i: int| 0 <= i < rest.len() && #[trigger] rest[i].id == id;
            assert(sessions[i + 1].id == id);
        }
        if has_id(sessions, id) && sessions[0].id != id {
            let i = choose|i: int| 0 <= i < sessions.len() && #[trigger] sessions[i].id == id;
            assert(rest[i - 1].id == id);
        }
    }
}

/// Removing the sessions with an identifier from two lists one after the other
/// is removing them from each list.
proof fn lemma_without_id_concat<P>(first: Seq<SessionView<P>>, second: Seq<SessionView<P>>, id: Seq<char>)
    ensures
        without_id(first + second, id) == without_id(first, id) + without_id(second, id),
    decreases first.len(),
{
    if first.len() == 0 {
        assert(first + second =~= second);
        assert(Seq::<SessionView<P>>::empty() + without_id(second, id) =~= without_id(second, id));
    } else {
        assert((first + second).drop_first() =~= first.drop_first() + second);
        assert((first + second)[0] == first[0]);
        lemma_without_id_concat(first.drop_first(), second, id);
        if first[0].id != id {
            assert(seq![first[0]] + (without_id(first.drop_first(), id) + without_id(second, id))
                =~= (seq![first[0]] + without_id(first.drop_first(), id)) + without_id(
                second,
                id,
            ));
        }
    }
}

/// Every session left after removing the ones with an identifier is one of
/// the given sessions, and has another identifier.
proof fn lemma_without_id_members<P>(sessions: Seq<SessionView<P>>, id: Seq<char>)
    ensures
        forall|i: int|
            0 <= i < without_id(sessions, id).len() ==> (#[trigger] without_id(sessions, id)[i]).id
                != id && sessions.contains(without_id(sessions, id)[i]),
    decreases sessions.len(),
{
    if sessions.len() > 0 {
        let rest = sessions.drop_first();
        lemma_without_id_members(rest, id);
        let result = without_id(sessions, id);
        assert forall|i: int| 0 <= i < result.len() implies (#[trigger] result[i]).id != id
            && sessions.contains(result[i]) by {
            if sessions[0].id == id {
                assert(result[i] == without_id(rest, id)[i]);
                assert(rest.contains(result[i]));
                let j = choose|j: int| 0 <= j < rest.len() && rest[j] == result[i];
                assert(sessions[j + 1] == result[i]);
            } else if i == 0 {
                assert(sessions[0] == result[0]);
            } else {
                assert(result[i] == without_id(rest, id)[i - 1]);
                assert(rest.contains(without_id(rest, id)[i - 1]));
                let j = choose|j: int| 0 <= j < rest.len() && rest[j] == result[i];
                assert(sessions[j + 1] == result[i]);
            }
        }
    }
}

/// Removing the sessions with an identifier that no session has changes
/// nothing.
proof fn lemma_without_absent_id<P>(sessions: Seq<SessionView<P>>, id: Seq<char>)
    requires
        !has_id(sessions, id),
    ensures
        without_id(sessions, id) == sessions,
    decreases sessions.len(),
{
    if sessions.len() > 0 {
        let rest = sessions.drop_first();
        assert(sessions[0].id != id);
        assert forall|i: int| 0 <= i < rest.len() implies #[trigger] rest[i].id != id by {
            assert(sessions[i + 1].id != id);
        }
        lemma_without_absent_id(rest, id);
        assert(seq![sessions[0]] + rest =~= sessions);
    }
}

/// Deleting the sessions with an identifier leaves none with that identifier,
/// keeps every session with another identifier, and changes nothing when no
/// session had the identifier.
pub proof fn lemma_delete_removes_only_id<P>(sessions: Seq<SessionView<P>>, id: Seq<char>)
    ensures
        !has_id(without_id(sessions, id), id),
        forall|i: int|
            0 <= i < sessions.len() && #[trigger] sessions[i].id != id ==> without_id(
                sessions,
                id,
            ).contains(sessions[i]),
        !has_id(sessions, id) ==> without_id(sessions, id) == sessions,
    decreases sessions.len(),
{
    lemma_without_id_members(sessions, id);
    if !has_id(sessions, id) {
        lemma_without_absent_id(sessions, id);
    }
    if sessions.len() > 0 {
        let rest = sessions.drop_first();
        lemma_delete_removes_only_id(rest, id);
        let result = without_id(sessions, id);
        assert forall|i: int| 0 <= i < sessions.len() && #[trigger] sessions[i].id != id implies result.contains(
            sessions[i],
        ) by {
            if i == 0 {
                assert(result[0] == sessions[0]);
            } else {
                assert(sessions[i] == rest[i - 1]);
                let j = choose|j: int|
                    0 <= j < without_id(rest, id).len() && without_id(rest, id)[j] == rest[i - 1];
                if sessions[0].id == id {
                    assert(result[j] == sessions[i]);
                } else {
                    assert(result[j + 1] == sessions[i]);
                }
            }
        }
    }
}

/// Deleting a session twice is deleting it once.
pub proof fn lemma_delete_idempotent<P>(sessions: Seq<SessionView<P>>, id: Seq<char>)
    ensures
        without_id(without_id(sessions, id), id) == without_id(sessions, id),
{
    lemma_delete_removes_only_id(sessions, id);
    lemma_without_absent_id(without_id(sessions, id), id);
}

/// After a session is stored, it is the last of the stored sessions, and it is
/// the only one with its identifier.
pub proof fn lemma_store_replaces<P>(sessions: Seq<SessionView<P>>, session: SessionView<P>)
    ensures
        after_store(sessions, session).last() == session,
        forall|i: int|
            0 <= i < after_store(sessions, session).len() - 1 ==> #[trigger] after_store(
                sessions,
                session,
            )[i].id != session.id,
{
    lemma_without_id_members(sessions, session.id);
    let stored = after_store(sessions, session);
    assert forall|i: int| 0 <= i < stored.len() - 1 implies #[trigger] stored[i].id != session.id by {
        assert(stored[i] == without_id(sessions, session.id)[i]);
    }
}

/// Deleting a session right after storing it is deleting it alone: every other
/// session is kept as it was, in the same order.
pub proof fn lemma_delete_after_store<P>(sessions: Seq<SessionView<P>>, session: SessionView<P>)
    ensures
        without_id(after_store(sessions, session), session.id) == without_id(sessions, session.id),
{
    let id = session.id;
    let kept = without_id(sessions, id);
    lemma_without_id_concat(kept, seq![session], id);
    assert(kept + seq![session] =~= kept.push(session));
    assert(seq![session].drop_first() =~= Seq::<SessionView<P>>::empty());
    assert(without_id(Seq::<SessionView<P>>::empty(), id) =~= Seq::<SessionView<P>>::empty());
    assert(without_id(seq![session], id) =~= Seq::<SessionView<P>>::empty());
    lemma_delete_idempotent(sessions, id);
    assert(kept + Seq::<SessionView<P>>::empty() =~= kept);
}

/// Storing a session twice is storing it once.
pub proof fn lemma_store_idempotent<P>(sessions: Seq<SessionView<P>>, session: SessionView<P>)
    ensures
        after_store(after_store(sessions, session), session) == after_store(sessions, session),
{
    lemma_delete_after_store(sessions, session);
}

/// Removing sessions keeps the identifiers distinct.
proof fn lemma_without_id_unique<P>(sessions: Seq<SessionView<P>>, id: Seq<char>)
    requires
        unique_ids(sessions),
    ensures
        unique_ids(without_id(sessions, id)),
    decreases sessions.len(),
{
    if sessions.len() > 0 {
        let rest = sessions.drop_first();
        assert forall|i: int, j: int|
            0 <= i < rest.len() && 0 <= j < rest.len() && i != j implies #[trigger] rest[i].id
            != #[trigger] rest[j].id by {
            assert(rest[i] == sessions[i + 1] && rest[j] == sessions[j + 1]);
        }
        lemma_without_id_unique(rest, id);
        lemma_without_id_members(rest, id);
        let tail = without_id(rest, id);
        if sessions[0].id != id {
            let result = without_id(sessions, id);
            assert forall|i: int, j: int|
                0 <= i < result.len() && 0 <= j < result.len() && i != j implies #[trigger] result[i].id
                != #[trigger] result[j].id by {
                if i > 0 && j > 0 {
                    assert(result[i] == tail[i - 1] && result[j] == tail[j - 1]);
                } else {
                    let k = if i == 0 { j } else { i };
                    assert(result[k] == tail[k - 1]);
                    assert(rest.contains(without_id(rest, id)[k - 1]));
                    let m = choose|m: int| 0 <= m < rest.len() && rest[m] == tail[k - 1];
                    assert(sessions[m + 1] == rest[m]);
                    assert(sessions[0].id != sessions[m + 1].id);
                }
            }
        }
    }
}

/// Storing and deleting sessions keep the identifiers of the stored sessions
/// distinct.
pub proof fn lemma_unique_ids_kept<P>(sessions: Seq<SessionView<P>>, session: SessionView<P>, id: Seq<char>)
    requires
        unique_ids(sessions),
    ensures
        unique_ids(after_store(sessions, session)),
        unique_ids(without_id(sessions, id)),
{
    lemma_without_id_unique(sessions, id);
    lemma_without_id_unique(sessions, session.id);
    lemma_store_replaces(sessions, session);
    let stored = after_store(sessions, session);
    let kept = without_id(sessions, session.id);
    assert forall|i: int, j: int|
        0 <= i < stored.len() && 0 <= j < stored.len() && i != j implies #[trigger] stored[i].id
        != #[trigger] stored[j].id by {
        if i < stored.len() - 1 && j < stored.len() - 1 {
            assert(stored[i] == kept[i] && stored[j] == kept[j]);
        }
    }
}

/// What is read back after a session was stored is what was written: the
/// previously stored sessions without the one with the same identifier, then
/// the new one, whenever every session involved is one that the secret
/// backend can hold.
pub proof fn lemma_read_after_store<P>(sessions: Seq<SessionView<P>>, session: SessionView<P>)
    ensures
        (forall|i: int| 0 <= i < sessions.len() ==> holdable(#[trigger] sessions[i]))
            && holdable(session) ==> decoded(encoded(after_store(sessions, session))) == Ok::<
            _,
            FormatProblem,
        >(after_store(sessions, session)),
{
    if (forall|i: int| 0 <= i < sessions.len() ==> holdable(#[trigger] sessions[i]))
        && holdable(session) {
        let stored = after_store(sessions, session);
        let kept = without_id(sessions, session.id);
        lemma_without_id_members(sessions, session.id);
        assert forall|i: int| 0 <= i < stored.len() implies holdable(#[trigger] stored[i]) by {
            if i < stored.len() - 1 {
                assert(stored[i] == kept[i]);
                assert(sessions.contains(kept[i]));
            }
        }
        lemma_decode_after_encode(stored);
    }
}

/// Storing refuses to write exactly when the stored sessions were written by a
/// later version of Fractal or could not be read this time; when they are
/// absent or can never be read, whatever the cause, a fresh store is written.
pub proof fn lemma_store_refused_exactly(error: LoadError)
    ensures
        store_refused(error) <==> (error is UnsupportedVersion || error is Retained),
        error is NoSessions ==> !store_refused(error),
        error matches LoadError::Unreadable(cause) ==> !store_refused(error),
{
}

/// Deleting removes the sessions file on a failed read exactly when the
/// stored sessions can never be read, whatever made them unreadable.
pub proof fn lemma_delete_discards_exactly(error: LoadError)
    ensures
        delete_discards(error) <==> error is Unreadable,
        error matches LoadError::Unreadable(SessionStoreError::Io(_)) ==> delete_discards(error),
        error matches LoadError::Unreadable(SessionStoreError::Keystore(_)) ==> delete_discards(
            error,
        ),
        error matches LoadError::Unreadable(SessionStoreError::Format(_)) ==> delete_discards(
            error,
        ),
{
}

/// Loading removes the sessions file exactly when the stored sessions can
/// never be read, keeps it for sessions of a later version and for failures
/// that might not last, and does nothing when there are no sessions.
pub proof fn lemma_after_load_exactly(error: LoadError)
    ensures
        after_load(error) is ForgetEverything <==> error is Unreadable,
        after_load(error) is KeepUnsupported <==> error is UnsupportedVersion,
        after_load(error) is KeepRetained <==> error is Retained,
        after_load(error) is Nothing <==> error is NoSessions,
{
}

/// A failure to decrypt loses the sessions exactly when the key is missing,
/// the bytes are malformed, or the Java exception names
/// `AEADBadTagException`, `KeyPermanentlyInvalidatedException` or
/// `BadPaddingException`; any other failure keeps them.
pub proof fn lemma_decrypt_outcome_exactly(error: KeystoreError)
    ensures
        decrypt_outcome(error) is Unreadable || decrypt_outcome(error) is Retained,
        (error is NoKey || error is MalformedCiphertext) ==> decrypt_outcome(error) is Unreadable,
        (error is NoJavaVm || error is Jni) ==> decrypt_outcome(error) is Retained,
        error matches KeystoreError::Java(message) ==> (decrypt_outcome(error) is Unreadable <==> (
        has_substring(message@, "AEADBadTagException"@) || has_substring(
            message@,
            "KeyPermanentlyInvalidatedException"@,
        ) || has_substring(message@, "BadPaddingException"@))),
{
}

/// The stored sessions are kept when decrypting them fails for a reason that
/// might not last, and when they were written by a later version of Fractal:
/// loading and deleting leave the file alone and storing refuses to overwrite
/// it. When decrypting fails for good, loading and deleting remove the file
/// and storing starts afresh.
pub proof fn lemma_kept_unless_lost(error: KeystoreError, format_error: SessionsFormatError)
    ensures
        !error.permanent() ==> after_load(decrypt_outcome(error)) is KeepRetained && store_refused(
            decrypt_outcome(error),
        ) && !delete_discards(decrypt_outcome(error)),
        error.permanent() ==> after_load(decrypt_outcome(error)) is ForgetEverything
            && !store_refused(decrypt_outcome(error)) && delete_discards(decrypt_outcome(error)),
        format_error is UnsupportedVersion ==> after_load(decode_outcome(format_error)) is KeepUnsupported
            && store_refused(decode_outcome(format_error)) && !delete_discards(
            decode_outcome(format_error),
        ),
        !(format_error is UnsupportedVersion) ==> after_load(decode_outcome(format_error)) is ForgetEverything
            && !store_refused(decode_outcome(format_error)) && delete_discards(
            decode_outcome(format_error),
        ),
{
}

} // verus!
