//! The parts of the encryption of the sessions with the Android Keystore that
//! do not talk to the Java virtual machine: the layout of the encrypted bytes,
//! the classification of the failures, and how a failed sequence of JNI calls
//! is reported.

use vstd::prelude::*;
use vstd::string::StringExecFns;

verus! {

/// A failure of a JNI call, as reported by the `jni` crate.
#[verifier::external_type_specification]
#[verifier::external_body]
pub struct ExJniError(jni::errors::Error);

/// The version of the layout of the encrypted bytes.
pub const FORMAT_VERSION: u8 = 1;

/// All errors that can occur when using the Android Keystore.
#[derive(Debug)]
pub enum KeystoreError {
    /// The Java virtual machine of the application is not available.
    NoJavaVm,
    /// The encryption key of Fractal is not in the Android Keystore.
    ///
    /// The system removes it when the user disables the screen lock or enrolls
    /// a new biometric, and it is also gone after the data of the application
    /// was cleared.
    NoKey,
    /// The stored bytes do not have the layout of encrypted sessions.
    MalformedCiphertext,
    /// A Java exception was raised, described by this message.
    Java(String),
    /// A JNI call failed.
    Jni(jni::errors::Error),
}

/// An error that interrupted a sequence of JNI calls.
///
/// A failure of the Keystore that is not a JNI failure travels the same way as
/// a JNI failure.
#[derive(Debug)]
pub enum JavaError {
    /// A JNI call failed.
    Jni(jni::errors::Error),
    /// The Keystore is not in the expected state.
    Keystore(KeystoreError),
}

/// Whether `pattern` occurs in `text` as a contiguous run of characters.
pub open spec fn has_substring(text: Seq<char>, pattern: Seq<char>) -> bool {
    exists|start: int|
        0 <= start && start + pattern.len() <= text.len() && #[trigger] text.subrange(
            start,
            start + pattern.len(),
        ) == pattern
}

/// `str::contains` with a string pattern.
///
/// Its documentation states that it returns whether the pattern matches a
/// sub-slice of the string; a sub-slice of valid UTF-8 is a run of whole
/// characters, which is what the contract states.
#[verifier::external_body]
fn str_contains(text: &str, pattern: &str) -> (found: bool)
    ensures
        found == has_substring(text@, pattern@),
{
    text.contains(pattern)
}

/// Whether a Java exception with this description means that the stored
/// sessions can never be decrypted again.
///
/// `AEADBadTagException` is raised for a file that does not match the key,
/// `KeyPermanentlyInvalidatedException` for a key that the system dropped, and
/// `BadPaddingException` by some versions of the platform for the former.
pub open spec fn is_permanent_java_failure(message: Seq<char>) -> bool {
    ||| has_substring(message, "AEADBadTagException"@)
    ||| has_substring(message, "KeyPermanentlyInvalidatedException"@)
    ||| has_substring(message, "BadPaddingException"@)
}

/// The encrypted bytes: the version of the layout, the length of the
/// initialization vector, the initialization vector, then the ciphertext.
pub open spec fn framed(iv: Seq<u8>, ciphertext: Seq<u8>) -> Seq<u8> {
    seq![FORMAT_VERSION, iv.len() as u8] + iv + ciphertext
}

/// The initialization vector and the ciphertext held by the given encrypted
/// bytes, or `None` when they do not have the layout of [`framed`].
pub open spec fn unframed(bytes: Seq<u8>) -> Option<(Seq<u8>, Seq<u8>)> {
    if bytes.len() >= 2 && bytes[0] == FORMAT_VERSION && bytes[1] + 2 <= bytes.len() {
        let end = bytes[1] + 2;
        Some((bytes.subrange(2, end), bytes.subrange(end, bytes.len() as int)))
    } else {
        None
    }
}

/// Lay out the initialization vector and the ciphertext produced by the
/// Keystore as the bytes to store.
///
/// The initialization vector that the system chose is part of the result, and
/// its length must fit in the byte that announces it.
pub fn frame_ciphertext(iv: &[u8], ciphertext: &[u8]) -> (res: Result<Vec<u8>, KeystoreError>)
    ensures
        match res {
            Ok(bytes) => iv@.len() <= u8::MAX && bytes@ == framed(iv@, ciphertext@),
            Err(error) => iv@.len() > u8::MAX && error is MalformedCiphertext,
        },
        iv@.len() <= u8::MAX ==> res is Ok,
        res matches Ok(bytes) ==> {
            &&& bytes@.len() == 2 + iv@.len() + ciphertext@.len()
            &&& bytes@[0] == 1
            &&& bytes@[1] == iv@.len()
            &&& bytes@.subrange(2, 2 + iv@.len() as int) == iv@
            &&& bytes@.subrange(2 + iv@.len() as int, bytes@.len() as int) == ciphertext@
        },
{
    proof {
        lemma_framed_layout(iv@, ciphertext@);
    }
    if iv.len() > 255 {
        return Err(KeystoreError::MalformedCiphertext);
    }
    let iv_len = iv.len() as u8;
    let mut bytes: Vec<u8> = Vec::new();
    bytes.push(FORMAT_VERSION);
    bytes.push(iv_len);
    let mut i: usize = 0;
    while i < iv.len()
        invariant
            i <= iv@.len(),
            bytes@ == seq![FORMAT_VERSION, iv@.len() as u8] + iv@.take(i as int),
        decreases iv@.len() - i,
    {
        bytes.push(iv[i]);
        i = i + 1;
        assert(iv@.take(i as int) == iv@.take(i - 1).push(iv@[i - 1]));
    }
    let mut j: usize = 0;
    while j < ciphertext.len()
        invariant
            j <= ciphertext@.len(),
            bytes@ == seq![FORMAT_VERSION, iv@.len() as u8] + iv@ + ciphertext@.take(j as int),
        decreases ciphertext@.len() - j,
    {
        bytes.push(ciphertext[j]);
        j = j + 1;
        assert(ciphertext@.take(j as int) == ciphertext@.take(j - 1).push(ciphertext@[j - 1]));
    }
    assert(iv@.take(iv@.len() as int) == iv@);
    assert(ciphertext@.take(ciphertext@.len() as int) == ciphertext@);
    Ok(bytes)
}

/// Split bytes produced by [`frame_ciphertext`] into the initialization vector
/// and the ciphertext.
pub fn split_ciphertext(bytes: &[u8]) -> (res: Result<(&[u8], &[u8]), KeystoreError>)
    ensures
        match res {
            Ok((iv, ciphertext)) => unframed(bytes@) == Some((iv@, ciphertext@)),
            Err(error) => unframed(bytes@) is None && error is MalformedCiphertext,
        },
        res is Ok <==> (bytes@.len() >= 2 && bytes@[0] == 1 && bytes@[1] + 2 <= bytes@.len()),
        res matches Ok((iv, ciphertext)) ==> {
            &&& iv@ == bytes@.subrange(2, bytes@[1] + 2)
            &&& ciphertext@ == bytes@.subrange(bytes@[1] + 2, bytes@.len() as int)
        },
{
    proof {
        lemma_unframed_layout(bytes@);
    }
    if bytes.len() < 2 {
        return Err(KeystoreError::MalformedCiphertext);
    }
    let version = bytes[0];
    let iv_len = bytes[1] as usize;
    if version != FORMAT_VERSION {
        return Err(KeystoreError::MalformedCiphertext);
    }
    let rest = &bytes[2..bytes.len()];
    if iv_len > rest.len() {
        return Err(KeystoreError::MalformedCiphertext);
    }
    let (iv, ciphertext) = rest.split_at(iv_len);
    assert(iv@ == bytes@.subrange(2, bytes@[1] + 2));
    assert(ciphertext@ == bytes@.subrange(bytes@[1] + 2, bytes@.len() as int));
    Ok((iv, ciphertext))
}

/// Splitting the bytes laid out for an initialization vector and a ciphertext
/// gives back that initialization vector and that ciphertext, whenever the
/// length of the initialization vector fits in a byte.
pub proof fn lemma_split_after_frame(iv: Seq<u8>, ciphertext: Seq<u8>)
    requires
        iv.len() <= u8::MAX,
    ensures
        unframed(framed(iv, ciphertext)) == Some((iv, ciphertext)),
{
    let bytes = framed(iv, ciphertext);
    assert(bytes[1] == iv.len());
    assert(bytes.subrange(2, iv.len() as int + 2) == iv);
    assert(bytes.subrange(iv.len() as int + 2, bytes.len() as int) == ciphertext);
}

/// Bytes that split into an initialization vector and a ciphertext are
/// exactly the layout of that initialization vector and that ciphertext.
pub proof fn lemma_frame_after_split(bytes: Seq<u8>)
    ensures
        unframed(bytes) matches Some((iv, ciphertext)) ==> iv.len() <= u8::MAX && framed(
            iv,
            ciphertext,
        ) == bytes,
{
    if let Some((iv, ciphertext)) = unframed(bytes) {
        assert(iv.len() == bytes[1]);
        assert(framed(iv, ciphertext) =~= bytes);
    }
}

/// The error reported for a sequence of JNI calls that failed with `error`,
/// when `exception` describes the Java exception that was left pending, if
/// any.
///
/// A pending exception is what explains the failure best, so it wins over
/// the error that interrupted the calls.
pub fn java_failure(error: JavaError, exception: Option<String>) -> (reported: KeystoreError)
    ensures
        match exception {
            Some(message) => reported == KeystoreError::Java(message),
            None => match error {
                JavaError::Keystore(keystore_error) => reported == keystore_error,
                JavaError::Jni(jni_error) => reported == KeystoreError::Jni(jni_error),
            },
        },
{
    match (error, exception) {
        (_, Some(message)) => KeystoreError::Java(message),
        (JavaError::Keystore(keystore_error), None) => keystore_error,
        (JavaError::Jni(jni_error), None) => KeystoreError::Jni(jni_error),
    }
}

/// The description of a pending Java exception that could not be described
/// by the exception itself.
pub open spec fn unknown_exception() -> Seq<char> {
    "unknown Java exception"@
}

/// The description of a pending Java exception.
///
/// `cleared` tells whether the exception could be cleared: no other call may
/// be made before, including the one that asks the exception for its
/// description, so an exception that could not be cleared has no
/// description. `description` is what the exception said of itself, if it
/// could be asked.
pub fn exception_message(cleared: bool, description: Option<String>) -> (message: String)
    ensures
        message@ == match description {
            Some(text) if cleared => text@,
            _ => unknown_exception(),
        },
{
    match description {
        Some(text) if cleared => text,
        _ => "unknown Java exception".to_owned(),
    }
}

/// The laid-out bytes begin with version 1 of the layout, then the length of
/// the initialization vector, then the initialization vector itself, then the
/// ciphertext, whatever their lengths.
pub proof fn lemma_framed_layout(iv: Seq<u8>, ciphertext: Seq<u8>)
    ensures
        iv.len() <= u8::MAX ==> {
            let bytes = framed(iv, ciphertext);
            &&& bytes.len() == 2 + iv.len() + ciphertext.len()
            &&& bytes[0] == 1
            &&& bytes[1] == iv.len()
            &&& bytes.subrange(2, 2 + iv.len() as int) == iv
            &&& bytes.subrange(2 + iv.len() as int, bytes.len() as int) == ciphertext
        },
{
    if iv.len() <= u8::MAX {
        let bytes = framed(iv, ciphertext);
        assert(bytes.subrange(2, 2 + iv.len() as int) =~= iv);
        assert(bytes.subrange(2 + iv.len() as int, bytes.len() as int) =~= ciphertext);
    }
}

/// Bytes split exactly when they begin with version 1 of the layout and the
/// announced initialization vector fits in them; they then split right after
/// the initialization vector.
pub proof fn lemma_unframed_layout(bytes: Seq<u8>)
    ensures
        unframed(bytes) is Some <==> (bytes.len() >= 2 && bytes[0] == 1 && bytes[1] + 2
            <= bytes.len()),
        unframed(bytes) matches Some((iv, ciphertext)) ==> {
            &&& iv == bytes.subrange(2, bytes[1] + 2)
            &&& ciphertext == bytes.subrange(bytes[1] + 2, bytes.len() as int)
        },
{
}

/// Which failures are permanent: a missing key and malformed bytes are, a
/// missing virtual machine and a JNI failure are not, and a Java exception is
/// exactly when its description names `AEADBadTagException`,
/// `KeyPermanentlyInvalidatedException` or `BadPaddingException`.
pub proof fn lemma_permanent_failures(error: KeystoreError)
    ensures
        error is NoKey ==> error.permanent(),
        error is MalformedCiphertext ==> error.permanent(),
        error is NoJavaVm ==> !error.permanent(),
        error is Jni ==> !error.permanent(),
        error matches KeystoreError::Java(message) ==> (error.permanent() <==> (has_substring(
            message@,
            "AEADBadTagException"@,
        ) || has_substring(message@, "KeyPermanentlyInvalidatedException"@) || has_substring(
            message@,
            "BadPaddingException"@,
        ))),
{
}

impl KeystoreError {

    /// Whether `text` is the message of this error.
    ///
    /// A JNI failure reads as the `jni` crate displays it.
    pub open spec fn is_message(&self, text: String) -> bool {
        match self {
            KeystoreError::NoJavaVm => text@
                == "The Java virtual machine of the application is not available"@,
            KeystoreError::NoKey => text@
                == "The encryption key of Fractal is not in the Android Keystore"@,
            KeystoreError::MalformedCiphertext => text@ == "The stored sessions are malformed"@,
            KeystoreError::Java(message) => text@ == "Android Keystore error: "@ + message@,
            KeystoreError::Jni(error) => exists|shown: String|
                #[trigger] vstd::string::to_string_from_display_ensures::<jni::errors::Error>(
                    error,
                    shown,
                ) && text@ == "JNI error: "@ + shown@,
        }
    }

    /// The message of this error.
    pub fn message(&self) -> (text: String)
        ensures
            self.is_message(text),
    {
        match self {
            KeystoreError::NoJavaVm => "The Java virtual machine of the application is not available".to_owned(),
            KeystoreError::NoKey => "The encryption key of Fractal is not in the Android Keystore".to_owned(),
            KeystoreError::MalformedCiphertext => "The stored sessions are malformed".to_owned(),
            KeystoreError::Java(message) => {
                let mut text = "Android Keystore error: ".to_owned();
                text.append(message.as_str());
                text
            },
            KeystoreError::Jni(error) => {
                let shown = error.to_string();
                let mut text = "JNI error: ".to_owned();
                text.append(shown.as_str());
                text
            },
        }
    }
    /// Whether this error means that the stored sessions can never be read
    /// again.
    pub open spec fn permanent(&self) -> bool {
        match self {
            KeystoreError::NoKey | KeystoreError::MalformedCiphertext => true,
            KeystoreError::Java(message) => is_permanent_java_failure(message@),
            KeystoreError::NoJavaVm | KeystoreError::Jni(_) => false,
        }
    }

    /// Whether this error means that the stored sessions can never be read
    /// again.
    ///
    /// The system invalidates the key of an application on its own, and a file
    /// that cannot be decrypted is not going to become decryptable later, so
    /// the only thing left to do with it is to remove it.
    pub fn is_permanent(&self) -> (permanent: bool)
        ensures
            permanent == self.permanent(),
            (self is NoKey || self is MalformedCiphertext) ==> permanent,
            (self is NoJavaVm || self is Jni) ==> !permanent,
            self matches KeystoreError::Java(message) ==> (permanent <==> (has_substring(
                message@,
                "AEADBadTagException"@,
            ) || has_substring(message@, "KeyPermanentlyInvalidatedException"@) || has_substring(
                message@,
                "BadPaddingException"@,
            ))),
    {
        match self {
            KeystoreError::NoKey | KeystoreError::MalformedCiphertext => true,
            KeystoreError::Java(message) => {
                str_contains(message.as_str(), "AEADBadTagException") || str_contains(
                    message.as_str(),
                    "KeyPermanentlyInvalidatedException",
                ) || str_contains(message.as_str(), "BadPaddingException")
            },
            KeystoreError::NoJavaVm | KeystoreError::Jni(_) => false,
        }
    }
}

} // verus!
