//! The message carried by a panic.

use vstd::prelude::*;

verus! {

/// What a panic carries, as far as its message is concerned.
///
/// `panic!` with a literal message carries a `&str`, and `panic!` with a
/// formatted message carries a `String`. Anything else, such as the payload of
/// `std::panic::panic_any`, has no message.
pub enum PanicPayload<'a> {
    /// A literal message.
    Str(&'a str),
    /// A formatted message.
    Formatted(&'a String),
    /// A payload of another type.
    Other,
}

/// The message that a panic with the given payload carries.
pub open spec fn payload_message(payload: PanicPayload) -> Seq<char> {
    match payload {
        PanicPayload::Str(message) => message@,
        PanicPayload::Formatted(message) => message@,
        PanicPayload::Other => "Box<dyn Any>"@,
    }
}

/// A panic carries its whole message, whether literal or formatted, and a
/// payload of another type is described by the same fixed text.
pub proof fn lemma_whole_message(payload: PanicPayload)
    ensures
        payload matches PanicPayload::Str(text) ==> payload_message(payload) == text@,
        payload matches PanicPayload::Formatted(text) ==> payload_message(payload) == text@,
        payload is Other ==> payload_message(payload) == "Box<dyn Any>"@,
{
}

/// The message a panic carries, whether it was a `&str` or a formatted
/// `String`.
pub fn panic_message<'a>(payload: PanicPayload<'a>) -> (message: &'a str)
    ensures
        message@ == payload_message(payload),
        payload matches PanicPayload::Str(text) ==> message@ == text@,
        payload matches PanicPayload::Formatted(text) ==> message@ == text@,
        payload is Other ==> message@ == "Box<dyn Any>"@,
{
    match payload {
        PanicPayload::Str(message) => message,
        PanicPayload::Formatted(message) => message.as_str(),
        PanicPayload::Other => "Box<dyn Any>",
    }
}

} // verus!
