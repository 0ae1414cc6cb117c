use fractal::panic::{panic_message, PanicPayload};

#[test]
fn panic_message_from_str() {
    let payload = PanicPayload::Str("a static message");
    assert_eq!(panic_message(payload), "a static message");
}

#[test]
fn panic_message_from_string() {
    let value = 42;
    let formatted = format!("a formatted message: {value}");
    let payload = PanicPayload::Formatted(&formatted);
    assert_eq!(panic_message(payload), "a formatted message: 42");
}

#[test]
fn panic_message_from_other_payload() {
    let payload = PanicPayload::Other;
    assert_eq!(panic_message(payload), "Box<dyn Any>");
}
