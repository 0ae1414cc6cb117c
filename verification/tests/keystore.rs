use fractal::keystore::{
    exception_message, frame_ciphertext, java_failure, split_ciphertext, JavaError,
    KeystoreError, FORMAT_VERSION,
};

#[test]
fn framing_round_trip() {
    let iv = [7u8; 12];
    let ciphertext = b"some ciphertext with a tag";

    let bytes = frame_ciphertext(&iv, ciphertext).unwrap();
    assert_eq!(bytes[0], FORMAT_VERSION);
    assert_eq!(bytes[1], 12);
    assert_eq!(bytes.len(), 2 + 12 + ciphertext.len());

    let (split_iv, split_ciphertext) = split_ciphertext(&bytes).unwrap();
    assert_eq!(split_iv, &iv[..]);
    assert_eq!(split_ciphertext, &ciphertext[..]);
}

#[test]
fn framing_exact_layout() {
    let bytes = frame_ciphertext(&[1, 2, 3], &[9, 8]).unwrap();
    assert_eq!(bytes, vec![1, 3, 1, 2, 3, 9, 8]);
}

#[test]
fn framing_empty_parts() {
    let bytes = frame_ciphertext(&[], &[]).unwrap();
    assert_eq!(bytes, vec![FORMAT_VERSION, 0]);
    let (iv, ciphertext) = split_ciphertext(&bytes).unwrap();
    assert!(iv.is_empty());
    assert!(ciphertext.is_empty());
}

#[test]
fn framing_refuses_long_iv() {
    let iv = vec![0u8; 256];
    let error = frame_ciphertext(&iv, &[1]).unwrap_err();
    assert!(matches!(error, KeystoreError::MalformedCiphertext));

    let iv = vec![0u8; 255];
    let bytes = frame_ciphertext(&iv, &[1]).unwrap();
    assert_eq!(bytes[1], 255);
}

#[test]
fn splitting_refuses_malformed_bytes() {
    assert!(matches!(
        split_ciphertext(&[]),
        Err(KeystoreError::MalformedCiphertext)
    ));
    assert!(matches!(
        split_ciphertext(&[FORMAT_VERSION]),
        Err(KeystoreError::MalformedCiphertext)
    ));
    assert!(matches!(
        split_ciphertext(&[2, 0, 1, 2]),
        Err(KeystoreError::MalformedCiphertext)
    ));
    assert!(matches!(
        split_ciphertext(&[FORMAT_VERSION, 3, 1, 2]),
        Err(KeystoreError::MalformedCiphertext)
    ));
    let (iv, ciphertext) = split_ciphertext(&[FORMAT_VERSION, 2, 1, 2]).unwrap();
    assert_eq!(iv, &[1, 2][..]);
    assert!(ciphertext.is_empty());
}

#[test]
fn permanent_errors() {
    assert!(KeystoreError::NoKey.is_permanent());
    assert!(KeystoreError::MalformedCiphertext.is_permanent());
    assert!(KeystoreError::Java(
        "javax.crypto.AEADBadTagException: Tag mismatch".to_owned()
    )
    .is_permanent());
    assert!(KeystoreError::Java(
        "android.security.keystore.KeyPermanentlyInvalidatedException: Key permanently invalidated"
            .to_owned()
    )
    .is_permanent());
    assert!(KeystoreError::Java("javax.crypto.BadPaddingException".to_owned()).is_permanent());
}

#[test]
fn transient_errors() {
    assert!(!KeystoreError::NoJavaVm.is_permanent());
    assert!(!KeystoreError::Jni(jni::errors::Error::TryLock).is_permanent());
    assert!(!KeystoreError::Java(
        "android.security.KeyStoreException: Keystore not initialized".to_owned()
    )
    .is_permanent());
    assert!(!KeystoreError::Java("AEADBadTag".to_owned()).is_permanent());
    assert!(!KeystoreError::Java(String::new()).is_permanent());
}

#[test]
fn pending_exception_wins() {
    let reported = java_failure(
        JavaError::Keystore(KeystoreError::NoKey),
        Some("java.lang.IllegalStateException".to_owned()),
    );
    assert!(
        matches!(reported, KeystoreError::Java(message) if message == "java.lang.IllegalStateException")
    );
}

#[test]
fn failure_without_exception() {
    let reported = java_failure(JavaError::Keystore(KeystoreError::NoKey), None);
    assert!(matches!(reported, KeystoreError::NoKey));

    let reported = java_failure(JavaError::Jni(jni::errors::Error::NullPtr("key")), None);
    assert!(matches!(
        reported,
        KeystoreError::Jni(jni::errors::Error::NullPtr("key"))
    ));
}

#[test]
fn exception_descriptions() {
    assert_eq!(
        exception_message(true, Some("java.security.KeyStoreException".to_owned())),
        "java.security.KeyStoreException"
    );
    assert_eq!(exception_message(true, None), "unknown Java exception");
    assert_eq!(
        exception_message(false, Some("ignored".to_owned())),
        "unknown Java exception"
    );
}

#[test]
fn keystore_error_messages() {
    assert_eq!(
        KeystoreError::NoKey.message(),
        "The encryption key of Fractal is not in the Android Keystore"
    );
    assert_eq!(
        KeystoreError::MalformedCiphertext.message(),
        "The stored sessions are malformed"
    );
    assert_eq!(
        KeystoreError::Java("java.lang.Exception".to_owned()).message(),
        "Android Keystore error: java.lang.Exception"
    );
    assert_eq!(
        KeystoreError::Jni(jni::errors::Error::TryLock).message(),
        "JNI error: Mutex already locked"
    );
}
