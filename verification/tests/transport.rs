use device_secrets::error::CryptoError;
use device_secrets::transport::{decoded_envelope, from_text, to_text};

#[test]
fn to_text_uses_the_padded_standard_alphabet() {
    assert_eq!(to_text(b""), "");
    assert_eq!(to_text(b"f"), "Zg==");
    assert_eq!(to_text(b"fo"), "Zm8=");
    assert_eq!(to_text(b"foo"), "Zm9v");
    assert_eq!(to_text(b"hello"), "aGVsbG8=");
    assert_eq!(to_text(&[0xfb, 0xff, 0xfe]), "+//+");
}

#[test]
fn from_text_reverses_to_text() {
    for len in 0..64usize {
        let bytes: Vec<u8> = (0..len).map(|i| (i * 37 + 11) as u8).collect();
        assert_eq!(from_text(&to_text(&bytes)).unwrap(), bytes);
    }
    let all: Vec<u8> = (0..=255u8).collect();
    assert_eq!(from_text(&to_text(&all)).unwrap(), all);
}

#[test]
fn from_text_decodes_known_text() {
    assert_eq!(from_text("aGVsbG8=").unwrap(), b"hello");
    assert_eq!(from_text("").unwrap(), b"");
}

#[test]
fn characters_outside_the_alphabet_are_refused() {
    for text in ["aGVs*G8=", "aGVsbG8 ", "-_-_", "héllo===", "aGVs\nbG8="] {
        assert!(matches!(from_text(text), Err(CryptoError::Base64DecodeError(_))));
    }
}

#[test]
fn bad_padding_is_refused() {
    for text in ["aGVsbG8", "Zg=", "Zg", "=Zg=", "Zh=="] {
        assert!(matches!(from_text(text), Err(CryptoError::Base64DecodeError(_))));
    }
}

#[test]
fn decoded_envelope_keeps_the_cause() {
    let cause = base64::DecodeError::InvalidPadding;
    match decoded_envelope(Err(cause.clone())) {
        Err(CryptoError::Base64DecodeError(e)) => assert_eq!(e, cause),
        _ => panic!("the decoding error was lost"),
    }
    assert_eq!(decoded_envelope(Ok(vec![1, 2, 3])).unwrap(), vec![1, 2, 3]);
}

#[test]
fn padding_before_the_end_is_refused() {
    for text in ["Zg==Zg==", "Z=g=", "=AAA", "A=AA"] {
        assert!(matches!(from_text(text), Err(CryptoError::Base64DecodeError(_))));
    }
}

#[test]
fn length_that_is_no_multiple_of_four_is_refused() {
    for text in ["A", "AA", "AAA", "AAAAA", "AAAAAA", "AAAAAAA", "AAAAAAAAAA"] {
        assert!(matches!(from_text(text), Err(CryptoError::Base64DecodeError(_))));
    }
}

#[test]
fn to_text_pads_the_last_group() {
    for len in 0..40usize {
        let text = to_text(&vec![0xa5u8; len]);
        assert_eq!(text.len(), 4 * ((len + 2) / 3));
        let padding = (3 - len % 3) % 3;
        let (symbols, pad) = text.split_at(text.len() - padding);
        assert!(symbols.chars().all(|c| c.is_ascii_alphanumeric() || c == '+' || c == '/'));
        assert!(pad.chars().all(|c| c == '='));
    }
}
