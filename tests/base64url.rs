use aio_markdown::base64url::{decode, encode};

#[test]
fn encode_known_values() {
    assert_eq!(encode(b""), "");
    assert_eq!(encode(b"f"), "Zg");
    assert_eq!(encode(b"fo"), "Zm8");
    assert_eq!(encode(b"foo"), "Zm9v");
    assert_eq!(encode(b"foobar"), "Zm9vYmFy");
    assert_eq!(encode(&[0xfb, 0xff]), "-_8");
}

#[test]
fn decode_known_values() {
    assert_eq!(decode("Zm9vYmFy"), Ok(b"foobar".to_vec()));
    assert_eq!(decode("Zg"), Ok(b"f".to_vec()));
    assert_eq!(decode("Zm8"), Ok(b"fo".to_vec()));
    assert_eq!(decode("-_8"), Ok(vec![0xfb, 0xff]));
    assert_eq!(decode(""), Ok(vec![]));
}

#[test]
fn decode_single_trailing_digit_gives_no_byte() {
    assert_eq!(decode("Z"), Ok(vec![]));
    assert_eq!(decode("Zm9vZ"), Ok(b"foo".to_vec()));
}

#[test]
fn decode_rejects_other_characters() {
    assert_eq!(decode("a+b"), Err(()));
    assert_eq!(decode("Zm9v="), Err(()));
    assert_eq!(decode("é"), Err(()));
}

#[test]
fn round_trip() {
    let data: Vec<u8> = (0..=255u8).collect();
    for n in 0..data.len() {
        assert_eq!(decode(&encode(&data[..n])), Ok(data[..n].to_vec()));
    }
}
