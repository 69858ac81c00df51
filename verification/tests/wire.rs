use cg_clif_daemon::wire::JsonStreamMessage;
use cg_clif_daemon::wire::ReadError;
use serde::Serialize;
use serde::Serializer;

/// The messages again, written by way of `serde`.
enum Reference {
    ExitSucces,
    ExitFailure,
    OutputBytes(Vec<u8>),
}

impl Serialize for Reference {
    fn serialize<S: Serializer>(&self, serializer: S) -> Result<S::Ok, S::Error> {
        let name = "JsonStreamMessage";
        match self {
            Reference::ExitSucces => serializer.serialize_unit_variant(name, 0, "ExitSucces"),
            Reference::ExitFailure => serializer.serialize_unit_variant(name, 1, "ExitFailure"),
            Reference::OutputBytes(items) => {
                serializer.serialize_newtype_variant(name, 2, "OutputBytes", items)
            }
        }
    }
}

fn output(items: &[u8]) -> Vec<u8> {
    JsonStreamMessage::OutputBytes(items.to_vec()).encode()
}

fn read_error(bytes: &[u8]) -> Option<ReadError> {
    JsonStreamMessage::decode(bytes).err()
}

#[test]
fn messages_have_fixed_encodings() {
    assert_eq!(JsonStreamMessage::ExitSucces.encode(), vec![0]);
    assert_eq!(JsonStreamMessage::ExitFailure.encode(), vec![1]);
    assert_eq!(output(b""), vec![2, 0]);
    assert_eq!(output(b"hi"), vec![2, 2, b'h', b'i']);
}

#[test]
fn long_outputs_have_long_lengths() {
    let bytes = output(&[7; 300]);
    assert_eq!(bytes[..3], [2, 0xac, 0x02]);
    assert_eq!(bytes[3..], [7; 300]);
    assert_eq!(output(&[7; 127])[..2], [2, 127]);
    assert_eq!(output(&[7; 128])[..3], [2, 0x80, 0x01]);
}

#[test]
fn encodings_are_those_of_serde() {
    let success = postcard::to_allocvec(&Reference::ExitSucces).unwrap();
    assert_eq!(JsonStreamMessage::ExitSucces.encode(), success);
    let failure = postcard::to_allocvec(&Reference::ExitFailure).unwrap();
    assert_eq!(JsonStreamMessage::ExitFailure.encode(), failure);
    for len in [0, 1, 127, 128, 4096, 100_000] {
        let items = vec![0xa5; len];
        let expected = postcard::to_allocvec(&Reference::OutputBytes(items.clone())).unwrap();
        assert_eq!(output(&items), expected);
    }
}

#[test]
fn messages_are_read_back() {
    let mut bytes = output(&[9; 5000]);
    bytes.extend_from_slice(&JsonStreamMessage::ExitSucces.encode());
    bytes.extend_from_slice(&JsonStreamMessage::ExitFailure.encode());
    bytes.extend_from_slice(b"rest");
    let (first, rest) = JsonStreamMessage::decode(&bytes).unwrap();
    assert!(matches!(first, JsonStreamMessage::OutputBytes(items) if items == vec![9; 5000]));
    let (second, rest) = JsonStreamMessage::decode(rest).unwrap();
    assert!(matches!(second, JsonStreamMessage::ExitSucces));
    let (third, rest) = JsonStreamMessage::decode(rest).unwrap();
    assert!(matches!(third, JsonStreamMessage::ExitFailure));
    assert_eq!(rest, b"rest");
}

#[test]
fn cut_messages_are_incomplete() {
    let bytes = output(&[1; 200]);
    for n in 0..bytes.len() {
        assert_eq!(read_error(&bytes[..n]), Some(ReadError::Incomplete));
    }
    assert_eq!(read_error(&[0x80]), Some(ReadError::Incomplete));
    assert_eq!(read_error(&[2, 0x80]), Some(ReadError::Incomplete));
}

#[test]
fn wrong_messages_are_malformed() {
    // There is no such message.
    assert_eq!(read_error(&[3]), Some(ReadError::Malformed));
    assert_eq!(read_error(&[3, 0, 0]), Some(ReadError::Malformed));
    // The number of the message does not fit.
    assert_eq!(read_error(&[0xff, 0xff, 0xff, 0xff, 0x10]), Some(ReadError::Malformed));
    assert_eq!(read_error(&[0x80, 0x80, 0x80, 0x80, 0x80, 0x00]), Some(ReadError::Malformed));
    // The length does not fit.
    let mut bytes = vec![2];
    bytes.extend_from_slice(&[0xff; 11]);
    assert_eq!(read_error(&bytes), Some(ReadError::Malformed));
}

#[test]
fn padded_numbers_are_read() {
    let (message, rest) = JsonStreamMessage::decode(&[0x81, 0x80, 0x00, 5]).unwrap();
    assert!(matches!(message, JsonStreamMessage::ExitFailure));
    assert_eq!(rest, [5]);
}
