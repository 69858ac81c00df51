//! The messages that the daemon sends to its client, and how they look on the wire.
//!
//! A message is its number, as a variable-length integer, followed by its payload.  The integers
//! and the byte strings are in the encoding of `postcard`, which writes and reads them here.

use vstd::prelude::*;

verus! {

/// Something that the daemon tells its client.
pub enum JsonStreamMessage {
    /// The compilation succeeded.  This is the last message.
    ExitSucces,
    /// The compilation failed.  This is the last message.
    ExitFailure,
    /// These bytes go to the standard error stream of the client.
    OutputBytes(Vec<u8>),
}

/// What a [`JsonStreamMessage`] says.
pub enum Message {
    ExitSucces,
    ExitFailure,
    OutputBytes(Seq<u8>),
}

impl View for JsonStreamMessage {
    type V = Message;

    open spec fn view(&self) -> Message {
        match self {
            JsonStreamMessage::ExitSucces => Message::ExitSucces,
            JsonStreamMessage::ExitFailure => Message::ExitFailure,
            JsonStreamMessage::OutputBytes(items) => Message::OutputBytes(items@),
        }
    }
}

/// Why nothing could be read.
#[derive(Clone, Copy, PartialEq, Eq, Debug)]
pub enum ReadError {
    /// The bytes end too early: with more of them, reading may succeed.
    Incomplete,
    /// The bytes are wrong, whatever may follow them.
    Malformed,
}

/// The variable-length form of `value`: seven bits in each byte, the low ones first, with the
/// high bit set in every byte but the last.
pub open spec fn write_varint(value: nat) -> Seq<u8>
    decreases value,
{
    if value < 128 {
        seq![value as u8]
    } else {
        seq![(128 + value % 128) as u8] + write_varint(value / 128)
    }
}

/// Reads a variable-length integer of at most `width` bytes, the last of which, if there are that
/// many, is at most `top`.  Gives the integer and the bytes after it.
pub open spec fn read_varint(bytes: Seq<u8>, width: nat, top: nat) -> Result<
    (nat, Seq<u8>),
    ReadError,
>
    decreases width,
{
    if width == 0 {
        Err(ReadError::Malformed)
    } else if bytes.len() == 0 {
        Err(ReadError::Incomplete)
    } else if bytes[0] >= 128 {
        match read_varint(bytes.skip(1), (width - 1) as nat, top) {
            Ok((high, rest)) => Ok(((bytes[0] - 128 + 128 * high) as nat, rest)),
            Err(error) => Err(error),
        }
    } else if width == 1 && bytes[0] > top {
        Err(ReadError::Malformed)
    } else {
        Ok((bytes[0] as nat, bytes.skip(1)))
    }
}

/// Reads an integer of 32 bits.
pub open spec fn read_u32(bytes: Seq<u8>) -> Result<(nat, Seq<u8>), ReadError> {
    read_varint(bytes, 5, 15)
}

/// Reads an integer of as many bits as a pointer has.
pub open spec fn read_usize(bytes: Seq<u8>) -> Result<(nat, Seq<u8>), ReadError> {
    if usize::BITS == 64 {
        read_varint(bytes, 10, 1)
    } else {
        read_varint(bytes, 5, 15)
    }
}

/// A byte string: how many bytes it has, and the bytes.
pub open spec fn write_bytes(items: Seq<u8>) -> Seq<u8> {
    write_varint(items.len()) + items
}

/// Reads a byte string.  Gives the string and the bytes after it.
pub open spec fn read_bytes(bytes: Seq<u8>) -> Result<(Seq<u8>, Seq<u8>), ReadError> {
    match read_usize(bytes) {
        Ok((len, rest)) => if len <= rest.len() {
            Ok((rest.take(len as int), rest.skip(len as int)))
        } else {
            Err(ReadError::Incomplete)
        },
        Err(error) => Err(error),
    }
}

/// A message on the wire.
pub open spec fn write_message(message: Message) -> Seq<u8> {
    match message {
        Message::ExitSucces => write_varint(0),
        Message::ExitFailure => write_varint(1),
        Message::OutputBytes(items) => write_varint(2) + write_bytes(items),
    }
}

/// Reads a message.  Gives the message and the bytes after it.
pub open spec fn read_message(bytes: Seq<u8>) -> Result<(Message, Seq<u8>), ReadError> {
    match read_u32(bytes) {
        Ok((number, rest)) => if number == 0 {
            Ok((Message::ExitSucces, rest))
        } else if number == 1 {
            Ok((Message::ExitFailure, rest))
        } else if number == 2 {
            match read_bytes(rest) {
                Ok((items, rest)) => Ok((Message::OutputBytes(items), rest)),
                Err(error) => Err(error),
            }
        } else {
            Err(ReadError::Malformed)
        },
        Err(error) => Err(error),
    }
}

/// Calls `postcard::to_allocvec` on an integer of 32 bits.
///
/// Claimed: it gives the variable-length form of the integer.  Writing into memory that grows as
/// needed does not fail.
#[verifier::external_body]
fn put_u32(value: u32) -> (bytes: Vec<u8>)
    ensures
        bytes@ == write_varint(value as nat),
{
    postcard::to_allocvec(&value).expect("Unable to serialize message")
}

/// Calls `postcard::to_allocvec` on a byte string.
///
/// Claimed: it gives the length of the string in variable-length form, and then the string.
/// Writing into memory that grows as needed does not fail.
#[verifier::external_body]
fn put_bytes(items: &Vec<u8>) -> (bytes: Vec<u8>)
    ensures
        bytes@ == write_bytes(items@),
{
    postcard::to_allocvec(items).expect("Unable to serialize message")
}

/// Calls `postcard::take_from_bytes` for an integer of 32 bits.
///
/// Claimed: it reads a variable-length integer that fits, and hands back the bytes after it; it
/// reports an unexpected end where the bytes run out, and another error where they are wrong.
#[verifier::external_body]
fn take_u32(bytes: &[u8]) -> (taken: Result<(u32, &[u8]), ReadError>)
    ensures
        match taken {
            Ok((value, rest)) => read_u32(bytes@) == Ok::<(nat, Seq<u8>), ReadError>(
                (value as nat, rest@),
            ),
            Err(error) => read_u32(bytes@) == Err::<(nat, Seq<u8>), ReadError>(error),
        },
{
    match postcard::take_from_bytes::<u32>(bytes) {
        Ok(taken) => Ok(taken),
        Err(postcard::Error::DeserializeUnexpectedEnd) => Err(ReadError::Incomplete),
        Err(_) => Err(ReadError::Malformed),
    }
}

/// Calls `postcard::take_from_bytes` for a byte string.
///
/// Claimed: it reads a length and then as many bytes, and hands back the bytes after them; it
/// reports an unexpected end where the bytes run out, and another error where they are wrong.
#[verifier::external_body]
fn take_bytes(bytes: &[u8]) -> (taken: Result<(Vec<u8>, &[u8]), ReadError>)
    ensures
        match taken {
            Ok((items, rest)) => read_bytes(bytes@) == Ok::<(Seq<u8>, Seq<u8>), ReadError>(
                (items@, rest@),
            ),
            Err(error) => read_bytes(bytes@) == Err::<(Seq<u8>, Seq<u8>), ReadError>(error),
        },
{
    match postcard::take_from_bytes::<Vec<u8>>(bytes) {
        Ok(taken) => Ok(taken),
        Err(postcard::Error::DeserializeUnexpectedEnd) => Err(ReadError::Incomplete),
        Err(_) => Err(ReadError::Malformed),
    }
}

impl JsonStreamMessage {
    /// The message as it goes over the wire.
    pub fn encode(&self) -> (bytes: Vec<u8>)
        ensures
            bytes@ == write_message(self@),
    {
        match self {
            JsonStreamMessage::ExitSucces => put_u32(0),
            JsonStreamMessage::ExitFailure => put_u32(1),
            JsonStreamMessage::OutputBytes(items) => {
                let mut bytes = put_u32(2);
                let mut payload = put_bytes(items);
                bytes.append(&mut payload);
                bytes
            },
        }
    }

    /// Reads one message off the front of `bytes`.  Gives the message and the bytes after it.
    pub fn decode(bytes: &[u8]) -> (decoded: Result<(JsonStreamMessage, &[u8]), ReadError>)
        ensures
            match decoded {
                Ok((message, rest)) => read_message(bytes@) == Ok::<(Message, Seq<u8>), ReadError>(
                    (message@, rest@),
                ),
                Err(error) => read_message(bytes@) == Err::<(Message, Seq<u8>), ReadError>(error),
            },
    {
        match take_u32(bytes) {
            Ok((number, rest)) => if number == 0 {
                Ok((JsonStreamMessage::ExitSucces, rest))
            } else if number == 1 {
                Ok((JsonStreamMessage::ExitFailure, rest))
            } else if number == 2 {
                match take_bytes(rest) {
                    Ok((items, rest)) => Ok((JsonStreamMessage::OutputBytes(items), rest)),
                    Err(error) => Err(error),
                }
            } else {
                Err(ReadError::Malformed)
            },
            Err(error) => Err(error),
        }
    }
}

/// The least integer that does not fit into `width` bytes of which the last is at most `top`.
spec fn varint_capacity(width: nat, top: nat) -> nat
    decreases width,
{
    if width <= 1 {
        top + 1
    } else {
        128 * varint_capacity((width - 1) as nat, top)
    }
}

proof fn lemma_read_varint_inverts_write(value: nat, width: nat, top: nat, rest: Seq<u8>)
    requires
        width > 0,
        top < 128,
        value < varint_capacity(width, top),
    ensures
        read_varint(write_varint(value) + rest, width, top) == Ok::<(nat, Seq<u8>), ReadError>(
            (value, rest),
        ),
    decreases value,
{
    let bytes = write_varint(value) + rest;
    if value < 128 {
        assert(bytes.skip(1) =~= rest);
    } else {
        assert(bytes.skip(1) =~= write_varint(value / 128) + rest);
        lemma_read_varint_inverts_write(value / 128, (width - 1) as nat, top, rest);
        assert(value == value % 128 + 128 * (value / 128));
    }
}

/// What the bytes after a variable-length integer are has no bearing on the integer.
proof fn lemma_read_varint_extends(bytes: Seq<u8>, more: Seq<u8>, width: nat, top: nat)
    ensures
        match read_varint(bytes, width, top) {
            Ok((value, rest)) => {
                &&& rest.len() < bytes.len()
                &&& read_varint(bytes + more, width, top) == Ok::<(nat, Seq<u8>), ReadError>(
                    (value, rest + more),
                )
            },
            Err(ReadError::Malformed) => read_varint(bytes + more, width, top) == Err::<
                (nat, Seq<u8>),
                ReadError,
            >(ReadError::Malformed),
            Err(ReadError::Incomplete) => true,
        },
    decreases width,
{
    if width > 0 && bytes.len() > 0 {
        assert((bytes + more).skip(1) =~= bytes.skip(1) + more);
        lemma_read_varint_extends(bytes.skip(1), more, (width - 1) as nat, top);
    }
}

/// A message that was written is read back, with whatever follows it left over.
pub proof fn read_message_inverts_write(message: Message, rest: Seq<u8>)
    requires
        message matches Message::OutputBytes(items) ==> items.len() <= usize::MAX,
    ensures
        read_message(write_message(message) + rest) == Ok::<(Message, Seq<u8>), ReadError>(
            (message, rest),
        ),
{
    reveal_with_fuel(varint_capacity, 10);
    match message {
        Message::ExitSucces => lemma_read_varint_inverts_write(0, 5, 15, rest),
        Message::ExitFailure => lemma_read_varint_inverts_write(1, 5, 15, rest),
        Message::OutputBytes(items) => {
            let payload = write_varint(items.len()) + (items + rest);
            assert(write_message(message) + rest =~= write_varint(2) + payload);
            lemma_read_varint_inverts_write(2, 5, 15, payload);
            if usize::BITS == 64 {
                lemma_read_varint_inverts_write(items.len(), 10, 1, items + rest);
            } else {
                lemma_read_varint_inverts_write(items.len(), 5, 15, items + rest);
            }
            assert((items + rest).take(items.len() as int) =~= items);
            assert((items + rest).skip(items.len() as int) =~= rest);
        },
    }
}

/// What follows a message has no bearing on it: a message that can be read off the front of some
/// bytes is read off the front of any longer bytes as well, and bytes that are wrong stay wrong.
pub proof fn read_message_extends(bytes: Seq<u8>, more: Seq<u8>)
    ensures
        match read_message(bytes) {
            Ok((message, rest)) => {
                &&& rest.len() < bytes.len()
                &&& read_message(bytes + more) == Ok::<(Message, Seq<u8>), ReadError>(
                    (message, rest + more),
                )
            },
            Err(ReadError::Malformed) => read_message(bytes + more) == Err::<
                (Message, Seq<u8>),
                ReadError,
            >(ReadError::Malformed),
            Err(ReadError::Incomplete) => true,
        },
{
    lemma_read_varint_extends(bytes, more, 5, 15);
    if let Ok((number, payload)) = read_u32(bytes) {
        if number == 2 {
            if usize::BITS == 64 {
                lemma_read_varint_extends(payload, more, 10, 1);
            } else {
                lemma_read_varint_extends(payload, more, 5, 15);
            }
            if let Ok((len, rest)) = read_usize(payload) {
                if len <= rest.len() {
                    assert((rest + more).take(len as int) =~= rest.take(len as int));
                    assert((rest + more).skip(len as int) =~= rest.skip(len as int) + more);
                }
            }
        }
    }
}

/// On the wire a message begins with its number: 0 for a success, 1 for a failure, and 2 for output,
/// which is followed by its length and by the output itself.
pub proof fn messages_begin_with_their_number(items: Seq<u8>)
    ensures
        write_message(Message::ExitSucces) == seq![0u8],
        write_message(Message::ExitFailure) == seq![1u8],
        write_message(Message::OutputBytes(items)) == seq![2u8] + write_varint(items.len()) + items,
{
    assert(write_message(Message::OutputBytes(items)) =~= seq![2u8] + write_varint(items.len())
        + items);
}

/// There are no messages with other numbers: whatever follows such a number, it is malformed.
pub proof fn other_numbers_are_malformed(number: nat, rest: Seq<u8>)
    requires
        3 <= number <= u32::MAX,
    ensures
        read_message(write_varint(number) + rest) == Err::<(Message, Seq<u8>), ReadError>(
            ReadError::Malformed,
        ),
{
    reveal_with_fuel(varint_capacity, 5);
    lemma_read_varint_inverts_write(number, 5, 15, rest);
}

/// The beginning of a message is not yet a message, and not malformed either.
pub proof fn a_cut_message_is_incomplete(message: Message, n: int)
    requires
        message matches Message::OutputBytes(items) ==> items.len() <= usize::MAX,
        0 <= n < write_message(message).len(),
    ensures
        read_message(write_message(message).take(n)) == Err::<(Message, Seq<u8>), ReadError>(
            ReadError::Incomplete,
        ),
{
    let whole = write_message(message);
    let more = whole.skip(n);
    assert(whole.take(n) + more =~= whole);
    assert(whole + Seq::<u8>::empty() =~= whole);
    read_message_inverts_write(message, seq![]);
    read_message_extends(whole.take(n), more);
}

} // verus!
