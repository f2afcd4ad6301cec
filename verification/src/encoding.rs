//! The frame of a signed message: a header of ten bytes, the fields of the
//! transaction, and the signature.

use vstd::prelude::*;
use vstd::string::*;
use vstd::utf8::valid_utf8;

verus! {

/// Length of the message header.
pub const HEADER_LENGTH: usize = 10;

/// Length of the signature that ends a message.
pub const SIGNATURE_LENGTH: usize = 64;

/// Version of the protocol. Different versions are incompatible.
pub const PROTOCOL_MAJOR_VERSION: u8 = 0;

/// Why the bytes of a message are not a transaction of a service.
#[derive(Clone, Copy, Debug, PartialEq, Eq, Structural)]
pub enum DecodeError {
    /// The message is shorter than the shortest message of its type.
    UnexpectedlyShortPayload {
        /// Length of the message.
        actual_size: u32,
        /// Length of the shortest message of the type.
        minimum_size: u32,
    },
    /// The message was made for another version of the protocol.
    UnsupportedProtocolVersion {
        /// The version that is supported.
        version: u8,
    },
    /// The message is of a type that the decoder does not take. A dispatcher
    /// reports the type it found; the decoder of one type reports its own.
    IncorrectMessageType {
        /// The type in question.
        message_type: u16,
    },
    /// The message belongs to another service.
    IncorrectServiceId {
        /// The service that the decoder belongs to.
        service_id: u16,
    },
    /// A segment starts before the end of what precedes it.
    OverlappingSegment {
        /// Where what precedes the segment ends.
        last_end: u32,
        /// Where the segment starts.
        start: u32,
    },
    /// A segment starts behind the end of what precedes it.
    SpaceBetweenSegments {
        /// Where what precedes the segment ends.
        last_end: u32,
        /// Where the segment starts.
        start: u32,
    },
    /// The end of a segment is beyond the range of an offset.
    OffsetOverflow,
    /// A segment ends behind the end of the fields.
    IncorrectSegmentSize {
        /// Where the size of the segment is written.
        position: u32,
        /// The size that is written there.
        value: u32,
    },
    /// A text is not valid UTF-8.
    Utf8 {
        /// Where the text starts.
        position: u32,
    },
    /// The length of the message is not that of its fields and signature.
    IncorrectLength,
}

/// The number that two bytes stand for, lowest byte first.
pub open spec fn u16_le(bytes: Seq<u8>) -> int {
    bytes[0] + 256 * bytes[1]
}

/// The number that four bytes stand for, lowest byte first.
pub open spec fn u32_le(bytes: Seq<u8>) -> int {
    bytes[0] + 0x100 * bytes[1] + 0x1_0000 * bytes[2] + 0x100_0000 * bytes[3]
}

/// The number that eight bytes stand for, lowest byte first.
pub open spec fn u64_le(bytes: Seq<u8>) -> int {
    bytes[0] + 0x100 * bytes[1] + 0x1_0000 * bytes[2] + 0x100_0000 * bytes[3] + 0x1_0000_0000
        * bytes[4] + 0x100_0000_0000 * bytes[5] + 0x1_0000_0000_0000 * bytes[6]
        + 0x100_0000_0000_0000 * bytes[7]
}

/// The protocol version in the header of `raw`.
pub open spec fn version_of(raw: Seq<u8>) -> u8 {
    raw[1]
}

/// The message type in the header of `raw`.
pub open spec fn message_type_of(raw: Seq<u8>) -> int {
    u16_le(raw.subrange(2, 4))
}

/// The service identifier in the header of `raw`.
pub open spec fn service_id_of(raw: Seq<u8>) -> int {
    u16_le(raw.subrange(4, 6))
}

/// Reads the 16-bit number that starts at `at`, lowest byte first.
pub fn read_u16(raw: &[u8], at: usize) -> (value: u16)
    requires
        at + 2 <= raw@.len(),
    ensures
        value == u16_le(raw@.subrange(at as int, at + 2)),
{
    let length = raw.len();
    let low: u16 = raw[at] as u16;
    let high: u16 = raw[at + 1] as u16;
    low + 256 * high
}

/// Reads the 32-bit number that starts at `at`, lowest byte first.
pub fn read_u32(raw: &[u8], at: usize) -> (value: u32)
    requires
        at + 4 <= raw@.len(),
    ensures
        value == u32_le(raw@.subrange(at as int, at + 4)),
{
    let length = raw.len();
    let mut value: u32 = raw[at + 3] as u32;
    value = value * 256 + raw[at + 2] as u32;
    value = value * 256 + raw[at + 1] as u32;
    value = value * 256 + raw[at] as u32;
    value
}

/// Reads the 64-bit number that starts at `at`, lowest byte first.
pub fn read_u64(raw: &[u8], at: usize) -> (value: u64)
    requires
        at + 8 <= raw@.len(),
    ensures
        value == u64_le(raw@.subrange(at as int, at + 8)),
{
    let length = raw.len();
    let mut value: u64 = raw[at + 7] as u64;
    value = value * 256 + raw[at + 6] as u64;
    value = value * 256 + raw[at + 5] as u64;
    value = value * 256 + raw[at + 4] as u64;
    value = value * 256 + raw[at + 3] as u64;
    value = value * 256 + raw[at + 2] as u64;
    value = value * 256 + raw[at + 1] as u64;
    value = value * 256 + raw[at] as u64;
    value
}

/// `std::str::from_utf8`: the text whose UTF-8 form `bytes` are, and `None`
/// where they are not valid UTF-8.
#[verifier::external_body]
pub(crate) fn text_of(bytes: &[u8]) -> (text: Option<&str>)
    ensures
        text is Some <==> valid_utf8(bytes@),
        text matches Some(s) ==> s.spec_bytes() == bytes@,
{
    std::str::from_utf8(bytes).ok()
}

/// The message type in the header of `raw`.
pub fn message_type(raw: &[u8]) -> (id: u16)
    requires
        raw@.len() >= 4,
    ensures
        id == message_type_of(raw@),
{
    read_u16(raw, 2)
}

/// The service identifier in the header of `raw`.
pub fn service_id(raw: &[u8]) -> (id: u16)
    requires
        raw@.len() >= 6,
    ensures
        id == service_id_of(raw@),
{
    read_u16(raw, 4)
}

/// The head of a message whose fields take at least `fields_size` bytes,
/// sent to `service` as type `message_type`: `Ok` where `raw` is long enough
/// and its header names that version, type and service, else the first of
/// these checks that it fails.
pub open spec fn head_check(raw: Seq<u8>, service: u16, message_type: u16, fields_size: int) -> Result<
    (),
    DecodeError,
> {
    let full_size = HEADER_LENGTH + fields_size + SIGNATURE_LENGTH;
    if raw.len() < full_size {
        Err(
            DecodeError::UnexpectedlyShortPayload {
                actual_size: raw.len() as u32,
                minimum_size: full_size as u32,
            },
        )
    } else if version_of(raw) != PROTOCOL_MAJOR_VERSION {
        Err(DecodeError::UnsupportedProtocolVersion { version: PROTOCOL_MAJOR_VERSION })
    } else if message_type_of(raw) != message_type {
        Err(DecodeError::IncorrectMessageType { message_type })
    } else if service_id_of(raw) != service {
        Err(DecodeError::IncorrectServiceId { service_id: service })
    } else {
        Ok(())
    }
}

/// The frame of a message whose fields take `fields_size` bytes, all of
/// fixed length, sent to `service` as type `message_type`: `Ok` where `raw`
/// is such a message, else the first of the checks that it fails.
pub open spec fn frame_check(raw: Seq<u8>, service: u16, message_type: u16, fields_size: int) -> Result<
    (),
    DecodeError,
> {
    match head_check(raw, service, message_type, fields_size) {
        Err(e) => Err(e),
        Ok(_) => if raw.len() != HEADER_LENGTH + fields_size + SIGNATURE_LENGTH {
            Err(DecodeError::IncorrectLength)
        } else {
            Ok(())
        },
    }
}

/// Checks the head of a message: its least length and what its header
/// names.
pub fn check_head(raw: &[u8], service: u16, message_type: u16, fields_size: u32) -> (checked:
    Result<(), DecodeError>)
    requires
        fields_size <= 0x1000_0000,
    ensures
        checked == head_check(raw@, service, message_type, fields_size as int),
{
    let full_size: u32 = HEADER_LENGTH as u32 + fields_size + SIGNATURE_LENGTH as u32;
    if raw.len() < full_size as usize {
        return Err(
            DecodeError::UnexpectedlyShortPayload {
                actual_size: raw.len() as u32,
                minimum_size: full_size,
            },
        );
    }
    if raw[1] != PROTOCOL_MAJOR_VERSION {
        return Err(DecodeError::UnsupportedProtocolVersion { version: PROTOCOL_MAJOR_VERSION });
    }
    if self::message_type(raw) != message_type {
        return Err(DecodeError::IncorrectMessageType { message_type });
    }
    if self::service_id(raw) != service {
        return Err(DecodeError::IncorrectServiceId { service_id: service });
    }
    Ok(())
}

/// Checks the frame of a message whose fields are all of fixed length.
pub fn check_frame(raw: &[u8], service: u16, message_type: u16, fields_size: u32) -> (checked:
    Result<(), DecodeError>)
    requires
        fields_size <= 0x1000_0000,
    ensures
        checked == frame_check(raw@, service, message_type, fields_size as int),
{
    match check_head(raw, service, message_type, fields_size) {
        Err(e) => Err(e),
        Ok(()) => {
            let full_size: u32 = HEADER_LENGTH as u32 + fields_size + SIGNATURE_LENGTH as u32;
            if raw.len() != full_size as usize {
                Err(DecodeError::IncorrectLength)
            } else {
                Ok(())
            }
        },
    }
}

/// The two bytes that stand for `value`, lowest byte first.
pub open spec fn u16_bytes(value: u16) -> Seq<u8> {
    seq![(value % 256) as u8, (value / 256) as u8]
}

/// The four bytes that stand for `value`, lowest byte first.
pub open spec fn u32_bytes(value: u32) -> Seq<u8> {
    let q1 = value / 256;
    let q2 = q1 / 256;
    let q3 = q2 / 256;
    seq![(value % 256) as u8, (q1 % 256) as u8, (q2 % 256) as u8, (q3 % 256) as u8]
}

/// The eight bytes that stand for `value`, lowest byte first.
pub open spec fn u64_bytes(value: u64) -> Seq<u8> {
    let q1 = value / 256;
    let q2 = q1 / 256;
    let q3 = q2 / 256;
    let q4 = q3 / 256;
    let q5 = q4 / 256;
    let q6 = q5 / 256;
    let q7 = q6 / 256;
    seq![
        (value % 256) as u8,
        (q1 % 256) as u8,
        (q2 % 256) as u8,
        (q3 % 256) as u8,
        (q4 % 256) as u8,
        (q5 % 256) as u8,
        (q6 % 256) as u8,
        (q7 % 256) as u8,
    ]
}

/// Reading the bytes that were written for a 16-bit number gives it back.
pub proof fn lemma_u16_round_trip(value: u16)
    ensures
        u16_le(u16_bytes(value)) == value,
{
}

/// Reading the bytes that were written for a 64-bit number gives it back.
pub proof fn lemma_u64_round_trip(value: u64)
    ensures
        u64_le(u64_bytes(value)) == value,
{
}

/// Appends the two bytes of `value`, lowest byte first.
pub fn push_u16(buffer: &mut Vec<u8>, value: u16)
    ensures
        final(buffer)@ == old(buffer)@ + u16_bytes(value),
{
    buffer.push((value % 256) as u8);
    buffer.push((value / 256) as u8);
    assert(buffer@ =~= old(buffer)@ + u16_bytes(value));
}

/// Appends the four bytes of `value`, lowest byte first.
pub fn push_u32(buffer: &mut Vec<u8>, value: u32)
    ensures
        final(buffer)@ == old(buffer)@ + u32_bytes(value),
{
    let mut rest: u32 = value;
    buffer.push((rest % 256) as u8);
    rest = rest / 256;
    buffer.push((rest % 256) as u8);
    rest = rest / 256;
    buffer.push((rest % 256) as u8);
    rest = rest / 256;
    buffer.push((rest % 256) as u8);
    assert(buffer@ =~= old(buffer)@ + u32_bytes(value));
}

/// Appends the eight bytes of `value`, lowest byte first.
pub fn push_u64(buffer: &mut Vec<u8>, value: u64)
    ensures
        final(buffer)@ == old(buffer)@ + u64_bytes(value),
{
    let mut rest: u64 = value;
    buffer.push((rest % 256) as u8);
    rest = rest / 256;
    buffer.push((rest % 256) as u8);
    rest = rest / 256;
    buffer.push((rest % 256) as u8);
    rest = rest / 256;
    buffer.push((rest % 256) as u8);
    rest = rest / 256;
    buffer.push((rest % 256) as u8);
    rest = rest / 256;
    buffer.push((rest % 256) as u8);
    rest = rest / 256;
    buffer.push((rest % 256) as u8);
    rest = rest / 256;
    buffer.push((rest % 256) as u8);
    assert(buffer@ =~= old(buffer)@ + u64_bytes(value));
}

/// Appends `bytes`.
pub fn push_bytes(buffer: &mut Vec<u8>, bytes: &[u8])
    ensures
        final(buffer)@ == old(buffer)@ + bytes@,
{
    let mut i: usize = 0;
    while i < bytes.len()
        invariant
            i <= bytes@.len(),
            buffer@ == old(buffer)@ + bytes@.subrange(0, i as int),
        decreases bytes@.len() - i,
    {
        buffer.push(bytes[i]);
        i += 1;
        assert(buffer@ =~= old(buffer)@ + bytes@.subrange(0, i as int));
    }
    assert(bytes@.subrange(0, i as int) =~= bytes@);
}

/// The header of a message of `full_size` bytes, sent to `service` as type
/// `message_type`.
pub open spec fn header_bytes(service: u16, message_type: u16, full_size: u32) -> Seq<u8> {
    seq![0u8, PROTOCOL_MAJOR_VERSION] + u16_bytes(message_type) + u16_bytes(service) + u32_bytes(
        full_size,
    )
}

/// Starts a message with its header.
pub fn write_header(service: u16, message_type: u16, full_size: u32) -> (buffer: Vec<u8>)
    ensures
        buffer@ == header_bytes(service, message_type, full_size),
{
    let mut buffer: Vec<u8> = Vec::new();
    buffer.push(0u8);
    buffer.push(PROTOCOL_MAJOR_VERSION);
    assert(buffer@ =~= seq![0u8, PROTOCOL_MAJOR_VERSION]);
    push_u16(&mut buffer, message_type);
    push_u16(&mut buffer, service);
    push_u32(&mut buffer, full_size);
    buffer
}

/// A message that starts with the header of its frame and has the length
/// of its frame passes the check of that frame.
pub proof fn lemma_header_passes(raw: Seq<u8>, service: u16, message_type: u16, fields_size: int)
    requires
        0 <= fields_size <= 0x1000_0000,
        raw.len() == HEADER_LENGTH + fields_size + SIGNATURE_LENGTH,
        raw.subrange(0, 10) == header_bytes(service, message_type, raw.len() as u32),
    ensures
        frame_check(raw, service, message_type, fields_size) == Ok::<(), DecodeError>(()),
{
    let header = header_bytes(service, message_type, raw.len() as u32);
    assert(header.len() == 10);
    assert forall|i: int| 0 <= i < 10 implies raw[i] == header[i] by {
        assert(raw.subrange(0, 10)[i] == raw[i]);
    }
    assert(raw.subrange(2, 4) =~= u16_bytes(message_type));
    assert(raw.subrange(4, 6) =~= u16_bytes(service));
    lemma_u16_round_trip(message_type);
    lemma_u16_round_trip(service);
}

} // verus!
