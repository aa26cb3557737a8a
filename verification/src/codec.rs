//! Wire-level codec for the serial control protocol.
//!
//! A frame on the wire is `[0x02][byte_count][command1][command_code][data...][checksum]`
//! where `byte_count` counts the bytes between itself and the checksum
//! (`command1`, `command_code` and the data), and the checksum is the
//! two's complement of the low byte of the sum of those bytes.

use vstd::prelude::*;
use vstd::arithmetic::div_mod::{lemma_add_mod_noop, lemma_small_mod, lemma_mod_add_multiples_vanish};
use crate::types::{Message, MessageModel, Nibbles, Response, RespModel};

verus! {

/// Failures while reading one frame from the wire.
#[derive(Debug, PartialEq, Eq, Structural, Clone, Copy)]
pub enum FrameError {
    /// The first byte of the frame was not the start byte 0x02.
    UnexpectedStartByte,
    /// Fewer (or more) bytes than the byte count announced were available.
    IncompleteRead,
    /// No data arrived within the read timeout; the caller resumes scanning.
    IoTimeout,
}

/// Sum of a byte sequence, as an unbounded integer.
pub open spec fn byte_sum(s: Seq<u8>) -> int
    decreases s.len(),
{
    if s.len() == 0 {
        0
    } else {
        byte_sum(s.drop_last()) + s.last()
    }
}

/// The wire checksum: two's complement of the low byte of the sum.
pub open spec fn checksum_spec(s: Seq<u8>) -> u8 {
    ((256 - byte_sum(s) % 256) % 256) as u8
}

/// Computes the frame checksum: sum the bytes, keep the least significant
/// byte, and take its two's complement.
pub fn checksum(bytes: &Vec<u8>) -> (r: u8)
    ensures
        r == checksum_spec(bytes@),
{
    let mut sum: u8 = 0;
    let mut i: usize = 0;
    while i < bytes.len()
        invariant
            0 <= i <= bytes@.len(),
            sum == byte_sum(bytes@.take(i as int)) % 256,
        decreases bytes@.len() - i,
    {
        proof {
            assert(bytes@.take(i + 1).drop_last() =~= bytes@.take(i as int));
            lemma_add_mod_noop(byte_sum(bytes@.take(i as int)), bytes@[i as int] as int, 256);
            lemma_small_mod(bytes@[i as int] as nat, 256);
        }
        sum = sum.wrapping_add(bytes[i]);
        i = i + 1;
    }
    proof {
        assert(bytes@.take(bytes@.len() as int) =~= bytes@);
        lemma_mod_add_multiples_vanish(0 - sum, 256);
    }
    0u8.wrapping_sub(sum)
}

/// The frame that carries a reply payload: start byte, byte count (the low
/// byte of the body length; a body past 255 bytes is truncated here, as the
/// legacy format leaves that case undefined), the original command-type
/// byte, the command code with its most significant bit set, the payload,
/// and the checksum of the body.
pub open spec fn frame_spec(command1: u8, command_code: u8, data: Seq<u8>) -> Seq<u8> {
    let body = seq![command1, (command_code | 0x80) as u8] + data;
    seq![2u8, (body.len() % 256) as u8] + body + seq![checksum_spec(body)]
}

/// What goes on the wire for a reply: `Simple` bytes go out unmodified,
/// `Message` payloads are framed around the request's command bytes.
pub open spec fn encode_spec(m: MessageModel, r: RespModel) -> Seq<u8> {
    match r {
        RespModel::Simple(e) => e,
        RespModel::Message(d) => frame_spec(m.command1, m.command_code, d),
    }
}

/// Wraps a reply for the wire. A `Simple` reply (a bare ACK or NAK) is
/// emitted as it is; a `Message` payload is framed: start byte, byte count,
/// the request's command-type byte, its command code with the most
/// significant bit set, the payload, and the checksum over the body.
pub fn encode(message: &Message, response: Response) -> (r: Vec<u8>)
    ensures
        r@ == encode_spec(message@, response@),
{
    match response {
        Response::Simple(e) => e,
        Response::Message(mut data) => {
            let ghost d = data@;
            let mut body: Vec<u8> = Vec::new();
            body.push(message.command1.byte);
            body.push(message.command_code | 0x80);
            body.append(&mut data);
            proof {
                assert(body@ =~= seq![message@.command1, (message@.command_code | 0x80) as u8] + d);
            }
            let bc: u8 = (body.len() % 256) as u8;
            let ck: u8 = checksum(&body);
            let mut out: Vec<u8> = Vec::new();
            out.push(0x02);
            out.push(bc);
            out.append(&mut body);
            out.push(ck);
            proof {
                assert(out@ =~= frame_spec(message@.command1, message@.command_code, d));
            }
            out
        },
    }
}

/// What a byte buffer decodes to: the start byte must be 0x02, the byte
/// count must announce exactly the bytes that follow (two command bytes, the
/// data, and one checksum byte). The checksum byte is extracted but never
/// compared against a recomputed value: the legacy peer is lenient here and
/// that leniency is kept.
pub open spec fn decode_spec(frame: Seq<u8>) -> Result<MessageModel, FrameError> {
    if frame.len() < 1 {
        Err(FrameError::IncompleteRead)
    } else if frame[0] != 2 {
        Err(FrameError::UnexpectedStartByte)
    } else if frame.len() < 2 {
        Err(FrameError::IncompleteRead)
    } else {
        let bc = frame[1] as int;
        if frame.len() != bc + 3 || bc < 2 {
            Err(FrameError::IncompleteRead)
        } else {
            Ok(MessageModel {
                byte_count: frame[1],
                command1: frame[2],
                command_code: frame[3],
                data: frame.subrange(4, bc + 2),
                checksum: frame[bc + 2],
            })
        }
    }
}

/// Splits the bytes that follow a byte count into a decoded frame: the two
/// command bytes, the data, and the trailing checksum byte. `buf` is what
/// was read after the byte count and must hold exactly `byte_count + 1`
/// bytes, else the read was incomplete.
pub fn read_message(byte_count: u8, buf: &Vec<u8>) -> (r: Result<Message, FrameError>)
    ensures
        match r {
            Ok(m) => decode_spec(seq![2u8, byte_count] + buf@) == Ok::<MessageModel, FrameError>(m@),
            Err(e) => decode_spec(seq![2u8, byte_count] + buf@) == Err::<MessageModel, FrameError>(e),
        },
{
    let ghost frame = seq![2u8, byte_count] + buf@;
    if buf.len() != byte_count as usize + 1 || byte_count < 2 {
        return Err(FrameError::IncompleteRead);
    }
    let bc = byte_count as usize;
    let mut data: Vec<u8> = Vec::new();
    let mut i: usize = 2;
    while i < bc
        invariant
            2 <= i <= bc,
            bc + 1 == buf@.len(),
            data@ =~= buf@.subrange(2, i as int),
        decreases bc - i,
    {
        data.push(buf[i]);
        i = i + 1;
    }
    let msg = Message {
        byte_count,
        command1: Nibbles { byte: buf[0] },
        command_code: buf[1],
        data,
        checksum: buf[bc],
    };
    proof {
        assert(frame.subrange(4, byte_count + 2) =~= buf@.subrange(2, byte_count as int));
    }
    Ok(msg)
}

/// Decodes one complete frame taken from the wire.
pub fn decode_frame(frame: &Vec<u8>) -> (r: Result<Message, FrameError>)
    ensures
        match r {
            Ok(m) => decode_spec(frame@) == Ok::<MessageModel, FrameError>(m@),
            Err(e) => decode_spec(frame@) == Err::<MessageModel, FrameError>(e),
        },
{
    if frame.len() < 1 {
        return Err(FrameError::IncompleteRead);
    }
    if frame[0] != 2 {
        return Err(FrameError::UnexpectedStartByte);
    }
    if frame.len() < 2 {
        return Err(FrameError::IncompleteRead);
    }
    let bc = frame[1];
    let mut rest: Vec<u8> = Vec::new();
    let mut i: usize = 2;
    while i < frame.len()
        invariant
            2 <= i <= frame@.len(),
            rest@ =~= frame@.subrange(2, i as int),
        decreases frame@.len() - i,
    {
        rest.push(frame[i]);
        i = i + 1;
    }
    proof {
        assert(seq![2u8, bc] + rest@ =~= frame@);
    }
    read_message(bc, &rest)
}

/// The codec round trip: framing any payload of up to 253 bytes (so that the
/// byte count is exact) yields a frame that decodes back to that payload,
/// with the byte count covering the two command bytes and the data, the
/// command code carrying its most significant bit, and the checksum as
/// computed over the body.
pub proof fn lemma_encode_decode_round_trip(command1: u8, command_code: u8, data: Seq<u8>)
    requires
        data.len() <= 253,
    ensures
        decode_spec(frame_spec(command1, command_code, data)) == Ok::<MessageModel, FrameError>(
            MessageModel {
                byte_count: (2 + data.len()) as u8,
                command1,
                command_code: (command_code | 0x80) as u8,
                data,
                checksum: checksum_spec(seq![command1, (command_code | 0x80) as u8] + data),
            },
        ),
{
    let body = seq![command1, (command_code | 0x80) as u8] + data;
    let frame = frame_spec(command1, command_code, data);
    assert(body.len() == 2 + data.len());
    lemma_small_mod(body.len(), 256);
    assert(frame[1] == (2 + data.len()) as u8);
    assert(frame.subrange(4, frame[1] + 2) =~= data);
}

/// Decoding never holds the checksum byte to anything: a decodable frame
/// stays decodable, to the same fields, whatever its last byte is replaced
/// with; only the extracted checksum field follows the replacement.
pub proof fn lemma_decode_ignores_checksum(frame: Seq<u8>, ck: u8)
    requires
        frame.len() >= 1,
        decode_spec(frame) is Ok,
    ensures
        decode_spec(frame.update(frame.len() - 1, ck)) == Ok::<MessageModel, FrameError>(
            MessageModel { checksum: ck, ..decode_spec(frame).unwrap() },
        ),
{
    let swapped = frame.update(frame.len() - 1, ck);
    let bc = frame[1] as int;
    assert(frame.len() == bc + 3);
    assert(swapped.subrange(4, bc + 2) =~= frame.subrange(4, bc + 2));
}

} // verus!
