//! The protocol negotiator and codec: the fixed protocol identifier and
//! the wire framing.
//!
//! Each message travels as one frame: an unsigned variable-length
//! (LEB128-style, smallest-encoding) length prefix followed by that many
//! raw payload bytes.  No header, no checksum, no type tag.  Payloads are
//! bounded by [`MAX_MSG_LEN`]; a frame that declares a larger length is
//! rejected and the connection that carried it is closed.

use vstd::arithmetic::div_mod::lemma_fundamental_div_mod;
use vstd::prelude::*;

use crate::error::PushError;

verus! {

/// The identifier this protocol announces when negotiating a channel.
pub open spec fn spec_protocol_name() -> Seq<char> {
    "/push/1.0.0"@
}

/// The protocol negotiator: carries nothing but the fixed identifier
/// exchanged when a new channel is upgraded to this protocol.
#[derive(Default, Debug, Copy, Clone)]
pub struct PushProtocol;

impl PushProtocol {
    /// The identifier offered for every inbound and outbound channel.
    pub fn protocol_name(&self) -> (r: &'static str)
        ensures
            r@ == spec_protocol_name(),
    {
        "/push/1.0.0"
    }
}

/// Maximum payload length of one frame: 64 MiB.
pub const MAX_MSG_LEN: usize = 64 * 1024 * 1024;

/// Longest length prefix the decoder reads, in bytes.  Five groups of
/// seven bits already reach 2^35, far above [`MAX_MSG_LEN`], so a prefix
/// that is still unfinished after five bytes cannot declare an acceptable
/// length in smallest-encoding form.
pub const MAX_PREFIX_LEN: usize = 5;

/// The smallest-encoding LEB128 byte string for `n`: seven value bits per
/// byte, least significant group first, high bit set on every byte except
/// the last.
pub open spec fn varint_encoding(n: nat) -> Seq<u8>
    decreases n,
{
    if n < 128 {
        seq![n as u8]
    } else {
        seq![(128 + n % 128) as u8] + varint_encoding(n / 128)
    }
}

/// What a LEB128 reader takes from the front of `s`: the decoded value
/// and the number of bytes consumed, or `None` when no terminating byte
/// (high bit clear) occurs in `s`.
pub open spec fn varint_decode(s: Seq<u8>) -> Option<(nat, nat)>
    decreases s.len(),
{
    if s.len() == 0 {
        None
    } else if s[0] < 128 {
        Some((s[0] as nat, 1nat))
    } else {
        match varint_decode(s.skip(1)) {
            Some(vk) => Some((((s[0] - 128) + 128 * vk.0) as nat, (vk.1 + 1) as nat)),
            None => None,
        }
    }
}

/// The frame carrying `msg`: length prefix, then the payload itself.
pub open spec fn frame_encoding(msg: Seq<u8>) -> Seq<u8> {
    varint_encoding(msg.len()) + msg
}

/// A length prefix is never empty, and short values take few bytes.
pub proof fn lemma_varint_encoding_len(n: nat)
    ensures
        1 <= varint_encoding(n).len(),
        n < 128 ==> varint_encoding(n).len() == 1,
        n < 16384 ==> varint_encoding(n).len() <= 2,
        n < 2097152 ==> varint_encoding(n).len() <= 3,
        n < 268435456 ==> varint_encoding(n).len() <= 4,
        n < 34359738368 ==> varint_encoding(n).len() <= 5,
    decreases n,
{
    if n >= 128 {
        lemma_varint_encoding_len(n / 128);
    }
}

/// A decoder that reads a frame written by this codec finds the same
/// value again, wherever the frame sits in the stream, and stops exactly
/// at the end of the prefix.
pub proof fn lemma_varint_round_trip(n: nat, rest: Seq<u8>)
    ensures
        varint_decode(varint_encoding(n) + rest) == Some((n, varint_encoding(n).len() as nat)),
    decreases n,
{
    let s = varint_encoding(n) + rest;
    if n < 128 {
        assert(s[0] == n as u8);
    } else {
        lemma_varint_round_trip(n / 128, rest);
        assert(s[0] == (128 + n % 128) as u8);
        assert(s.skip(1) =~= varint_encoding(n / 128) + rest);
        lemma_fundamental_div_mod(n as int, 128);
    }
}

/// The encoder, one byte per seven-bit group.
pub fn encode_varint(n: u64) -> (r: Vec<u8>)
    ensures
        r@ == varint_encoding(n as nat),
{
    let mut out: Vec<u8> = Vec::new();
    let mut m: u64 = n;
    proof {
        assert(out@ + varint_encoding(m as nat) =~= varint_encoding(n as nat));
    }
    loop
        invariant
            out@ + varint_encoding(m as nat) == varint_encoding(n as nat),
        decreases m,
    {
        if m < 128 {
            out.push(m as u8);
            proof {
                assert(varint_encoding(m as nat) =~= seq![m as u8]);
                assert(out@ =~= varint_encoding(n as nat));
            }
            return out;
        }
        let ghost prev_out = out@;
        let ghost prev_m = m as nat;
        let b: u8 = 128 + (m % 128) as u8;
        out.push(b);
        m = m / 128;
        proof {
            assert(varint_encoding(prev_m) == seq![b] + varint_encoding(m as nat));
            assert(out@ + varint_encoding(m as nat) =~= prev_out + varint_encoding(prev_m));
        }
    }
}

/// 128 to the power `i`: the weight of the `i`-th seven-bit group.
pub open spec fn pow128(i: nat) -> nat
    decreases i,
{
    if i == 0 {
        1
    } else {
        128 * pow128((i - 1) as nat)
    }
}

proof fn lemma_pow128_values()
    ensures
        pow128(0) == 1,
        pow128(1) == 128,
        pow128(2) == 16384,
        pow128(3) == 2097152,
        pow128(4) == 268435456,
        pow128(5) == 34359738368,
{
    reveal_with_fuel(pow128, 6);
}

/// Outcome of reading a length prefix from a buffer.
#[derive(Debug, PartialEq, Eq, Structural, Clone, Copy)]
pub enum VarintOutcome {
    /// A terminated prefix declaring an acceptable length.
    Val { value: usize, used: usize },
    /// The buffer ends before the prefix does.
    NeedMore,
    /// The declared length exceeds [`MAX_MSG_LEN`]; `request` is that
    /// length, saturated at `usize::MAX` when it does not fit.
    TooLarge { request: usize },
}

/// Reads the LEB128 length prefix at `buf[start..]`.
///
/// A prefix still unfinished after [`MAX_PREFIX_LEN`] bytes is treated as
/// oversized: in smallest-encoding form, which the wire format mandates,
/// such a prefix declares at least 2^28 bytes.
#[verifier::rlimit(50)]
pub fn read_varint(buf: &Vec<u8>, start: usize) -> (r: VarintOutcome)
    requires
        start <= buf@.len(),
    ensures
        ({
            let tail = buf@.skip(start as int);
            match varint_decode(tail) {
                Some(vk) => {
                    if vk.1 > MAX_PREFIX_LEN {
                        r == (VarintOutcome::TooLarge { request: usize::MAX })
                    } else if vk.0 > MAX_MSG_LEN {
                        r == (VarintOutcome::TooLarge {
                            request: if vk.0 > usize::MAX { usize::MAX } else { vk.0 as usize },
                        })
                    } else {
                        r == (VarintOutcome::Val { value: vk.0 as usize, used: vk.1 as usize })
                    }
                },
                None => {
                    if tail.len() >= MAX_PREFIX_LEN {
                        r == (VarintOutcome::TooLarge { request: usize::MAX })
                    } else {
                        r == VarintOutcome::NeedMore
                    }
                },
            }
        }),
{
    let ghost tail = buf@.skip(start as int);
    let mut i: usize = 0;
    let mut acc: u64 = 0;
    let mut f: u64 = 1;
    proof {
        lemma_pow128_values();
        assert(tail.skip(0) =~= tail);
    }
    loop
        invariant
            start <= buf@.len(),
            start + i <= buf@.len(),
            i <= MAX_PREFIX_LEN,
            tail == buf@.skip(start as int),
            f as nat == pow128(i as nat),
            (acc as nat) < f as nat,
            ({
                match varint_decode(tail.skip(i as int)) {
                    Some(vk) => varint_decode(tail) == Some((
                        ((acc as nat) + (f as nat) * vk.0) as nat,
                        (vk.1 + i) as nat,
                    )),
                    None => varint_decode(tail) is None,
                }
            }),
        decreases MAX_PREFIX_LEN - i,
    {
        proof {
            lemma_pow128_values();
            assert(i == 0 || i == 1 || i == 2 || i == 3 || i == 4 || i == 5);
        }
        if i == MAX_PREFIX_LEN {
            // Five continuation bytes already: a smallest-encoding prefix
            // this long declares at least 2^28 bytes.
            return VarintOutcome::TooLarge { request: usize::MAX };
        }
        if i >= buf.len() - start {
            proof {
                assert(tail.skip(i as int).len() == 0);
                assert(tail.len() < MAX_PREFIX_LEN);
            }
            return VarintOutcome::NeedMore;
        }
        let b: u8 = buf[start + i];
        let low: u64 = (b % 128) as u64;
        proof {
            assert(tail.skip(i as int)[0] == tail[i as int]);
            assert(tail.skip(i as int).skip(1) =~= tail.skip(i as int + 1));
            assert(f <= 268435456);
            assert(f * low <= 268435456 * 127) by (nonlinear_arith)
                requires
                    f <= 268435456,
                    low <= 127,
            ;
            assert(acc + f * low < f * 128) by (nonlinear_arith)
                requires
                    acc < f,
                    low <= 127,
            ;
        }
        if b < 128 {
            // Terminating byte: the prefix is complete.
            let value: u64 = acc + f * low;
            proof {
                let rest = tail.skip(i as int);
                assert(varint_decode(rest) == Some((b as nat, 1nat)));
                assert(varint_decode(tail) == Some((
                    ((acc as nat) + (f as nat) * (b as nat)) as nat,
                    (i + 1) as nat,
                )));
            }
            if value > MAX_MSG_LEN as u64 {
                let request: usize = if value > usize::MAX as u64 {
                    usize::MAX
                } else {
                    value as usize
                };
                return VarintOutcome::TooLarge { request };
            }
            return VarintOutcome::Val { value: value as usize, used: i + 1 };
        }
        proof {
            let rest = tail.skip(i as int);
            let rest1 = tail.skip(i as int + 1);
            assert(rest[0] == b && b >= 128);
            if varint_decode(rest1) is Some {
                let vk = varint_decode(rest1).unwrap();
                assert(varint_decode(rest) == Some((
                    ((b - 128) + 128 * vk.0) as nat,
                    (vk.1 + 1) as nat,
                )));
                assert((acc as nat) + (f as nat) * (((b - 128) + 128 * vk.0) as nat) == ((acc
                    as nat) + (f as nat) * (low as nat)) + ((f as nat) * 128) * vk.0)
                    by (nonlinear_arith)
                    requires
                        low == b - 128,
                        b >= 128,
                ;
            } else {
                assert(varint_decode(rest) is None);
            }
        }
        acc = acc + f * low;
        f = f * 128;
        i = i + 1;
    }
}

/// Where `varint_decode` finds a value, it consumed at least one byte
/// and no more than the buffer holds.
pub proof fn lemma_varint_decode_used(s: Seq<u8>)
    ensures
        varint_decode(s) is Some ==> 1 <= varint_decode(s).unwrap().1 <= s.len(),
    decreases s.len(),
{
    if s.len() > 0 && s[0] >= 128 {
        lemma_varint_decode_used(s.skip(1));
    }
}

/// What deframing a buffer yields, at the specification level.
pub enum FrameDecode {
    /// A whole frame: its payload and the number of bytes it occupied.
    Payload { msg: Seq<u8>, used: usize },
    /// The buffer ends inside the prefix or inside the payload.
    NeedMore,
    /// The frame is unacceptable and the connection must close.
    Failed { error: PushError },
}

/// The deframing relation: what [`decode_frame`] reports for a buffer
/// whose unread part is `s`.
pub open spec fn spec_decode_frame(s: Seq<u8>) -> FrameDecode {
    match varint_decode(s) {
        Some(vk) => {
            if vk.1 > MAX_PREFIX_LEN {
                FrameDecode::Failed {
                    error: PushError::PushEventTooLarge(MAX_MSG_LEN, usize::MAX),
                }
            } else if vk.0 > MAX_MSG_LEN {
                FrameDecode::Failed {
                    error: PushError::PushEventTooLarge(
                        MAX_MSG_LEN,
                        if vk.0 > usize::MAX {
                            usize::MAX
                        } else {
                            vk.0 as usize
                        },
                    ),
                }
            } else if s.len() >= vk.1 + vk.0 {
                FrameDecode::Payload {
                    msg: s.subrange(vk.1 as int, (vk.1 + vk.0) as int),
                    used: (vk.1 + vk.0) as usize,
                }
            } else {
                FrameDecode::NeedMore
            }
        },
        None => {
            if s.len() >= MAX_PREFIX_LEN {
                FrameDecode::Failed {
                    error: PushError::PushEventTooLarge(MAX_MSG_LEN, usize::MAX),
                }
            } else {
                FrameDecode::NeedMore
            }
        },
    }
}

/// Outcome of deframing a buffer, as executable data.
#[derive(Debug, PartialEq, Eq, Clone)]
pub enum FrameOutcome {
    /// One decoded message and the buffer position just after its frame.
    Frame { msg: Vec<u8>, next: usize },
    /// The buffer holds no complete frame yet.
    NeedMore,
    /// The frame is unacceptable and the connection must close.
    Failed { error: PushError },
}

/// Deframes the front of `buf[start..]`: reads the length prefix, checks
/// it against [`MAX_MSG_LEN`], and copies out the payload when the buffer
/// already holds all of it.
pub fn decode_frame(buf: &Vec<u8>, start: usize) -> (r: FrameOutcome)
    requires
        start <= buf@.len(),
    ensures
        ({
            let d = spec_decode_frame(buf@.skip(start as int));
            match d {
                FrameDecode::Payload { msg, used } => r matches FrameOutcome::Frame {
                    msg: m,
                    next,
                } && m@ == msg && next == start + used,
                FrameDecode::NeedMore => r == FrameOutcome::NeedMore,
                FrameDecode::Failed { error } => r == (FrameOutcome::Failed { error }),
            }
        }),
{
    let ghost tail = buf@.skip(start as int);
    match read_varint(buf, start) {
        VarintOutcome::NeedMore => FrameOutcome::NeedMore,
        VarintOutcome::TooLarge { request } => FrameOutcome::Failed {
            error: PushError::PushEventTooLarge(MAX_MSG_LEN, request),
        },
        VarintOutcome::Val { value, used } => {
            let blen: usize = buf.len();
            proof {
                lemma_varint_decode_used(tail);
                assert(varint_decode(tail) is Some);
                assert(used == varint_decode(tail).unwrap().1);
                assert(used <= tail.len());
                assert(start + used <= blen);
            }
            let pos: usize = start + used;
            if blen - pos < value {
                return FrameOutcome::NeedMore;
            }
            let mut msg: Vec<u8> = Vec::new();
            let mut j: usize = 0;
            while j < value
                invariant
                    j <= value,
                    pos + value <= blen,
                    blen as nat == buf@.len(),
                    msg@ == buf@.subrange(pos as int, pos + j),
                decreases value - j,
            {
                msg.push(buf[pos + j]);
                j = j + 1;
                proof {
                    assert(msg@ =~= buf@.subrange(pos as int, pos + j));
                }
            }
            proof {
                let vk = varint_decode(tail).unwrap();
                assert(msg@ =~= tail.subrange(vk.1 as int, (vk.1 + vk.0) as int));
            }
            FrameOutcome::Frame { msg, next: pos + value }
        },
    }
}

/// Frames `msg` for the wire: length prefix, then the payload.  Payloads
/// above [`MAX_MSG_LEN`] are refused before anything is written.
pub fn encode_frame(msg: &Vec<u8>) -> (r: Result<Vec<u8>, PushError>)
    ensures
        msg@.len() <= MAX_MSG_LEN ==> (r matches Ok(b) && b@ == frame_encoding(msg@)),
        msg@.len() > MAX_MSG_LEN ==> r == Err::<Vec<u8>, PushError>(
            PushError::PushEventTooLarge(MAX_MSG_LEN, msg@.len() as usize),
        ),
{
    if msg.len() > MAX_MSG_LEN {
        return Err(PushError::PushEventTooLarge(MAX_MSG_LEN, msg.len()));
    }
    let mut out = encode_varint(msg.len() as u64);
    let mut j: usize = 0;
    while j < msg.len()
        invariant
            j <= msg@.len(),
            out@ == varint_encoding(msg@.len()) + msg@.subrange(0, j as int),
        decreases msg@.len() - j,
    {
        out.push(msg[j]);
        j = j + 1;
        proof {
            assert(out@ =~= varint_encoding(msg@.len()) + msg@.subrange(0, j as int));
        }
    }
    proof {
        assert(out@ =~= frame_encoding(msg@));
    }
    Ok(out)
}

/// Framing then deframing returns the exact original payload, whatever
/// follows the frame in the stream, and consumes exactly the frame.
pub proof fn lemma_frame_round_trip(msg: Seq<u8>, rest: Seq<u8>)
    requires
        msg.len() <= MAX_MSG_LEN,
    ensures
        ({
            let s = frame_encoding(msg) + rest;
            spec_decode_frame(s) == (FrameDecode::Payload {
                msg,
                used: frame_encoding(msg).len() as usize,
            }) && s.skip(frame_encoding(msg).len() as int) == rest
        }),
{
    let s = frame_encoding(msg) + rest;
    let pre = varint_encoding(msg.len());
    assert(s =~= pre + (msg + rest));
    lemma_varint_round_trip(msg.len(), msg + rest);
    lemma_varint_encoding_len(msg.len());
    let vk = varint_decode(s).unwrap();
    assert(vk.0 == msg.len() && vk.1 == pre.len());
    assert(s.subrange(vk.1 as int, (vk.1 + vk.0) as int) =~= msg);
    assert(s.skip(frame_encoding(msg).len() as int) =~= rest);
}

/// Frames laid end to end on the wire decode back one by one, in wire
/// order: the first decode yields the first payload and stops exactly
/// where the second frame starts, and so on until the wire is spent.
pub proof fn lemma_wire_decodes_in_order(m1: Seq<u8>, m2: Seq<u8>, m3: Seq<u8>)
    requires
        m1.len() <= MAX_MSG_LEN,
        m2.len() <= MAX_MSG_LEN,
        m3.len() <= MAX_MSG_LEN,
    ensures
        ({
            let wire = frame_encoding(m1) + frame_encoding(m2) + frame_encoding(m3);
            let used1 = frame_encoding(m1).len() as usize;
            let used2 = frame_encoding(m2).len() as usize;
            let used3 = frame_encoding(m3).len() as usize;
            spec_decode_frame(wire) == (FrameDecode::Payload { msg: m1, used: used1 })
                && spec_decode_frame(wire.skip(used1 as int)) == (FrameDecode::Payload {
                msg: m2,
                used: used2,
            }) && spec_decode_frame(wire.skip(used1 + used2 as int)) == (FrameDecode::Payload {
                msg: m3,
                used: used3,
            }) && used1 + used2 + used3 == wire.len()
        }),
{
    let wire = frame_encoding(m1) + frame_encoding(m2) + frame_encoding(m3);
    let used1 = frame_encoding(m1).len();
    let used2 = frame_encoding(m2).len();
    lemma_varint_encoding_len(m1.len());
    lemma_varint_encoding_len(m2.len());
    lemma_varint_encoding_len(m3.len());
    assert(frame_encoding(m1).len() <= MAX_MSG_LEN + 5);
    assert(frame_encoding(m2).len() <= MAX_MSG_LEN + 5);
    assert(frame_encoding(m3).len() <= MAX_MSG_LEN + 5);
    assert(wire =~= frame_encoding(m1) + (frame_encoding(m2) + frame_encoding(m3)));
    lemma_frame_round_trip(m1, frame_encoding(m2) + frame_encoding(m3));
    assert(wire.skip(used1 as int) == frame_encoding(m2) + frame_encoding(m3));
    lemma_frame_round_trip(m2, frame_encoding(m3));
    assert(wire.skip(used1 as int).skip(used2 as int) =~= wire.skip(used1 + used2 as int));
    lemma_frame_round_trip(m3, Seq::empty());
    assert(frame_encoding(m3) + Seq::<u8>::empty() =~= frame_encoding(m3));
}

/// A frame that declares more than [`MAX_MSG_LEN`] payload bytes is
/// rejected as too large; no message is ever produced from it.
pub proof fn lemma_oversized_frame_rejected(msg: Seq<u8>, rest: Seq<u8>)
    requires
        msg.len() > MAX_MSG_LEN,
    ensures
        ({
            let s = frame_encoding(msg) + rest;
            spec_decode_frame(s) matches FrameDecode::Failed { error }
                && error matches PushError::PushEventTooLarge(limit, request)
                && limit == MAX_MSG_LEN && request > MAX_MSG_LEN
        }),
{
    let s = frame_encoding(msg) + rest;
    assert(s =~= varint_encoding(msg.len()) + (msg + rest));
    lemma_varint_round_trip(msg.len(), msg + rest);
}

} // verus!
