//! The length-prefixed wire profile: a 4-byte big-endian length header
//! followed by exactly that many payload bytes, and the reply records the
//! server writes back.
use vstd::prelude::*;
use vstd::string::*;

use crate::proto::DecodeError;

verus! {

/// The size of a length header.
pub const HEADER_LEN: usize = 4;

/// The value of a 4-byte big-endian header.
pub open spec fn be_value(h: Seq<u8>) -> nat {
    (((h[0] as nat * 256 + h[1] as nat) * 256 + h[2] as nat) * 256 + h[3] as nat)
}

/// The 4-byte big-endian header of `n`.
pub open spec fn be_bytes(n: u32) -> Seq<u8> {
    seq![
        (n / 256 / 256 / 256) as u8,
        (n / 256 / 256 % 256) as u8,
        (n / 256 % 256) as u8,
        (n % 256) as u8,
    ]
}

/// A payload with its header in front.
pub open spec fn framed(p: Seq<u8>) -> Seq<u8> {
    be_bytes(p.len() as u32) + p
}

/// A header gives back the length it was made from.
pub proof fn lemma_be_round_trip(n: u32)
    ensures
        be_bytes(n).len() == 4,
        be_value(be_bytes(n)) == n,
{
    let q1 = n / 256;
    let q2 = q1 / 256;
    let q3 = q2 / 256;
    assert(q3 < 256) by {
        assert(n <= 0xffff_ffff);
    }
    assert(q3 * 256 + q2 % 256 == q2);
    assert(q2 * 256 + q1 % 256 == q1);
    assert(q1 * 256 + n % 256 == n);
}

/// The header that announces a payload of `n` bytes.
pub fn encode_length(n: u32) -> (r: [u8; 4])
    ensures
        r@ == be_bytes(n),
{
    let q1 = n / 256;
    let q2 = q1 / 256;
    let q3 = q2 / 256;
    assert(q3 < 256);
    let r: [u8; 4] = [q3 as u8, (q2 % 256) as u8, (q1 % 256) as u8, (n % 256) as u8];
    assert(r@ =~= be_bytes(n));
    r
}

/// The payload length a header announces.
pub fn decode_length(h: &[u8]) -> (r: u32)
    requires
        h@.len() == HEADER_LEN,
    ensures
        r == be_value(h@),
{
    let a = h[0] as u32;
    let b = h[1] as u32;
    let c = h[2] as u32;
    let d = h[3] as u32;
    assert(a * 256 + b <= 0xffff) by (nonlinear_arith)
        requires
            a <= 255,
            b <= 255,
    ;
    let ab = a * 256 + b;
    assert(ab * 256 + c <= 0xff_ffff) by (nonlinear_arith)
        requires
            ab <= 0xffff,
            c <= 255,
    ;
    let abc = ab * 256 + c;
    assert(abc * 256 + d <= 0xffff_ffff) by (nonlinear_arith)
        requires
            abc <= 0xff_ffff,
            d <= 255,
    ;
    abc * 256 + d
}

/// The payload with its length header in front.
pub fn frame(payload: &[u8]) -> (r: Vec<u8>)
    requires
        payload@.len() <= u32::MAX,
    ensures
        r@ == framed(payload@),
{
    let header = encode_length(payload.len() as u32);
    let mut r: Vec<u8> = Vec::new();
    let mut i: usize = 0;
    while i < HEADER_LEN
        invariant
            header@ == be_bytes(payload@.len() as u32),
            i <= HEADER_LEN,
            r@ == header@.subrange(0, i as int),
        decreases HEADER_LEN - i,
    {
        r.push(header[i]);
        assert(header@.subrange(0, i + 1) == header@.subrange(0, i as int).push(header@[i as int]));
        i = i + 1;
    }
    let mut j: usize = 0;
    while j < payload.len()
        invariant
            j <= payload@.len(),
            r@ == be_bytes(payload@.len() as u32) + payload@.subrange(0, j as int),
        decreases payload@.len() - j,
    {
        r.push(payload[j]);
        assert(payload@.subrange(0, j + 1) == payload@.subrange(0, j as int).push(payload@[j as int]));
        j = j + 1;
    }
    assert(payload@.subrange(0, payload@.len() as int) == payload@);
    r
}

/// The payloads of a byte stream made of whole frames; `None` when the
/// stream ends inside a header or a payload.
pub open spec fn spec_frames(s: Seq<u8>) -> Option<Seq<Seq<u8>>>
    decreases s.len(),
{
    if s.len() == 0 {
        Some(Seq::<Seq<u8>>::empty())
    } else if s.len() < 4 {
        None
    } else {
        let n = be_value(s.subrange(0, 4)) as int;
        if s.len() < 4 + n {
            None
        } else {
            match spec_frames(s.subrange(4 + n, s.len() as int)) {
                Some(rest) => Some(seq![s.subrange(4, 4 + n)] + rest),
                None => None,
            }
        }
    }
}

/// The byte stream that carries `ps` one frame after another.
pub open spec fn spec_stream(ps: Seq<Seq<u8>>) -> Seq<u8>
    decreases ps.len(),
{
    if ps.len() == 0 {
        Seq::<u8>::empty()
    } else {
        framed(ps[0]) + spec_stream(ps.drop_first())
    }
}

/// Splitting the stream that carries a list of payloads, each short enough
/// for its header, gives back exactly that list.
pub proof fn lemma_frames_round_trip(ps: Seq<Seq<u8>>)
    requires
        forall|i: int| 0 <= i < ps.len() ==> #[trigger] ps[i].len() <= u32::MAX,
    ensures
        spec_frames(spec_stream(ps)) == Some(ps),
    decreases ps.len(),
{
    if ps.len() == 0 {
        assert(spec_stream(ps) =~= Seq::<u8>::empty());
    } else {
        let p = ps[0];
        let tail = ps.drop_first();
        assert forall|i: int| 0 <= i < tail.len() implies #[trigger] tail[i].len() <= u32::MAX by {
            assert(tail[i] == ps[i + 1]);
        }
        lemma_frames_round_trip(tail);
        lemma_be_round_trip(p.len() as u32);
        let s = spec_stream(ps);
        let n = p.len() as int;
        assert(s.subrange(0, 4) =~= be_bytes(n as u32));
        assert(s.subrange(4, 4 + n) =~= p);
        assert(s.subrange(4 + n, s.len() as int) =~= spec_stream(tail));
        assert(seq![p] + tail =~= ps);
    }
}

/// Why a byte stream could not be split into frames.
#[derive(Clone, Copy, Debug, PartialEq, Eq, Structural)]
pub enum FramingError {
    /// The stream ends inside a length header.
    ShortHeader,
    /// The stream ends before the payload a header announced.
    ShortPayload,
}

fn copy_range(s: &[u8], from: usize, to: usize) -> (r: Vec<u8>)
    requires
        from <= to <= s@.len(),
    ensures
        r@ == s@.subrange(from as int, to as int),
{
    let mut r: Vec<u8> = Vec::new();
    let mut k: usize = from;
    while k < to
        invariant
            from <= k <= to,
            to <= s@.len(),
            r@ == s@.subrange(from as int, k as int),
        decreases to - k,
    {
        r.push(s[k]);
        assert(s@.subrange(from as int, k + 1) == s@.subrange(from as int, k as int).push(
            s@[k as int],
        ));
        k = k + 1;
    }
    r
}

fn header_at(s: &[u8], pos: usize) -> (r: u32)
    requires
        pos + 4 <= s@.len(),
    ensures
        r == be_value(s@.subrange(pos as int, pos + 4)),
{
    let len = s.len();
    assert(pos + 4 <= len);
    let h = copy_range(s, pos, pos + 4);
    decode_length(h.as_slice())
}

/// The contents of a list of byte vectors.
pub open spec fn contents(fs: Seq<Vec<u8>>) -> Seq<Seq<u8>> {
    fs.map_values(|v: Vec<u8>| v@)
}

/// Splits a byte stream made of whole length-prefixed frames into their
/// payloads, in order.
pub fn split_frames(s: &[u8]) -> (r: Result<Vec<Vec<u8>>, FramingError>)
    ensures
        match r {
            Ok(fs) => spec_frames(s@) == Some(contents(fs@)),
            Err(_) => spec_frames(s@) is None,
        },
{
    let mut frames: Vec<Vec<u8>> = Vec::new();
    let mut pos: usize = 0;
    assert(contents(frames@) =~= Seq::<Seq<u8>>::empty());
    assert(s@.subrange(0, s@.len() as int) =~= s@);
    proof {
        match spec_frames(s@) {
            Some(rest) => {
                assert(contents(frames@) + rest =~= rest);
            },
            None => {},
        }
    }
    while pos < s.len()
        invariant
            pos <= s@.len(),
            spec_frames(s@) == match spec_frames(s@.subrange(pos as int, s@.len() as int)) {
                Some(rest) => Some(contents(frames@) + rest),
                None => None,
            },
        decreases s@.len() - pos,
    {
        let ghost t = s@.subrange(pos as int, s@.len() as int);
        if s.len() - pos < HEADER_LEN {
            return Err(FramingError::ShortHeader);
        }
        let n = header_at(s, pos);
        assert(t.subrange(0, 4) =~= s@.subrange(pos as int, pos + 4));
        if s.len() - pos - HEADER_LEN < n as usize {
            return Err(FramingError::ShortPayload);
        }
        let end = pos + HEADER_LEN + n as usize;
        let p = copy_range(s, pos + HEADER_LEN, end);
        assert(t.subrange(4, 4 + n) =~= p@);
        assert(t.subrange(4 + n, t.len() as int) =~= s@.subrange(end as int, s@.len() as int));
        let ghost before = contents(frames@);
        proof {
            let ghost old_frames = contents(frames@);
            match spec_frames(s@.subrange(end as int, s@.len() as int)) {
                Some(rest) => {
                    assert(old_frames + (seq![p@] + rest) =~= old_frames.push(p@) + rest);
                },
                None => {},
            }
        }
        frames.push(p);
        assert(contents(frames@) =~= before.push(p@));
        pos = end;
    }
    assert(s@.subrange(pos as int, s@.len() as int) =~= Seq::<u8>::empty());
    Ok(frames)
}

/// The acknowledgement written after every request that became a command.
pub const SUCCESS_RECORD: &'static str = "{\"type\": \"success\"}";

pub const MALFORMED_RECORD: &'static str = "{\"type\": \"error\", \"reason\": \"malformed\"}";

pub const UNKNOWN_COMMAND_RECORD: &'static str = "{\"type\": \"error\", \"reason\": \"unknown_command\"}";

pub const MISSING_SHAPE_RECORD: &'static str = "{\"type\": \"error\", \"reason\": \"missing_shape\"}";

pub const MISSING_CENTER_RECORD: &'static str = "{\"type\": \"error\", \"reason\": \"missing_center\"}";

pub const MISSING_CHANNELS_RECORD: &'static str = "{\"type\": \"error\", \"reason\": \"missing_channels\"}";

/// The error record written for a request that could not become a command.
pub open spec fn error_text(e: DecodeError) -> &'static str {
    match e {
        DecodeError::Malformed => MALFORMED_RECORD,
        DecodeError::UnknownCommand => UNKNOWN_COMMAND_RECORD,
        DecodeError::MissingShape => MISSING_SHAPE_RECORD,
        DecodeError::MissingCenter => MISSING_CENTER_RECORD,
        DecodeError::MissingChannels => MISSING_CHANNELS_RECORD,
    }
}

/// The bytes of the acknowledgement record.
pub fn success_record() -> (r: Vec<u8>)
    ensures
        r@ == SUCCESS_RECORD.spec_bytes(),
{
    SUCCESS_RECORD.as_bytes_vec()
}

/// The bytes of the error record for `e`.
pub fn error_record(e: DecodeError) -> (r: Vec<u8>)
    ensures
        r@ == error_text(e).spec_bytes(),
{
    match e {
        DecodeError::Malformed => MALFORMED_RECORD.as_bytes_vec(),
        DecodeError::UnknownCommand => UNKNOWN_COMMAND_RECORD.as_bytes_vec(),
        DecodeError::MissingShape => MISSING_SHAPE_RECORD.as_bytes_vec(),
        DecodeError::MissingCenter => MISSING_CENTER_RECORD.as_bytes_vec(),
        DecodeError::MissingChannels => MISSING_CHANNELS_RECORD.as_bytes_vec(),
    }
}

/// Every reply record is plain ASCII and short enough for any header.
pub proof fn lemma_records_short(e: DecodeError)
    ensures
        SUCCESS_RECORD.spec_bytes().len() < 256,
        error_text(e).spec_bytes().len() < 256,
{
    broadcast use is_ascii_spec_bytes;

    reveal_strlit("{\"type\": \"success\"}");
    assert(is_ascii(SUCCESS_RECORD));
    match e {
        DecodeError::Malformed => {
            reveal_strlit("{\"type\": \"error\", \"reason\": \"malformed\"}");
            assert(is_ascii(MALFORMED_RECORD));
        },
        DecodeError::UnknownCommand => {
            reveal_strlit("{\"type\": \"error\", \"reason\": \"unknown_command\"}");
            assert(is_ascii(UNKNOWN_COMMAND_RECORD));
        },
        DecodeError::MissingShape => {
            reveal_strlit("{\"type\": \"error\", \"reason\": \"missing_shape\"}");
            assert(is_ascii(MISSING_SHAPE_RECORD));
        },
        DecodeError::MissingCenter => {
            reveal_strlit("{\"type\": \"error\", \"reason\": \"missing_center\"}");
            assert(is_ascii(MISSING_CENTER_RECORD));
        },
        DecodeError::MissingChannels => {
            reveal_strlit("{\"type\": \"error\", \"reason\": \"missing_channels\"}");
            assert(is_ascii(MISSING_CHANNELS_RECORD));
        },
    }
}

} // verus!
