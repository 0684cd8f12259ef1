//! The WebSocket opening handshake key and server frames.
use vstd::prelude::*;
use vstd::string::StringExecFns;
use vstd::utf8::encode_utf8;
use crate::text::append_bytes;

verus! {

/// The GUID that RFC 6455 appends to the client's key.
pub const WEBSOCKET_GUID: &'static str = "258EAFA5-E914-47DA-95CA-C5AB0DC85B11";

/// The SHA-1 digest of some bytes.
pub uninterp spec fn sha1_of(data: Seq<u8>) -> Seq<u8>;

/// The base64 digit for a value below 64: `A`-`Z`, `a`-`z`, `0`-`9`, `+`, `/`.
pub open spec fn base64_digit(v: nat) -> char {
    if v < 26 {
        ((65 + v) as u8) as char
    } else if v < 52 {
        ((97 + (v - 26)) as u8) as char
    } else if v < 62 {
        ((48 + (v - 52)) as u8) as char
    } else if v == 62 {
        '+'
    } else {
        '/'
    }
}

/// The padded, standard-alphabet base64 text of some bytes: each group of
/// three bytes becomes four digits of six bits each; a last group of one or
/// two bytes is padded with `=`.
pub open spec fn base64_of(data: Seq<u8>) -> Seq<char>
    decreases data.len(),
{
    if data.len() == 0 {
        Seq::empty()
    } else if data.len() == 1 {
        let b0 = data[0] as nat;
        seq![base64_digit(b0 / 4), base64_digit((b0 % 4) * 16), '=', '=']
    } else if data.len() == 2 {
        let b0 = data[0] as nat;
        let b1 = data[1] as nat;
        seq![
            base64_digit(b0 / 4),
            base64_digit((b0 % 4) * 16 + b1 / 16),
            base64_digit((b1 % 16) * 4),
            '=',
        ]
    } else {
        let b0 = data[0] as nat;
        let b1 = data[1] as nat;
        let b2 = data[2] as nat;
        seq![
            base64_digit(b0 / 4),
            base64_digit((b0 % 4) * 16 + b1 / 16),
            base64_digit((b1 % 16) * 4 + b2 / 64),
            base64_digit(b2 % 64),
        ] + base64_of(data.subrange(3, data.len() as int))
    }
}

/// Relies on sha1's `Digest::digest` for `Sha1`: the 20-byte SHA-1 digest.
#[verifier::external_body]
fn sha1_digest(data: &[u8]) -> (r: Vec<u8>)
    ensures
        r@ == sha1_of(data@),
        r@.len() == 20,
{
    <sha1::Sha1 as sha1::Digest>::digest(data).to_vec()
}

/// Relies on base64's `Engine::encode` with the `STANDARD` engine: padded
/// base64 over the standard alphabet, as `base64_of` states it. It panics
/// only when the encoded length overflows `usize`, which the bound on the
/// input rules out.
#[verifier::external_body]
fn base64_encode(data: &[u8]) -> (r: String)
    requires
        data@.len() <= 0x1000_0000,
    ensures
        r@ == base64_of(data@),
{
    base64::Engine::encode(&base64::engine::general_purpose::STANDARD, data)
}

/// The `Sec-WebSocket-Accept` value for a client key: base64 of the SHA-1
/// of the key followed by the GUID.
pub open spec fn accept_key_of(key: Seq<char>) -> Seq<char> {
    base64_of(sha1_of(encode_utf8(key + WEBSOCKET_GUID@)))
}

/// Computes the `Sec-WebSocket-Accept` value for a client key.
pub fn generate_accept_key(key: &str) -> (r: String)
    ensures
        r@ == accept_key_of(key@),
{
    let joined = key.to_string().concat(WEBSOCKET_GUID);
    let digest = sha1_digest(joined.as_str().as_bytes());
    base64_encode(digest.as_slice())
}

/// `n` as `k` big-endian bytes (the low `k` bytes).
pub open spec fn be_bytes(n: nat, k: nat) -> Seq<u8>
    decreases k,
{
    if k == 0 {
        Seq::empty()
    } else {
        be_bytes(n / 256, (k - 1) as nat).push((n % 256) as u8)
    }
}

/// The length field of a frame header for a payload of `n` bytes.
pub open spec fn frame_length(n: nat) -> Seq<u8> {
    if n <= 125 {
        seq![n as u8]
    } else if n <= 0xffff {
        seq![126u8] + be_bytes(n, 2)
    } else {
        seq![127u8] + be_bytes(n, 8)
    }
}

/// A final, unmasked text frame carrying `payload`.
pub open spec fn text_frame(payload: Seq<u8>) -> Seq<u8> {
    seq![0x81u8] + frame_length(payload.len()) + payload
}

fn be_bytes_exec(n: u64, k: usize) -> (r: Vec<u8>)
    ensures
        r@ == be_bytes(n as nat, k as nat),
{
    let mut out: Vec<u8> = Vec::new();
    let mut m: u64 = n;
    let mut j: usize = k;
    while j > 0
        invariant
            j <= k,
            be_bytes(n as nat, k as nat) == be_bytes(m as nat, j as nat) + out@,
        decreases j,
    {
        let ghost before = out@;
        let b: u8 = (m % 256) as u8;
        out.insert(0, b);
        assert(out@ =~= seq![b] + before);
        assert(be_bytes(m as nat, j as nat) == be_bytes((m / 256) as nat, (j - 1) as nat).push(b));
        assert(be_bytes((m / 256) as nat, (j - 1) as nat).push(b) + before =~= be_bytes(
            (m / 256) as nat,
            (j - 1) as nat,
        ) + out@);
        m = m / 256;
        j = j - 1;
    }
    assert(be_bytes(m as nat, 0) + out@ =~= out@);
    out
}

/// Wraps a body in one text frame, as a server sends it.
pub fn encode_text_frame(payload: &[u8]) -> (r: Vec<u8>)
    ensures
        r@ == text_frame(payload@),
{
    let n = payload.len();
    let mut out: Vec<u8> = Vec::new();
    out.push(0x81u8);
    if n <= 125 {
        out.push(n as u8);
    } else if n <= 0xffff {
        out.push(126u8);
        let len = be_bytes_exec(n as u64, 2);
        append_bytes(&mut out, len.as_slice());
    } else {
        out.push(127u8);
        let len = be_bytes_exec(n as u64, 8);
        append_bytes(&mut out, len.as_slice());
    }
    append_bytes(&mut out, payload);
    assert(out@ =~= text_frame(payload@));
    out
}

/// Bytes that follow the first two of a frame header to give its length.
pub open spec fn frame_ext_len(b1: u8) -> nat {
    if b1 & 0x7f == 126 {
        2
    } else if b1 & 0x7f == 127 {
        8
    } else {
        0
    }
}

/// The size of a frame header, known from its second byte.
pub open spec fn frame_header_len(b1: u8) -> nat {
    2 + frame_ext_len(b1) + if b1 & 0x80 != 0 {
        4nat
    } else {
        0nat
    }
}

pub fn frame_header_size(b1: u8) -> (r: usize)
    ensures
        r == frame_header_len(b1),
{
    let ext: usize = if b1 & 0x7f == 126 {
        2
    } else if b1 & 0x7f == 127 {
        8
    } else {
        0
    };
    let mask: usize = if b1 & 0x80 != 0 {
        4
    } else {
        0
    };
    2 + ext + mask
}

/// The number that big-endian bytes stand for.
pub open spec fn be_value(s: Seq<u8>) -> nat
    decreases s.len(),
{
    if s.len() == 0 {
        0
    } else {
        be_value(s.drop_last()) * 256 + s.last() as nat
    }
}

pub open spec fn pow256(k: nat) -> nat
    decreases k,
{
    if k == 0 {
        1
    } else {
        256 * pow256((k - 1) as nat)
    }
}

proof fn lemma_be_value_bound(s: Seq<u8>)
    ensures
        be_value(s) < pow256(s.len()),
    decreases s.len(),
{
    if s.len() > 0 {
        lemma_be_value_bound(s.drop_last());
        let a = be_value(s.drop_last());
        let p = pow256(s.drop_last().len());
        let b = s.last() as nat;
        assert(a * 256 + b < 256 * p) by (nonlinear_arith)
            requires
                a < p,
                b < 256,
        ;
    }
}

/// A frame header: final flag, opcode, payload length and masking key.
#[derive(Clone, Debug)]
pub struct FrameHeader {
    pub fin: bool,
    pub opcode: u8,
    pub payload_len: u64,
    /// The four-byte key of a masked frame.
    pub mask: Option<Vec<u8>>,
}

/// What a header of exactly `frame_header_len(h[1])` bytes says.
pub open spec fn frame_header_of(h: Seq<u8>, r: FrameHeader) -> bool {
    let ext = frame_ext_len(h[1]) as int;
    &&& r.fin == (h[0] & 0x80 != 0)
    &&& r.opcode == h[0] & 0x0f
    &&& r.payload_len as nat == if ext == 0 {
        (h[1] & 0x7f) as nat
    } else {
        be_value(h.subrange(2, 2 + ext))
    }
    &&& match r.mask {
        Some(k) => h[1] & 0x80 != 0 && k@ == h.subrange(2 + ext, 2 + ext + 4),
        None => h[1] & 0x80 == 0,
    }
}

/// Reads a frame header; none unless `h` is exactly as long as its second
/// byte says.
pub fn parse_frame_header(h: &[u8]) -> (r: Option<FrameHeader>)
    ensures
        r is Some <==> h@.len() >= 2 && h@.len() == frame_header_len(h@[1]),
        r matches Some(f) ==> frame_header_of(h@, f),
{
    if h.len() < 2 {
        return None;
    }
    let size = frame_header_size(h[1]);
    if h.len() != size {
        return None;
    }
    let ext: usize = if h[1] & 0x7f == 126 {
        2
    } else if h[1] & 0x7f == 127 {
        8
    } else {
        0
    };
    let payload_len: u64 = if ext == 0 {
        (h[1] & 0x7f) as u64
    } else {
        let mut acc: u64 = 0;
        let mut i: usize = 2;
        while i < 2 + ext
            invariant
                2 <= i <= 2 + ext <= h@.len(),
                ext <= 8,
                acc as nat == be_value(h@.subrange(2, i as int)),
                (acc as nat) < pow256((i - 2) as nat),
            decreases 2 + ext - i,
        {
            assert(h@.subrange(2, i + 1).drop_last() =~= h@.subrange(2, i as int));
            proof {
                lemma_be_value_bound(h@.subrange(2, i + 1));
                lemma_pow256_8();
                lemma_pow256_mono((i - 1) as nat, 8);
            }
            acc = acc * 256 + h[i] as u64;
            i = i + 1;
        }
        acc
    };
    let mask = if h[1] & 0x80 != 0 {
        Some(crate::parse::sub_bytes(h, 2 + ext, 2 + ext + 4))
    } else {
        None
    };
    Some(FrameHeader { fin: h[0] & 0x80 != 0, opcode: h[0] & 0x0f, payload_len, mask })
}

proof fn lemma_pow256_8()
    ensures
        pow256(8) == 0x1_0000_0000_0000_0000,
{
    assert(pow256(0) == 1);
    assert(pow256(1) == 0x100);
    assert(pow256(2) == 0x1_0000);
    assert(pow256(3) == 0x100_0000);
    assert(pow256(4) == 0x1_0000_0000);
    assert(pow256(5) == 0x100_0000_0000);
    assert(pow256(6) == 0x1_0000_0000_0000);
    assert(pow256(7) == 0x100_0000_0000_0000);
}

proof fn lemma_pow256_mono(a: nat, b: nat)
    requires
        a <= b,
    ensures
        pow256(a) <= pow256(b),
    decreases b,
{
    if a < b {
        lemma_pow256_mono(a, (b - 1) as nat);
    }
}

/// What the frame loop does with a frame: hand its payload to the pipeline,
/// skip it (ping, pong and other control frames), or end the session (close).
#[derive(Clone, Copy, Debug, PartialEq, Eq, Structural)]
pub enum FrameDisposition {
    Deliver,
    Skip,
    End,
}

impl FrameHeader {
    pub open spec fn spec_disposition(&self) -> FrameDisposition {
        if self.opcode == 8 {
            FrameDisposition::End
        } else if self.opcode >= 8 {
            FrameDisposition::Skip
        } else {
            FrameDisposition::Deliver
        }
    }

    pub fn disposition(&self) -> (r: FrameDisposition)
        ensures
            r == self.spec_disposition(),
    {
        if self.opcode == 8 {
            FrameDisposition::End
        } else if self.opcode >= 8 {
            FrameDisposition::Skip
        } else {
            FrameDisposition::Deliver
        }
    }
}

/// Removes a client's mask: byte `i` is XORed with key byte `i % 4`.
pub fn unmask(payload: &[u8], key: &[u8]) -> (r: Vec<u8>)
    requires
        key@.len() == 4,
    ensures
        r@.len() == payload@.len(),
        forall|i: int| 0 <= i < payload@.len() ==> #[trigger] r@[i] == payload@[i] ^ key@[i % 4],
{
    let mut out: Vec<u8> = Vec::new();
    let mut i: usize = 0;
    while i < payload.len()
        invariant
            key@.len() == 4,
            i <= payload@.len(),
            out@.len() == i,
            forall|j: int| 0 <= j < i ==> #[trigger] out@[j] == payload@[j] ^ key@[j % 4],
        decreases payload@.len() - i,
    {
        out.push(payload[i] ^ key[i % 4]);
        i = i + 1;
    }
    out
}

} // verus!
