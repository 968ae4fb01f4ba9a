//! What every revision of the wire format shares: the frame header, the big-endian
//! numbers and text a payload is made of, and the ways a frame can be malformed.
//!
//! Text is modelled by its UTF-8 bytes, which is what the wire carries.
use vstd::prelude::*;
use vstd::string::StringSliceAdditionalSpecFns;
use vstd::utf8::valid_utf8;

use crate::text::{copy_text, decimal, digits, hex_byte, push_hex_byte, put};

verus! {

/// Fixed frame header size: a reader sizes the payload from the first four bytes it has,
/// and never has to scan for a boundary.
pub const HEADER_LEN: usize = 4;

/// Largest permitted payload. Bounds the peer's ability to force an allocation.
pub const MAX_PAYLOAD: u32 = 256 * 1024;

/// Sentinel for a greeting's output offset meaning "I have no state; send everything
/// retained".
pub const RESUME_FROM_START: u64 = 0xffff_ffff_ffff_ffff;

/// A malformed frame.
#[derive(Debug, Clone, Copy, PartialEq, Eq)]
pub enum ProtoError {
    /// Discriminant is not a known frame type.
    UnknownFrameType(u8),
    /// Declared length exceeds [`MAX_PAYLOAD`].
    PayloadTooLarge(u32),
    /// Payload ended before the frame's fixed fields were complete.
    Truncated,
    /// Payload continued past the end of a fixed-size frame.
    TrailingBytes,
    /// Structurally intact but semantically invalid.
    Malformed(&'static str),
}

impl ProtoError {
    /// What is said of it.
    pub open spec fn said(self) -> Seq<char> {
        match self {
            ProtoError::UnknownFrameType(byte) => "unknown frame type "@ + hex_byte(byte),
            ProtoError::PayloadTooLarge(len) => "payload of "@ + digits(len as nat, 10)
                + " bytes exceeds maximum of 262144"@,
            ProtoError::Truncated => "frame payload is truncated"@,
            ProtoError::TrailingBytes => "frame payload has trailing bytes"@,
            ProtoError::Malformed(what) => "malformed frame: "@ + what@,
        }
    }

    /// What is said of it.
    pub fn message(&self) -> (r: String)
        ensures
            r@ == self.said(),
    {
        match *self {
            ProtoError::UnknownFrameType(byte) => {
                let mut said: String = copy_text("unknown frame type ");
                push_hex_byte(&mut said, byte);
                said
            },
            ProtoError::PayloadTooLarge(len) => {
                let mut said: String = copy_text("payload of ");
                put(&mut said, decimal(len as u64).as_str());
                put(&mut said, " bytes exceeds maximum of 262144");
                said
            },
            ProtoError::Truncated => copy_text("frame payload is truncated"),
            ProtoError::TrailingBytes => copy_text("frame payload has trailing bytes"),
            ProtoError::Malformed(what) => {
                let mut said: String = copy_text("malformed frame: ");
                put(&mut said, what);
                said
            },
        }
    }
}

/// Terminal dimensions, applied to the PTY master via `TIOCSWINSZ`.
#[derive(Debug, Clone, Copy, PartialEq, Eq, Structural)]
pub struct WinSize {
    /// Columns.
    pub cols: u16,
    /// Rows.
    pub rows: u16,
    /// Width in pixels, 0 when unknown.
    pub xpixel: u16,
    /// Height in pixels, 0 when unknown.
    pub ypixel: u16,
}

impl Default for WinSize {
    fn default() -> (win: WinSize)
        ensures
            win == (WinSize { cols: 0, rows: 0, xpixel: 0, ypixel: 0 }),
    {
        WinSize { cols: 0, rows: 0, xpixel: 0, ypixel: 0 }
    }
}

// ---------------------------------------------------------------------------
// Numbers
// ---------------------------------------------------------------------------

/// Two bytes, most significant first.
pub open spec fn be16(v: u16) -> Seq<u8> {
    seq![(v / 256) as u8, (v % 256) as u8]
}

/// Four bytes, most significant first.
pub open spec fn be32(v: u32) -> Seq<u8> {
    be16((v / 0x1_0000) as u16) + be16((v % 0x1_0000) as u16)
}

/// Eight bytes, most significant first.
pub open spec fn be64(v: u64) -> Seq<u8> {
    be32((v / 0x1_0000_0000) as u32) + be32((v % 0x1_0000_0000) as u32)
}

/// The number two bytes at `at` spell, most significant first.
pub open spec fn u16_at(s: Seq<u8>, at: int) -> u16 {
    (s[at] * 256 + s[at + 1]) as u16
}

/// The number four bytes at `at` spell, most significant first.
pub open spec fn u32_at(s: Seq<u8>, at: int) -> u32 {
    (u16_at(s, at) * 0x1_0000 + u16_at(s, at + 2)) as u32
}

/// The number eight bytes at `at` spell, most significant first.
pub open spec fn u64_at(s: Seq<u8>, at: int) -> u64 {
    (u32_at(s, at) * 0x1_0000_0000 + u32_at(s, at + 4)) as u64
}

/// The two's-complement word a signed status travels as.
pub open spec fn word_of(v: i32) -> u32 {
    if v >= 0 {
        v as u32
    } else {
        (v + 0x1_0000_0000) as u32
    }
}

/// The signed number a two's-complement word stands for.
pub open spec fn signed(w: u32) -> i32 {
    if w < 0x8000_0000 {
        w as i32
    } else {
        (w - 0x1_0000_0000) as i32
    }
}

/// The four `u16`s of a window size, in wire order.
pub open spec fn win_bytes(win: WinSize) -> Seq<u8> {
    be16(win.cols) + be16(win.rows) + be16(win.xpixel) + be16(win.ypixel)
}

/// The window size eight bytes at `at` spell.
pub open spec fn win_at(s: Seq<u8>, at: int) -> WinSize {
    WinSize {
        cols: u16_at(s, at),
        rows: u16_at(s, at + 2),
        xpixel: u16_at(s, at + 4),
        ypixel: u16_at(s, at + 6),
    }
}

/// A bit of a flags byte, as the byte with that bit alone set or as zero.
pub open spec fn bit(set: bool, value: u8) -> u8 {
    if set {
        value
    } else {
        0
    }
}

/// `part` stands in `s` at `at`.
pub open spec fn holds_at(s: Seq<u8>, at: int, part: Seq<u8>) -> bool {
    &&& 0 <= at
    &&& at + part.len() <= s.len()
    &&& s.subrange(at, at + part.len()) == part
}

/// Reading a 16-bit number gives back the one that was written there.
pub(crate) proof fn lemma_u16_written(s: Seq<u8>, at: int, v: u16)
    requires
        holds_at(s, at, be16(v)),
    ensures
        u16_at(s, at) == v,
{
    let part = s.subrange(at, at + 2);
    assert(part[0] == s[at] && part[1] == s[at + 1]);
}

/// Writing the 16-bit number that was read gives back the bytes it was read from.
pub(crate) proof fn lemma_u16_read(s: Seq<u8>, at: int)
    requires
        0 <= at,
        at + 2 <= s.len(),
    ensures
        be16(u16_at(s, at)) == s.subrange(at, at + 2),
{
    let v = u16_at(s, at);
    assert(v == s[at] * 256 + s[at + 1]);
    assert(be16(v) =~= s.subrange(at, at + 2));
}

/// Reading a 32-bit number gives back the one that was written there.
pub(crate) proof fn lemma_u32_written(s: Seq<u8>, at: int, v: u32)
    requires
        holds_at(s, at, be32(v)),
    ensures
        u32_at(s, at) == v,
{
    let high = (v / 0x1_0000) as u16;
    let low = (v % 0x1_0000) as u16;
    let part = s.subrange(at, at + 4);
    assert(s.subrange(at, at + 2) =~= part.subrange(0, 2));
    assert(be32(v).subrange(0, 2) =~= be16(high));
    assert(s.subrange(at + 2, at + 4) =~= part.subrange(2, 4));
    assert(be32(v).subrange(2, 4) =~= be16(low));
    lemma_u16_written(s, at, high);
    lemma_u16_written(s, at + 2, low);
}

/// Writing the 32-bit number that was read gives back the bytes it was read from.
pub(crate) proof fn lemma_u32_read(s: Seq<u8>, at: int)
    requires
        0 <= at,
        at + 4 <= s.len(),
    ensures
        be32(u32_at(s, at)) == s.subrange(at, at + 4),
{
    lemma_u16_read(s, at);
    lemma_u16_read(s, at + 2);
    let v = u32_at(s, at);
    assert(v == u16_at(s, at) * 0x1_0000 + u16_at(s, at + 2));
    assert(be32(v) =~= s.subrange(at, at + 4));
}

/// Reading a 64-bit number gives back the one that was written there.
pub(crate) proof fn lemma_u64_written(s: Seq<u8>, at: int, v: u64)
    requires
        holds_at(s, at, be64(v)),
    ensures
        u64_at(s, at) == v,
{
    let high = (v / 0x1_0000_0000) as u32;
    let low = (v % 0x1_0000_0000) as u32;
    let part = s.subrange(at, at + 8);
    assert(s.subrange(at, at + 4) =~= part.subrange(0, 4));
    assert(be64(v).subrange(0, 4) =~= be32(high));
    assert(s.subrange(at + 4, at + 8) =~= part.subrange(4, 8));
    assert(be64(v).subrange(4, 8) =~= be32(low));
    lemma_u32_written(s, at, high);
    lemma_u32_written(s, at + 4, low);
}

/// A 64-bit number is told apart into the two halves it was put together from.
proof fn lemma_split64(high: u32, low: u32)
    ensures
        ({
            let v = (high * 0x1_0000_0000 + low) as u64;
            (v / 0x1_0000_0000) as u32 == high && (v % 0x1_0000_0000) as u32 == low
        }),
{
}

/// Writing the 64-bit number that was read gives back the bytes it was read from.
pub(crate) proof fn lemma_u64_read(s: Seq<u8>, at: int)
    requires
        0 <= at,
        at + 8 <= s.len(),
    ensures
        be64(u64_at(s, at)) == s.subrange(at, at + 8),
{
    let high = u32_at(s, at);
    let low = u32_at(s, at + 4);
    lemma_split64(high, low);
    lemma_u32_read(s, at);
    lemma_u32_read(s, at + 4);
    assert(s.subrange(at, at + 4) + s.subrange(at + 4, at + 8) =~= s.subrange(at, at + 8));
}

/// A signed status survives its two's-complement word, in both directions.
pub(crate) proof fn lemma_signed(v: i32, w: u32)
    ensures
        signed(word_of(v)) == v,
        word_of(signed(w)) == w,
{
}

/// Reading a window size gives back the one that was written there.
pub(crate) proof fn lemma_win_written(s: Seq<u8>, at: int, win: WinSize)
    requires
        holds_at(s, at, win_bytes(win)),
    ensures
        win_at(s, at) == win,
{
    let part = s.subrange(at, at + 8);
    let bytes = win_bytes(win);
    assert(s.subrange(at, at + 2) =~= part.subrange(0, 2));
    assert(bytes.subrange(0, 2) =~= be16(win.cols));
    assert(s.subrange(at + 2, at + 4) =~= part.subrange(2, 4));
    assert(bytes.subrange(2, 4) =~= be16(win.rows));
    assert(s.subrange(at + 4, at + 6) =~= part.subrange(4, 6));
    assert(bytes.subrange(4, 6) =~= be16(win.xpixel));
    assert(s.subrange(at + 6, at + 8) =~= part.subrange(6, 8));
    assert(bytes.subrange(6, 8) =~= be16(win.ypixel));
    lemma_u16_written(s, at, win.cols);
    lemma_u16_written(s, at + 2, win.rows);
    lemma_u16_written(s, at + 4, win.xpixel);
    lemma_u16_written(s, at + 6, win.ypixel);
}

/// Writing the window size that was read gives back the bytes it was read from.
pub(crate) proof fn lemma_win_read(s: Seq<u8>, at: int)
    requires
        0 <= at,
        at + 8 <= s.len(),
    ensures
        win_bytes(win_at(s, at)) == s.subrange(at, at + 8),
{
    lemma_u16_read(s, at);
    lemma_u16_read(s, at + 2);
    lemma_u16_read(s, at + 4);
    lemma_u16_read(s, at + 6);
    assert(win_bytes(win_at(s, at)) =~= s.subrange(at, at + 8));
}

/// The bytes from `at` to the end of the payload.
pub open spec fn tail(p: Seq<u8>, at: int) -> Seq<u8> {
    p.subrange(at, p.len() as int)
}

/// The first bytes of `a + b` are `a`'s, and what follows is `b`'s.
pub(crate) proof fn lemma_parts(a: Seq<u8>, b: Seq<u8>)
    ensures
        holds_at(a + b, 0, a),
        holds_at(a + b, a.len() as int, b),
        tail(a + b, a.len() as int) == b,
{
    assert((a + b).subrange(0, a.len() as int) =~= a);
    assert((a + b).subrange(a.len() as int, (a.len() + b.len()) as int) =~= b);
    assert(tail(a + b, a.len() as int) =~= b);
}

/// A 64-bit number and what follows it are read back apart.
pub(crate) proof fn lemma_u64_then(v: u64, data: Seq<u8>)
    ensures
        ({
            let p = be64(v) + data;
            p.len() == 8 + data.len() && u64_at(p, 0) == v && tail(p, 8) == data
        }),
{
    lemma_parts(be64(v), data);
    lemma_u64_written(be64(v) + data, 0, v);
}

/// A 32-bit number and what follows it are read back apart.
pub(crate) proof fn lemma_u32_then(v: u32, data: Seq<u8>)
    ensures
        ({
            let p = be32(v) + data;
            p.len() == 4 + data.len() && u32_at(p, 0) == v && tail(p, 4) == data
        }),
{
    lemma_parts(be32(v), data);
    lemma_u32_written(be32(v) + data, 0, v);
}

/// A frame that is nothing but one number or one window reads back as it.
pub(crate) proof fn lemma_alone(v: u64, w: u32, win: WinSize)
    ensures
        be64(v).len() == 8 && u64_at(be64(v), 0) == v,
        be32(w).len() == 4 && u32_at(be32(w), 0) == w,
        win_bytes(win).len() == 8 && win_at(win_bytes(win), 0) == win,
{
    assert(be64(v).subrange(0, 8) =~= be64(v));
    lemma_u64_written(be64(v), 0, v);
    assert(be32(w).subrange(0, 4) =~= be32(w));
    lemma_u32_written(be32(w), 0, w);
    assert(win_bytes(win).subrange(0, 8) =~= win_bytes(win));
    lemma_win_written(win_bytes(win), 0, win);
}

/// A leading number and what follows it are the payload they were read from.
pub(crate) proof fn lemma_number_and_tail(p: Seq<u8>)
    ensures
        p.len() >= 8 ==> be64(u64_at(p, 0)) + tail(p, 8) == p,
        p.len() == 8 ==> be64(u64_at(p, 0)) == p && win_bytes(win_at(p, 0)) == p,
        p.len() >= 4 ==> be32(u32_at(p, 0)) + tail(p, 4) == p,
        p.len() == 4 ==> be32(u32_at(p, 0)) == p,
{
    if p.len() >= 8 {
        lemma_u64_read(p, 0);
        assert(p.subrange(0, 8) + tail(p, 8) =~= p);
    }
    if p.len() == 8 {
        lemma_win_read(p, 0);
        assert(p.subrange(0, 8) =~= p);
    }
    if p.len() >= 4 {
        lemma_u32_read(p, 0);
        assert(p.subrange(0, 4) + tail(p, 4) =~= p);
    }
    if p.len() == 4 {
        assert(p.subrange(0, 4) =~= p);
    }
}

// ---------------------------------------------------------------------------
// Writing
// ---------------------------------------------------------------------------

/// Appends `data` to `out`.
pub fn put_bytes(out: &mut Vec<u8>, data: &[u8])
    ensures
        final(out)@ == old(out)@ + data@,
{
    out.extend_from_slice(data);
    assert(out@ =~= old(out)@ + data@);
}

/// Appends `v` to `out`, most significant byte first.
pub fn put_u16(out: &mut Vec<u8>, v: u16)
    ensures
        final(out)@ == old(out)@ + be16(v),
{
    out.push((v / 256) as u8);
    out.push((v % 256) as u8);
    assert(out@ =~= old(out)@ + be16(v));
}

/// Appends `v` to `out`, most significant byte first.
pub fn put_u32(out: &mut Vec<u8>, v: u32)
    ensures
        final(out)@ == old(out)@ + be32(v),
{
    put_u16(out, (v / 0x1_0000) as u16);
    put_u16(out, (v % 0x1_0000) as u16);
    assert(out@ =~= old(out)@ + be32(v));
}

/// Appends `v` to `out`, most significant byte first.
pub fn put_u64(out: &mut Vec<u8>, v: u64)
    ensures
        final(out)@ == old(out)@ + be64(v),
{
    put_u32(out, (v / 0x1_0000_0000) as u32);
    put_u32(out, (v % 0x1_0000_0000) as u32);
    assert(out@ =~= old(out)@ + be64(v));
}

/// Appends the two's-complement word of `v` to `out`.
pub fn put_i32(out: &mut Vec<u8>, v: i32)
    ensures
        final(out)@ == old(out)@ + be32(word_of(v)),
{
    let word: u32 = if v >= 0 {
        v as u32
    } else {
        (v as i64 + 0x1_0000_0000) as u32
    };
    put_u32(out, word);
}

/// Appends the four dimensions of `win` to `out`.
pub fn put_win(out: &mut Vec<u8>, win: WinSize)
    ensures
        final(out)@ == old(out)@ + win_bytes(win),
{
    put_u16(out, win.cols);
    put_u16(out, win.rows);
    put_u16(out, win.xpixel);
    put_u16(out, win.ypixel);
    assert(out@ =~= old(out)@ + win_bytes(win));
}

// ---------------------------------------------------------------------------
// Headers
// ---------------------------------------------------------------------------

/// A frame header: the type byte, then the length in three bytes, most significant first.
pub open spec fn header_bytes(ty: u8, len: u32) -> Seq<u8> {
    seq![ty, (len / 0x1_0000) as u8, ((len / 0x100) % 0x100) as u8, (len % 0x100) as u8]
}

/// The length three bytes spell, most significant first.
pub open spec fn u24(a: u8, b: u8, c: u8) -> u32 {
    (a * 0x1_0000 + b * 0x100 + c) as u32
}

/// The header of a payload of `len` bytes, or the refusal of one past [`MAX_PAYLOAD`].
pub fn header(ty: u8, len: u32) -> (r: Result<[u8; 4], ProtoError>)
    ensures
        match r {
            Ok(bytes) => len <= MAX_PAYLOAD && bytes@ == header_bytes(ty, len),
            Err(e) => len > MAX_PAYLOAD && e == ProtoError::PayloadTooLarge(len),
        },
{
    if len > MAX_PAYLOAD {
        return Err(ProtoError::PayloadTooLarge(len));
    }
    let bytes: [u8; 4] = [
        ty,
        (len / 0x1_0000) as u8,
        ((len / 0x100) % 0x100) as u8,
        (len % 0x100) as u8,
    ];
    assert(bytes@ =~= header_bytes(ty, len));
    Ok(bytes)
}

/// The three length bytes and the length they spell determine each other.
pub(crate) proof fn lemma_length_field(len: u32, a: u8, b: u8, c: u8)
    ensures
        len <= MAX_PAYLOAD ==> u24(
            (len / 0x1_0000) as u8,
            ((len / 0x100) % 0x100) as u8,
            (len % 0x100) as u8,
        ) == len,
        (u24(a, b, c) / 0x1_0000) as u8 == a,
        ((u24(a, b, c) / 0x100) % 0x100) as u8 == b,
        (u24(a, b, c) % 0x100) as u8 == c,
{
}

/// The length a payload is reported to have where it does not fit a frame.
pub open spec fn reported_len(len: nat) -> u32 {
    if len > u32::MAX {
        u32::MAX
    } else {
        len as u32
    }
}

/// Puts the header of the frame whose payload already stands in `out` behind four spare
/// bytes at `start`.
pub(crate) fn patch_header(out: &mut Vec<u8>, start: usize, ty: u8) -> (r: Result<
    (),
    ProtoError,
>)
    requires
        start + 4 <= old(out)@.len(),
    ensures
        ({
            let payload = old(out)@.subrange(start + 4, old(out)@.len() as int);
            if payload.len() > MAX_PAYLOAD {
                &&& r == Err::<(), ProtoError>(
                    ProtoError::PayloadTooLarge(reported_len(payload.len())),
                )
                &&& final(out)@ == old(out)@
            } else {
                &&& r is Ok
                &&& final(out)@ == old(out)@.subrange(0, start as int) + header_bytes(
                    ty,
                    payload.len() as u32,
                ) + payload
            }
        }),
{
    let len: usize = out.len() - start - 4;
    if len > MAX_PAYLOAD as usize {
        if len > u32::MAX as usize {
            return Err(ProtoError::PayloadTooLarge(u32::MAX));
        }
        return Err(ProtoError::PayloadTooLarge(len as u32));
    }
    let bytes: [u8; 4] = header(ty, len as u32)?;
    out[start] = bytes[0];
    out[start + 1] = bytes[1];
    out[start + 2] = bytes[2];
    out[start + 3] = bytes[3];
    proof {
        let payload = old(out)@.subrange(start + 4, old(out)@.len() as int);
        assert(out@ =~= old(out)@.subrange(0, start as int) + header_bytes(
            ty,
            payload.len() as u32,
        ) + payload);
    }
    Ok(())
}

// ---------------------------------------------------------------------------
// Text
// ---------------------------------------------------------------------------

/// The text `bytes` are the UTF-8 encoding of, where they are one.
///
/// Rests on [`core::str::from_utf8`]: it accepts exactly the valid UTF-8 sequences, and
/// what it hands back is the same bytes under the type of text.
#[verifier::external_body]
pub(crate) fn utf8_text(bytes: &[u8]) -> (r: Option<&str>)
    ensures
        r is Some <==> valid_utf8(bytes@),
        r matches Some(s) ==> s.spec_bytes() == bytes@,
{
    core::str::from_utf8(bytes).ok()
}

/// Whether `text` holds a NUL byte.
pub(crate) fn has_nul(text: &[u8]) -> (r: bool)
    ensures
        r == text@.contains(0u8),
{
    let mut i: usize = 0;
    while i < text.len()
        invariant
            i <= text@.len(),
            forall|k: int| 0 <= k < i ==> text@[k] != 0,
        decreases text@.len() - i,
    {
        if text[i] == 0 {
            return true;
        }
        i += 1;
    }
    false
}

// ---------------------------------------------------------------------------
// Reading
// ---------------------------------------------------------------------------

/// Big-endian cursor over a frame payload.
pub(crate) struct Reader<'a> {
    pub(crate) buf: &'a [u8],
    pub(crate) pos: usize,
}

impl<'a> Reader<'a> {
    pub(crate) open spec fn wf(&self) -> bool {
        self.pos <= self.buf@.len()
    }

    /// `self` moved past the next `n` bytes of what `before` was reading.
    pub(crate) open spec fn moved(&self, before: &Reader<'a>, n: int) -> bool {
        &&& before.pos + n <= before.buf@.len()
        &&& self.buf == before.buf
        &&& self.pos == before.pos + n
    }

    /// Fewer than `n` bytes are left, which is the only way a read fails.
    pub(crate) open spec fn short(&self, n: int, e: ProtoError) -> bool {
        &&& e == ProtoError::Truncated
        &&& self.pos + n > self.buf@.len()
    }

    pub(crate) fn new(buf: &'a [u8]) -> (r: Reader<'a>)
        ensures
            r.wf(),
            r.buf == buf,
            r.pos == 0,
    {
        Reader { buf, pos: 0 }
    }

    pub(crate) fn take(&mut self, n: usize) -> (r: Result<&'a [u8], ProtoError>)
        requires
            old(self).wf(),
        ensures
            final(self).wf(),
            match r {
                Ok(v) => final(self).moved(old(self), n as int) && v@ == old(self).buf@.subrange(
                    old(self).pos as int,
                    old(self).pos + n,
                ),
                Err(e) => old(self).short(n as int, e),
            },
    {
        if self.buf.len() - self.pos < n {
            return Err(ProtoError::Truncated);
        }
        let head: &'a [u8] = vstd::slice::slice_subrange(self.buf, self.pos, self.pos + n);
        self.pos = self.pos + n;
        Ok(head)
    }

    pub(crate) fn u8(&mut self) -> (r: Result<u8, ProtoError>)
        requires
            old(self).wf(),
        ensures
            final(self).wf(),
            match r {
                Ok(v) => final(self).moved(old(self), 1) && v == old(self).buf@[old(
                    self,
                ).pos as int],
                Err(e) => old(self).short(1, e),
            },
    {
        if self.buf.len() - self.pos < 1 {
            return Err(ProtoError::Truncated);
        }
        let v: u8 = self.buf[self.pos];
        self.pos = self.pos + 1;
        Ok(v)
    }

    pub(crate) fn u16(&mut self) -> (r: Result<u16, ProtoError>)
        requires
            old(self).wf(),
        ensures
            final(self).wf(),
            match r {
                Ok(v) => final(self).moved(old(self), 2) && v == u16_at(
                    old(self).buf@,
                    old(self).pos as int,
                ),
                Err(e) => old(self).short(2, e),
            },
    {
        if self.buf.len() - self.pos < 2 {
            return Err(ProtoError::Truncated);
        }
        let v: u16 = self.buf[self.pos] as u16 * 256 + self.buf[self.pos + 1] as u16;
        self.pos = self.pos + 2;
        Ok(v)
    }

    pub(crate) fn u32(&mut self) -> (r: Result<u32, ProtoError>)
        requires
            old(self).wf(),
        ensures
            final(self).wf(),
            match r {
                Ok(v) => final(self).moved(old(self), 4) && v == u32_at(
                    old(self).buf@,
                    old(self).pos as int,
                ),
                Err(e) => old(self).short(4, e),
            },
    {
        let high: u16 = self.u16()?;
        let low: u16 = self.u16()?;
        Ok(high as u32 * 0x1_0000 + low as u32)
    }

    pub(crate) fn i32(&mut self) -> (r: Result<i32, ProtoError>)
        requires
            old(self).wf(),
        ensures
            final(self).wf(),
            match r {
                Ok(v) => final(self).moved(old(self), 4) && v == signed(
                    u32_at(old(self).buf@, old(self).pos as int),
                ),
                Err(e) => old(self).short(4, e),
            },
    {
        let word: u32 = self.u32()?;
        if word < 0x8000_0000 {
            Ok(word as i32)
        } else {
            Ok((word as i64 - 0x1_0000_0000) as i32)
        }
    }

    pub(crate) fn u64(&mut self) -> (r: Result<u64, ProtoError>)
        requires
            old(self).wf(),
        ensures
            final(self).wf(),
            match r {
                Ok(v) => final(self).moved(old(self), 8) && v == u64_at(
                    old(self).buf@,
                    old(self).pos as int,
                ),
                Err(e) => old(self).short(8, e),
            },
    {
        let high: u32 = self.u32()?;
        let low: u32 = self.u32()?;
        Ok(high as u64 * 0x1_0000_0000 + low as u64)
    }

    pub(crate) fn win(&mut self) -> (r: Result<WinSize, ProtoError>)
        requires
            old(self).wf(),
        ensures
            final(self).wf(),
            match r {
                Ok(v) => final(self).moved(old(self), 8) && v == win_at(
                    old(self).buf@,
                    old(self).pos as int,
                ),
                Err(e) => old(self).short(8, e),
            },
    {
        let cols: u16 = self.u16()?;
        let rows: u16 = self.u16()?;
        let xpixel: u16 = self.u16()?;
        let ypixel: u16 = self.u16()?;
        Ok(WinSize { cols, rows, xpixel, ypixel })
    }

    pub(crate) fn rest(&mut self) -> (r: &'a [u8])
        requires
            old(self).wf(),
        ensures
            final(self).wf(),
            final(self).moved(old(self), old(self).buf@.len() - old(self).pos),
            r@ == old(self).buf@.subrange(old(self).pos as int, old(self).buf@.len() as int),
    {
        let all: &'a [u8] = vstd::slice::slice_subrange(self.buf, self.pos, self.buf.len());
        self.pos = self.buf.len();
        all
    }

    pub(crate) fn finish(self) -> (r: Result<(), ProtoError>)
        requires
            self.wf(),
        ensures
            match r {
                Ok(()) => self.pos == self.buf@.len(),
                Err(e) => self.pos < self.buf@.len() && e == ProtoError::TrailingBytes,
            },
    {
        if self.pos == self.buf.len() {
            Ok(())
        } else {
            Err(ProtoError::TrailingBytes)
        }
    }
}

} // verus!
