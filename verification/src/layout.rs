//! Where each field of a frame stands on the wire, byte by byte, in each revision.
use vstd::prelude::*;

use crate::codes;
use crate::conn::first_frame;
use crate::frame;
use crate::header::{decoded_header, FrameType};
use crate::rev11;
use crate::rev5;
use crate::rev7;
use crate::wire::{
    be16, be32, be64, bit, header_bytes, win_bytes, word_of, ProtoError, WinSize, MAX_PAYLOAD,
};

verus! {

/// The number a row of bytes spells, the most significant of them first.
pub open spec fn big_endian(s: Seq<u8>) -> nat
    decreases s.len(),
{
    if s.len() == 0 {
        0
    } else {
        big_endian(s.drop_last()) * 256 + s.last() as nat
    }
}

/// Two bytes more.
proof fn lemma_two_more(a: Seq<u8>, b: Seq<u8>)
    requires
        b.len() == 2,
    ensures
        big_endian(a + b) == big_endian(a) * 0x1_0000 + b[0] * 256 + b[1],
{
    let s = a + b;
    reveal_with_fuel(big_endian, 3);
    assert(s.drop_last().drop_last() =~= a);
    assert(s.drop_last().last() == b[0]);
}

/// Numbers travel most significant byte first, each in as many bytes as it has, and are read
/// back from them so.
pub proof fn numbers_travel_most_significant_byte_first(a: u16, b: u32, c: u64)
    ensures
        be16(a).len() == 2 && big_endian(be16(a)) == a,
        be32(b).len() == 4 && big_endian(be32(b)) == b,
        be64(c).len() == 8 && big_endian(be64(c)) == c,
{
    lemma_be16(a);
    lemma_be32(b);
    let high = (c / 0x1_0000_0000) as u32;
    let low = (c % 0x1_0000_0000) as u32;
    lemma_be32(high);
    let lh = (low / 0x1_0000) as u16;
    let ll = (low % 0x1_0000) as u16;
    lemma_be16(lh);
    lemma_be16(ll);
    assert(be64(c) =~= (be32(high) + be16(lh)) + be16(ll));
    lemma_two_more(be32(high), be16(lh));
    lemma_two_more(be32(high) + be16(lh), be16(ll));
}

proof fn lemma_be16(a: u16)
    ensures
        be16(a).len() == 2,
        big_endian(be16(a)) == a,
        be16(a)[0] * 256 + be16(a)[1] == a,
{
    lemma_two_more(Seq::empty(), be16(a));
    assert(Seq::<u8>::empty() + be16(a) =~= be16(a));
}

proof fn lemma_be32(b: u32)
    ensures
        be32(b).len() == 4,
        big_endian(be32(b)) == b,
{
    let high = (b / 0x1_0000) as u16;
    let low = (b % 0x1_0000) as u16;
    lemma_be16(high);
    lemma_be16(low);
    lemma_two_more(be16(high), be16(low));
}

/// A window size is its columns, rows and pixels each way, in that order.
pub proof fn a_window_size_is_columns_rows_and_pixels(win: WinSize)
    ensures
        win_bytes(win).len() == 8,
        big_endian(win_bytes(win).subrange(0, 2)) == win.cols,
        big_endian(win_bytes(win).subrange(2, 4)) == win.rows,
        big_endian(win_bytes(win).subrange(4, 6)) == win.xpixel,
        big_endian(win_bytes(win).subrange(6, 8)) == win.ypixel,
{
    lemma_be16(win.cols);
    lemma_be16(win.rows);
    lemma_be16(win.xpixel);
    lemma_be16(win.ypixel);
    assert(win_bytes(win).subrange(0, 2) =~= be16(win.cols));
    assert(win_bytes(win).subrange(2, 4) =~= be16(win.rows));
    assert(win_bytes(win).subrange(4, 6) =~= be16(win.xpixel));
    assert(win_bytes(win).subrange(6, 8) =~= be16(win.ypixel));
}

/// A header is the type and the length of what follows it in three bytes.
pub proof fn a_header_is_a_type_and_a_length(ty: u8, len: u32)
    requires
        len <= 262144,
    ensures
        header_bytes(ty, len).len() == 4,
        header_bytes(ty, len)[0] == ty,
        big_endian(header_bytes(ty, len).subrange(1, 4)) == len,
{
    let h = header_bytes(ty, len);
    let s = h.subrange(1, 4);
    reveal_with_fuel(big_endian, 4);
    assert(s.drop_last().drop_last().drop_last() =~= Seq::<u8>::empty());
    assert(s.last() == h[3]);
    assert(s.drop_last().last() == h[2]);
    assert(s.drop_last().drop_last().last() == h[1]);
}

/// A signed number travels as the word that holds its bits.
pub proof fn a_signed_number_travels_as_its_bits(v: i32)
    ensures
        v >= 0 ==> word_of(v) == v,
        v < 0 ==> word_of(v) == v + 0x1_0000_0000,
{
}

/// The eight bytes at `at` spell `v`.
pub open spec fn eight(p: Seq<u8>, at: int, v: u64) -> bool {
    p.len() >= at + 8 && big_endian(p.subrange(at, at + 8)) == v
}

/// The four bytes at `at` spell `v`.
pub open spec fn four(p: Seq<u8>, at: int, v: u32) -> bool {
    p.len() >= at + 4 && big_endian(p.subrange(at, at + 4)) == v
}

/// The two bytes at `at` spell `v`.
pub open spec fn two(p: Seq<u8>, at: int, v: u16) -> bool {
    p.len() >= at + 2 && big_endian(p.subrange(at, at + 2)) == v
}

/// The eight bytes at `at` are a window size.
pub open spec fn window(p: Seq<u8>, at: int, win: WinSize) -> bool {
    &&& two(p, at, win.cols)
    &&& two(p, at + 2, win.rows)
    &&& two(p, at + 4, win.xpixel)
    &&& two(p, at + 6, win.ypixel)
}

/// What stands from `at` on is `rest`.
pub open spec fn ends_with(p: Seq<u8>, at: int, rest: Seq<u8>) -> bool {
    p.len() == at + rest.len() && p.subrange(at, p.len() as int) == rest
}

proof fn lemma_eight(a: Seq<u8>, v: u64, b: Seq<u8>)
    ensures
        eight(a + be64(v) + b, a.len() as int, v),
{
    numbers_travel_most_significant_byte_first(0, 0, v);
    assert((a + be64(v) + b).subrange(a.len() as int, a.len() as int + 8) =~= be64(v));
}

proof fn lemma_four(a: Seq<u8>, v: u32, b: Seq<u8>)
    ensures
        four(a + be32(v) + b, a.len() as int, v),
{
    lemma_be32(v);
    assert((a + be32(v) + b).subrange(a.len() as int, a.len() as int + 4) =~= be32(v));
}

proof fn lemma_two(a: Seq<u8>, v: u16, b: Seq<u8>)
    ensures
        two(a + be16(v) + b, a.len() as int, v),
{
    lemma_be16(v);
    assert((a + be16(v) + b).subrange(a.len() as int, a.len() as int + 2) =~= be16(v));
}

proof fn lemma_window(a: Seq<u8>, win: WinSize, b: Seq<u8>)
    ensures
        window(a + win_bytes(win) + b, a.len() as int, win),
{
    let p = a + win_bytes(win) + b;
    let (x, y, z, w) = (be16(win.cols), be16(win.rows), be16(win.xpixel), be16(win.ypixel));
    lemma_be16(win.cols);
    lemma_be16(win.rows);
    lemma_be16(win.xpixel);
    lemma_be16(win.ypixel);
    lemma_two(a, win.cols, y + z + w + b);
    assert(p =~= a + x + (y + z + w + b));
    lemma_two(a + x, win.rows, z + w + b);
    assert(p =~= (a + x) + y + (z + w + b));
    lemma_two(a + x + y, win.xpixel, w + b);
    assert(p =~= (a + x + y) + z + (w + b));
    lemma_two(a + x + y + z, win.ypixel, b);
    assert(p =~= (a + x + y + z) + w + b);
}

proof fn lemma_lens(a: u16, b: u32, c: u64, win: WinSize)
    ensures
        be16(a).len() == 2,
        be32(b).len() == 4,
        be64(c).len() == 8,
        win_bytes(win).len() == 8,
{
    numbers_travel_most_significant_byte_first(a, b, c);
    a_window_size_is_columns_rows_and_pixels(win);
}

// ---------------------------------------------------------------------------
// The eleventh revision
// ---------------------------------------------------------------------------

/// The number of a frame's type.
pub open spec fn number_of(ty: FrameType) -> int {
    match ty {
        FrameType::Hello => 1,
        FrameType::HelloOk => 2,
        FrameType::Input => 3,
        FrameType::InputAck => 4,
        FrameType::Output => 5,
        FrameType::Resize => 6,
        FrameType::Gap => 7,
        FrameType::Exit => 8,
        FrameType::Detach => 9,
        FrameType::Ping => 10,
        FrameType::Pong => 11,
        FrameType::Error => 12,
        FrameType::AgentOpen => 13,
        FrameType::AgentData => 14,
        FrameType::AgentClose => 15,
    }
}

/// A frame is its type, the length of its payload in three bytes, and its payload.
pub proof fn a_frame_is_a_header_and_a_payload(f: rev11::FrameModel)
    requires
        f.refusal() is None,
    ensures
        f.bytes().len() == 4 + f.payload().len(),
        f.bytes()[0] == number_of(f.ty()),
        big_endian(f.bytes().subrange(1, 4)) == f.payload().len(),
        f.bytes().subrange(4, f.bytes().len() as int) == f.payload(),
{
    let h = header_bytes(f.ty().number(), f.payload().len() as u32);
    assert(MAX_PAYLOAD == 262144);
    a_header_is_a_type_and_a_length(f.ty().number(), f.payload().len() as u32);
    assert(f.bytes().subrange(1, 4) =~= h.subrange(1, 4));
    assert(f.bytes().subrange(4, f.bytes().len() as int) =~= f.payload());
}

/// A greeting says its revision, what it asks for in a bit each, where its output resumes,
/// its window, and its terminal behind the length of that.
pub proof fn the_layout_of_a_greeting(hello: rev11::HelloModel)
    requires
        hello.term.len() <= 0xffff,
    ensures
        ({
            let p = rev11::FrameModel::Hello(hello).payload();
            &&& two(p, 0, hello.protocol)
            &&& p[2] == (if hello.agent_forward {
                1int
            } else {
                0
            }) + (if hello.repaint_ctrl_l {
                2int
            } else {
                0
            }) + (if hello.if_detached {
                4int
            } else {
                0
            })
            &&& eight(p, 3, hello.out_offset)
            &&& window(p, 11, hello.win)
            &&& two(p, 19, hello.term.len() as u16)
            &&& ends_with(p, 21, hello.term)
        }),
{
    let p = rev11::FrameModel::Hello(hello).payload();
    let v = be16(hello.protocol);
    let f = seq![rev11::hello_flags(hello)];
    let o = be64(hello.out_offset);
    let w = win_bytes(hello.win);
    let n = be16(hello.term.len() as u16);
    let t = hello.term;
    lemma_lens(hello.protocol, 0, hello.out_offset, hello.win);
    lemma_be16(hello.term.len() as u16);
    lemma_two(Seq::empty(), hello.protocol, f + o + w + n + t);
    assert(p =~= Seq::<u8>::empty() + v + (f + o + w + n + t));
    lemma_eight(v + f, hello.out_offset, w + n + t);
    assert(p =~= (v + f) + o + (w + n + t));
    lemma_window(v + f + o, hello.win, n + t);
    assert(p =~= (v + f + o) + w + (n + t));
    lemma_two(v + f + o + w, hello.term.len() as u16, t);
    assert(p =~= (v + f + o + w) + n + t);
    assert(p.subrange(21, p.len() as int) =~= t);
}

/// Every other frame the daemon and its clients exchange says its numbers first, in the order
/// they are named, and its bytes behind them.
pub proof fn the_layout_of_every_other_frame(f: rev11::FrameModel)
    ensures
        ({
            let p = f.payload();
            match f {
                rev11::FrameModel::Hello(_) => true,
                rev11::FrameModel::HelloOk(ok) => {
                    &&& p.len() == 17
                    &&& eight(p, 0, ok.resume_from)
                    &&& eight(p, 8, ok.in_applied)
                    &&& p[16] == if ok.agent {
                        1int
                    } else {
                        0
                    }
                },
                rev11::FrameModel::Input { offset, data } => eight(p, 0, offset) && ends_with(
                    p,
                    8,
                    data,
                ),
                rev11::FrameModel::InputAck { applied_through } => p.len() == 8 && eight(
                    p,
                    0,
                    applied_through,
                ),
                rev11::FrameModel::Output { offset, data } => eight(p, 0, offset) && ends_with(
                    p,
                    8,
                    data,
                ),
                rev11::FrameModel::Resize(win) => p.len() == 8 && window(p, 0, win),
                rev11::FrameModel::Gap { new_base_offset } => p.len() == 8 && eight(
                    p,
                    0,
                    new_base_offset,
                ),
                rev11::FrameModel::Exit { status, kind, since_terminal_closed_secs } => {
                    &&& p.len() == 9
                    &&& four(
                        p,
                        0,
                        (if status < 0 {
                            status + 0x1_0000_0000
                        } else {
                            status as int
                        }) as u32,
                    )
                    &&& p[4] == match kind {
                        rev11::ExitKind::Exited => 0int,
                        rev11::ExitKind::Signalled => 1,
                        rev11::ExitKind::Unknown => 2,
                    }
                    &&& four(p, 5, since_terminal_closed_secs)
                },
                rev11::FrameModel::Detach => p.len() == 0,
                rev11::FrameModel::Ping => p.len() == 0,
                rev11::FrameModel::Pong => p.len() == 0,
                rev11::FrameModel::Error { code, message } => {
                    &&& two(
                        p,
                        0,
                        match code {
                            rev11::ErrorCode::Protocol => 1u16,
                            rev11::ErrorCode::Takeover => 2,
                            rev11::ErrorCode::Version => 3,
                            rev11::ErrorCode::InputGap => 4,
                            rev11::ErrorCode::Internal => 5,
                            rev11::ErrorCode::AlreadyAttached => 6,
                        },
                    )
                    &&& ends_with(p, 2, message)
                },
                rev11::FrameModel::AgentOpen { generation } => p.len() == 4 && four(
                    p,
                    0,
                    generation,
                ),
                rev11::FrameModel::AgentData { generation, data } => four(p, 0, generation)
                    && ends_with(p, 4, data),
                rev11::FrameModel::AgentClose { generation } => p.len() == 4 && four(
                    p,
                    0,
                    generation,
                ),
            }
        }),
{
    let p = f.payload();
    let none = Seq::<u8>::empty();
    match f {
        rev11::FrameModel::HelloOk(ok) => {
            let last = seq![bit(ok.agent, 1)];
            lemma_lens(0, 0, ok.resume_from, WinSize { cols: 0, rows: 0, xpixel: 0, ypixel: 0 });
            lemma_eight(none, ok.resume_from, be64(ok.in_applied) + last);
            assert(p =~= none + be64(ok.resume_from) + (be64(ok.in_applied) + last));
            lemma_eight(be64(ok.resume_from), ok.in_applied, last);
            numbers_travel_most_significant_byte_first(0, 0, ok.in_applied);
        },
        rev11::FrameModel::Input { offset, data } => {
            lemma_number_then(offset, data);
        },
        rev11::FrameModel::Output { offset, data } => {
            lemma_number_then(offset, data);
        },
        rev11::FrameModel::InputAck { applied_through } => {
            lemma_number_then(applied_through, none);
            assert(be64(applied_through) + none =~= p);
        },
        rev11::FrameModel::Gap { new_base_offset } => {
            lemma_number_then(new_base_offset, none);
            assert(be64(new_base_offset) + none =~= p);
        },
        rev11::FrameModel::Resize(win) => {
            lemma_window(none, win, none);
            a_window_size_is_columns_rows_and_pixels(win);
            assert(none + win_bytes(win) + none =~= p);
        },
        rev11::FrameModel::Exit { status, kind, since_terminal_closed_secs } => {
            let k = seq![kind.number()];
            lemma_be32(word_of(status));
            lemma_be32(since_terminal_closed_secs);
            lemma_four(none, word_of(status), k + be32(since_terminal_closed_secs));
            assert(p =~= none + be32(word_of(status)) + (k + be32(since_terminal_closed_secs)));
            lemma_four(be32(word_of(status)) + k, since_terminal_closed_secs, none);
            assert(p =~= (be32(word_of(status)) + k) + be32(since_terminal_closed_secs) + none);
        },
        rev11::FrameModel::Error { code, message } => {
            lemma_two(none, code.number(), message);
            lemma_be16(code.number());
            assert(p =~= none + be16(code.number()) + message);
            assert(p.subrange(2, p.len() as int) =~= message);
        },
        rev11::FrameModel::AgentOpen { generation } => {
            lemma_word_then(generation, none);
            assert(be32(generation) + none =~= p);
        },
        rev11::FrameModel::AgentData { generation, data } => {
            lemma_word_then(generation, data);
        },
        rev11::FrameModel::AgentClose { generation } => {
            lemma_word_then(generation, none);
            assert(be32(generation) + none =~= p);
        },
        _ => {},
    }
}

proof fn lemma_number_then(v: u64, data: Seq<u8>)
    ensures
        be64(v).len() == 8,
        eight(be64(v) + data, 0, v),
        ends_with(be64(v) + data, 8, data),
{
    numbers_travel_most_significant_byte_first(0, 0, v);
    lemma_eight(Seq::empty(), v, data);
    assert(Seq::<u8>::empty() + be64(v) + data =~= be64(v) + data);
    assert((be64(v) + data).subrange(8, 8 + data.len() as int) =~= data);
}

proof fn lemma_word_then(v: u32, data: Seq<u8>)
    ensures
        be32(v).len() == 4,
        four(be32(v) + data, 0, v),
        ends_with(be32(v) + data, 4, data),
{
    lemma_be32(v);
    lemma_four(Seq::empty(), v, data);
    assert(Seq::<u8>::empty() + be32(v) + data =~= be32(v) + data);
    assert((be32(v) + data).subrange(4, 4 + data.len() as int) =~= data);
}

/// What a client scans for is the twelve bytes in front of the daemon's first frame: a zero,
/// the name, and a byte no text holds.
pub proof fn the_preamble_is_a_zero_a_name_and_no_text()
    ensures
        rev11::SERVER_PREAMBLE@.len() == 12,
        rev11::SERVER_PREAMBLE@[0] == 0,
        rev11::SERVER_PREAMBLE@.subrange(1, 11) == seq![
            0x6eu8, 0x6fu8, 0x6du8, 0x75u8, 0x78u8, 0x2du8, 0x73u8, 0x79u8, 0x6eu8, 0x63u8,
        ],
        rev11::SERVER_PREAMBLE@[11] == 0xff,
{
    assert(rev11::SERVER_PREAMBLE@.subrange(1, 11) =~= seq![
        0x6eu8, 0x6fu8, 0x6du8, 0x75u8, 0x78u8, 0x2du8, 0x73u8, 0x79u8, 0x6eu8, 0x63u8,
    ]);
}

// ---------------------------------------------------------------------------
// The layout between
// ---------------------------------------------------------------------------

/// The greeting before says its revision, what it asks for in a bit each, where its output resumes,
/// its window, and its terminal behind the length of that.
pub proof fn the_layout_of_a_greeting_between(hello: frame::HelloModel)
    requires
        hello.term.len() <= 0xffff,
    ensures
        ({
            let p = frame::FrameModel::Hello(hello).payload();
            &&& two(p, 0, hello.protocol)
            &&& p[2] == (if hello.agent_forward {
                1int
            } else {
                0
            }) + (if hello.repaint_ctrl_l {
                2int
            } else {
                0
            })
            &&& eight(p, 3, hello.out_offset)
            &&& window(p, 11, hello.win)
            &&& two(p, 19, hello.term.len() as u16)
            &&& ends_with(p, 21, hello.term)
        }),
{
    let p = frame::FrameModel::Hello(hello).payload();
    let v = be16(hello.protocol);
    let f = seq![p[2]];
    let o = be64(hello.out_offset);
    let w = win_bytes(hello.win);
    let n = be16(hello.term.len() as u16);
    let t = hello.term;
    lemma_lens(hello.protocol, 0, hello.out_offset, hello.win);
    assert(f.len() == 1);
    lemma_be16(hello.term.len() as u16);
    lemma_two(Seq::empty(), hello.protocol, f + o + w + n + t);
    assert(p =~= Seq::<u8>::empty() + v + (f + o + w + n + t));
    lemma_eight(v + f, hello.out_offset, w + n + t);
    assert(p =~= (v + f) + o + (w + n + t));
    lemma_window(v + f + o, hello.win, n + t);
    assert(p =~= (v + f + o) + w + (n + t));
    lemma_two(v + f + o + w, hello.term.len() as u16, t);
    assert(p =~= (v + f + o + w) + n + t);
    assert(p.subrange(21, p.len() as int) =~= t);
}

/// The layout between the seventh revision and the eleventh says its numbers first, in the
/// order they are named, and its bytes behind them; an answered greeting says the linger
/// state in a byte of its own.
pub proof fn the_layout_between_the_revisions(f: frame::FrameModel)
    ensures
        ({
            let p = f.payload();
            match f {
                frame::FrameModel::Hello(_) => true,
                frame::FrameModel::HelloOk(ok) => {
                    &&& p.len() == 18
                    &&& eight(p, 0, ok.resume_from)
                    &&& eight(p, 8, ok.in_applied)
                    &&& p[16] == match ok.linger {
                        codes::Linger::Unknown => 0int,
                        codes::Linger::Disabled => 1,
                        codes::Linger::Enabled => 2,
                    }
                    &&& p[17] == if ok.agent {
                        1int
                    } else {
                        0
                    }
                },
                frame::FrameModel::Input { offset, data } => eight(p, 0, offset) && ends_with(
                    p,
                    8,
                    data,
                ),
                frame::FrameModel::InputAck { applied_through } => p.len() == 8 && eight(
                    p,
                    0,
                    applied_through,
                ),
                frame::FrameModel::Output { offset, data } => eight(p, 0, offset) && ends_with(
                    p,
                    8,
                    data,
                ),
                frame::FrameModel::Resize(win) => p.len() == 8 && window(p, 0, win),
                frame::FrameModel::Gap { new_base_offset } => p.len() == 8 && eight(
                    p,
                    0,
                    new_base_offset,
                ),
                frame::FrameModel::Exit { status, kind, since_exit_secs } => {
                    &&& p.len() == 9
                    &&& four(
                        p,
                        0,
                        (if status < 0 {
                            status + 0x1_0000_0000
                        } else {
                            status as int
                        }) as u32,
                    )
                    &&& p[4] == match kind {
                        codes::ExitKind::Exited => 0int,
                        codes::ExitKind::Signalled => 1,
                    }
                    &&& four(p, 5, since_exit_secs)
                },
                frame::FrameModel::Detach => p.len() == 0,
                frame::FrameModel::Ping => p.len() == 0,
                frame::FrameModel::Pong => p.len() == 0,
                frame::FrameModel::Error { code, message } => {
                    &&& two(
                        p,
                        0,
                        match code {
                            codes::ErrorCode::Protocol => 1u16,
                            codes::ErrorCode::Takeover => 2,
                            codes::ErrorCode::Version => 3,
                            codes::ErrorCode::InputGap => 4,
                            codes::ErrorCode::Internal => 5,
                        },
                    )
                    &&& ends_with(p, 2, message)
                },
                frame::FrameModel::AgentOpen { generation } => p.len() == 4 && four(
                    p,
                    0,
                    generation,
                ),
                frame::FrameModel::AgentData { generation, data } => four(p, 0, generation)
                    && ends_with(p, 4, data),
                frame::FrameModel::AgentClose { generation } => p.len() == 4 && four(
                    p,
                    0,
                    generation,
                ),
            }
        }),
{
    let p = f.payload();
    let none = Seq::<u8>::empty();
    match f {
        frame::FrameModel::HelloOk(ok) => {
            let last = seq![ok.linger.number(), bit(ok.agent, 1)];
            lemma_lens(0, 0, ok.resume_from, WinSize { cols: 0, rows: 0, xpixel: 0, ypixel: 0 });
            lemma_eight(none, ok.resume_from, be64(ok.in_applied) + last);
            assert(p =~= none + be64(ok.resume_from) + (be64(ok.in_applied) + last));
            lemma_eight(be64(ok.resume_from), ok.in_applied, last);
            numbers_travel_most_significant_byte_first(0, 0, ok.in_applied);
        },
        frame::FrameModel::Input { offset, data } => {
            lemma_number_then(offset, data);
        },
        frame::FrameModel::Output { offset, data } => {
            lemma_number_then(offset, data);
        },
        frame::FrameModel::InputAck { applied_through } => {
            lemma_number_then(applied_through, none);
            assert(be64(applied_through) + none =~= p);
        },
        frame::FrameModel::Gap { new_base_offset } => {
            lemma_number_then(new_base_offset, none);
            assert(be64(new_base_offset) + none =~= p);
        },
        frame::FrameModel::Resize(win) => {
            lemma_window(none, win, none);
            a_window_size_is_columns_rows_and_pixels(win);
            assert(none + win_bytes(win) + none =~= p);
        },
        frame::FrameModel::Exit { status, kind, since_exit_secs } => {
            let k = seq![kind.number()];
            lemma_be32(word_of(status));
            lemma_be32(since_exit_secs);
            lemma_four(none, word_of(status), k + be32(since_exit_secs));
            assert(p =~= none + be32(word_of(status)) + (k + be32(since_exit_secs)));
            lemma_four(be32(word_of(status)) + k, since_exit_secs, none);
            assert(p =~= (be32(word_of(status)) + k) + be32(since_exit_secs) + none);
        },
        frame::FrameModel::Error { code, message } => {
            lemma_two(none, code.number(), message);
            lemma_be16(code.number());
            assert(p =~= none + be16(code.number()) + message);
            assert(p.subrange(2, p.len() as int) =~= message);
        },
        frame::FrameModel::AgentOpen { generation } => {
            lemma_word_then(generation, none);
            assert(be32(generation) + none =~= p);
        },
        frame::FrameModel::AgentData { generation, data } => {
            lemma_word_then(generation, data);
        },
        frame::FrameModel::AgentClose { generation } => {
            lemma_word_then(generation, none);
            assert(be32(generation) + none =~= p);
        },
        _ => {},
    }
}

/// The seventh revision is that layout but for its agent frames, which name no connection:
/// there is one.
pub proof fn the_layout_of_the_seventh_revision(f: rev7::FrameModel)
    ensures
        match f {
            rev7::FrameModel::AgentOpen => f.payload().len() == 0,
            rev7::FrameModel::AgentData { data } => f.payload() == data,
            rev7::FrameModel::AgentClose => f.payload().len() == 0,
            rev7::FrameModel::Hello(hello) => f.payload() == frame::FrameModel::Hello(
                hello,
            ).payload(),
            rev7::FrameModel::HelloOk(ok) => f.payload() == frame::FrameModel::HelloOk(
                ok,
            ).payload(),
            rev7::FrameModel::Input { offset, data } => f.payload() == (frame::FrameModel::Input {
                offset,
                data,
            }).payload(),
            rev7::FrameModel::InputAck { applied_through } => f.payload() == (
            frame::FrameModel::InputAck { applied_through }).payload(),
            rev7::FrameModel::Output { offset, data } => f.payload() == (
            frame::FrameModel::Output { offset, data }).payload(),
            rev7::FrameModel::Resize(win) => f.payload() == frame::FrameModel::Resize(
                win,
            ).payload(),
            rev7::FrameModel::Gap { new_base_offset } => f.payload() == (frame::FrameModel::Gap {
                new_base_offset,
            }).payload(),
            rev7::FrameModel::Exit { status, kind, since_exit_secs } => f.payload() == (
            frame::FrameModel::Exit { status, kind, since_exit_secs }).payload(),
            rev7::FrameModel::Detach => f.payload().len() == 0,
            rev7::FrameModel::Ping => f.payload().len() == 0,
            rev7::FrameModel::Pong => f.payload().len() == 0,
            rev7::FrameModel::Error { code, message } => f.payload() == (
            frame::FrameModel::Error { code, message }).payload(),
        },
{
}

// ---------------------------------------------------------------------------
// The fifth revision
// ---------------------------------------------------------------------------

/// The fifth greeting says its revision, what it asks for in two bytes, where its output resumes,
/// its window, and its terminal behind the length of that.
pub proof fn the_layout_of_the_fifth_greeting(hello: rev5::HelloModel)
    requires
        hello.term.len() <= 0xffff,
    ensures
        ({
            let p = rev5::FrameModel::Hello(hello).payload();
            &&& two(p, 0, hello.protocol)
            &&& two(p, 2, hello.flags)
            &&& eight(p, 4, hello.out_offset)
            &&& window(p, 12, hello.win)
            &&& two(p, 20, hello.term.len() as u16)
            &&& ends_with(p, 22, hello.term)
        }),
{
    let p = rev5::FrameModel::Hello(hello).payload();
    let v = be16(hello.protocol);
    let f = be16(hello.flags);
    let o = be64(hello.out_offset);
    let w = win_bytes(hello.win);
    let n = be16(hello.term.len() as u16);
    let t = hello.term;
    lemma_lens(hello.protocol, 0, hello.out_offset, hello.win);
    lemma_be16(hello.term.len() as u16);
    lemma_be16(hello.flags);
    lemma_two(v, hello.flags, o + w + n + t);
    assert(p =~= v + f + (o + w + n + t));
    lemma_two(Seq::empty(), hello.protocol, f + o + w + n + t);
    assert(p =~= Seq::<u8>::empty() + v + (f + o + w + n + t));
    lemma_eight(v + f, hello.out_offset, w + n + t);
    assert(p =~= (v + f) + o + (w + n + t));
    lemma_window(v + f + o, hello.win, n + t);
    assert(p =~= (v + f + o) + w + (n + t));
    lemma_two(v + f + o + w, hello.term.len() as u16, t);
    assert(p =~= (v + f + o + w) + n + t);
    assert(p.subrange(22, p.len() as int) =~= t);
}

/// The fifth revision says its numbers first, in the order they are named, and its bytes behind
/// them; an answered greeting repeats the revision and the window and packs the rest into one
/// byte.
pub proof fn the_layout_of_the_fifth_revision(f: rev5::FrameModel)
    ensures
        ({
            let p = f.payload();
            match f {
                rev5::FrameModel::Hello(_) => true,
                rev5::FrameModel::HelloOk(ok) => {
                    &&& p.len() == 27
                    &&& two(p, 0, ok.protocol)
                    &&& eight(p, 2, ok.resume_from)
                    &&& eight(p, 10, ok.in_applied)
                    &&& window(p, 18, ok.win)
                    &&& p[26] == rev5::hello_ok_flags(ok)
                },
                rev5::FrameModel::Input { offset, data } => eight(p, 0, offset) && ends_with(
                    p,
                    8,
                    data,
                ),
                rev5::FrameModel::InputAck { applied_through } => p.len() == 8 && eight(
                    p,
                    0,
                    applied_through,
                ),
                rev5::FrameModel::Output { offset, data } => eight(p, 0, offset) && ends_with(
                    p,
                    8,
                    data,
                ),
                rev5::FrameModel::Resize(win) => p.len() == 8 && window(p, 0, win),
                rev5::FrameModel::Gap { new_base_offset } => p.len() == 8 && eight(
                    p,
                    0,
                    new_base_offset,
                ),
                rev5::FrameModel::Exit { status, kind } => {
                    &&& p.len() == 5
                    &&& four(
                        p,
                        0,
                        (if status < 0 {
                            status + 0x1_0000_0000
                        } else {
                            status as int
                        }) as u32,
                    )
                    &&& p[4] == match kind {
                        codes::ExitKind::Exited => 0int,
                        codes::ExitKind::Signalled => 1,
                    }
                },
                rev5::FrameModel::Detach => p.len() == 0,
                rev5::FrameModel::OutputAck { consumed_through } => p.len() == 8 && eight(
                    p,
                    0,
                    consumed_through,
                ),
                rev5::FrameModel::Ping { nonce } => p.len() == 8 && eight(p, 0, nonce),
                rev5::FrameModel::Pong { nonce } => p.len() == 8 && eight(p, 0, nonce),
                rev5::FrameModel::Error { code, message } => {
                    &&& two(
                        p,
                        0,
                        match code {
                            codes::ErrorCode::Protocol => 1u16,
                            codes::ErrorCode::Takeover => 2,
                            codes::ErrorCode::Version => 3,
                            codes::ErrorCode::InputGap => 4,
                            codes::ErrorCode::Internal => 5,
                        },
                    )
                    &&& ends_with(p, 2, message)
                },
                rev5::FrameModel::AgentOpen { chan } => p.len() == 4 && four(
                    p,
                    0,
                    chan,
                ),
                rev5::FrameModel::AgentData { chan, data } => four(p, 0, chan)
                    && ends_with(p, 4, data),
                rev5::FrameModel::AgentClose { chan } => p.len() == 4 && four(
                    p,
                    0,
                    chan,
                ),
            }
        }),
{
    let p = f.payload();
    let none = Seq::<u8>::empty();
    match f {
        rev5::FrameModel::HelloOk(ok) => {
            let v = be16(ok.protocol);
            let x = be64(ok.resume_from);
            let y = be64(ok.in_applied);
            let w = win_bytes(ok.win);
            let last = seq![rev5::hello_ok_flags(ok)];
            lemma_lens(ok.protocol, 0, ok.resume_from, ok.win);
            lemma_lens(ok.protocol, 0, ok.in_applied, ok.win);
            lemma_two(none, ok.protocol, x + y + w + last);
            assert(p =~= none + v + (x + y + w + last));
            lemma_eight(v, ok.resume_from, y + w + last);
            assert(p =~= v + x + (y + w + last));
            lemma_eight(v + x, ok.in_applied, w + last);
            assert(p =~= (v + x) + y + (w + last));
            lemma_window(v + x + y, ok.win, last);
            assert(p =~= (v + x + y) + w + last);
        },
        rev5::FrameModel::Input { offset, data } => {
            lemma_number_then(offset, data);
        },
        rev5::FrameModel::Output { offset, data } => {
            lemma_number_then(offset, data);
        },
        rev5::FrameModel::InputAck { applied_through } => {
            lemma_number_then(applied_through, none);
            assert(be64(applied_through) + none =~= p);
        },
        rev5::FrameModel::Gap { new_base_offset } => {
            lemma_number_then(new_base_offset, none);
            assert(be64(new_base_offset) + none =~= p);
        },
        rev5::FrameModel::OutputAck { consumed_through } => {
            lemma_number_then(consumed_through, none);
            assert(be64(consumed_through) + none =~= p);
        },
        rev5::FrameModel::Ping { nonce } => {
            lemma_number_then(nonce, none);
            assert(be64(nonce) + none =~= p);
        },
        rev5::FrameModel::Pong { nonce } => {
            lemma_number_then(nonce, none);
            assert(be64(nonce) + none =~= p);
        },
        rev5::FrameModel::Resize(win) => {
            lemma_window(none, win, none);
            a_window_size_is_columns_rows_and_pixels(win);
            assert(none + win_bytes(win) + none =~= p);
        },
        rev5::FrameModel::Exit { status, kind } => {
            let k = seq![kind.number()];
            lemma_be32(word_of(status));
            lemma_four(none, word_of(status), k);
            assert(p =~= none + be32(word_of(status)) + k);
        },
        rev5::FrameModel::Error { code, message } => {
            lemma_two(none, code.number(), message);
            lemma_be16(code.number());
            assert(p =~= none + be16(code.number()) + message);
            assert(p.subrange(2, p.len() as int) =~= message);
        },
        rev5::FrameModel::AgentOpen { chan } => {
            lemma_word_then(chan, none);
            assert(be32(chan) + none =~= p);
        },
        rev5::FrameModel::AgentData { chan, data } => {
            lemma_word_then(chan, data);
        },
        rev5::FrameModel::AgentClose { chan } => {
            lemma_word_then(chan, none);
            assert(be32(chan) + none =~= p);
        },
        _ => {},
    }
}

/// So is a frame of the layout between.
pub proof fn a_frame_between_is_a_header_and_a_payload(f: frame::FrameModel)
    requires
        f.refusal() is None,
    ensures
        f.bytes().len() == 4 + f.payload().len(),
        f.bytes()[0] == number_of(f.ty()),
        big_endian(f.bytes().subrange(1, 4)) == f.payload().len(),
        f.bytes().subrange(4, f.bytes().len() as int) == f.payload(),
{
    let h = header_bytes(f.ty().number(), f.payload().len() as u32);
    assert(MAX_PAYLOAD == 262144);
    assert(f.payload().len() <= MAX_PAYLOAD);
    a_header_is_a_type_and_a_length(f.ty().number(), f.payload().len() as u32);
    assert(f.bytes().subrange(1, 4) =~= h.subrange(1, 4));
    assert(f.bytes().subrange(4, f.bytes().len() as int) =~= f.payload());
}

/// So is a frame of the seventh revision.
pub proof fn a_frame_of_the_seventh_revision_is_a_header_and_a_payload(f: rev7::FrameModel)
    requires
        f.refusal() is None,
    ensures
        f.bytes().len() == 4 + f.payload().len(),
        f.bytes()[0] == number_of(f.ty()),
        big_endian(f.bytes().subrange(1, 4)) == f.payload().len(),
        f.bytes().subrange(4, f.bytes().len() as int) == f.payload(),
{
    let h = header_bytes(f.ty().number(), f.payload().len() as u32);
    assert(MAX_PAYLOAD == 262144);
    assert(f.payload().len() <= MAX_PAYLOAD);
    a_header_is_a_type_and_a_length(f.ty().number(), f.payload().len() as u32);
    assert(f.bytes().subrange(1, 4) =~= h.subrange(1, 4));
    assert(f.bytes().subrange(4, f.bytes().len() as int) =~= f.payload());
}

/// So is a frame of the fifth revision, under that revision's own numbers.
pub proof fn a_frame_of_the_fifth_revision_is_a_header_and_a_payload(f: rev5::FrameModel)
    requires
        f.refusal() is None,
    ensures
        f.bytes().len() == 4 + f.payload().len(),
        f.bytes()[0] == match f {
            rev5::FrameModel::Hello(_) => 1int,
            rev5::FrameModel::HelloOk(_) => 2,
            rev5::FrameModel::Input { .. } => 3,
            rev5::FrameModel::InputAck { .. } => 4,
            rev5::FrameModel::Output { .. } => 5,
            rev5::FrameModel::OutputAck { .. } => 6,
            rev5::FrameModel::Resize(_) => 7,
            rev5::FrameModel::Gap { .. } => 8,
            rev5::FrameModel::Exit { .. } => 9,
            rev5::FrameModel::Detach => 10,
            rev5::FrameModel::Ping { .. } => 11,
            rev5::FrameModel::Pong { .. } => 12,
            rev5::FrameModel::Error { .. } => 13,
            rev5::FrameModel::AgentOpen { .. } => 14,
            rev5::FrameModel::AgentData { .. } => 15,
            rev5::FrameModel::AgentClose { .. } => 16,
        },
        big_endian(f.bytes().subrange(1, 4)) == f.payload().len(),
        f.bytes().subrange(4, f.bytes().len() as int) == f.payload(),
{
    let h = header_bytes(f.ty().number(), f.payload().len() as u32);
    assert(MAX_PAYLOAD == 262144);
    a_header_is_a_type_and_a_length(f.ty().number(), f.payload().len() as u32);
    assert(f.bytes().subrange(1, 4) =~= h.subrange(1, 4));
    assert(f.bytes().subrange(4, f.bytes().len() as int) =~= f.payload());
}

// ---------------------------------------------------------------------------
// What is refused
// ---------------------------------------------------------------------------

/// A header is refused for a type there is none of, and otherwise for a payload past its
/// bound, and for nothing else; what it is refused for is what it said.
pub proof fn a_header_is_refused_for_what_it_said(bytes: Seq<u8>)
    requires
        bytes.len() == 4,
    ensures
        ({
            let len = big_endian(bytes.subrange(1, 4));
            match decoded_header(bytes) {
                Err(ProtoError::UnknownFrameType(ty)) => ty == bytes[0] && (ty == 0 || ty > 15),
                Err(ProtoError::PayloadTooLarge(told)) => 1 <= bytes[0] <= 15 && told == len && len
                    > 262144,
                Err(_) => false,
                Ok(header) => 1 <= bytes[0] <= 15 && header.len == len && len <= 262144
                    && number_of(header.ty) == bytes[0],
            }
        }),
{
    let s = bytes.subrange(1, 4);
    reveal_with_fuel(big_endian, 4);
    assert(s.drop_last().drop_last().drop_last() =~= Seq::<u8>::empty());
    assert(s.last() == bytes[3]);
    assert(s.drop_last().last() == bytes[2]);
    assert(s.drop_last().drop_last().last() == bytes[1]);
    assert(MAX_PAYLOAD == 262144);
}

/// A row of bytes whose first four are no header is refused for that, whatever is behind
/// them, and one of fewer is waited for.
pub proof fn a_bad_header_is_never_waited_on(q: Seq<u8>)
    ensures
        q.len() < 4 ==> first_frame(q) == Ok::<
            Option<(FrameType, Seq<u8>, Seq<u8>)>,
            ProtoError,
        >(None),
        q.len() >= 4 && (q[0] == 0 || q[0] > 15) ==> first_frame(q) == Err::<
            Option<(FrameType, Seq<u8>, Seq<u8>)>,
            ProtoError,
        >(ProtoError::UnknownFrameType(q[0])),
        q.len() >= 4 && big_endian(q.subrange(1, 4)) > 262144 ==> first_frame(q) is Err,
{
    if q.len() >= 4 {
        let head = q.subrange(0, 4);
        a_header_is_refused_for_what_it_said(head);
        assert(head.subrange(1, 4) =~= q.subrange(1, 4));
        assert(head[0] == q[0]);
    }
}

/// Every frame can be sent that fits: a greeting's terminal must be one its length can count
/// and hold no NUL, and no payload may be past its bound. Nothing else is refused.
pub proof fn whatever_fits_can_be_sent(f: rev11::FrameModel)
    ensures
        f.refusal() is None <==> {
            &&& f.payload().len() <= 262144
            &&& f matches rev11::FrameModel::Hello(hello) ==> hello.term.len() <= 65535
                && !hello.term.contains(0u8)
        },
{
    assert(MAX_PAYLOAD == 262144);
}

/// How many bytes a frame of fixed fields has.
pub open spec fn fixed_len(ty: FrameType) -> Option<nat> {
    match ty {
        FrameType::HelloOk => Some(17),
        FrameType::InputAck => Some(8),
        FrameType::Resize => Some(8),
        FrameType::Gap => Some(8),
        FrameType::Exit => Some(9),
        FrameType::Detach => Some(0),
        FrameType::Ping => Some(0),
        FrameType::Pong => Some(0),
        FrameType::AgentOpen => Some(4),
        FrameType::AgentClose => Some(4),
        _ => None,
    }
}

/// A frame of fixed fields that is cut short is refused for that, unless a field before the
/// cut is already none, and one with anything behind its fields is refused too.
pub proof fn a_frame_is_neither_short_nor_long(ty: FrameType, p: Seq<u8>)
    requires
        fixed_len(ty) is Some,
    ensures
        p.len() < fixed_len(ty)->0 ==> rev11::decoded(ty, p) is Err,
        p.len() < fixed_len(ty)->0 && (ty != FrameType::Exit || p.len() < 5) ==> rev11::decoded(
            ty,
            p,
        ) == Err::<rev11::FrameModel, ProtoError>(ProtoError::Truncated),
        p.len() > fixed_len(ty)->0 ==> rev11::decoded(ty, p) is Err,
{
}

} // verus!
