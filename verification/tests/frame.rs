//! The codec between the seventh revision and the eleventh.

use nomux::codes::{ErrorCode, Linger};
use nomux::frame::{Frame, Hello, HelloOk};
use nomux::rev7::PROTOCOL_VERSION;
use nomux::{
    decode_header, encode_header, FrameType, Header, ProtoError, WinSize, HEADER_LEN, MAX_PAYLOAD,
    RESUME_FROM_START,
};

fn round_trip(frame: Frame<'_>) {
    let mut buf = Vec::new();
    frame.encode(&mut buf).unwrap();

    let header: [u8; HEADER_LEN] = buf[..HEADER_LEN].try_into().unwrap();
    let header = decode_header(&header).unwrap();
    assert_eq!(header.ty, frame.frame_type());
    assert_eq!(header.len as usize, buf.len() - HEADER_LEN);

    let decoded = Frame::decode(header.ty, &buf[HEADER_LEN..]).unwrap();
    assert_eq!(decoded, frame, "round trip mismatch");
}

const WIN: WinSize = WinSize {
    cols: 120,
    rows: 40,
    xpixel: 960,
    ypixel: 640,
};

#[test]
fn frame_empty_payloads_round_trip() {
    round_trip(Frame::Input {
        offset: 0,
        data: b"",
    });
    round_trip(Frame::Output {
        offset: 0,
        data: b"",
    });
    round_trip(Frame::Error {
        code: ErrorCode::Internal,
        message: "",
    });
}

#[test]
fn frame_truncated_payload_is_rejected() {
    assert_eq!(
        Frame::decode(FrameType::InputAck, &[0, 0, 0]),
        Err(ProtoError::Truncated)
    );
    assert_eq!(
        Frame::decode(FrameType::Hello, &[]),
        Err(ProtoError::Truncated)
    );
}

#[test]
fn frame_trailing_bytes_are_rejected() {
    assert_eq!(
        Frame::decode(FrameType::InputAck, &[0, 0, 0, 0, 0, 0, 0, 0, 9]),
        Err(ProtoError::TrailingBytes)
    );
    // `Ping` carries nothing, so any payload at all is trailing.
    assert_eq!(
        Frame::decode(FrameType::Ping, &[0]),
        Err(ProtoError::TrailingBytes)
    );
}

#[test]
fn frame_invalid_discriminants_are_rejected() {
    assert_eq!(
        Frame::decode(FrameType::Exit, &[0, 0, 0, 0, 7]),
        Err(ProtoError::Malformed("unknown exit kind"))
    );
    assert_eq!(
        Frame::decode(FrameType::Error, &[0xff, 0xff]),
        Err(ProtoError::Malformed("unknown error code"))
    );
}

#[test]
fn frame_undefined_flag_bits_are_rejected() {
    let mut hello = Vec::new();
    Frame::Hello(Hello {
        protocol: PROTOCOL_VERSION,
        agent_forward: false,
        repaint_ctrl_l: false,
        out_offset: 0,
        win: WIN,
        term: "",
    })
    .encode(&mut hello)
    .unwrap();
    // `flags` is the single byte after the u16 protocol.
    hello[HEADER_LEN + 2] = 0x80;
    assert_eq!(
        Frame::decode(FrameType::Hello, &hello[HEADER_LEN..]),
        Err(ProtoError::Malformed("undefined Hello flag bits"))
    );

    let mut ok = Vec::new();
    Frame::HelloOk(HelloOk {
        resume_from: 0,
        in_applied: 0,
        linger: Linger::Unknown,
        agent: false,
    })
    .encode(&mut ok)
    .unwrap();
    // The payload ends `.., u8 linger, u8 flags`: reserved bit 1 of the flags
    // byte, then the reserved linger encoding 3 in the byte before it.
    let flags = ok.len() - 1;
    for (at, byte, complaint) in [
        (flags, 0b10, "undefined HelloOk flag bits"),
        (flags - 1, 3, "unknown linger state"),
    ] {
        let mut mutated = ok.clone();
        mutated[at] = byte;
        assert_eq!(
            Frame::decode(FrameType::HelloOk, &mutated[HEADER_LEN..]),
            Err(ProtoError::Malformed(complaint)),
            "byte {byte:#b} at payload offset {} should be refused",
            at - HEADER_LEN
        );
    }
}

/// `gap = resume_from > out_offset`, at the one offset where the sentinel
/// and a real position collide, and either side of an ordinary edge.
#[test]
fn the_derived_gap_is_the_comparison_section_4_2_makes() {
    let gap = |resume_from, out_offset| {
        HelloOk {
            resume_from,
            in_applied: 0,
            linger: Linger::Unknown,
            agent: false,
        }
        .gap(out_offset)
    };
    // `RESUME_FROM_START` *is* `u64::MAX`, so a ring based at the top of the offset
    // space answers the sentinel and a client genuinely there with one number.
    // Both are no gap, which is what makes the collision harmless.
    assert!(!gap(u64::MAX, RESUME_FROM_START), "the sentinel is no gap");
    assert!(gap(16, 8), "output dropped before the client is a gap");
    assert!(!gap(8, 16), "a resume_from clamped down is no gap");
}

#[test]
fn frame_non_utf8_text_is_rejected() {
    // Hello with term_len 1 and a lone continuation byte: protocol, flags,
    // `out_offset` and the winsize ahead of it.
    let mut payload = vec![0; 2 + 1 + 8 + 8];
    payload.extend_from_slice(&1u16.to_be_bytes());
    payload.push(0x80);
    assert_eq!(
        Frame::decode(FrameType::Hello, &payload),
        Err(ProtoError::Malformed("TERM is not UTF-8"))
    );

    // The other text field, which earns a diagnosis of its own: `Error` with a
    // valid code and a lone continuation byte for a message.
    assert_eq!(
        Frame::decode(FrameType::Error, &[0x00, 0x01, 0x80]),
        Err(ProtoError::Malformed("error message is not UTF-8"))
    );
}

#[test]
fn frame_oversized_frame_is_refused_and_buffer_restored() {
    let data = vec![0u8; MAX_PAYLOAD as usize];
    let mut buf = b"previous frame".to_vec();
    let before = buf.len();
    let err = Frame::Output {
        offset: 0,
        data: &data,
    }
    .encode(&mut buf);
    assert!(matches!(err, Err(ProtoError::PayloadTooLarge(_))));
    assert_eq!(
        buf.len(),
        before,
        "failed encode must not leave partial data"
    );
}

/// `term` is length-prefixed by a `u16`, so a longer one cannot be represented.
#[test]
fn frame_an_unrepresentable_term_is_refused_rather_than_truncated() {
    let long = "x".repeat(usize::from(u16::MAX) + 1);
    let mut buf = b"previous frame".to_vec();
    let before = buf.len();
    let err = Frame::Hello(Hello {
        protocol: PROTOCOL_VERSION,
        agent_forward: false,
        repaint_ctrl_l: false,
        out_offset: 0,
        win: WIN,
        term: &long,
    })
    .encode(&mut buf);

    assert_eq!(err, Err(ProtoError::Malformed("TERM exceeds 65535 bytes")));
    assert_eq!(buf.len(), before, "the buffer must be left untouched");

    // The longest that still fits is accepted, so the boundary is exact.
    let exact = "x".repeat(usize::from(u16::MAX));
    round_trip(Frame::Hello(Hello {
        protocol: PROTOCOL_VERSION,
        agent_forward: false,
        repaint_ctrl_l: false,
        out_offset: 0,
        win: WIN,
        term: &exact,
    }));
}

/// The decode direction is the one that matters: the daemon hands `term`
/// straight to the child's environment, where `execve` refuses it.
#[test]
fn frame_a_nul_in_term_is_refused_at_both_ends() {
    let mut buf = b"previous frame".to_vec();
    let before = buf.len();
    let err = Frame::Hello(Hello {
        protocol: PROTOCOL_VERSION,
        agent_forward: false,
        repaint_ctrl_l: false,
        out_offset: 0,
        win: WIN,
        term: "xt\0rm",
    })
    .encode(&mut buf);

    assert_eq!(err, Err(ProtoError::Malformed("TERM contains a NUL byte")));
    assert_eq!(buf.len(), before, "the buffer must be left untouched");

    // Built by encoding a well-formed `Hello` and overwriting one byte of its
    // `TERM`, so this does not restate the layout.
    let mut wire = Vec::new();
    Frame::Hello(Hello {
        protocol: PROTOCOL_VERSION,
        agent_forward: false,
        repaint_ctrl_l: false,
        out_offset: 0,
        win: WIN,
        term: "xt_rm",
    })
    .encode(&mut wire)
    .unwrap();
    let marker = wire.iter().position(|&b| b == b'_').unwrap();
    wire[marker] = 0;

    assert_eq!(
        Frame::decode(FrameType::Hello, &wire[HEADER_LEN..]),
        Err(ProtoError::Malformed("TERM contains a NUL byte")),
        "a NUL that arrived on the socket is a protocol error, not a spawn failure"
    );
}

/// `decode` is public and usable without `decode_header`, so it applies the
/// same bound rather than trusting a caller to have done it.
#[test]
fn frame_a_payload_over_the_maximum_is_refused_by_decode() {
    let oversized = vec![0u8; MAX_PAYLOAD as usize + 1];
    assert_eq!(
        Frame::decode(FrameType::Output, &oversized),
        Err(ProtoError::PayloadTooLarge(MAX_PAYLOAD + 1))
    );
    // One byte under the limit still decodes, so the bound is inclusive.
    let largest = vec![0u8; MAX_PAYLOAD as usize];
    assert!(Frame::decode(FrameType::Output, &largest).is_ok());
}

#[test]
fn lib_header_round_trips() {
    for ty in FrameType::ALL {
        for len in [0, 1, 255, 256, 65_535, MAX_PAYLOAD] {
            let encoded = encode_header(ty, len).unwrap();
            assert_eq!(decode_header(&encoded).unwrap(), Header { ty, len });
        }
    }
}

/// The encoder's half only.
#[test]
fn oversized_payload_is_refused_by_the_encoder() {
    assert_eq!(
        encode_header(FrameType::Output, MAX_PAYLOAD + 1),
        Err(ProtoError::PayloadTooLarge(MAX_PAYLOAD + 1))
    );
}
