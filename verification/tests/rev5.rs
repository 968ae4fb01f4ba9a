//! The codec of the fifth revision.

use nomux::codes::{ErrorCode, Linger};
use nomux::rev5::{
    decode_header, encode_header, Frame, FrameType, Header, Hello, HelloOk, HELLO_AGENT_FORWARD,
    PROTOCOL_VERSION,
};
use nomux::{ProtoError, WinSize, HEADER_LEN, MAX_PAYLOAD};

fn round_trip(frame: Frame<'_>) {
    let mut buf = Vec::new();
    frame.encode(&mut buf).unwrap();

    let header: [u8; HEADER_LEN] = buf[..HEADER_LEN].try_into().unwrap();
    let header = decode_header(&header).unwrap();
    assert_eq!(header.ty, frame.frame_type());
    assert_eq!(header.len as usize, buf.len() - HEADER_LEN);

    let decoded = Frame::decode(header.ty, &buf[HEADER_LEN..]).unwrap();
    assert_eq!(decoded, frame, "round trip mismatch");
}

const WIN: WinSize = WinSize {
    cols: 120,
    rows: 40,
    xpixel: 960,
    ypixel: 640,
};

#[test]
fn empty_payloads_round_trip() {
    round_trip(Frame::Input {
        offset: 0,
        data: b"",
    });
    round_trip(Frame::Output {
        offset: 0,
        data: b"",
    });
    round_trip(Frame::Error {
        code: ErrorCode::Internal,
        message: "",
    });
}

#[test]
fn truncated_payload_is_rejected() {
    assert_eq!(
        Frame::decode(FrameType::Ping, &[0, 0, 0]),
        Err(ProtoError::Truncated)
    );
    assert_eq!(
        Frame::decode(FrameType::Hello, &[]),
        Err(ProtoError::Truncated)
    );
}

#[test]
fn trailing_bytes_are_rejected() {
    assert_eq!(
        Frame::decode(FrameType::Ping, &[0, 0, 0, 0, 0, 0, 0, 0, 9]),
        Err(ProtoError::TrailingBytes)
    );
}

#[test]
fn invalid_discriminants_are_rejected() {
    assert_eq!(
        Frame::decode(FrameType::Exit, &[0, 0, 0, 0, 7]),
        Err(ProtoError::Malformed("unknown exit kind"))
    );
    assert_eq!(
        Frame::decode(FrameType::Error, &[0xff, 0xff]),
        Err(ProtoError::Malformed("unknown error code"))
    );
}

/// Every flag combination survives, including the ones the daemon never sends
/// together — the packing shares one byte, so a bit that leaks between fields
/// would show up here rather than as a mysterious linger warning in the client.
#[test]
fn hello_ok_flags_are_independent() {
    for gap in [false, true] {
        for agent in [false, true] {
            for linger in Linger::ALL {
                round_trip(Frame::HelloOk(HelloOk {
                    protocol: PROTOCOL_VERSION,
                    resume_from: 1,
                    in_applied: 2,
                    win: WIN,
                    gap,
                    linger,
                    agent,
                }));
            }
        }
    }
}

/// Each reserved encoding earns its own diagnosis, so the two are not
/// interchangeable: an undefined bit is one bug, a reserved linger value another.
#[test]
fn undefined_flag_bits_are_rejected() {
    let mut hello = Vec::new();
    Frame::Hello(Hello {
        protocol: PROTOCOL_VERSION,
        flags: 0,
        out_offset: 0,
        win: WIN,
        term: "",
    })
    .encode(&mut hello)
    .unwrap();
    // `flags` is the second u16 of the payload.
    hello[HEADER_LEN + 3] = 0x80;
    assert_eq!(
        Frame::decode(FrameType::Hello, &hello[HEADER_LEN..]),
        Err(ProtoError::Malformed("undefined Hello flag bits"))
    );

    let mut ok = Vec::new();
    Frame::HelloOk(HelloOk {
        protocol: PROTOCOL_VERSION,
        resume_from: 0,
        in_applied: 0,
        win: WIN,
        gap: false,
        linger: Linger::Unknown,
        agent: false,
    })
    .encode(&mut ok)
    .unwrap();
    let flags = ok.len() - 1;
    // Reserved bit 4, then the reserved linger encoding 0b11.
    for (byte, complaint) in [
        (0b1_0000, "undefined HelloOk flag bits"),
        (0b110, "unknown linger state"),
    ] {
        ok[flags] = byte;
        assert_eq!(
            Frame::decode(FrameType::HelloOk, &ok[HEADER_LEN..]),
            Err(ProtoError::Malformed(complaint)),
            "flags byte {byte:#b} should be refused"
        );
    }
}

#[test]
fn non_utf8_text_is_rejected() {
    // Hello with term_len 1 and a lone continuation byte: protocol, flags,
    // `out_offset` and the winsize ahead of it.
    let mut payload = vec![0; 2 + 2 + 8 + 8];
    payload.extend_from_slice(&1u16.to_be_bytes());
    payload.push(0x80);
    assert_eq!(
        Frame::decode(FrameType::Hello, &payload),
        Err(ProtoError::Malformed("TERM is not UTF-8"))
    );

    // The other text field, which earns its own diagnosis for the same reason
    // the reserved encodings above do: `Error` with a valid code and a lone
    // continuation byte for a message.
    assert_eq!(
        Frame::decode(FrameType::Error, &[0x00, 0x01, 0x80]),
        Err(ProtoError::Malformed("error message is not UTF-8"))
    );
}

#[test]
fn oversized_frame_is_refused_and_buffer_restored() {
    let data = vec![0u8; MAX_PAYLOAD as usize];
    let mut buf = b"previous frame".to_vec();
    let before = buf.len();
    let err = Frame::Output {
        offset: 0,
        data: &data,
    }
    .encode(&mut buf);
    assert!(matches!(err, Err(ProtoError::PayloadTooLarge(_))));
    assert_eq!(
        buf.len(),
        before,
        "failed encode must not leave partial data"
    );
}

/// `term` is length-prefixed by a `u16`, so a longer one cannot be represented.
#[test]
fn an_unrepresentable_term_is_refused_rather_than_truncated() {
    let long = "x".repeat(usize::from(u16::MAX) + 1);
    let mut buf = b"previous frame".to_vec();
    let before = buf.len();
    let err = Frame::Hello(Hello {
        protocol: PROTOCOL_VERSION,
        flags: 0,
        out_offset: 0,
        win: WIN,
        term: &long,
    })
    .encode(&mut buf);

    assert_eq!(err, Err(ProtoError::Malformed("TERM exceeds 65535 bytes")));
    assert_eq!(buf.len(), before, "the buffer must be left untouched");

    // The longest that still fits is accepted, so the boundary is exact.
    let exact = "x".repeat(usize::from(u16::MAX));
    round_trip(Frame::Hello(Hello {
        protocol: PROTOCOL_VERSION,
        flags: 0,
        out_offset: 0,
        win: WIN,
        term: &exact,
    }));
}

/// Encode and decode agree about which flag bits exist.
#[test]
fn undefined_flag_bits_are_refused_by_encode_too() {
    let mut buf = b"previous frame".to_vec();
    let before = buf.len();
    let err = Frame::Hello(Hello {
        protocol: PROTOCOL_VERSION,
        flags: HELLO_AGENT_FORWARD | 0x8000,
        out_offset: 0,
        win: WIN,
        term: "xterm",
    })
    .encode(&mut buf);

    assert_eq!(err, Err(ProtoError::Malformed("undefined Hello flag bits")));
    assert_eq!(buf.len(), before, "the buffer must be left untouched");
}

/// A `Hello` wrong in two ways at once names the `TERM`, not the flags.
///
/// A `Hello` wrong in both ways is two caller bugs at once, and which of them
/// gets named is decided by nothing more than the order of the two checks in
/// `encode_payload` — an order an unrelated edit could reverse without noticing.
/// `TERM` has always been the one reported, and this is what keeps it so.
#[test]
fn a_hello_wrong_in_two_ways_reports_the_term() {
    let long = "x".repeat(usize::from(u16::MAX) + 1);
    let err = Frame::Hello(Hello {
        protocol: PROTOCOL_VERSION,
        flags: HELLO_AGENT_FORWARD | 0x8000,
        out_offset: 0,
        win: WIN,
        term: &long,
    })
    .encode(&mut Vec::new());

    assert_eq!(err, Err(ProtoError::Malformed("TERM exceeds 65535 bytes")));
}

/// A NUL in `TERM` is valid UTF-8, and refused anyway at both ends.
///
/// The decode direction is the one that matters: the daemon hands `term`
/// straight to the child's environment, where `execve` refuses it, so a frame
/// this crate called well-formed would take the daemon down at `spawn` rather
/// than be answered as the protocol error it is.
#[test]
fn a_nul_in_term_is_refused_at_both_ends() {
    let mut buf = b"previous frame".to_vec();
    let before = buf.len();
    let err = Frame::Hello(Hello {
        protocol: PROTOCOL_VERSION,
        flags: 0,
        out_offset: 0,
        win: WIN,
        term: "xt\0rm",
    })
    .encode(&mut buf);

    assert_eq!(err, Err(ProtoError::Malformed("TERM contains a NUL byte")));
    assert_eq!(buf.len(), before, "the buffer must be left untouched");

    // Built by encoding a well-formed `Hello` and overwriting one byte of its
    // `TERM`, so this does not restate the field layout it is not testing —
    // which is pinned elsewhere.
    let mut wire = Vec::new();
    Frame::Hello(Hello {
        protocol: PROTOCOL_VERSION,
        flags: 0,
        out_offset: 0,
        win: WIN,
        term: "xt_rm",
    })
    .encode(&mut wire)
    .unwrap();
    let marker = wire.iter().position(|&b| b == b'_').unwrap();
    wire[marker] = 0;

    assert_eq!(
        Frame::decode(FrameType::Hello, &wire[HEADER_LEN..]),
        Err(ProtoError::Malformed("TERM contains a NUL byte")),
        "a NUL that arrived on the socket is a protocol error, not a spawn failure"
    );
}

/// `decode` is public and usable without `decode_header`, so it applies the
/// same bound rather than trusting a caller to have done it.
#[test]
fn a_payload_over_the_maximum_is_refused_by_decode() {
    let oversized = vec![0u8; MAX_PAYLOAD as usize + 1];
    assert_eq!(
        Frame::decode(FrameType::Output, &oversized),
        Err(ProtoError::PayloadTooLarge(MAX_PAYLOAD + 1))
    );
    // One byte under the limit still decodes, so the bound is inclusive.
    let largest = vec![0u8; MAX_PAYLOAD as usize];
    assert!(Frame::decode(FrameType::Output, &largest).is_ok());
}

#[test]
fn header_round_trips() {
    for ty in FrameType::ALL {
        for len in [0, 1, 255, 256, 65_535, MAX_PAYLOAD] {
            let encoded = encode_header(ty, len).unwrap();
            assert_eq!(decode_header(&encoded).unwrap(), Header { ty, len });
        }
    }
}

#[test]
fn oversized_payload_is_rejected() {
    assert_eq!(
        encode_header(FrameType::Output, MAX_PAYLOAD + 1),
        Err(ProtoError::PayloadTooLarge(MAX_PAYLOAD + 1))
    );
    // 0x00_04_00_01 == MAX_PAYLOAD + 1, encoded by hand since the encoder refuses.
    assert_eq!(
        decode_header(&[FrameType::Output.as_byte(), 0x04, 0x00, 0x01]),
        Err(ProtoError::PayloadTooLarge(MAX_PAYLOAD + 1))
    );
}

#[test]
fn unknown_frame_type_is_rejected() {
    assert_eq!(
        decode_header(&[0x00, 0, 0, 0]),
        Err(ProtoError::UnknownFrameType(0x00))
    );
    assert_eq!(
        decode_header(&[0xff, 0, 0, 0]),
        Err(ProtoError::UnknownFrameType(0xff))
    );
}

/// The flags of an answered greeting hold each field in bits of its own.
#[test]
fn flags_say_each_field_in_bits_of_its_own() {
    let mut seen = Vec::new();
    for gap in [false, true] {
        for agent in [false, true] {
            for linger in Linger::ALL {
                let mut wire = Vec::new();
                let ok = HelloOk {
                    protocol: PROTOCOL_VERSION,
                    resume_from: 1,
                    in_applied: 2,
                    win: WIN,
                    gap,
                    linger,
                    agent,
                };
                let flags = ok.flags();
                Frame::HelloOk(ok).encode(&mut wire).unwrap();
                assert_eq!(wire[wire.len() - 1], flags);
                assert_eq!(flags, u8::from(gap) | linger.as_byte() << 1 | u8::from(agent) << 3);
                assert_eq!(flags & 0xf0, 0);
                assert_ne!(flags & 0x06, 0x06);
                assert!(!seen.contains(&flags), "{flags:#b} says two things");
                seen.push(flags);
            }
        }
    }
    assert_eq!(seen.len(), 12);
}
