//! What is said of a malformed frame, and the codec of the eleventh revision.

use nomux::{
    decode_header, ErrorCode, ExitKind, Frame, FrameType, Hello, HelloOk, ProtoError, WinSize,
    HEADER_LEN, MAX_AGENT_DATA, MAX_OUTPUT_DATA, MAX_PAYLOAD, PROTOCOL_VERSION, SERVER_PREAMBLE,
};

#[test]
fn every_malformed_frame_is_described() {
    for (e, said) in [
        (ProtoError::UnknownFrameType(0x00), "unknown frame type 0x00"),
        (ProtoError::UnknownFrameType(0xfa), "unknown frame type 0xfa"),
        (
            ProtoError::PayloadTooLarge(262_145),
            "payload of 262145 bytes exceeds maximum of 262144",
        ),
        (ProtoError::Truncated, "frame payload is truncated"),
        (ProtoError::TrailingBytes, "frame payload has trailing bytes"),
        (ProtoError::Malformed("x"), "malformed frame: x"),
    ] {
        assert_eq!(e.message(), said);
    }
}

const WIN: WinSize = WinSize {
    cols: 120,
    rows: 40,
    xpixel: 960,
    ypixel: 640,
};

fn round_trip(frame: Frame<'_>) -> Vec<u8> {
    let mut buf = Vec::new();
    frame.encode(&mut buf).unwrap();
    let header = decode_header(buf[..HEADER_LEN].try_into().unwrap()).unwrap();
    assert_eq!(header.ty, frame.frame_type());
    assert_eq!(Frame::decode(header.ty, &buf[HEADER_LEN..]).unwrap(), frame);
    buf
}

#[test]
fn every_frame_of_the_eleventh_revision_reads_back() {
    assert_eq!(PROTOCOL_VERSION, 11);
    for flags in 0..8u8 {
        let wire = round_trip(Frame::Hello(Hello {
            protocol: PROTOCOL_VERSION,
            agent_forward: flags & 1 != 0,
            repaint_ctrl_l: flags & 2 != 0,
            if_detached: flags & 4 != 0,
            out_offset: 5,
            win: WIN,
            term: "xterm",
        }));
        assert_eq!(wire[HEADER_LEN + 2], flags, "each request has a bit of its own");
    }
    for agent in [false, true] {
        round_trip(Frame::HelloOk(HelloOk {
            resume_from: 1,
            in_applied: 2,
            agent,
        }));
    }
    for kind in ExitKind::ALL {
        round_trip(Frame::Exit {
            status: -7,
            kind,
            since_terminal_closed_secs: 9,
        });
    }
    for code in ErrorCode::ALL {
        round_trip(Frame::Error {
            code,
            message: "hëm",
        });
    }
    for frame in [
        Frame::Input { offset: 1, data: b"a" },
        Frame::InputAck { applied_through: 2 },
        Frame::Output { offset: 3, data: b"b" },
        Frame::Resize(WIN),
        Frame::Gap { new_base_offset: 4 },
        Frame::Detach,
        Frame::Ping,
        Frame::Pong,
        Frame::AgentOpen { generation: 5 },
        Frame::AgentData { generation: 6, data: b"c" },
        Frame::AgentClose { generation: 7 },
    ] {
        round_trip(frame);
    }
}

#[test]
fn what_the_eleventh_revision_does_not_define_is_refused() {
    let mut hello = round_trip(Frame::Hello(Hello {
        protocol: PROTOCOL_VERSION,
        agent_forward: false,
        repaint_ctrl_l: false,
        if_detached: false,
        out_offset: 0,
        win: WIN,
        term: "",
    }));
    hello[HEADER_LEN + 2] = 8;
    assert_eq!(
        Frame::decode(FrameType::Hello, &hello[HEADER_LEN..]),
        Err(ProtoError::Malformed("undefined Hello flag bits"))
    );
    assert_eq!(
        Frame::decode(FrameType::Exit, &[0, 0, 0, 0, 3, 0, 0, 0, 0]),
        Err(ProtoError::Malformed("unknown exit kind"))
    );
    assert_eq!(
        Frame::decode(FrameType::Error, &[0, 7]),
        Err(ProtoError::Malformed("unknown error code"))
    );
    assert_eq!(Frame::decode(FrameType::Pong, &[0]), Err(ProtoError::TrailingBytes));
}

#[test]
fn the_largest_output_and_agent_frames_fill_a_payload() {
    assert_eq!(MAX_OUTPUT_DATA + 8, MAX_PAYLOAD as usize);
    assert_eq!(MAX_AGENT_DATA + 4, MAX_PAYLOAD as usize);
    let data = vec![0; MAX_OUTPUT_DATA];
    round_trip(Frame::Output { offset: 0, data: &data });
    let data = vec![0; MAX_AGENT_DATA + 1];
    assert_eq!(
        Frame::AgentData { generation: 0, data: &data }.encode(&mut Vec::new()),
        Err(ProtoError::PayloadTooLarge(MAX_PAYLOAD + 1))
    );
    assert_eq!(SERVER_PREAMBLE.len(), 12);
}
