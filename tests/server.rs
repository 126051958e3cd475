use socketcand::server::format_frame;
use socketcand::wire::Command;
use socketcand::{CanId, ConnectionState, Frame, Link, Mode, Port, Server, TcpState, Timestamp};

fn link(state: TcpState, can_send: bool, can_recv: bool) -> Link {
    Link { state, can_send, can_recv }
}

fn now() -> Timestamp {
    Timestamp { secs: 1700000000, millis: 123 }
}

fn text(bytes: &[u8]) -> String {
    String::from_utf8(bytes.to_vec()).unwrap()
}

#[test]
fn default_port() {
    assert_eq!(Port::default().0, 29536);
}

#[test]
fn new_server_starts_from_default_state() {
    let server = Server::new(Port(1234));
    assert_eq!(server.port(), 1234);
    assert_eq!(server.state(), ConnectionState::default());
    assert_eq!(ConnectionState::default(), ConnectionState { welcome: false, mode: Mode::NoBus });
}

#[test]
fn closed_socket_is_told_to_listen() {
    let mut server = Server::new(Port::default());
    for state in [TcpState::Closed, TcpState::TimeWait] {
        let tick = server.tick(&link(state, false, false), &[], now(), &[]);
        assert!(tick.listen);
        assert!(!tick.close);
        assert!(tick.output.is_empty());
    }
    let tick = server.tick(&link(TcpState::Listen, false, false), &[], now(), &[]);
    assert!(!tick.listen);
}

#[test]
fn greeting_is_sent_once() {
    let mut server = Server::new(Port::default());
    let tick = server.tick(&link(TcpState::Established, true, false), &[], now(), &[]);
    assert_eq!(text(&tick.output), "< hi >");
    assert!(server.state().welcome);
    let tick = server.tick(&link(TcpState::Established, true, false), &[], now(), &[]);
    assert!(tick.output.is_empty());
}

#[test]
fn greeting_waits_for_room_to_send() {
    let mut server = Server::new(Port::default());
    let tick = server.tick(&link(TcpState::Established, false, false), &[], now(), &[]);
    assert!(tick.output.is_empty());
    assert!(!server.state().welcome);
}

#[test]
fn close_resets_and_next_connection_is_greeted_again() {
    let mut server = Server::new(Port::default());
    server.tick(&link(TcpState::Established, true, false), &[], now(), &[]);
    server.tick(&link(TcpState::Established, true, true), b"< rawmode >", now(), &[]);
    assert_eq!(server.state().mode, Mode::Raw);
    let tick = server.tick(&link(TcpState::CloseWait, true, true), b"< echo >", now(), &[]);
    assert!(tick.close);
    assert!(tick.output.is_empty());
    assert_eq!(tick.consumed, 0);
    assert!(tick.command.is_none());
    assert_eq!(server.state(), ConnectionState::default());
    let tick = server.tick(&link(TcpState::Established, true, false), &[], now(), &[]);
    assert_eq!(text(&tick.output), "< hi >");
    let tick = server.tick(&link(TcpState::Established, true, false), &[], now(), &[]);
    assert!(tick.output.is_empty());
}

#[test]
fn raw_mode_takes_effect_in_the_same_tick() {
    let mut server = Server::new(Port::default());
    let frame = Frame::new(CanId::Standard(0x123), &[0x11, 0x22, 0x33]).unwrap();
    let window = b"< rawmode >";
    let tick = server.tick(&link(TcpState::Established, true, true), window, now(), &[frame]);
    assert_eq!(
        text(&tick.output),
        "< hi >< ok >< frame 123 1700000000.123 112233 >"
    );
    assert_eq!(tick.consumed, window.len());
    assert!(matches!(tick.command, Some(Command::RawMode(_))));
    assert_eq!(server.state().mode, Mode::Raw);
}

#[test]
fn open_switches_to_broadcast_and_frames_stay_silent() {
    let mut server = Server::new(Port::default());
    server.tick(&link(TcpState::Established, true, false), &[], now(), &[]);
    let frame = Frame::new(CanId::Standard(0x123), &[0x11]).unwrap();
    let tick = server.tick(&link(TcpState::Established, true, true), b"< open can0 >", now(), &[frame]);
    assert_eq!(text(&tick.output), "< ok >");
    assert_eq!(server.state().mode, Mode::Broadcast);
}

#[test]
fn other_commands_are_handed_on_without_reply() {
    let mut server = Server::new(Port::default());
    server.tick(&link(TcpState::Established, true, false), &[], now(), &[]);
    let tick = server.tick(&link(TcpState::Established, true, true), b"< echo >< bcmode >", now(), &[]);
    assert!(tick.output.is_empty());
    assert_eq!(tick.consumed, 8);
    assert!(matches!(tick.command, Some(Command::Echo(_))));
    assert_eq!(server.state().mode, Mode::NoBus);
}

#[test]
fn parse_waits_for_room_to_send() {
    let mut server = Server::new(Port::default());
    server.tick(&link(TcpState::Established, true, false), &[], now(), &[]);
    let tick = server.tick(&link(TcpState::Established, false, true), b"< rawmode >", now(), &[]);
    assert_eq!(tick.consumed, 0);
    assert!(tick.command.is_none());
    assert_eq!(server.state().mode, Mode::NoBus);
}

#[test]
fn failed_parse_drops_the_window_and_incomplete_keeps_it() {
    let mut server = Server::new(Port::default());
    server.tick(&link(TcpState::Established, true, false), &[], now(), &[]);
    let window = b"< bogus >< echo >";
    let tick = server.tick(&link(TcpState::Established, true, true), window, now(), &[]);
    assert_eq!(tick.consumed, window.len());
    assert!(tick.command.is_none());
    assert!(tick.output.is_empty());
    let tick = server.tick(&link(TcpState::Established, true, true), b"< ec", now(), &[]);
    assert_eq!(tick.consumed, 0);
    assert!(tick.command.is_none());
}

#[test]
fn idle_tick_twice_changes_nothing() {
    let mut server = Server::new(Port::default());
    server.tick(&link(TcpState::Established, true, false), &[], now(), &[]);
    let idle = link(TcpState::Established, false, false);
    let first = server.tick(&idle, &[], now(), &[]);
    let state = server.state();
    let second = server.tick(&idle, &[], now(), &[]);
    assert_eq!(server.state(), state);
    assert!(first.output.is_empty() && second.output.is_empty());
    assert_eq!((first.listen, first.close, first.consumed), (second.listen, second.close, second.consumed));
}

#[test]
fn frames_only_in_raw_mode() {
    let frame = Frame::new(CanId::Standard(0x123), &[0x11, 0x22, 0x33]).unwrap();
    for mode in [Mode::NoBus, Mode::Broadcast, Mode::Control, Mode::IsoTp] {
        assert!(format_frame(mode, true, &frame, now()).is_none());
    }
    assert!(format_frame(Mode::Raw, false, &frame, now()).is_none());
    let line = format_frame(Mode::Raw, true, &frame, now()).unwrap();
    assert_eq!(text(&line), "< frame 123 1700000000.123 112233 >");
    assert!(line.len() <= 128);
}

#[test]
fn frame_line_extended_and_empty() {
    let frame = Frame::new(CanId::Extended(0x1AAAAAAA), &[]).unwrap();
    let line = format_frame(Mode::Raw, true, &frame, Timestamp { secs: 5, millis: 7 }).unwrap();
    assert_eq!(text(&line), "< frame 1AAAAAAA 5.7  >");
    let frame = Frame::new(CanId::Standard(0x00A), &[0x0f, 0xa0]).unwrap();
    let line = format_frame(Mode::Raw, true, &frame, Timestamp { secs: 0, millis: 0 }).unwrap();
    assert_eq!(text(&line), "< frame 00A 0.0 0FA0 >");
}

#[test]
fn longest_frame_line_fits() {
    let frame = Frame::new(CanId::Extended(0x1FFF_FFFF), &[0xFF; 8]).unwrap();
    let stamp = Timestamp { secs: i64::MIN, millis: i64::MIN };
    let line = format_frame(Mode::Raw, true, &frame, stamp).unwrap();
    assert_eq!(
        text(&line),
        "< frame 1FFFFFFF -9223372036854775808.-9223372036854775808 FFFFFFFFFFFFFFFF >"
    );
    assert!(line.len() <= 128);
}

#[test]
fn frame_construction_checks_bounds() {
    assert!(Frame::new(CanId::Standard(0x800), &[]).is_none());
    assert!(Frame::new(CanId::Extended(0x2000_0000), &[]).is_none());
    assert!(Frame::new(CanId::Standard(0x7FF), &[0; 9]).is_none());
    let frame = Frame::new(CanId::Standard(0x7FF), &[1, 2]).unwrap();
    assert_eq!(frame.id(), CanId::Standard(0x7FF));
    assert_eq!(frame.dlc(), 2);
    assert_eq!(frame.data(), &[1, 2]);
}
