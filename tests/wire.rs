use heapless::Vec;
use socketcand::wire::{
    command, Add, BroadcastMode, Command, ControlMode, Delete, Echo, Filter, Open, RawMode, Send,
    Statistics, Update,
};
use socketcand::{CanId, ParseError};

fn parse(text: &str) -> Result<(Command, usize), ParseError> {
    command(text.as_bytes())
}

#[test]
fn parse_open() {
    let (result, _) = parse("< open vcan5 >").unwrap();
    assert_eq!(result, Command::Open(Open { index: 5, virt: true }));
}

#[test]
fn parse_add() {
    let (result, _) = parse("< add 1 0 123 8 11 22 33 44 55 66 77 88 >").unwrap();
    assert_eq!(
        result,
        Command::Add(Add {
            interval_secs: 1,
            interval_micros: 0,
            id: CanId::Standard(0x123),
            dlc: 8,
            data: Vec::from_slice(&[0x11, 0x22, 0x33, 0x44, 0x55, 0x66, 0x77, 0x88]).unwrap(),
        })
    );
}

#[test]
fn parse_update() {
    let (result, _) = parse("< update 123 3 11 22 33 >").unwrap();
    assert_eq!(
        result,
        Command::Update(Update {
            id: CanId::Standard(0x123),
            dlc: 3,
            data: Vec::from_slice(&[0x11, 0x22, 0x33]).unwrap(),
        })
    );
}

#[test]
fn parse_delete() {
    let (result, _) = parse("< delete 123 >").unwrap();
    assert_eq!(result, Command::Delete(Delete { id: CanId::Standard(0x123) }));
}

#[test]
fn parse_send_no_data() {
    let (result, _) = parse("< send 123 0 >").unwrap();
    assert_eq!(
        result,
        Command::Send(Send { id: CanId::Standard(0x123), dlc: 0, data: Vec::new() })
    );
}

#[test]
fn parse_send_with_data() {
    let (result, _) = parse("< send 1AAAAAAA 2 1 f1 >").unwrap();
    assert_eq!(
        result,
        Command::Send(Send {
            id: CanId::Extended(0x1AAAAAAA),
            dlc: 2,
            data: Vec::from_slice(&[0x1, 0xf1]).unwrap(),
        })
    );
}

#[test]
fn parse_send_id_length_incorrect() {
    let result = parse("< send 1234 0 >");
    assert!(result.is_err());
}

#[test]
fn parse_filter() {
    let (result, _) = parse("< filter 0 0 123 1 FF >").unwrap();
    assert_eq!(
        result,
        Command::Filter(Filter {
            secs: 0,
            micros: 0,
            id: CanId::Standard(0x123),
            dlc: 1,
            data: Vec::from_slice(&[0xFF]).unwrap(),
        })
    );
}

#[test]
fn parse_echo() {
    let (result, _) = parse("< echo >").unwrap();
    assert_eq!(result, Command::Echo(Echo));
}

#[test]
fn parse_raw_mode() {
    let (result, _) = parse("< rawmode >").unwrap();
    assert_eq!(result, Command::RawMode(RawMode));
}

#[test]
fn parse_broadcast_mode() {
    let (result, _) = parse("< bcmode >").unwrap();
    assert_eq!(result, Command::BroadcastMode(BroadcastMode));
}

#[test]
fn parse_control_mode() {
    let (result, _) = parse("< controlmode >").unwrap();
    assert_eq!(result, Command::ControlMode(ControlMode));
}

#[test]
fn statistics() {
    let (result, _) = parse("< statistics 1000 >").unwrap();
    assert_eq!(result, Command::Statistics(Statistics { interval_millis: 1000 }));
}

#[test]
fn test_parse_open() {
    let (result, _) = parse("< open can0 >").unwrap();
    assert_eq!(result, Command::Open(Open { index: 0, virt: false }));
}

#[test]
fn test_parse_add() {
    let (result, _) = parse("< add 1 0 123 8 11 22 33 44 55 66 77 88 >").unwrap();
    assert_eq!(
        result,
        Command::Add(Add {
            interval_secs: 1,
            interval_micros: 0,
            id: CanId::Standard(0x123),
            dlc: 8,
            data: Vec::from_slice(&[0x11, 0x22, 0x33, 0x44, 0x55, 0x66, 0x77, 0x88]).unwrap(),
        })
    );
}

#[test]
fn test_parse_update() {
    let (result, _) = parse("< update 123 3 11 22 33 >").unwrap();
    assert_eq!(
        result,
        Command::Update(Update {
            id: CanId::Standard(0x123),
            dlc: 3,
            data: Vec::from_slice(&[0x11, 0x22, 0x33]).unwrap(),
        })
    );
}

#[test]
fn test_parse_delete() {
    let (result, _) = parse("< delete 123 >").unwrap();
    assert_eq!(result, Command::Delete(Delete { id: CanId::Standard(0x123) }));
}

#[test]
fn test_parse_send_no_data() {
    let (result, _) = parse("< send 123 0 >").unwrap();
    assert_eq!(
        result,
        Command::Send(Send { id: CanId::Standard(0x123), dlc: 0, data: Vec::new() })
    );
}

#[test]
fn test_parse_send_with_data() {
    let (result, _) = parse("< send 1AAAAAAA 2 1 f1 >").unwrap();
    assert_eq!(
        result,
        Command::Send(Send {
            id: CanId::Extended(0x1AAAAAAA),
            dlc: 2,
            data: Vec::from_slice(&[0x1, 0xf1]).unwrap(),
        })
    );
}

#[test]
fn test_parse_filter() {
    let (result, _) = parse("< filter 0 0 123 1 FF >").unwrap();
    assert_eq!(
        result,
        Command::Filter(Filter {
            secs: 0,
            micros: 0,
            id: CanId::Standard(0x123),
            dlc: 1,
            data: Vec::from_slice(&[0xFF]).unwrap(),
        })
    );
}
