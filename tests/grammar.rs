use heapless::Vec;
use socketcand::wire::{command, Command, Delete, Open, Send, Statistics};
use socketcand::{CanId, ParseError};

fn parse(text: &str) -> Result<(Command, usize), ParseError> {
    command(text.as_bytes())
}

#[test]
fn open_physical_and_virtual_bus() {
    assert_eq!(parse("< open can7 >").unwrap(), (Command::Open(Open { index: 7, virt: false }), 13));
    assert_eq!(parse("< open vcan3 >").unwrap(), (Command::Open(Open { index: 3, virt: true }), 14));
}

#[test]
fn send_extended_with_two_bytes() {
    let text = "< send 1AAAAAAA 2 1 F1 >";
    let expected = Command::Send(Send {
        id: CanId::Extended(0x1AAAAAAA),
        dlc: 2,
        data: Vec::from_slice(&[0x01, 0xF1]).unwrap(),
    });
    assert_eq!(parse(text).unwrap(), (expected, text.len()));
}

#[test]
fn send_standard_without_data() {
    let text = "< send 123 0 >";
    let expected = Command::Send(Send { id: CanId::Standard(0x123), dlc: 0, data: Vec::new() });
    assert_eq!(parse(text).unwrap(), (expected, text.len()));
}

#[test]
fn identifier_lengths_other_than_three_or_eight() {
    for id in ["", "1", "12", "1234", "12345", "123456", "1234567", "123456789"] {
        for keyword in ["send", "update"] {
            let text = format!("< {} {} 1 00 >", keyword, id);
            assert_eq!(parse(&text), Err(ParseError::IdentifierLengthInvalid), "{}", text);
        }
        let text = format!("< delete {} >", id);
        assert_eq!(parse(&text), Err(ParseError::IdentifierLengthInvalid), "{}", text);
        let text = format!("< add 1 0 {} 1 00 >", id);
        assert_eq!(parse(&text), Err(ParseError::IdentifierLengthInvalid), "{}", text);
    }
}

#[test]
fn every_documented_literal_is_consumed_whole() {
    for text in [
        "< open can0 >",
        "< open vcan5 >",
        "< add 1 0 123 8 11 22 33 44 55 66 77 88 >",
        "< update 123 3 11 22 33 >",
        "< delete 123 >",
        "< send 1AAAAAAA 2 1 F1 >",
        "< filter 0 0 123 1 FF >",
        "< echo >",
        "< rawmode >",
        "< bcmode >",
        "< controlmode >",
        "< statistics 1000 >",
    ] {
        let (_, used) = parse(text).unwrap();
        assert_eq!(used, text.len(), "{}", text);
    }
}

#[test]
fn later_bytes_are_left_for_the_next_call() {
    let (first, used) = parse("< echo >< statistics 10 >").unwrap();
    assert_eq!(first, Command::Echo(socketcand::wire::Echo));
    assert_eq!(used, 8);
    let (second, used) = parse(&"< echo >< statistics 10 >"[8..]).unwrap();
    assert_eq!(second, Command::Statistics(Statistics { interval_millis: 10 }));
    assert_eq!(used, 17);
}

#[test]
fn incomplete_frames_need_more_data() {
    for text in ["", "<", "< ", "< op", "< open can", "< open can1", "< open can1 ", "< send 12",
        "< send 123 ", "< send 123 8 11 2", "< statistics 100", "< echo "] {
        assert_eq!(parse(text), Err(ParseError::NeedMoreData), "{}", text);
    }
}

#[test]
fn unknown_keyword_is_unrecognized() {
    assert_eq!(parse("< hello >"), Err(ParseError::UnrecognizedCommand));
    assert_eq!(parse("< opening can0 >"), Err(ParseError::UnrecognizedCommand));
}

#[test]
fn malformed_frames() {
    for text in [
        "hello",
        "<open can0 >",
        "< open bus0 >",
        "< open can256 >",
        "< open can0>",
        "< echo>",
        "< send 123 256 >",
        "< send 123 1 123 >",
        "< send 123 9 1 2 3 4 5 6 7 8 9 >",
        "< send 123 1 11 x >",
        "< statistics 4294967296 >",
        "< add 1 0x1 123 1 00 >",
    ] {
        assert_eq!(parse(text), Err(ParseError::MalformedInput), "{}", text);
    }
}

#[test]
fn identifier_out_of_range_is_malformed() {
    assert_eq!(
        parse("< delete 7FF >").unwrap().0,
        Command::Delete(Delete { id: CanId::Standard(0x7FF) })
    );
    assert_eq!(parse("< delete 800 >"), Err(ParseError::MalformedInput));
    assert_eq!(
        parse("< delete 1FFFFFFF >").unwrap().0,
        Command::Delete(Delete { id: CanId::Extended(0x1FFF_FFFF) })
    );
    assert_eq!(parse("< delete 20000000 >"), Err(ParseError::MalformedInput));
}

#[test]
fn data_is_not_checked_against_dlc() {
    let (cmd, _) = parse("< send 123 8 0a >").unwrap();
    assert_eq!(
        cmd,
        Command::Send(Send {
            id: CanId::Standard(0x123),
            dlc: 8,
            data: Vec::from_slice(&[0x0A]).unwrap(),
        })
    );
}

#[test]
fn eight_data_bytes_with_extra_spaces() {
    let (cmd, _) = parse("< send 123 8 1  2 3 4 5 6 7 8  >").unwrap();
    assert_eq!(
        cmd,
        Command::Send(Send {
            id: CanId::Standard(0x123),
            dlc: 8,
            data: Vec::from_slice(&[1, 2, 3, 4, 5, 6, 7, 8]).unwrap(),
        })
    );
}
