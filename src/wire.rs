//! The command grammar: `< keyword arg... >` frames read from a byte window.
use vstd::prelude::*;
use crate::frame::{CanId, standard_id, extended_id};
use crate::payload::{payload_bytes, empty_payload, push_byte};
use crate::scan::{
    ByteClass, ParseError, decimal, decimal_exec, hex_exec, hex_value, in_class, is_hex,
    lemma_run_end_at, lemma_run_end_bounds, literal, literal_exec, pow16, run_end, scan,
};

verus! {

/// Open command: attach to bus `can<index>` or `vcan<index>`.
#[derive(Debug, Clone, Copy, PartialEq, Eq, Structural)]
pub struct Open {
    /// Interface index.
    pub index: u8,
    /// Virtual interface (e.g. `vcan0`).
    pub virt: bool,
}

/// Frame job add command: send a frame periodically.
#[derive(Debug, PartialEq, Eq)]
pub struct Add {
    /// Whole seconds of the interval.
    pub interval_secs: u32,
    /// Microseconds added to the whole seconds of the interval.
    pub interval_micros: u32,
    /// CAN identifier.
    pub id: CanId,
    /// CAN data length code, as written; not checked against the data.
    pub dlc: u8,
    /// CAN data.
    pub data: heapless::Vec<u8, 8>,
}

/// Frame job update command.
#[derive(Debug, PartialEq, Eq)]
pub struct Update {
    pub id: CanId,
    pub dlc: u8,
    pub data: heapless::Vec<u8, 8>,
}

/// Frame job delete command.
#[derive(Debug, Clone, Copy, PartialEq, Eq, Structural)]
pub struct Delete {
    pub id: CanId,
}

/// Single frame send command.
#[derive(Debug, PartialEq, Eq)]
pub struct Send {
    pub id: CanId,
    pub dlc: u8,
    pub data: heapless::Vec<u8, 8>,
}

/// Content filter command.
#[derive(Debug, PartialEq, Eq)]
pub struct Filter {
    /// Whole seconds of the update interval.
    pub secs: u32,
    /// Microseconds added to the whole seconds of the update interval.
    pub micros: u32,
    pub id: CanId,
    pub dlc: u8,
    pub data: heapless::Vec<u8, 8>,
}

/// Echo command.
#[derive(Debug, Clone, Copy, PartialEq, Eq, Structural)]
pub struct Echo;

/// Enter raw mode command.
#[derive(Debug, Clone, Copy, PartialEq, Eq, Structural)]
pub struct RawMode;

/// Enter broadcast mode command.
#[derive(Debug, Clone, Copy, PartialEq, Eq, Structural)]
pub struct BroadcastMode;

/// Enter control mode command.
#[derive(Debug, Clone, Copy, PartialEq, Eq, Structural)]
pub struct ControlMode;

/// Statistics setting command.
#[derive(Debug, Clone, Copy, PartialEq, Eq, Structural)]
pub struct Statistics {
    /// Send rate in milliseconds.
    pub interval_millis: u32,
}

/// A decoded command.
#[derive(Debug, PartialEq, Eq)]
pub enum Command {
    Open(Open),
    Add(Add),
    Update(Update),
    Delete(Delete),
    Send(Send),
    Filter(Filter),
    Echo(Echo),
    RawMode(RawMode),
    BroadcastMode(BroadcastMode),
    ControlMode(ControlMode),
    Statistics(Statistics),
}

/// What a command says, with its data bytes as a sequence.
pub enum CommandView {
    Open { index: u8, virt: bool },
    Add { secs: u32, micros: u32, id: CanId, dlc: u8, data: Seq<u8> },
    Update { id: CanId, dlc: u8, data: Seq<u8> },
    Delete { id: CanId },
    Send { id: CanId, dlc: u8, data: Seq<u8> },
    Filter { secs: u32, micros: u32, id: CanId, dlc: u8, data: Seq<u8> },
    Echo,
    RawMode,
    BroadcastMode,
    ControlMode,
    Statistics { millis: u32 },
}

impl View for Command {
    type V = CommandView;

    open spec fn view(&self) -> CommandView {
        match self {
            Command::Open(o) => CommandView::Open { index: o.index, virt: o.virt },
            Command::Add(a) => CommandView::Add {
                secs: a.interval_secs,
                micros: a.interval_micros,
                id: a.id,
                dlc: a.dlc,
                data: payload_bytes(a.data),
            },
            Command::Update(u) => CommandView::Update {
                id: u.id,
                dlc: u.dlc,
                data: payload_bytes(u.data),
            },
            Command::Delete(d) => CommandView::Delete { id: d.id },
            Command::Send(x) => CommandView::Send {
                id: x.id,
                dlc: x.dlc,
                data: payload_bytes(x.data),
            },
            Command::Filter(f) => CommandView::Filter {
                secs: f.secs,
                micros: f.micros,
                id: f.id,
                dlc: f.dlc,
                data: payload_bytes(f.data),
            },
            Command::Echo(_) => CommandView::Echo,
            Command::RawMode(_) => CommandView::RawMode,
            Command::BroadcastMode(_) => CommandView::BroadcastMode,
            Command::ControlMode(_) => CommandView::ControlMode,
            Command::Statistics(s) => CommandView::Statistics { millis: s.interval_millis },
        }
    }
}

/// The command keywords.
#[derive(Debug, Clone, Copy, PartialEq, Eq, Structural)]
pub enum Keyword {
    Open,
    Add,
    Update,
    Delete,
    Send,
    Filter,
    Echo,
    RawMode,
    BroadcastMode,
    ControlMode,
    Statistics,
}

pub open spec fn word(k: Keyword) -> Seq<u8> {
    match k {
        Keyword::Open => seq!['o' as u8, 'p' as u8, 'e' as u8, 'n' as u8],
        Keyword::Add => seq!['a' as u8, 'd' as u8, 'd' as u8],
        Keyword::Update => seq!['u' as u8, 'p' as u8, 'd' as u8, 'a' as u8, 't' as u8, 'e' as u8],
        Keyword::Delete => seq!['d' as u8, 'e' as u8, 'l' as u8, 'e' as u8, 't' as u8, 'e' as u8],
        Keyword::Send => seq!['s' as u8, 'e' as u8, 'n' as u8, 'd' as u8],
        Keyword::Filter => seq!['f' as u8, 'i' as u8, 'l' as u8, 't' as u8, 'e' as u8, 'r' as u8],
        Keyword::Echo => seq!['e' as u8, 'c' as u8, 'h' as u8, 'o' as u8],
        Keyword::RawMode => seq![
            'r' as u8, 'a' as u8, 'w' as u8, 'm' as u8, 'o' as u8, 'd' as u8, 'e' as u8,
        ],
        Keyword::BroadcastMode => seq!['b' as u8, 'c' as u8, 'm' as u8, 'o' as u8, 'd' as u8, 'e' as u8],
        Keyword::ControlMode => seq![
            'c' as u8, 'o' as u8, 'n' as u8, 't' as u8, 'r' as u8, 'o' as u8, 'l' as u8, 'm' as u8,
            'o' as u8, 'd' as u8, 'e' as u8,
        ],
        Keyword::Statistics => seq![
            's' as u8, 't' as u8, 'a' as u8, 't' as u8, 'i' as u8, 's' as u8, 't' as u8, 'i' as u8,
            'c' as u8, 's' as u8,
        ],
    }
}

/// The keyword spelled by `w`, if any.
pub open spec fn keyword_of(w: Seq<u8>) -> Option<Keyword> {
    if w == word(Keyword::Open) {
        Some(Keyword::Open)
    } else if w == word(Keyword::Add) {
        Some(Keyword::Add)
    } else if w == word(Keyword::Update) {
        Some(Keyword::Update)
    } else if w == word(Keyword::Delete) {
        Some(Keyword::Delete)
    } else if w == word(Keyword::Send) {
        Some(Keyword::Send)
    } else if w == word(Keyword::Filter) {
        Some(Keyword::Filter)
    } else if w == word(Keyword::Echo) {
        Some(Keyword::Echo)
    } else if w == word(Keyword::RawMode) {
        Some(Keyword::RawMode)
    } else if w == word(Keyword::BroadcastMode) {
        Some(Keyword::BroadcastMode)
    } else if w == word(Keyword::ControlMode) {
        Some(Keyword::ControlMode)
    } else if w == word(Keyword::Statistics) {
        Some(Keyword::Statistics)
    } else {
        None
    }
}

pub open spec fn frame_start() -> Seq<u8> {
    seq!['<' as u8, ' ' as u8]
}

pub open spec fn space() -> Seq<u8> {
    seq![' ' as u8]
}

pub open spec fn frame_end() -> Seq<u8> {
    seq!['>' as u8]
}

pub open spec fn open_end() -> Seq<u8> {
    seq![' ' as u8, '>' as u8]
}

pub open spec fn can_prefix() -> Seq<u8> {
    seq!['c' as u8, 'a' as u8, 'n' as u8]
}

pub open spec fn vcan_prefix() -> Seq<u8> {
    seq!['v' as u8, 'c' as u8, 'a' as u8, 'n' as u8]
}

/// A decimal number of at most `max` followed by a space.
pub open spec fn number_field(s: Seq<u8>, i: int, max: nat) -> Result<(nat, int), ParseError> {
    match decimal(s, i, max) {
        Err(e) => Err(e),
        Ok((v, j)) => match literal(s, j, space()) {
            Err(e) => Err(e),
            Ok(k) => Ok((v, k)),
        },
    }
}

/// A maximal run of hex digits: 3 of them write a standard identifier, 8 an
/// extended one; a value too wide for its kind is rejected.
pub open spec fn identifier(s: Seq<u8>, i: int) -> Result<(CanId, int), ParseError> {
    let e = run_end(s, i, s.len() as int, ByteClass::Hex);
    let v = hex_value(s, i, e);
    if e == s.len() {
        Err(ParseError::NeedMoreData)
    } else if e - i == 3 {
        if v <= 0x7FF {
            Ok((CanId::Standard(v as u16), e))
        } else {
            Err(ParseError::MalformedInput)
        }
    } else if e - i == 8 {
        if v <= 0x1FFF_FFFF {
            Ok((CanId::Extended(v as u32), e))
        } else {
            Err(ParseError::MalformedInput)
        }
    } else {
        Err(ParseError::IdentifierLengthInvalid)
    }
}

/// An identifier followed by a space.
pub open spec fn id_field(s: Seq<u8>, i: int) -> Result<(CanId, int), ParseError> {
    match identifier(s, i) {
        Err(e) => Err(e),
        Ok((id, j)) => match literal(s, j, space()) {
            Err(e) => Err(e),
            Ok(k) => Ok((id, k)),
        },
    }
}

/// The bytes written by the space-separated groups of one or two hex digits
/// in `s[i..e)`, appended to `acc`; `None` where a group is longer, a byte is
/// neither, or there are more than eight.
pub open spec fn data_groups(s: Seq<u8>, i: int, e: int, acc: Seq<u8>) -> Option<Seq<u8>>
    decreases e - i
    via data_groups_decreases

{
    if i >= e {
        Some(acc)
    } else if s[i] == ' ' as u8 {
        data_groups(s, i + 1, e, acc)
    } else {
        let t = run_end(s, i, e, ByteClass::Hex);
        if t == i || t - i > 2 || acc.len() >= 8 {
            None
        } else {
            data_groups(s, t, e, acc.push(hex_value(s, i, t) as u8))
        }
    }
}

#[via_fn]
proof fn data_groups_decreases(s: Seq<u8>, i: int, e: int, acc: Seq<u8>) {
    if i < e {
        lemma_run_end_bounds(s, i, e, ByteClass::Hex);
    }
}

/// The data bytes: the maximal run of hex digits and spaces from `i`.
pub open spec fn data_field(s: Seq<u8>, i: int) -> Result<(Seq<u8>, int), ParseError> {
    let e = run_end(s, i, s.len() as int, ByteClass::HexOrSpace);
    if e == s.len() {
        Err(ParseError::NeedMoreData)
    } else {
        match data_groups(s, i, e, Seq::empty()) {
            None => Err(ParseError::MalformedInput),
            Some(d) => Ok((d, e)),
        }
    }
}

/// `<id> <dlc> <data>>`: the tail shared by add, update, send and filter.
pub open spec fn frame_fields(s: Seq<u8>, i: int) -> Result<((CanId, u8, Seq<u8>), int), ParseError> {
    match id_field(s, i) {
        Err(e) => Err(e),
        Ok((id, i)) => match number_field(s, i, 255) {
            Err(e) => Err(e),
            Ok((dlc, i)) => match data_field(s, i) {
                Err(e) => Err(e),
                Ok((data, i)) => match literal(s, i, frame_end()) {
                    Err(e) => Err(e),
                    Ok(i) => Ok(((id, dlc as u8, data), i)),
                },
            },
        },
    }
}

/// `<secs> <micros> `: the interval of add and filter.
pub open spec fn interval_fields(s: Seq<u8>, i: int) -> Result<((u32, u32), int), ParseError> {
    match number_field(s, i, u32::MAX as nat) {
        Err(e) => Err(e),
        Ok((secs, i)) => match number_field(s, i, u32::MAX as nat) {
            Err(e) => Err(e),
            Ok((micros, i)) => Ok(((secs as u32, micros as u32), i)),
        },
    }
}

/// `can<N> >` or `vcan<N> >`.
pub open spec fn open_body(s: Seq<u8>, i: int) -> Result<(CommandView, int), ParseError> {
    if i >= s.len() {
        Err(ParseError::NeedMoreData)
    } else {
        let virt = s[i] == 'v' as u8;
        match literal(s, i, if virt { vcan_prefix() } else { can_prefix() }) {
            Err(e) => Err(e),
            Ok(i) => match decimal(s, i, 255) {
                Err(e) => Err(e),
                Ok((index, i)) => match literal(s, i, open_end()) {
                    Err(e) => Err(e),
                    Ok(i) => Ok((CommandView::Open { index: index as u8, virt }, i)),
                },
            },
        }
    }
}

/// What follows `< keyword `.
pub open spec fn command_body(k: Keyword, s: Seq<u8>, i: int) -> Result<(CommandView, int), ParseError> {
    match k {
        Keyword::Open => open_body(s, i),
        Keyword::Add | Keyword::Filter => match interval_fields(s, i) {
            Err(e) => Err(e),
            Ok(((secs, micros), i)) => match frame_fields(s, i) {
                Err(e) => Err(e),
                Ok(((id, dlc, data), i)) => Ok((
                    if k == Keyword::Add {
                        CommandView::Add { secs, micros, id, dlc, data }
                    } else {
                        CommandView::Filter { secs, micros, id, dlc, data }
                    },
                    i,
                )),
            },
        },
        Keyword::Update | Keyword::Send => match frame_fields(s, i) {
            Err(e) => Err(e),
            Ok(((id, dlc, data), i)) => Ok((
                if k == Keyword::Update {
                    CommandView::Update { id, dlc, data }
                } else {
                    CommandView::Send { id, dlc, data }
                },
                i,
            )),
        },
        Keyword::Delete => match id_field(s, i) {
            Err(e) => Err(e),
            Ok((id, i)) => match literal(s, i, frame_end()) {
                Err(e) => Err(e),
                Ok(i) => Ok((CommandView::Delete { id }, i)),
            },
        },
        Keyword::Statistics => match number_field(s, i, u32::MAX as nat) {
            Err(e) => Err(e),
            Ok((millis, i)) => match literal(s, i, frame_end()) {
                Err(e) => Err(e),
                Ok(i) => Ok((CommandView::Statistics { millis: millis as u32 }, i)),
            },
        },
        _ => match literal(s, i, frame_end()) {
            Err(e) => Err(e),
            Ok(i) => Ok((
                match k {
                    Keyword::Echo => CommandView::Echo,
                    Keyword::RawMode => CommandView::RawMode,
                    Keyword::BroadcastMode => CommandView::BroadcastMode,
                    _ => CommandView::ControlMode,
                },
                i,
            )),
        },
    }
}

/// The command at the start of `s` and the number of bytes it takes, up to and
/// including its closing `>`.
pub open spec fn parse_command(s: Seq<u8>) -> Result<(CommandView, int), ParseError> {
    match literal(s, 0, frame_start()) {
        Err(e) => Err(e),
        Ok(i) => {
            let e = run_end(s, i, s.len() as int, ByteClass::Lower);
            if e == s.len() {
                Err(ParseError::NeedMoreData)
            } else {
                match keyword_of(s.subrange(i, e)) {
                    None => Err(ParseError::UnrecognizedCommand),
                    Some(k) => match literal(s, e, space()) {
                        Err(x) => Err(x),
                        Ok(j) => command_body(k, s, j),
                    },
                }
            }
        },
    }
}

/// An identifier whose run of hex digits, ended by any other byte, is neither
/// 3 nor 8 digits long is rejected for its length.
pub proof fn lemma_identifier_length(s: Seq<u8>, i: int, e: int)
    requires
        0 <= i <= e < s.len(),
        forall|k: int| i <= k < e ==> is_hex(#[trigger] s[k]),
        !is_hex(s[e]),
        e - i != 3,
        e - i != 8,
    ensures
        identifier(s, i) == Err::<(CanId, int), ParseError>(ParseError::IdentifierLengthInvalid),
        id_field(s, i) == Err::<(CanId, int), ParseError>(ParseError::IdentifierLengthInvalid),
{
    assert forall|k: int| i <= k < e implies in_class(ByteClass::Hex, #[trigger] s[k]) by {
        assert(is_hex(s[k]));
    }
    lemma_run_end_at(s, i, e, s.len() as int, ByteClass::Hex);
}

/// The same, for whole commands that start with an identifier: `update`,
/// `send` and `delete`, followed by such a run and then anything that does not
/// start with a hex digit.
pub proof fn lemma_command_identifier_length(k: Keyword, run: Seq<u8>, rest: Seq<u8>)
    requires
        k == Keyword::Update || k == Keyword::Send || k == Keyword::Delete,
        forall|j: int| 0 <= j < run.len() ==> is_hex(#[trigger] run[j]),
        run.len() != 3,
        run.len() != 8,
        rest.len() > 0,
        !is_hex(rest[0]),
    ensures
        parse_command(frame_start() + word(k) + space() + run + rest) == Err::<
            (CommandView, int),
            ParseError,
        >(ParseError::IdentifierLengthInvalid),
{
    let s = frame_start() + word(k) + space() + run + rest;
    let w = word(k);
    let ks: int = 2 + w.len() as int;
    let i: int = ks + 1;
    let e: int = i + run.len();
    assert(s.subrange(0, 2) =~= frame_start());
    assert forall|j: int| 2 <= j < ks implies in_class(ByteClass::Lower, #[trigger] s[j]) by {
        assert(s[j] == w[j - 2]);
    }
    lemma_run_end_at(s, 2, ks, s.len() as int, ByteClass::Lower);
    assert(s.subrange(2, ks) =~= w);
    assert(s.subrange(ks, ks + 1) =~= space());
    assert forall|j: int| i <= j < e implies is_hex(#[trigger] s[j]) by {
        assert(s[j] == run[j - i]);
    }
    assert(s[e] == rest[0]);
    lemma_identifier_length(s, i, e);
}

/// Carries an executable result over to positions as integers and values as their views.
pub open spec fn lift<A, B>(r: Result<(A, usize), ParseError>, f: spec_fn(A) -> B) -> Result<(B, int), ParseError> {
    match r {
        Ok((a, n)) => Ok((f(a), n as int)),
        Err(e) => Err(e),
    }
}

/// Whether `s[i..e)` spells `w`.
fn equals_at(s: &[u8], i: usize, e: usize, w: &[u8]) -> (r: bool)
    requires
        i <= e <= s@.len(),
    ensures
        r == (s@.subrange(i as int, e as int) == w@),
{
    if e - i != w.len() {
        return false;
    }
    let mut k: usize = 0;
    while k < w.len()
        invariant
            i <= e <= s@.len(),
            e - i == w@.len(),
            k <= w@.len(),
            s@.subrange(i as int, i + k) == w@.subrange(0, k as int),
        decreases w@.len() - k,
    {
        if s[i + k] != w[k] {
            assert(s@.subrange(i as int, e as int)[k as int] != w@[k as int]);
            return false;
        }
        assert(s@.subrange(i as int, i + k + 1) =~= s@.subrange(i as int, i + k).push(s@[i + k]));
        assert(w@.subrange(0, k + 1) =~= w@.subrange(0, k as int).push(w@[k as int]));
        k += 1;
    }
    assert(w@.subrange(0, k as int) =~= w@);
    true
}

fn keyword_exec(s: &[u8], i: usize, e: usize) -> (r: Option<Keyword>)
    requires
        i <= e <= s@.len(),
    ensures
        r == keyword_of(s@.subrange(i as int, e as int)),
{
    if equals_at(s, i, e, &['o' as u8, 'p' as u8, 'e' as u8, 'n' as u8]) {
        Some(Keyword::Open)
    } else if equals_at(s, i, e, &['a' as u8, 'd' as u8, 'd' as u8]) {
        Some(Keyword::Add)
    } else if equals_at(s, i, e, &['u' as u8, 'p' as u8, 'd' as u8, 'a' as u8, 't' as u8, 'e' as u8]) {
        Some(Keyword::Update)
    } else if equals_at(s, i, e, &['d' as u8, 'e' as u8, 'l' as u8, 'e' as u8, 't' as u8, 'e' as u8]) {
        Some(Keyword::Delete)
    } else if equals_at(s, i, e, &['s' as u8, 'e' as u8, 'n' as u8, 'd' as u8]) {
        Some(Keyword::Send)
    } else if equals_at(s, i, e, &['f' as u8, 'i' as u8, 'l' as u8, 't' as u8, 'e' as u8, 'r' as u8]) {
        Some(Keyword::Filter)
    } else if equals_at(s, i, e, &['e' as u8, 'c' as u8, 'h' as u8, 'o' as u8]) {
        Some(Keyword::Echo)
    } else if equals_at(
        s,
        i,
        e,
        &['r' as u8, 'a' as u8, 'w' as u8, 'm' as u8, 'o' as u8, 'd' as u8, 'e' as u8],
    ) {
        Some(Keyword::RawMode)
    } else if equals_at(s, i, e, &['b' as u8, 'c' as u8, 'm' as u8, 'o' as u8, 'd' as u8, 'e' as u8]) {
        Some(Keyword::BroadcastMode)
    } else if equals_at(
        s,
        i,
        e,
        &[
            'c' as u8, 'o' as u8, 'n' as u8, 't' as u8, 'r' as u8, 'o' as u8, 'l' as u8, 'm' as u8,
            'o' as u8, 'd' as u8, 'e' as u8,
        ],
    ) {
        Some(Keyword::ControlMode)
    } else if equals_at(
        s,
        i,
        e,
        &[
            's' as u8, 't' as u8, 'a' as u8, 't' as u8, 'i' as u8, 's' as u8, 't' as u8, 'i' as u8,
            'c' as u8, 's' as u8,
        ],
    ) {
        Some(Keyword::Statistics)
    } else {
        None
    }
}

fn decimal_field(s: &[u8], i: usize, max: u64) -> (r: Result<(u64, usize), ParseError>)
    requires
        i <= s@.len(),
        max <= u32::MAX,
    ensures
        lift(r, |v: u64| v as nat) == decimal(s@, i as int, max as nat),
        r matches Ok((v, n)) ==> i < n < s@.len() && v <= max,
{
    let len = s.len();
    let e = scan(s, i, len, ByteClass::Digit);
    if e == len {
        return Err(ParseError::NeedMoreData);
    }
    if e == i {
        return Err(ParseError::MalformedInput);
    }
    proof {
        lemma_run_end_bounds(s@, i as int, len as int, ByteClass::Digit);
    }
    match decimal_exec(s, i, e, max) {
        None => Err(ParseError::MalformedInput),
        Some(v) => Ok((v, e)),
    }
}

fn number_field_exec(s: &[u8], i: usize, max: u64) -> (r: Result<(u64, usize), ParseError>)
    requires
        i <= s@.len(),
        max <= u32::MAX,
    ensures
        lift(r, |v: u64| v as nat) == number_field(s@, i as int, max as nat),
        r matches Ok((v, n)) ==> i < n <= s@.len() && v <= max,
{
    let (v, j) = match decimal_field(s, i, max) {
        Ok(p) => p,
        Err(e) => return Err(e),
    };
    let lit: &[u8] = &[' ' as u8];
    assert(lit@ == space());
    match literal_exec(s, j, lit) {
        Ok(k) => Ok((v, k)),
        Err(e) => Err(e),
    }
}

fn identifier_exec(s: &[u8], i: usize) -> (r: Result<(CanId, usize), ParseError>)
    requires
        i <= s@.len(),
    ensures
        lift(r, |id: CanId| id) == identifier(s@, i as int),
        r matches Ok((_, n)) ==> i < n <= s@.len(),
{
    let len = s.len();
    let e = scan(s, i, len, ByteClass::Hex);
    if e == len {
        return Err(ParseError::NeedMoreData);
    }
    proof {
        lemma_run_end_bounds(s@, i as int, len as int, ByteClass::Hex);
        reveal_with_fuel(pow16, 4);
    }
    if e - i == 3 {
        let v = hex_exec(s, i, e);
        match standard_id(v as u16) {
            Some(id) => Ok((id, e)),
            None => Err(ParseError::MalformedInput),
        }
    } else if e - i == 8 {
        let v = hex_exec(s, i, e);
        match extended_id(v) {
            Some(id) => Ok((id, e)),
            None => Err(ParseError::MalformedInput),
        }
    } else {
        Err(ParseError::IdentifierLengthInvalid)
    }
}

fn id_field_exec(s: &[u8], i: usize) -> (r: Result<(CanId, usize), ParseError>)
    requires
        i <= s@.len(),
    ensures
        lift(r, |id: CanId| id) == id_field(s@, i as int),
        r matches Ok((_, n)) ==> i < n <= s@.len(),
{
    let (id, j) = match identifier_exec(s, i) {
        Ok(p) => p,
        Err(e) => return Err(e),
    };
    let lit: &[u8] = &[' ' as u8];
    assert(lit@ == space());
    match literal_exec(s, j, lit) {
        Ok(k) => Ok((id, k)),
        Err(e) => Err(e),
    }
}

fn data_field_exec(s: &[u8], i: usize) -> (r: Result<(heapless::Vec<u8, 8>, usize), ParseError>)
    requires
        i <= s@.len(),
    ensures
        lift(r, |v: heapless::Vec<u8, 8>| payload_bytes(v)) == data_field(s@, i as int),
        r matches Ok((_, n)) ==> i <= n < s@.len(),
{
    let len = s.len();
    let e = scan(s, i, len, ByteClass::HexOrSpace);
    if e == len {
        return Err(ParseError::NeedMoreData);
    }
    let mut data = empty_payload();
    let mut n: usize = 0;
    let mut k = i;
    while k < e
        invariant
            i <= k <= e < len,
            len == s@.len(),
            e == run_end(s@, i as int, len as int, ByteClass::HexOrSpace),
            n == payload_bytes(data).len(),
            n <= 8,
            data_groups(s@, k as int, e as int, payload_bytes(data)) == data_groups(
                s@,
                i as int,
                e as int,
                Seq::empty(),
            ),
        decreases e - k,
    {
        if s[k] == ' ' as u8 {
            k += 1;
        } else {
            let t = scan(s, k, e, ByteClass::Hex);
            if t == k || t - k > 2 || n >= 8 {
                assert(data_groups(s@, k as int, e as int, payload_bytes(data)) is None);
                return Err(ParseError::MalformedInput);
            }
            proof {
                lemma_run_end_bounds(s@, k as int, e as int, ByteClass::Hex);
                reveal_with_fuel(pow16, 3);
            }
            let v = hex_exec(s, k, t);
            let _ = push_byte(&mut data, v as u8);
            n += 1;
            k = t;
        }
    }
    Ok((data, e))
}

fn frame_fields_exec(s: &[u8], i: usize) -> (r: Result<((CanId, u8, heapless::Vec<u8, 8>), usize), ParseError>)
    requires
        i <= s@.len(),
    ensures
        lift(r, |x: (CanId, u8, heapless::Vec<u8, 8>)| (x.0, x.1, payload_bytes(x.2)))
            == frame_fields(s@, i as int),
        r matches Ok((_, n)) ==> i < n <= s@.len(),
{
    let (id, j) = match id_field_exec(s, i) {
        Ok(p) => p,
        Err(e) => return Err(e),
    };
    let (dlc, j) = match number_field_exec(s, j, 255) {
        Ok(p) => p,
        Err(e) => return Err(e),
    };
    let (data, j) = match data_field_exec(s, j) {
        Ok(p) => p,
        Err(e) => return Err(e),
    };
    let lit: &[u8] = &['>' as u8];
    assert(lit@ == frame_end());
    match literal_exec(s, j, lit) {
        Ok(k) => Ok(((id, dlc as u8, data), k)),
        Err(e) => Err(e),
    }
}

fn interval_fields_exec(s: &[u8], i: usize) -> (r: Result<((u32, u32), usize), ParseError>)
    requires
        i <= s@.len(),
    ensures
        lift(r, |x: (u32, u32)| x) == interval_fields(s@, i as int),
        r matches Ok((_, n)) ==> i < n <= s@.len(),
{
    let (secs, j) = match number_field_exec(s, i, 0xFFFF_FFFF) {
        Ok(p) => p,
        Err(e) => return Err(e),
    };
    let (micros, j) = match number_field_exec(s, j, 0xFFFF_FFFF) {
        Ok(p) => p,
        Err(e) => return Err(e),
    };
    Ok(((secs as u32, micros as u32), j))
}

fn open_exec(s: &[u8], i: usize) -> (r: Result<(Command, usize), ParseError>)
    requires
        i <= s@.len(),
    ensures
        lift(r, |c: Command| c@) == open_body(s@, i as int),
        r matches Ok((_, n)) ==> i < n <= s@.len(),
{
    if i >= s.len() {
        return Err(ParseError::NeedMoreData);
    }
    let virt = s[i] == 'v' as u8;
    let j = if virt {
        let lit: &[u8] = &['v' as u8, 'c' as u8, 'a' as u8, 'n' as u8];
        assert(lit@ == vcan_prefix());
        literal_exec(s, i, lit)
    } else {
        let lit: &[u8] = &['c' as u8, 'a' as u8, 'n' as u8];
        assert(lit@ == can_prefix());
        literal_exec(s, i, lit)
    };
    let j = match j {
        Ok(j) => j,
        Err(e) => return Err(e),
    };
    let (index, j) = match decimal_field(s, j, 255) {
        Ok(p) => p,
        Err(e) => return Err(e),
    };
    let lit: &[u8] = &[' ' as u8, '>' as u8];
    assert(lit@ == open_end());
    match literal_exec(s, j, lit) {
        Ok(k) => Ok((Command::Open(Open { index: index as u8, virt }), k)),
        Err(e) => Err(e),
    }
}

fn command_body_exec(k: Keyword, s: &[u8], i: usize) -> (r: Result<(Command, usize), ParseError>)
    requires
        i <= s@.len(),
    ensures
        lift(r, |c: Command| c@) == command_body(k, s@, i as int),
        r matches Ok((_, n)) ==> i < n <= s@.len(),
{
    match k {
        Keyword::Open => open_exec(s, i),
        Keyword::Add | Keyword::Filter => {
            let ((secs, micros), j) = match interval_fields_exec(s, i) {
                Ok(p) => p,
                Err(e) => return Err(e),
            };
            let ((id, dlc, data), j) = match frame_fields_exec(s, j) {
                Ok(p) => p,
                Err(e) => return Err(e),
            };
            if k == Keyword::Add {
                Ok((
                    Command::Add(
                        Add { interval_secs: secs, interval_micros: micros, id, dlc, data },
                    ),
                    j,
                ))
            } else {
                Ok((Command::Filter(Filter { secs, micros, id, dlc, data }), j))
            }
        },
        Keyword::Update | Keyword::Send => {
            let ((id, dlc, data), j) = match frame_fields_exec(s, i) {
                Ok(p) => p,
                Err(e) => return Err(e),
            };
            if k == Keyword::Update {
                Ok((Command::Update(Update { id, dlc, data }), j))
            } else {
                Ok((Command::Send(Send { id, dlc, data }), j))
            }
        },
        Keyword::Delete => {
            let (id, j) = match id_field_exec(s, i) {
                Ok(p) => p,
                Err(e) => return Err(e),
            };
            let lit: &[u8] = &['>' as u8];
            assert(lit@ == frame_end());
            match literal_exec(s, j, lit) {
                Ok(n) => Ok((Command::Delete(Delete { id }), n)),
                Err(e) => Err(e),
            }
        },
        Keyword::Statistics => {
            let (millis, j) = match number_field_exec(s, i, 0xFFFF_FFFF) {
                Ok(p) => p,
                Err(e) => return Err(e),
            };
            let lit: &[u8] = &['>' as u8];
            assert(lit@ == frame_end());
            match literal_exec(s, j, lit) {
                Ok(n) => Ok((Command::Statistics(Statistics { interval_millis: millis as u32 }), n)),
                Err(e) => Err(e),
            }
        },
        _ => {
            let lit: &[u8] = &['>' as u8];
            assert(lit@ == frame_end());
            let n = match literal_exec(s, i, lit) {
                Ok(n) => n,
                Err(e) => return Err(e),
            };
            let c = match k {
                Keyword::Echo => Command::Echo(Echo),
                Keyword::RawMode => Command::RawMode(RawMode),
                Keyword::BroadcastMode => Command::BroadcastMode(BroadcastMode),
                _ => Command::ControlMode(ControlMode),
            };
            Ok((c, n))
        },
    }
}

/// Parses one command at the start of `input`.
///
/// On success, returns the command and the number of bytes it takes, up to
/// and including its closing `>`; later bytes are left for the next call.
/// `NeedMoreData` says that the window ends inside a frame that may still be
/// completed; the other errors say that the frame is not a command.
pub fn command(input: &[u8]) -> (r: Result<(Command, usize), ParseError>)
    ensures
        lift(r, |c: Command| c@) == parse_command(input@),
        r matches Ok((_, n)) ==> 0 < n <= input@.len(),
{
    let len = input.len();
    let lit: &[u8] = &['<' as u8, ' ' as u8];
    assert(lit@ == frame_start());
    let i = match literal_exec(input, 0, lit) {
        Ok(i) => i,
        Err(e) => return Err(e),
    };
    let e = scan(input, i, len, ByteClass::Lower);
    if e == len {
        return Err(ParseError::NeedMoreData);
    }
    let k = match keyword_exec(input, i, e) {
        Some(k) => k,
        None => return Err(ParseError::UnrecognizedCommand),
    };
    let lit: &[u8] = &[' ' as u8];
    assert(lit@ == space());
    let j = match literal_exec(input, e, lit) {
        Ok(j) => j,
        Err(x) => return Err(x),
    };
    command_body_exec(k, input, j)
}

} // verus!
