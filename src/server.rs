//! The per-connection protocol state machine.
//!
//! The transport stays outside: each tick the driver reports what the socket
//! can do and hands over the bytes received so far, and performs the actions
//! that the tick returns.
use vstd::prelude::*;
use crate::Mode;
use crate::frame::{Frame, FrameView, Timestamp, frame_line, frame_prefix, frame_text, MAX_LINE, lemma_frame_text_len};
use crate::scan::ParseError;
use crate::text::push_all;
use crate::wire::{Command, CommandView, command, parse_command};

verus! {

/// The states of a TCP socket, as the transport reports them.
#[derive(Debug, Clone, Copy, PartialEq, Eq, Structural)]
pub enum TcpState {
    Closed,
    Listen,
    SynSent,
    SynReceived,
    Established,
    FinWait1,
    FinWait2,
    CloseWait,
    Closing,
    LastAck,
    TimeWait,
}

impl TcpState {
    /// The socket takes part in a connection or waits for one.
    pub open spec fn is_open(self) -> bool {
        !(self is Closed) && !(self is TimeWait)
    }
}

/// What the transport reports at a tick.
#[derive(Debug, Clone, Copy, PartialEq, Eq, Structural)]
pub struct Link {
    pub state: TcpState,
    /// There is room to send.
    pub can_send: bool,
    /// There are received bytes.
    pub can_recv: bool,
}

/// State of one connection, reset to its default when the client disconnects.
#[derive(Debug, Clone, Copy, PartialEq, Eq, Structural)]
pub struct ConnectionState {
    /// The `< hi >` greeting has been sent.
    pub welcome: bool,
    pub mode: Mode,
}

impl ConnectionState {
    pub open spec fn initial() -> ConnectionState {
        ConnectionState { welcome: false, mode: Mode::NoBus }
    }
}

impl Default for ConnectionState {
    fn default() -> (r: ConnectionState)
        ensures
            r == ConnectionState::initial(),
    {
        ConnectionState { welcome: false, mode: Mode::NoBus }
    }
}

/// What the driver is to do after a tick.
#[derive(Debug)]
pub struct Tick {
    /// Put the socket in the listening state.
    pub listen: bool,
    /// Close the socket.
    pub close: bool,
    /// Bytes to send, in order.
    pub output: Vec<u8>,
    /// Received bytes to drop from the front of the window.
    pub consumed: usize,
    /// The command decoded, for the bus layer.
    pub command: Option<Command>,
}

pub struct TickView {
    pub listen: bool,
    pub close: bool,
    pub output: Seq<u8>,
    pub consumed: nat,
    pub command: Option<CommandView>,
}

impl View for Tick {
    type V = TickView;

    open spec fn view(&self) -> TickView {
        TickView {
            listen: self.listen,
            close: self.close,
            output: self.output@,
            consumed: self.consumed as nat,
            command: match self.command {
                Some(c) => Some(c@),
                None => None,
            },
        }
    }
}

pub open spec fn greeting() -> Seq<u8> {
    seq!['<' as u8, ' ' as u8, 'h' as u8, 'i' as u8, ' ' as u8, '>' as u8]
}

pub open spec fn ok_reply() -> Seq<u8> {
    seq!['<' as u8, ' ' as u8, 'o' as u8, 'k' as u8, ' ' as u8, '>' as u8]
}

/// The socket is neither open nor listening, so it is to listen again.
pub open spec fn wants_listen(link: Link) -> bool {
    !link.state.is_open() && !(link.state is Listen)
}

/// The greeting goes out on an established connection that has not had it,
/// once there is room to send.
pub open spec fn greets(st: ConnectionState, link: Link) -> bool {
    link.state is Established && !st.welcome && link.can_send
}

/// The effect of what the parser returned on `window`: the new state, the
/// reply, the bytes to drop and the command handed on. A failed parse drops
/// the whole window; an incomplete one drops nothing.
pub open spec fn apply(st: ConnectionState, parsed: Result<(CommandView, int), ParseError>, window_len: nat) -> (ConnectionState, Seq<u8>, nat, Option<CommandView>) {
    match parsed {
        Ok((c, n)) => match c {
            CommandView::Open { .. } => (
                ConnectionState { welcome: st.welcome, mode: Mode::Broadcast },
                ok_reply(),
                n as nat,
                Some(c),
            ),
            CommandView::RawMode => (
                ConnectionState { welcome: st.welcome, mode: Mode::Raw },
                ok_reply(),
                n as nat,
                Some(c),
            ),
            _ => (st, Seq::empty(), n as nat, Some(c)),
        },
        Err(ParseError::NeedMoreData) => (st, Seq::empty(), 0, None),
        Err(_) => (st, Seq::empty(), window_len, None),
    }
}

/// The lines of `frames`, in order.
pub open spec fn frames_text(frames: Seq<FrameView>, now: Timestamp) -> Seq<u8>
    decreases frames.len(),
{
    if frames.len() == 0 {
        Seq::empty()
    } else {
        frames_text(frames.drop_last(), now) + frame_text(frames.last(), now)
    }
}

/// Frames are reported only in raw mode and only where there is room to send.
pub open spec fn frames_output(mode: Mode, can_send: bool, frames: Seq<FrameView>, now: Timestamp) -> Seq<u8> {
    if mode == Mode::Raw && can_send {
        frames_text(frames, now)
    } else {
        Seq::empty()
    }
}

/// One tick: socket lifecycle first, then at most one command, then the frames.
pub open spec fn tick(st: ConnectionState, link: Link, window: Seq<u8>, now: Timestamp, frames: Seq<FrameView>) -> (ConnectionState, TickView) {
    let listen = wants_listen(link);
    if link.state is CloseWait {
        (
            ConnectionState::initial(),
            TickView { listen, close: true, output: Seq::empty(), consumed: 0, command: None },
        )
    } else {
        let greet = greets(st, link);
        let st1 = if greet {
            ConnectionState { welcome: true, mode: st.mode }
        } else {
            st
        };
        let step = if link.can_recv && link.can_send {
            apply(st1, parse_command(window), window.len())
        } else {
            (st1, Seq::empty(), 0, None)
        };
        let st2 = step.0;
        let output = (if greet {
            greeting()
        } else {
            Seq::empty()
        }) + step.1 + frames_output(st2.mode, link.can_send, frames, now);
        (st2, TickView { listen, close: false, output, consumed: step.2, command: step.3 })
    }
}

pub open spec fn frame_views(frames: Seq<Frame>) -> Seq<FrameView> {
    frames.map_values(|f: Frame| f@)
}

/// The line that reports `frame`, where frames are reported at all.
pub fn format_frame(mode: Mode, can_send: bool, frame: &Frame, now: Timestamp) -> (r: Option<Vec<u8>>)
    ensures
        r is Some <==> mode == Mode::Raw && can_send,
        r matches Some(line) ==> line@ == frame_text(frame@, now) && line@.len() <= MAX_LINE,
{
    if mode == Mode::Raw && can_send {
        Some(frame_line(frame, now))
    } else {
        None
    }
}

/// A peer that closes its side resets the connection state to its default;
/// the socket is closed and nothing is sent or consumed.
pub proof fn lemma_close_resets(st: ConnectionState, link: Link, window: Seq<u8>, now: Timestamp, frames: Seq<FrameView>)
    requires
        link.state is CloseWait,
    ensures
        tick(st, link, window, now, frames).0 == ConnectionState::initial(),
        tick(st, link, window, now, frames).1.close,
        tick(st, link, window, now, frames).1.output.len() == 0,
        tick(st, link, window, now, frames).1.consumed == 0,
{
}

/// From the default state, the first tick on an established connection with
/// room to send starts its output with the greeting, and marks it sent.
pub proof fn lemma_greeting_after_reset(link: Link, window: Seq<u8>, now: Timestamp, frames: Seq<FrameView>)
    requires
        link.state is Established,
        link.can_send,
    ensures
        tick(ConnectionState::initial(), link, window, now, frames).0.welcome,
        greeting().is_prefix_of(tick(ConnectionState::initial(), link, window, now, frames).1.output),
{
    let out = tick(ConnectionState::initial(), link, window, now, frames).1.output;
    assert(out.subrange(0, 6) =~= greeting());
}

proof fn lemma_frames_text_start(frames: Seq<FrameView>, now: Timestamp)
    requires
        frames.len() > 0,
    ensures
        frames_text(frames, now).len() >= 8,
        frames_text(frames, now).subrange(0, 8) == frame_prefix(),
    decreases frames.len(),
{
    let t = frame_text(frames.last(), now);
    assert(t.subrange(0, 8) =~= frame_prefix());
    if frames.len() > 1 {
        lemma_frames_text_start(frames.drop_last(), now);
        let a = frames_text(frames.drop_last(), now);
        assert((a + t).subrange(0, 8) =~= a.subrange(0, 8));
    } else {
        assert(frames_text(frames.drop_last(), now) =~= Seq::<u8>::empty());
        assert(frames_text(frames, now) =~= t);
    }
}

/// Once the greeting has been sent, later ticks keep it marked sent and do not
/// send it again, until the peer closes.
pub proof fn lemma_greeting_once(st: ConnectionState, link: Link, window: Seq<u8>, now: Timestamp, frames: Seq<FrameView>)
    requires
        st.welcome,
        !(link.state is CloseWait),
    ensures
        tick(st, link, window, now, frames).0.welcome,
        !greeting().is_prefix_of(tick(st, link, window, now, frames).1.output),
{
    let r = tick(st, link, window, now, frames);
    let out = r.1.output;
    let step = if link.can_recv && link.can_send {
        apply(st, parse_command(window), window.len())
    } else {
        (st, Seq::<u8>::empty(), 0nat, None::<CommandView>)
    };
    let fo = frames_output(step.0.mode, link.can_send, frames, now);
    assert(step.1 == Seq::<u8>::empty() || step.1 == ok_reply());
    assert(r.0 == step.0);
    assert(out =~= step.1 + fo);
    if greeting().is_prefix_of(out) {
        assert(out[2] == 'h' as u8);
        if step.1 == ok_reply() {
            assert(out[2] == ok_reply()[2]);
        } else {
            assert(out =~= fo);
            lemma_frames_text_start(frames, now);
            assert(fo.subrange(0, 8)[2] == frame_prefix()[2]);
        }
    }
}

/// A command that opens a bus or enters raw mode takes effect within its own
/// tick: the reply `< ok >` is sent once, after the greeting where that is
/// due, and the tick's frames are reported exactly when the new mode is raw.
pub proof fn lemma_mode_command_same_tick(st: ConnectionState, link: Link, window: Seq<u8>, now: Timestamp, frames: Seq<FrameView>)
    requires
        link.state is Established,
        link.can_send,
        link.can_recv,
        parse_command(window) is Ok,
        parse_command(window)->Ok_0.0 is Open || parse_command(window)->Ok_0.0 is RawMode,
    ensures
        ({
            let raw = parse_command(window)->Ok_0.0 is RawMode;
            let r = tick(st, link, window, now, frames);
            &&& r.0.mode == (if raw { Mode::Raw } else { Mode::Broadcast })
            &&& r.1.output == (if st.welcome { Seq::empty() } else { greeting() }) + ok_reply() + (
            if raw {
                frames_text(frames, now)
            } else {
                Seq::empty()
            })
        }),
{
}

/// In any mode but raw, frames produce no output; in raw mode with room to
/// send, one frame produces exactly its line, of at most 128 bytes.
pub proof fn lemma_frames_only_in_raw_mode(mode: Mode, can_send: bool, frame: FrameView, frames: Seq<FrameView>, now: Timestamp)
    requires
        frame.wf(),
    ensures
        mode != Mode::Raw ==> frames_output(mode, can_send, frames, now).len() == 0,
        can_send ==> frames_output(Mode::Raw, can_send, seq![frame], now) == frame_text(frame, now),
        frame_text(frame, now).len() <= MAX_LINE,
{
    let one = seq![frame];
    assert(one.drop_last() =~= Seq::<FrameView>::empty());
    assert(one.last() == frame);
    assert(frames_text(Seq::<FrameView>::empty(), now) == Seq::<u8>::empty());
    assert(frames_text(one, now) =~= frame_text(frame, now));
    lemma_frame_text_len(frame, now);
}

/// With no room to send, a second tick on the same report changes nothing: it
/// leaves the state as the first left it and asks for the same actions, and
/// neither sends anything.
pub proof fn lemma_idle_tick_idempotent(st: ConnectionState, link: Link, window: Seq<u8>, now: Timestamp, frames: Seq<FrameView>)
    requires
        !link.can_send,
    ensures
        ({
            let first = tick(st, link, window, now, frames);
            let second = tick(first.0, link, window, now, frames);
            &&& second.0 == first.0
            &&& second.1 == first.1
            &&& first.1.output.len() == 0
        }),
{
    let first = tick(st, link, window, now, frames);
    let second = tick(first.0, link, window, now, frames);
    assert(first.1.output =~= Seq::<u8>::empty());
    assert(second.1.output =~= Seq::<u8>::empty());
}

/// Socketcand server for one connection at a time.
#[derive(Debug)]
pub struct Server {
    port: u16,
    state: ConnectionState,
}

pub struct ServerView {
    pub port: u16,
    pub state: ConnectionState,
}

impl View for Server {
    type V = ServerView;

    closed spec fn view(&self) -> ServerView {
        ServerView { port: self.port, state: self.state }
    }
}

impl Server {
    /// A server that listens on `port`, with no connection yet.
    pub fn new(port: crate::Port) -> (r: Server)
        ensures
            r@.port == port.0,
            r@.state == ConnectionState::initial(),
    {
        Server { port: port.0, state: ConnectionState::default() }
    }

    /// The port to listen on.
    pub fn port(&self) -> (r: u16)
        ensures
            r == self@.port,
    {
        self.port
    }

    /// The state of the current connection.
    pub fn state(&self) -> (r: ConnectionState)
        ensures
            r == self@.state,
    {
        self.state
    }

    /// Handles one tick: `link` is what the transport reports, `window` the
    /// bytes received and not yet consumed, `frames` the bus frames to report.
    pub fn tick(&mut self, link: &Link, window: &[u8], now: Timestamp, frames: &[Frame]) -> (r: Tick)
        ensures
            final(self)@.port == old(self)@.port,
            (final(self)@.state, r@) == tick(old(self)@.state, *link, window@, now, frame_views(frames@)),
    {
        let listen = match link.state {
            TcpState::Closed | TcpState::TimeWait => true,
            _ => false,
        };
        if link.state == TcpState::CloseWait {
            self.state = ConnectionState::default();
            return Tick { listen, close: true, output: Vec::new(), consumed: 0, command: None };
        }
        let mut output: Vec<u8> = Vec::new();
        let ghost greet = greets(self.state, *link);
        if link.state == TcpState::Established && !self.state.welcome && link.can_send {
            let lit: &[u8] = &['<' as u8, ' ' as u8, 'h' as u8, 'i' as u8, ' ' as u8, '>' as u8];
            assert(lit@ == greeting());
            push_all(&mut output, lit);
            self.state.welcome = true;
        }
        assert(output@ == (if greet { greeting() } else { Seq::<u8>::empty() }));
        let ghost st1 = self.state;
        let ghost head = output@;
        let mut consumed: usize = 0;
        let mut cmd: Option<Command> = None;
        if link.can_recv && link.can_send {
            match command(window) {
                Ok((c, n)) => {
                    match &c {
                        Command::Open(_) => {
                            self.state.mode = Mode::Broadcast;
                            let lit: &[u8] = &['<' as u8, ' ' as u8, 'o' as u8, 'k' as u8, ' ' as u8, '>' as u8];
                            assert(lit@ == ok_reply());
                            push_all(&mut output, lit);
                        },
                        Command::RawMode(_) => {
                            self.state.mode = Mode::Raw;
                            let lit: &[u8] = &['<' as u8, ' ' as u8, 'o' as u8, 'k' as u8, ' ' as u8, '>' as u8];
                            assert(lit@ == ok_reply());
                            push_all(&mut output, lit);
                        },
                        _ => {},
                    }
                    consumed = n;
                    cmd = Some(c);
                },
                Err(ParseError::NeedMoreData) => {},
                Err(_) => {
                    consumed = window.len();
                },
            }
        }
        let ghost step = if link.can_recv && link.can_send {
            apply(st1, parse_command(window@), window@.len())
        } else {
            (st1, Seq::<u8>::empty(), 0nat, None::<CommandView>)
        };
        assert(self.state == step.0);
        assert(output@ == head + step.1);
        let ghost mid = output@;
        let ghost views = frame_views(frames@);
        if self.state.mode == Mode::Raw && link.can_send {
            let mut k: usize = 0;
            while k < frames.len()
                invariant
                    k <= frames@.len(),
                    views == frame_views(frames@),
                    output@ == mid + frames_text(views.subrange(0, k as int), now),
                decreases frames@.len() - k,
            {
                let line = frame_line(&frames[k], now);
                push_all(&mut output, line.as_slice());
                proof {
                    let vs = views.subrange(0, k + 1);
                    assert(vs.drop_last() =~= views.subrange(0, k as int));
                }
                k += 1;
            }
            assert(views.subrange(0, k as int) =~= views);
        }
        Tick { listen, close: false, output, consumed, command: cmd }
    }
}

} // verus!
