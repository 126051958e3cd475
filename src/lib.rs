//! The socketcand protocol: commands read from a client, the per-connection
//! state machine that answers them, and the lines that report bus frames.
use vstd::prelude::*;

pub mod beacon;
pub mod frame;
pub mod payload;
pub mod scan;
pub mod server;
pub mod text;
pub mod wire;

pub use beacon::DeviceType;
pub use frame::{CanId, Frame, Timestamp};
pub use scan::ParseError;
pub use server::{ConnectionState, Link, Server, TcpState, Tick};
pub use wire::{command, Command};

verus! {

/// CAN network bus.
///
/// Rather than allowing arbitrary bus names, bus names are of the form
/// `vcanN` or `canN` where `N` is the index.
#[derive(Debug, Clone, Copy, PartialEq, Eq, Structural)]
pub struct Bus {
    index: usize,
    virt: bool,
}

/// What a bus is: its index and whether it is virtual.
pub struct BusView {
    pub index: usize,
    pub virt: bool,
}

impl View for Bus {
    type V = BusView;

    closed spec fn view(&self) -> BusView {
        BusView { index: self.index, virt: self.virt }
    }
}

impl Bus {
    /// A physical bus, `can<index>`.
    pub fn new(index: usize) -> (r: Self)
        ensures
            r@ == (BusView { index, virt: false }),
    {
        Self { index, virt: false }
    }

    /// A virtual bus, `vcan<index>`.
    pub fn new_virtual(index: usize) -> (r: Self)
        ensures
            r@ == (BusView { index, virt: true }),
    {
        Self { index, virt: true }
    }

    /// Returns the bus index number.
    pub fn index(&self) -> (r: usize)
        ensures
            r == self@.index,
    {
        self.index
    }

    /// Returns if the bus is a virtual bus.
    pub fn is_virtual(&self) -> (r: bool)
        ensures
            r == self@.virt,
    {
        self.virt
    }
}

/// Connection mode.
#[derive(Debug, Clone, Copy, PartialEq, Eq, Structural)]
pub enum Mode {
    /// No bus opened yet.
    NoBus,
    /// Broadcast mode.
    Broadcast,
    /// Raw mode: every bus frame is reported to the client.
    Raw,
    /// Control mode.
    Control,
    /// ISO-TP (ISO 15765-2) mode.
    IsoTp,
}

/// Socketcand TCP port.
#[derive(Debug, Clone, Copy, PartialEq, Eq, Structural)]
pub struct Port(pub u16);

/// The port socketcand listens on unless told otherwise.
pub const DEFAULT_PORT: u16 = 29536;

impl Default for Port {
    fn default() -> (r: Port)
        ensures
            r.0 == DEFAULT_PORT,
    {
        Port(DEFAULT_PORT)
    }
}

} // verus!
