//! Service discovery beacon.
use vstd::prelude::*;
use vstd::string::StringSliceAdditionalSpecFns;
use crate::{Bus, BusView};
use crate::text::{decimal_text, push_all, push_decimal};

verus! {

/// UDP port that service discovery datagrams are broadcast to.
pub const PORT: u16 = 42000;

/// The kind of device that offers the buses.
#[derive(Debug, Clone, Copy, PartialEq, Eq, Structural)]
pub enum DeviceType {
    SocketCan,
    Embedded,
    Adapter,
}

pub open spec fn device_type_name(d: DeviceType) -> Seq<char> {
    match d {
        DeviceType::SocketCan => "SocketCAN"@,
        DeviceType::Embedded => "embedded"@,
        DeviceType::Adapter => "adapter"@,
    }
}

pub open spec fn device_type_bytes(d: DeviceType) -> Seq<u8> {
    match d {
        DeviceType::SocketCan => "SocketCAN".spec_bytes(),
        DeviceType::Embedded => "embedded".spec_bytes(),
        DeviceType::Adapter => "adapter".spec_bytes(),
    }
}

impl DeviceType {
    /// The name a beacon gives this kind of device.
    pub fn as_str(&self) -> (r: &'static str)
        ensures
            r@ == device_type_name(*self),
            r.spec_bytes() == device_type_bytes(*self),
    {
        match self {
            DeviceType::SocketCan => "SocketCAN",
            DeviceType::Embedded => "embedded",
            DeviceType::Adapter => "adapter",
        }
    }
}

/// `canN` or `vcanN`.
pub open spec fn bus_name(b: BusView) -> Seq<u8> {
    (if b.virt {
        "vcan".spec_bytes()
    } else {
        "can".spec_bytes()
    }) + decimal_text(b.index as nat)
}

impl Bus {
    /// The bus's name, `canN` or `vcanN`, as ASCII bytes.
    pub fn name(&self) -> (r: Vec<u8>)
        ensures
            r@ == bus_name(self@),
    {
        let mut out: Vec<u8> = Vec::new();
        if self.is_virtual() {
            push_all(&mut out, "vcan".as_bytes());
        } else {
            push_all(&mut out, "can".as_bytes());
        }
        push_decimal(&mut out, self.index() as u64);
        out
    }
}

/// One `\t<Bus name="...">` entry per bus; the `\t` is a backslash and a `t`.
pub open spec fn bus_entries(bs: Seq<BusView>) -> Seq<u8>
    decreases bs.len(),
{
    if bs.len() == 0 {
        Seq::empty()
    } else {
        bus_entries(bs.drop_last()) + "\\t<Bus name=\"".spec_bytes() + bus_name(bs.last())
            + "\">".spec_bytes()
    }
}

/// The beacon: the device, the URL to connect to, and its buses.
pub open spec fn beacon_text(
    name: Seq<u8>,
    kind: Seq<u8>,
    description: Option<Seq<u8>>,
    host: Seq<u8>,
    port: u16,
    busses: Seq<BusView>,
) -> Seq<u8> {
    "<CANBeacon name=\"".spec_bytes() + name + "\" type=\"".spec_bytes() + kind + "\"".spec_bytes()
        + match description {
        Some(d) => " description=\"".spec_bytes() + d + "\"".spec_bytes(),
        None => Seq::empty(),
    } + ">".spec_bytes() + "\t<URL>can://".spec_bytes() + host + ":".spec_bytes() + decimal_text(
        port as nat,
    ) + "</URL>".spec_bytes() + bus_entries(busses) + "</CANBeacon>".spec_bytes()
}

/// Formats a beacon message for a device called `name`, of kind
/// `device_kind`, reachable at `host`:`port`, offering `busses`.
pub fn format(
    name: &str,
    device_kind: &str,
    description: Option<&str>,
    host: &str,
    port: u16,
    busses: &[Bus],
) -> (r: Vec<u8>)
    ensures
        r@ == beacon_text(
            name.spec_bytes(),
            device_kind.spec_bytes(),
            match description {
                Some(d) => Some(d.spec_bytes()),
                None => None,
            },
            host.spec_bytes(),
            port,
            busses@.map_values(|b: Bus| b@),
        ),
{
    let mut out: Vec<u8> = Vec::new();
    push_all(&mut out, "<CANBeacon name=\"".as_bytes());
    push_all(&mut out, name.as_bytes());
    push_all(&mut out, "\" type=\"".as_bytes());
    push_all(&mut out, device_kind.as_bytes());
    push_all(&mut out, "\"".as_bytes());
    let ghost head = out@;
    match description {
        Some(d) => {
            push_all(&mut out, " description=\"".as_bytes());
            push_all(&mut out, d.as_bytes());
            push_all(&mut out, "\"".as_bytes());
        },
        None => {},
    }
    push_all(&mut out, ">".as_bytes());
    push_all(&mut out, "\t<URL>can://".as_bytes());
    push_all(&mut out, host.as_bytes());
    push_all(&mut out, ":".as_bytes());
    push_decimal(&mut out, port as u64);
    push_all(&mut out, "</URL>".as_bytes());
    let ghost mid = out@;
    let ghost views = busses@.map_values(|b: Bus| b@);
    let mut k: usize = 0;
    while k < busses.len()
        invariant
            k <= busses@.len(),
            views == busses@.map_values(|b: Bus| b@),
            out@ == mid + bus_entries(views.subrange(0, k as int)),
        decreases busses@.len() - k,
    {
        push_all(&mut out, "\\t<Bus name=\"".as_bytes());
        let bus_name = busses[k].name();
        push_all(&mut out, bus_name.as_slice());
        push_all(&mut out, "\">".as_bytes());
        proof {
            let vs = views.subrange(0, k + 1);
            assert(vs.drop_last() =~= views.subrange(0, k as int));
        }
        k += 1;
    }
    assert(views.subrange(0, k as int) =~= views);
    push_all(&mut out, "</CANBeacon>".as_bytes());
    assert(out@ =~= beacon_text(
        name.spec_bytes(),
        device_kind.spec_bytes(),
        match description {
            Some(d) => Some(d.spec_bytes()),
            None => None,
        },
        host.spec_bytes(),
        port,
        views,
    ));
    out
}

/// The physical buses `can0` up to `can<count - 1>`.
pub open spec fn numbered_buses(count: nat) -> Seq<BusView> {
    Seq::new(count, |i: int| BusView { index: i as usize, virt: false })
}

/// Formats a beacon for a device of type `device_type` that offers `bus_count`
/// physical buses, numbered from 0.
pub fn beacon_output(
    name: &str,
    device_type: DeviceType,
    description: Option<&str>,
    host: &str,
    port: u16,
    bus_count: usize,
) -> (r: Vec<u8>)
    ensures
        r@ == beacon_text(
            name.spec_bytes(),
            device_type_bytes(device_type),
            match description {
                Some(d) => Some(d.spec_bytes()),
                None => None,
            },
            host.spec_bytes(),
            port,
            numbered_buses(bus_count as nat),
        ),
{
    let mut busses: Vec<Bus> = Vec::new();
    let mut k: usize = 0;
    while k < bus_count
        invariant
            k <= bus_count,
            busses@.len() == k,
            forall|j: int| 0 <= j < k ==> (#[trigger] busses@[j])@ == (BusView { index: j as usize, virt: false }),
        decreases bus_count - k,
    {
        busses.push(Bus::new(k));
        k += 1;
    }
    assert(busses@.map_values(|b: Bus| b@) =~= numbered_buses(bus_count as nat));
    format(name, device_type.as_str(), description, host, port, busses.as_slice())
}

} // verus!
