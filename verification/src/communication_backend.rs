use vstd::prelude::*;

use crate::interface::{Event, EventTypes, HandledPacket, PacketModel, SendTypes};
use crate::path::{clone_path, PathModel};
use crate::path_map::PathMap;

verus! {

/// The websocket ports used when none were set.
pub const DEFAULT_PORT_RANGE: (u16, u16) = (3030, 3035);

/// The kinds of websocket message.
#[derive(Debug, Clone, Copy, PartialEq, Eq, Structural)]
pub enum MessageKind {
    Text,
    Binary,
    Ping,
    Pong,
    Close,
    Frame,
}

/// Whether a connection whose first message is `hello` is taken up: the web interface
/// greets on connection, and a connection that closes at once is dropped.
pub fn opens_session(hello: MessageKind) -> (opens: bool)
    ensures
        opens == (hello != MessageKind::Close),
{
    match hello {
        MessageKind::Close => false,
        _ => true,
    }
}

/// A message received from the web interface, with its text already read as an event.
pub enum Incoming {
    Event(Event),
    Close,
    Ignored,
}

/// What the receiving side does next.
#[derive(Debug)]
pub enum ReceiverAction {
    /// The connection closed: stop receiving.
    Stop,
    /// Keep receiving, after sending `handled` and running the callback of
    /// `run_callback`, where these are present.
    Continue { handled: Option<SendTypes>, run_callback: Option<Vec<String>> },
}

/// What receiving an event does: the event is stored under its path, replacing an older
/// one, and a click on a path with a registered callback fires that callback.
pub open spec fn receive_transition(
    registered: Set<PathModel>,
    events: Map<PathModel, EventTypes>,
    event: (PathModel, EventTypes),
) -> (Map<PathModel, EventTypes>, bool) {
    (
        events.insert(event.0, event.1),
        match event.1 {
            EventTypes::Click(_) => registered.contains(event.0),
        },
    )
}

/// Handles one message received from the web interface.
pub fn receiver_step<F>(
    callbacks: &PathMap<F>,
    events: &mut PathMap<EventTypes>,
    incoming: Incoming,
) -> (action: ReceiverAction)
    ensures
        match incoming {
            Incoming::Event(event) => {
                let (after, fires) = receive_transition(
                    callbacks@.dom(),
                    old(events)@,
                    event@,
                );
                &&& final(events)@ == after
                &&& action matches ReceiverAction::Continue { handled, run_callback }
                &&& fires ==> (handled matches Some(h) && h@ == (PacketModel::Handled {
                    path: event@.0,
                }))
                &&& fires ==> (run_callback matches Some(p) && p.deep_view() == event@.0)
                &&& !fires ==> handled is None && run_callback is None
            },
            Incoming::Close => {
                &&& final(events)@ == old(events)@
                &&& action is Stop
            },
            Incoming::Ignored => {
                &&& final(events)@ == old(events)@
                &&& action matches ReceiverAction::Continue { handled, run_callback }
                &&& handled is None
                &&& run_callback is None
            },
        },
{
    match incoming {
        Incoming::Event(event) => {
            let ghost model = event@;
            let mut handled: Option<SendTypes> = None;
            let mut run_callback: Option<Vec<String>> = None;
            match event.data() {
                EventTypes::Click(_) => {
                    if callbacks.contains_key(event.path()) {
                        handled = Some(
                            SendTypes::Handled(HandledPacket::new(clone_path(event.path()))),
                        );
                        run_callback = Some(clone_path(event.path()));
                    }
                },
            }
            let path = clone_path(event.path());
            events.insert(path, event.into_data());
            ReceiverAction::Continue { handled, run_callback }
        },
        Incoming::Close => ReceiverAction::Stop,
        Incoming::Ignored => ReceiverAction::Continue { handled: None, run_callback: None },
    }
}

/// The ports from `start` to `end`, both included, in increasing order.
pub fn port_candidates(start: u16, end: u16) -> (ports: Vec<u16>)
    ensures
        ports@.len() == (if start <= end {
            end - start + 1
        } else {
            0int
        }),
        forall|i: int| 0 <= i < ports@.len() ==> #[trigger] ports@[i] == start + i,
{
    let mut ports: Vec<u16> = Vec::new();
    if start > end {
        return ports;
    }
    let mut port: u16 = start;
    loop
        invariant
            start <= port <= end,
            ports@.len() == port - start,
            forall|i: int| 0 <= i < ports@.len() ==> #[trigger] ports@[i] == start + i,
        decreases end - port,
    {
        ports.push(port);
        if port == end {
            return ports;
        }
        port = port + 1;
    }
}

/// What setting the port range does: it takes the first time, and after that every
/// attempt is refused with the range already set.
pub open spec fn set_transition(setting: Option<(u16, u16)>, range: (u16, u16)) -> (
    Option<(u16, u16)>,
    Result<(), (u16, u16)>,
) {
    match setting {
        None => (Some(range), Ok(())),
        Some(current) => (setting, Err(current)),
    }
}

/// What using the port range does: it reads the range set, and fixes the default when
/// none was set.
pub open spec fn use_transition(setting: Option<(u16, u16)>) -> (Option<(u16, u16)>, (u16, u16)) {
    match setting {
        None => (Some(DEFAULT_PORT_RANGE), DEFAULT_PORT_RANGE),
        Some(current) => (setting, current),
    }
}

/// The range of ports that websockets use. It can be set once; after that, or once it
/// has been used, it is read-only, so that the web interface and the library agree on it.
pub struct PortRangeSetting {
    range: Option<(u16, u16)>,
}

impl View for PortRangeSetting {
    type V = Option<(u16, u16)>;

    closed spec fn view(&self) -> Option<(u16, u16)> {
        self.range
    }
}

impl PortRangeSetting {
    /// A setting that holds no range yet.
    pub fn new() -> (setting: Self)
        ensures
            setting@ is None,
    {
        PortRangeSetting { range: None }
    }

    /// The range, if one is fixed.
    pub fn get(&self) -> (range: Option<(u16, u16)>)
        ensures
            range == self@,
    {
        self.range
    }

    /// Sets the range, unless one is fixed already; then returns that one.
    pub fn set(&mut self, range: (u16, u16)) -> (result: Result<(), (u16, u16)>)
        ensures
            (final(self)@, result) == set_transition(old(self)@, range),
    {
        match self.range {
            None => {
                self.range = Some(range);
                Ok(())
            },
            Some(current) => Err(current),
        }
    }

    /// The range to use, fixing the default when none was set.
    pub fn get_or_init_default(&mut self) -> (range: (u16, u16))
        ensures
            (final(self)@, range) == use_transition(old(self)@),
    {
        match self.range {
            None => {
                self.range = Some(DEFAULT_PORT_RANGE);
                DEFAULT_PORT_RANGE
            },
            Some(current) => current,
        }
    }
}

} // verus!
