//! What an audio source is, what its ports are called, and the events it
//! reports.

use vstd::prelude::*;

verus! {

/// The kind of input a spectrum is generated from.
#[derive(Debug, Clone, Copy, PartialEq, Eq, Structural)]
pub enum SourceType {
    Audio,
    MIDI,
}

impl SourceType {
    /// The source type's name, as it is printed.
    pub fn to_string(&self) -> (text: String)
        ensures
            text@ == match *self {
                SourceType::Audio => "Audio"@,
                SourceType::MIDI => "MIDI"@,
            },
    {
        match self {
            SourceType::Audio => "Audio".to_owned(),
            SourceType::MIDI => "MIDI".to_owned(),
        }
    }
}

/// The fully-qualified name of a JACK port, as `client:port`.
#[derive(Debug, Clone, PartialEq, Eq, Hash, PartialOrd, Ord)]
pub struct PortName(pub String);

impl View for PortName {
    type V = Seq<char>;

    open spec fn view(&self) -> Seq<char> {
        self.0@
    }
}

impl PortName {
    /// The name, borrowed.
    pub fn as_str(&self) -> (name: &str)
        ensures
            name@ == self@,
    {
        self.0.as_str()
    }

    /// The name, as it is printed.
    pub fn to_string(&self) -> (text: String)
        ensures
            text@ == self@,
    {
        self.0.clone()
    }
}

impl From<String> for PortName {
    fn from(name: String) -> (port: PortName) {
        PortName(name)
    }
}

impl vstd::std_specs::convert::FromSpecImpl<String> for PortName {
    open spec fn obeys_from_spec() -> bool {
        true
    }

    open spec fn from_spec(name: String) -> PortName {
        PortName(name)
    }
}

/// The set of ports JACK knows about changed: one was registered,
/// unregistered, or renamed. Which one is not carried: every subscriber
/// re-reads the whole list.
#[derive(Debug, Clone, PartialEq, Eq, Structural)]
pub struct PortsChanged;

/// Something was connected to or disconnected from the source's input port.
#[derive(Debug, Clone, PartialEq, Eq, Structural)]
pub struct ConnectionChanged;

/// The audio server now runs at this many frames per second.
#[derive(Debug, Clone, PartialEq, Eq, Structural)]
pub struct SampleRateChanged(pub u32);

/// The JACK server the source was talking to is gone, for the reason it gave.
#[derive(Debug, Clone, PartialEq, Eq)]
pub struct ServerShutdown {
    pub reason: String,
}

/// Everything the JACK notification thread reports about a source.
#[derive(Debug, Clone, PartialEq, Eq)]
pub enum Event {
    PortsChanged(PortsChanged),
    ConnectionChanged(ConnectionChanged),
    SampleRateChanged(SampleRateChanged),
    ServerShutdown(ServerShutdown),
}

impl From<PortsChanged> for Event {
    fn from(event: PortsChanged) -> (wrapped: Event) {
        Event::PortsChanged(event)
    }
}

impl vstd::std_specs::convert::FromSpecImpl<PortsChanged> for Event {
    open spec fn obeys_from_spec() -> bool {
        true
    }

    open spec fn from_spec(event: PortsChanged) -> Event {
        Event::PortsChanged(event)
    }
}

impl From<ConnectionChanged> for Event {
    fn from(event: ConnectionChanged) -> (wrapped: Event) {
        Event::ConnectionChanged(event)
    }
}

impl vstd::std_specs::convert::FromSpecImpl<ConnectionChanged> for Event {
    open spec fn obeys_from_spec() -> bool {
        true
    }

    open spec fn from_spec(event: ConnectionChanged) -> Event {
        Event::ConnectionChanged(event)
    }
}

impl From<SampleRateChanged> for Event {
    fn from(event: SampleRateChanged) -> (wrapped: Event) {
        Event::SampleRateChanged(event)
    }
}

impl vstd::std_specs::convert::FromSpecImpl<SampleRateChanged> for Event {
    open spec fn obeys_from_spec() -> bool {
        true
    }

    open spec fn from_spec(event: SampleRateChanged) -> Event {
        Event::SampleRateChanged(event)
    }
}

impl From<ServerShutdown> for Event {
    fn from(event: ServerShutdown) -> (wrapped: Event) {
        Event::ServerShutdown(event)
    }
}

impl vstd::std_specs::convert::FromSpecImpl<ServerShutdown> for Event {
    open spec fn obeys_from_spec() -> bool {
        true
    }

    open spec fn from_spec(event: ServerShutdown) -> Event {
        Event::ServerShutdown(event)
    }
}

} // verus!
