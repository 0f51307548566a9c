use vstd::prelude::*;
use crate::eth_wire::capability::Capability;
use crate::eth_wire_types::message::EthMessageID;
use crate::eth_wire_types::version::EthVersion;

verus! {

/// A capability and the number of messages that its protocol has.
///
/// Only the capability is told to a peer. Both sides know the number of messages beforehand and
/// use it to keep the ids of several protocols apart.
#[derive(Clone, Debug, PartialEq, Eq, Hash)]
pub struct Protocol {
    pub cap: Capability,
    pub messages: u8,
}

impl Protocol {
    /// The number of messages.
    pub open spec fn spec_messages(self) -> u8 {
        self.messages
    }

    /// The protocol of a capability, with this number of messages.
    pub fn new(cap: Capability, messages: u8) -> (r: Protocol)
        ensures
            r.cap == cap,
            r.spec_messages() == messages,
    {
        Protocol { cap, messages }
    }

    /// The `eth` protocol of a version.
    pub fn eth(version: EthVersion) -> (r: Protocol)
        ensures
            r.cap.model() == Capability::eth_model(version),
            r.spec_messages() == EthMessageID::spec_max(version) + 1,
    {
        let cap = Capability::eth(version);
        let messages: u8 = EthMessageID::message_count(version);
        Protocol::new(cap, messages)
    }

    /// The `eth/66` protocol.
    pub fn eth_66() -> (r: Protocol)
        ensures
            r.cap.model() == Capability::eth_model(EthVersion::Eth66),
            r.spec_messages() == 17,
    {
        Protocol::eth(EthVersion::Eth66)
    }

    /// The `eth/67` protocol.
    pub fn eth_67() -> (r: Protocol)
        ensures
            r.cap.model() == Capability::eth_model(EthVersion::Eth67),
            r.spec_messages() == 17,
    {
        Protocol::eth(EthVersion::Eth67)
    }

    /// The `eth/68` protocol.
    pub fn eth_68() -> (r: Protocol)
        ensures
            r.cap.model() == Capability::eth_model(EthVersion::Eth68),
            r.spec_messages() == 17,
    {
        Protocol::eth(EthVersion::Eth68)
    }

    /// The capability and the number of messages.
    pub fn split(self) -> (r: (Capability, u8))
        ensures
            r == (self.cap, self.spec_messages()),
    {
        (self.cap, self.messages)
    }

    /// The number of messages.
    pub fn messages(&self) -> (r: u8)
        ensures
            r == self.spec_messages(),
    {
        self.messages
    }
}

impl From<EthVersion> for Protocol {
    /// The `eth` protocol of a version, as [`Protocol::eth`] gives it.
    fn from(version: EthVersion) -> (r: Protocol)
        ensures
            call_ensures(Protocol::eth, (version,), r),
            r.cap.model() == Capability::eth_model(version),
            r.spec_messages() == EthMessageID::spec_max(version) + 1,
    {
        Protocol::eth(version)
    }
}

impl vstd::std_specs::convert::FromSpecImpl<EthVersion> for Protocol {
    open spec fn obeys_from_spec() -> bool {
        false
    }

    open spec fn from_spec(version: EthVersion) -> Protocol {
        arbitrary()
    }
}

} // verus!
