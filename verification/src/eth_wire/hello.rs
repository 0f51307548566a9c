use vstd::prelude::*;
use crate::primitives::PeerId;
use crate::rlp::{encode_header, length_of_length, list_bytes, Rlp, RlpError};
use crate::rlp_payload::{encode_payload, payload_wire};
use crate::rlp_types::Listed;
use crate::eth_wire::capability::{Capability, CapabilityModel};
use crate::eth_wire::protocol::Protocol;
use crate::eth_wire_types::message::EthMessageID;
use crate::eth_wire_types::version::EthVersion;

verus! {

/// The TCP port that a client listens on unless told otherwise.
pub const DEFAULT_TCP_PORT: u16 = 30303;

/// How this client calls itself unless told otherwise.
pub const RETH_CLIENT_VERSION: &'static str = "reth/v0.1.0";

/// The versions of the `p2p` protocol.
#[derive(Clone, Copy, Debug, PartialEq, Eq, Structural)]
pub enum ProtocolVersion {
    V4,
    V5,
}

impl ProtocolVersion {
    /// The number of the version.
    pub open spec fn number(self) -> u8 {
        match self {
            ProtocolVersion::V4 => 4,
            ProtocolVersion::V5 => 5,
        }
    }

    /// The number of the version.
    pub fn to_u8(self) -> (r: u8)
        ensures
            r == self.number(),
    {
        match self {
            ProtocolVersion::V4 => 4,
            ProtocolVersion::V5 => 5,
        }
    }
}

impl Default for ProtocolVersion {
    fn default() -> (r: ProtocolVersion)
        ensures
            r == ProtocolVersion::V5,
    {
        ProtocolVersion::V5
    }
}

impl DeepView for ProtocolVersion {
    type V = ProtocolVersion;

    open spec fn deep_view(&self) -> ProtocolVersion {
        *self
    }
}

impl Rlp for ProtocolVersion {
    open spec fn wire(v: ProtocolVersion) -> Seq<u8> {
        u8::wire(v.number())
    }

    open spec fn sound(v: ProtocolVersion) -> bool {
        true
    }

    open spec fn read(buf: Seq<u8>) -> Result<(ProtocolVersion, int), RlpError> {
        match u8::read(buf) {
            Err(e) => Err(e),
            Ok((v, n)) => if v == 4 {
                Ok((ProtocolVersion::V4, n))
            } else if v == 5 {
                Ok((ProtocolVersion::V5, n))
            } else {
                Err(RlpError::Custom("unknown p2p protocol version"))
            },
        }
    }

    fn encode(&self, out: &mut Vec<u8>) {
        self.to_u8().encode(out)
    }

    fn length(&self) -> (n: usize) {
        self.to_u8().length()
    }

    fn decode(buf: &mut &[u8]) -> (r: Result<ProtocolVersion, RlpError>) {
        match u8::decode(buf) {
            Err(e) => Err(e),
            Ok(v) => match v {
                4 => Ok(ProtocolVersion::V4),
                5 => Ok(ProtocolVersion::V5),
                _ => Err(RlpError::Custom("unknown p2p protocol version")),
            },
        }
    }

    proof fn read_within(buf: Seq<u8>) {
        u8::read_within(buf);
    }

    proof fn round_trip(v: ProtocolVersion, rest: Seq<u8>) {
        u8::round_trip(v.number(), rest);
    }
}

/// What a client says of itself in a `p2p` handshake, without the numbers of messages.
#[derive(Clone, Debug, PartialEq, Eq)]
pub struct HelloMessage {
    pub protocol_version: ProtocolVersion,
    /// The software, such as `Ethereum(++)/1.0.0`.
    pub client_version: String,
    pub capabilities: Vec<Capability>,
    /// The port that the client listens on, zero if it does not.
    pub port: u16,
    /// The public key of the node.
    pub id: PeerId,
}

/// What a hello says.
pub ghost struct HelloModel {
    pub protocol_version: ProtocolVersion,
    pub client_version: Seq<char>,
    pub capabilities: Seq<CapabilityModel>,
    pub port: u16,
    pub id: PeerId,
}

/// The fields of a hello in the order in which they are encoded.
pub type HelloFields = (ProtocolVersion, (String, (Vec<Capability>, (u16, PeerId))));

impl HelloModel {
    /// The fields in the order in which they are encoded.
    pub open spec fn fields(self) -> <HelloFields as DeepView>::V {
        (
            self.protocol_version,
            (self.client_version, (self.capabilities, (self.port, self.id))),
        )
    }

    /// The hello with these fields.
    pub open spec fn of(f: <HelloFields as DeepView>::V) -> HelloModel {
        HelloModel {
            protocol_version: f.0,
            client_version: f.1.0,
            capabilities: f.1.1.0,
            port: f.1.1.1.0,
            id: f.1.1.1.1,
        }
    }
}

impl DeepView for HelloMessage {
    type V = HelloModel;

    open spec fn deep_view(&self) -> HelloModel {
        HelloModel {
            protocol_version: self.protocol_version,
            client_version: self.client_version@,
            capabilities: self.capabilities.deep_view(),
            port: self.port,
            id: self.id,
        }
    }
}

impl HelloMessage {
    /// Starts a hello of the node with this key.
    pub fn builder(id: PeerId) -> (r: HelloMessageBuilder)
        ensures
            r == HelloMessageBuilder::empty(id),
    {
        HelloMessageBuilder::new(id)
    }

    /// The length of the encodings of the fields.
    fn payload_length(&self) -> (n: usize)
        requires
            HelloFields::wire(self.deep_view().fields()).len() <= usize::MAX,
        ensures
            n == HelloFields::wire(self.deep_view().fields()).len(),
    {
        self.protocol_version.length() + self.client_version.length() + self.capabilities.length()
            + self.port.length() + self.id.length()
    }
}

/// Parts written one after another are the parts joined.
proof fn lemma_one_after_another(
    front: Seq<u8>,
    a: Seq<u8>,
    b: Seq<u8>,
    c: Seq<u8>,
    d: Seq<u8>,
    e: Seq<u8>,
)
    ensures
        front + a + b + c + d + e == front + (a + (b + (c + (d + e)))),
{
    assert(front + a + b + c + d + e =~= front + (a + (b + (c + (d + e)))));
}

/// The encoding of a hello is a list of its fields.
proof fn lemma_hello_wire(v: HelloModel)
    ensures
        HelloMessage::wire(v) == list_bytes(HelloFields::wire(v.fields())),
        HelloFields::wire(v.fields()) == payload_wire::<ProtocolVersion>(v.protocol_version) + (
        payload_wire::<String>(v.client_version) + (payload_wire::<Vec<Capability>>(v.capabilities)
            + (payload_wire::<u16>(v.port) + payload_wire::<PeerId>(v.id)))),
{
    reveal(payload_wire);
}

impl Rlp for HelloMessage {
    open spec fn wire(v: HelloModel) -> Seq<u8> {
        Listed::<HelloFields>::wire(v.fields())
    }

    open spec fn sound(v: HelloModel) -> bool {
        true
    }

    open spec fn read(buf: Seq<u8>) -> Result<(HelloModel, int), RlpError> {
        match Listed::<HelloFields>::read(buf) {
            Err(e) => Err(e),
            Ok((f, n)) => Ok((HelloModel::of(f), n)),
        }
    }

    fn encode(&self, out: &mut Vec<u8>) {
        encode_header(true, self.payload_length(), out);
        let ghost front = out@;
        proof {
            lemma_hello_wire(self.deep_view());
        }
        encode_payload(&self.protocol_version, out);
        encode_payload(&self.client_version, out);
        encode_payload(&self.capabilities, out);
        encode_payload(&self.port, out);
        encode_payload(&self.id, out);
        proof {
            let v = self.deep_view();
            lemma_one_after_another(
                front,
                payload_wire::<ProtocolVersion>(v.protocol_version),
                payload_wire::<String>(v.client_version),
                payload_wire::<Vec<Capability>>(v.capabilities),
                payload_wire::<u16>(v.port),
                payload_wire::<PeerId>(v.id),
            );
            assert(out@ =~= old(out)@ + Self::wire(v));
        }
    }

    fn length(&self) -> (n: usize) {
        let payload_length: usize = self.payload_length();
        payload_length + length_of_length(payload_length)
    }

    fn decode(buf: &mut &[u8]) -> (r: Result<HelloMessage, RlpError>) {
        match Listed::<HelloFields>::decode(buf) {
            Err(e) => Err(e),
            Ok(Listed((protocol_version, (client_version, (capabilities, (port, id)))))) => Ok(
                HelloMessage { protocol_version, client_version, capabilities, port, id },
            ),
        }
    }

    proof fn read_within(buf: Seq<u8>) {
        Listed::<HelloFields>::read_within(buf);
    }

    proof fn round_trip(v: HelloModel, rest: Seq<u8>) {
        Listed::<HelloFields>::round_trip(v.fields(), rest);
    }
}

/// What a client says of itself in a `p2p` handshake, with the number of messages of each
/// protocol. The numbers are not told to the peer, but are needed to keep the ids of messages of
/// several protocols apart.
#[derive(Clone, Debug, PartialEq, Eq)]
pub struct HelloMessageWithProtocols {
    pub protocol_version: ProtocolVersion,
    pub client_version: String,
    pub protocols: Vec<Protocol>,
    pub port: u16,
    pub id: PeerId,
}

/// The capabilities of protocols.
pub open spec fn capabilities_of(protocols: Seq<Protocol>) -> Seq<CapabilityModel> {
    protocols.map_values(|p: Protocol| p.cap.model())
}

impl HelloMessageWithProtocols {
    /// What the hello says to the peer.
    pub open spec fn model(self) -> HelloModel {
        HelloModel {
            protocol_version: self.protocol_version,
            client_version: self.client_version@,
            capabilities: capabilities_of(self.protocols@),
            port: self.port,
            id: self.id,
        }
    }

    /// Starts a hello of the node with this key.
    pub fn builder(id: PeerId) -> (r: HelloMessageBuilder)
        ensures
            r == HelloMessageBuilder::empty(id),
    {
        HelloMessageBuilder::new(id)
    }

    /// The hello as it is told to the peer.
    pub fn message(&self) -> (r: HelloMessage)
        ensures
            r.deep_view() == self.model(),
    {
        let mut capabilities: Vec<Capability> = Vec::new();
        let mut i: usize = 0;
        while i < self.protocols.len()
            invariant
                i <= self.protocols.len(),
                capabilities.deep_view() == capabilities_of(self.protocols@).take(i as int),
            decreases self.protocols.len() - i,
        {
            let ghost seen = capabilities.deep_view();
            capabilities.push(self.protocols[i].cap.copy());
            proof {
                assert(capabilities.deep_view() =~= seen.push(
                    self.protocols@[i as int].cap.model(),
                ));
                assert(capabilities.deep_view() =~= capabilities_of(self.protocols@).take(i + 1));
            }
            i += 1;
        }
        proof {
            assert(capabilities_of(self.protocols@).take(i as int) =~= capabilities_of(
                self.protocols@,
            ));
        }
        HelloMessage {
            protocol_version: self.protocol_version,
            client_version: self.client_version.clone(),
            capabilities,
            port: self.port,
            id: self.id,
        }
    }

    /// The hello as it is told to the peer.
    pub fn into_message(self) -> (r: HelloMessage)
        ensures
            r.deep_view() == self.model(),
    {
        self.message()
    }

    /// Whether the hello has a protocol with the capability of this one.
    pub fn contains_protocol(&self, protocol: &Protocol) -> (r: bool)
        ensures
            r == capabilities_of(self.protocols@).contains(protocol.cap.model()),
    {
        let mut i: usize = 0;
        while i < self.protocols.len()
            invariant
                i <= self.protocols.len(),
                forall|k: int|
                    0 <= k < i ==> #[trigger] capabilities_of(self.protocols@)[k]
                        != protocol.cap.model(),
            decreases self.protocols.len() - i,
        {
            proof {
                assert(capabilities_of(self.protocols@)[i as int]
                    == self.protocols@[i as int].cap.model());
            }
            if self.protocols[i].cap.same(&protocol.cap) {
                return true;
            }
            i += 1;
        }
        false
    }

    /// Adds a protocol, or hands it back where there is one with its capability.
    pub fn try_add_protocol(&mut self, protocol: Protocol) -> (r: Result<(), Protocol>)
        ensures
            r == (if capabilities_of(old(self).protocols@).contains(protocol.cap.model()) {
                Err(protocol)
            } else {
                Ok(())
            }),
            final(self).protocols@ == (if r is Ok {
                old(self).protocols@.push(protocol)
            } else {
                old(self).protocols@
            }),
            final(self).protocol_version == old(self).protocol_version,
            final(self).client_version@ == old(self).client_version@,
            final(self).port == old(self).port,
            final(self).id == old(self).id,
    {
        if self.contains_protocol(&protocol) {
            Err(protocol)
        } else {
            self.protocols.push(protocol);
            Ok(())
        }
    }
}

/// A protocol that was added is there, and cannot be added again.
pub proof fn lemma_added_once(protocols: Seq<Protocol>, protocol: Protocol)
    ensures
        capabilities_of(protocols.push(protocol)).contains(protocol.cap.model()),
        forall|cap: CapabilityModel|
            #![trigger capabilities_of(protocols.push(protocol)).contains(cap)]
            capabilities_of(protocols).contains(cap) ==> capabilities_of(
                protocols.push(protocol),
            ).contains(cap),
{
    let new = capabilities_of(protocols.push(protocol));
    assert(new[protocols.len() as int] == protocol.cap.model());
    assert forall|cap: CapabilityModel|
        #![trigger capabilities_of(protocols.push(protocol)).contains(cap)]
        capabilities_of(protocols).contains(cap) implies new.contains(cap) by {
        let k = choose|k: int|
            0 <= k < protocols.len() && #[trigger] capabilities_of(protocols)[k] == cap;
        assert(new[k] == cap);
    }
}

/// Builds a [`HelloMessageWithProtocols`].
#[derive(Debug)]
pub struct HelloMessageBuilder {
    pub protocol_version: Option<ProtocolVersion>,
    pub client_version: Option<String>,
    pub protocols: Option<Vec<Protocol>>,
    pub port: Option<u16>,
    pub id: PeerId,
}

impl HelloMessageBuilder {
    /// The builder with nothing set but the key.
    pub open spec fn empty(id: PeerId) -> HelloMessageBuilder {
        HelloMessageBuilder {
            protocol_version: None,
            client_version: None,
            protocols: None,
            port: None,
            id,
        }
    }

    /// The protocols set so far.
    pub open spec fn protocols_so_far(self) -> Seq<Protocol> {
        match self.protocols {
            Some(p) => p@,
            None => Seq::empty(),
        }
    }

    /// Starts with nothing set but the key.
    pub fn new(id: PeerId) -> (r: HelloMessageBuilder)
        ensures
            r == Self::empty(id),
    {
        HelloMessageBuilder {
            protocol_version: None,
            client_version: None,
            protocols: None,
            port: None,
            id,
        }
    }

    /// Sets the port that the client listens on.
    pub fn port(self, port: u16) -> (r: HelloMessageBuilder)
        ensures
            r == (HelloMessageBuilder { port: Some(port), ..self }),
    {
        HelloMessageBuilder { port: Some(port), ..self }
    }

    /// Adds a protocol.
    pub fn protocol(self, protocol: Protocol) -> (r: HelloMessageBuilder)
        ensures
            r.protocols is Some,
            r.protocols_so_far() == self.protocols_so_far().push(protocol),
            r.protocol_version == self.protocol_version,
            r.client_version == self.client_version,
            r.port == self.port,
            r.id == self.id,
    {
        let mut protocols = match self.protocols {
            Some(p) => p,
            None => Vec::new(),
        };
        protocols.push(protocol);
        HelloMessageBuilder {
            protocol_version: self.protocol_version,
            client_version: self.client_version,
            protocols: Some(protocols),
            port: self.port,
            id: self.id,
        }
    }

    /// Adds protocols.
    pub fn protocols(self, more: Vec<Protocol>) -> (r: HelloMessageBuilder)
        ensures
            r.protocols is Some,
            r.protocols_so_far() == self.protocols_so_far() + more@,
            r.protocol_version == self.protocol_version,
            r.client_version == self.client_version,
            r.port == self.port,
            r.id == self.id,
    {
        let mut protocols = match self.protocols {
            Some(p) => p,
            None => Vec::new(),
        };
        let mut more = more;
        protocols.append(&mut more);
        HelloMessageBuilder {
            protocol_version: self.protocol_version,
            client_version: self.client_version,
            protocols: Some(protocols),
            port: self.port,
            id: self.id,
        }
    }

    /// Sets the name of the software.
    pub fn client_version(self, client_version: String) -> (r: HelloMessageBuilder)
        ensures
            r == (HelloMessageBuilder { client_version: Some(client_version), ..self }),
    {
        HelloMessageBuilder { client_version: Some(client_version), ..self }
    }

    /// Sets the version of the `p2p` protocol.
    pub fn protocol_version(self, protocol_version: ProtocolVersion) -> (r: HelloMessageBuilder)
        ensures
            r == (HelloMessageBuilder { protocol_version: Some(protocol_version), ..self }),
    {
        HelloMessageBuilder { protocol_version: Some(protocol_version), ..self }
    }

    /// The hello. What was not set is the latest `p2p` version, the name of this software, every
    /// version of `eth`, and the default port.
    pub fn build(self) -> (r: HelloMessageWithProtocols)
        ensures
            r.protocol_version == (match self.protocol_version {
                Some(v) => v,
                None => ProtocolVersion::V5,
            }),
            r.client_version@ == (match self.client_version {
                Some(v) => v@,
                None => RETH_CLIENT_VERSION@,
            }),
            match self.protocols {
                Some(p) => r.protocols@ == p@,
                None => {
                    &&& r.protocols.len() == EthVersion::all().len()
                    &&& forall|i: int|
                        0 <= i < r.protocols.len() ==> is_eth_protocol(
                            #[trigger] r.protocols@[i],
                            EthVersion::all()[i],
                        )
                },
            },
            r.port == (match self.port {
                Some(p) => p,
                None => DEFAULT_TCP_PORT,
            }),
            r.id == self.id,
    {
        let protocol_version = match self.protocol_version {
            Some(v) => v,
            None => ProtocolVersion::default(),
        };
        let client_version = match self.client_version {
            Some(v) => v,
            None => RETH_CLIENT_VERSION.to_owned(),
        };
        let protocols = match self.protocols {
            Some(p) => p,
            None => all_eth_protocols(),
        };
        HelloMessageWithProtocols {
            protocol_version,
            client_version,
            protocols,
            port: self.port.unwrap_or(DEFAULT_TCP_PORT),
            id: self.id,
        }
    }
}

/// Whether a protocol is `eth` in a version.
pub open spec fn is_eth_protocol(p: Protocol, version: EthVersion) -> bool {
    &&& p.cap.model() == Capability::eth_model(version)
    &&& p.spec_messages() == EthMessageID::spec_max(version) + 1
}

/// The `eth` protocol in every version, the latest first.
fn all_eth_protocols() -> (r: Vec<Protocol>)
    ensures
        r.len() == EthVersion::all().len(),
        forall|i: int|
            0 <= i < r.len() ==> is_eth_protocol(#[trigger] r@[i], EthVersion::all()[i]),
{
    let versions = EthVersion::all_versions();
    let mut r: Vec<Protocol> = Vec::new();
    let mut i: usize = 0;
    while i < versions.len()
        invariant
            i <= versions.len(),
            versions@ == EthVersion::all(),
            r.len() == i,
            forall|k: int|
                0 <= k < i ==> is_eth_protocol(#[trigger] r@[k], EthVersion::all()[k]),
        decreases versions.len() - i,
    {
        r.push(Protocol::eth(versions[i]));
        i += 1;
    }
    r
}

/// A hello is sent as a list of the version of `p2p`, the name of the client, its capabilities, its
/// port and its key.
pub proof fn lemma_hello_layout(hello: HelloModel)
    ensures
        HelloMessage::wire(hello) == list_bytes(
            ProtocolVersion::wire(hello.protocol_version) + String::wire(hello.client_version)
                + Vec::<Capability>::wire(hello.capabilities) + u16::wire(hello.port) + PeerId::wire(
                hello.id,
            ),
        ),
{
    assert(HelloFields::wire(hello.fields()) =~= ProtocolVersion::wire(hello.protocol_version)
        + String::wire(hello.client_version) + Vec::<Capability>::wire(hello.capabilities)
        + u16::wire(hello.port) + PeerId::wire(hello.id));
}

/// What a hello with protocols says to the peer is what it holds: of each protocol its name and
/// version, in their order, and every other field as it is.
pub proof fn lemma_hello_says(hello: HelloMessageWithProtocols)
    ensures
        hello.model().protocol_version == hello.protocol_version,
        hello.model().client_version == hello.client_version@,
        hello.model().port == hello.port,
        hello.model().id == hello.id,
        hello.model().capabilities.len() == hello.protocols@.len(),
        forall|i: int|
            0 <= i < hello.protocols@.len() ==> #[trigger] hello.model().capabilities[i] == (
                hello.protocols@[i].cap.name@,
                hello.protocols@[i].cap.version,
            ),
{
}

} // verus!
