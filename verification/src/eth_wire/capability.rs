use vstd::prelude::*;
use crate::rlp::{Rlp, RlpError, encode_header, length_of_length};
use crate::rlp_types::{encode_pair, pair_length, Listed};
use crate::text::{lemma_text_order, text_before, text_less};
use crate::eth_wire::errors::{P2PHandshakeError, P2PStreamError};
use crate::eth_wire::protocol::Protocol;
use crate::eth_wire_types::message::EthMessageID;
use crate::eth_wire_types::version::{version_of, EthVersion};

verus! {

/// The largest message id that is reserved for the `p2p` protocol itself.
pub const MAX_RESERVED_MESSAGE_ID: u8 = 0x0f;

/// A protocol that a peer speaks: its name and version.
#[derive(Clone, Debug, PartialEq, Eq, Hash)]
pub struct Capability {
    pub name: String,
    pub version: usize,
}

/// The name and version of a capability.
pub type CapabilityModel = (Seq<char>, usize);

impl Capability {
    /// The name and version.
    pub open spec fn model(self) -> CapabilityModel {
        (self.name@, self.version)
    }

    /// The capability of an `eth` version.
    pub open spec fn eth_model(version: EthVersion) -> CapabilityModel {
        ("eth"@, version.number() as usize)
    }

    /// The capability of this name and version.
    pub fn new(name: String, version: usize) -> (r: Capability)
        ensures
            r.model() == (name@, version),
    {
        Capability { name, version }
    }

    /// The capability of an `eth` version.
    pub fn eth(version: EthVersion) -> (r: Capability)
        ensures
            r.model() == Self::eth_model(version),
    {
        Capability { name: "eth".to_owned(), version: version.to_u8() as usize }
    }

    /// A capability of the same name and version.
    pub fn copy(&self) -> (r: Capability)
        ensures
            r.model() == self.model(),
    {
        Capability { name: self.name.clone(), version: self.version }
    }

    /// Whether two capabilities have the same name and version.
    pub fn same(&self, other: &Capability) -> (r: bool)
        ensures
            r == (self.model() == other.model()),
    {
        self.version == other.version && self.name == other.name
    }
}

impl DeepView for Capability {
    type V = CapabilityModel;

    open spec fn deep_view(&self) -> CapabilityModel {
        self.model()
    }
}

/// The fields of [`Capability`] in the order in which they are encoded.
pub type CapabilityFields = (String, usize);

impl Rlp for Capability {
    open spec fn wire(v: CapabilityModel) -> Seq<u8> {
        Listed::<CapabilityFields>::wire(v)
    }

    open spec fn sound(v: CapabilityModel) -> bool {
        true
    }

    open spec fn read(buf: Seq<u8>) -> Result<(CapabilityModel, int), RlpError> {
        Listed::<CapabilityFields>::read(buf)
    }

    fn encode(&self, out: &mut Vec<u8>) {
        let ghost front = out@;
        encode_header(true, pair_length(&self.name, &self.version), out);
        encode_pair(&self.name, &self.version, out);
        proof {
            assert(out@ =~= front + Self::wire(self.deep_view()));
        }
    }

    fn length(&self) -> (n: usize) {
        let payload_length: usize = pair_length(&self.name, &self.version);
        payload_length + length_of_length(payload_length)
    }

    fn decode(buf: &mut &[u8]) -> (r: Result<Capability, RlpError>) {
        match Listed::<CapabilityFields>::decode(buf) {
            Err(e) => Err(e),
            Ok(Listed(f)) => Ok(Capability { name: f.0, version: f.1 }),
        }
    }

    proof fn read_within(buf: Seq<u8>) {
        Listed::<CapabilityFields>::read_within(buf);
    }

    proof fn round_trip(v: CapabilityModel, rest: Seq<u8>) {
        Listed::<CapabilityFields>::round_trip(v, rest);
    }
}

/// A capability that both sides have, with the first of its message ids.
#[derive(Clone, Debug, PartialEq, Eq)]
pub enum SharedCapability {
    /// A version of `eth`.
    Eth { version: EthVersion, offset: u8 },
    /// Any other capability.
    UnknownCapability { cap: Capability, offset: u8, messages: u8 },
}

/// What a shared capability says.
pub ghost enum SharedCapabilityModel {
    Eth { version: EthVersion, offset: u8 },
    UnknownCapability { cap: CapabilityModel, offset: u8, messages: u8 },
}

impl SharedCapabilityModel {
    /// The first message id of the capability.
    pub open spec fn offset(self) -> u8 {
        match self {
            SharedCapabilityModel::Eth { offset, .. } => offset,
            SharedCapabilityModel::UnknownCapability { offset, .. } => offset,
        }
    }

    /// The name and version of the capability.
    pub open spec fn named(self) -> CapabilityModel {
        match self {
            SharedCapabilityModel::Eth { version, .. } => ("eth"@, version.number() as usize),
            SharedCapabilityModel::UnknownCapability { cap, .. } => cap,
        }
    }
}

/// The version of `eth` that a capability is, if it is one.
pub open spec fn eth_version_of(cap: CapabilityModel) -> Option<EthVersion> {
    if cap.0 == "eth"@ && cap.1 <= u8::MAX {
        version_of(cap.1 as u8)
    } else {
        None
    }
}

/// How many message ids a capability takes.
pub open spec fn ids_taken(cap: CapabilityModel, messages: u8) -> u8 {
    match eth_version_of(cap) {
        Some(version) => (EthMessageID::spec_max(version) + 1) as u8,
        None => messages,
    }
}

/// A capability whose message ids start at `offset`.
pub open spec fn shared_at(cap: CapabilityModel, messages: u8, offset: u8) -> SharedCapabilityModel {
    match eth_version_of(cap) {
        Some(version) => SharedCapabilityModel::Eth { version, offset },
        None => SharedCapabilityModel::UnknownCapability { cap, offset, messages },
    }
}

impl SharedCapability {
    /// What the capability says.
    pub open spec fn model(self) -> SharedCapabilityModel {
        match self {
            SharedCapability::Eth { version, offset } => SharedCapabilityModel::Eth {
                version,
                offset,
            },
            SharedCapability::UnknownCapability { cap, offset, messages } =>
                SharedCapabilityModel::UnknownCapability { cap: cap.model(), offset, messages },
        }
    }

    /// The capability whose message ids start at `offset`.
    fn at(cap: Capability, messages: u8, offset: u8) -> (r: SharedCapability)
        ensures
            r.model() == shared_at(cap.model(), messages, offset),
    {
        if cap.version <= 255 && cap.name == "eth".to_owned() {
            if let Some(version) = EthVersion::from_u8(cap.version as u8) {
                return SharedCapability::Eth { version, offset };
            }
        }
        SharedCapability::UnknownCapability { cap, offset, messages }
    }

    /// How many message ids the capability takes.
    pub fn num_messages(&self) -> (r: u8)
        ensures
            r == (match self.model() {
                SharedCapabilityModel::Eth { version, .. } => EthMessageID::spec_max(version) + 1,
                SharedCapabilityModel::UnknownCapability { messages, .. } => messages as int,
            }),
    {
        match self {
            SharedCapability::Eth { version, .. } => EthMessageID::message_count(*version),
            SharedCapability::UnknownCapability { messages, .. } => *messages,
        }
    }
}

/// The capabilities of protocols.
pub open spec fn protocol_models(protocols: Seq<Protocol>) -> Seq<(CapabilityModel, u8)> {
    protocols.map_values(|p: Protocol| (p.cap.model(), p.spec_messages()))
}

/// Whether both sides have a capability.
#[verifier::opaque]
pub open spec fn is_shared(
    ours: Seq<(CapabilityModel, u8)>,
    theirs: Seq<CapabilityModel>,
    cap: CapabilityModel,
) -> bool {
    theirs.contains(cap) && exists|i: int| 0 <= i < ours.len() && (#[trigger] ours[i]).0 == cap
}

/// The number of messages that our last protocol with this capability has.
pub open spec fn messages_of(ours: Seq<(CapabilityModel, u8)>, cap: CapabilityModel) -> u8
    decreases ours.len(),
{
    if ours.len() == 0 {
        0
    } else if ours.last().0 == cap {
        ours.last().1
    } else {
        messages_of(ours.drop_last(), cap)
    }
}

/// Whether the names in `list` stand in alphabetic order, each once.
pub open spec fn in_order(list: Seq<(CapabilityModel, u8)>) -> bool {
    forall|i: int, j: int|
        0 <= i < j < list.len() ==> text_less((#[trigger] list[i]).0.0, (#[trigger] list[j]).0.0)
}

/// Whether a pick is shared, in the highest version that is, with the number of messages that our
/// protocol has.
pub open spec fn is_best(
    ours: Seq<(CapabilityModel, u8)>,
    theirs: Seq<CapabilityModel>,
    pick: (CapabilityModel, u8),
) -> bool {
    &&& is_shared(ours, theirs, pick.0)
    &&& pick.1 == messages_of(ours, pick.0)
    &&& forall|version: usize| #[trigger]
        is_shared(ours, theirs, (pick.0.0, version)) ==> version <= pick.0.1
}

/// Whether a name stands in `list`.
pub open spec fn has_name(list: Seq<(CapabilityModel, u8)>, name: Seq<char>) -> bool {
    exists|i: int| 0 <= i < list.len() && (#[trigger] list[i]).0.0 == name
}

/// Whether `list` holds exactly one capability of each shared name, in alphabetic order, in the
/// highest version that is shared, with the number of messages that our protocol has.
pub open spec fn picks(
    ours: Seq<(CapabilityModel, u8)>,
    theirs: Seq<CapabilityModel>,
    list: Seq<(CapabilityModel, u8)>,
) -> bool {
    &&& in_order(list)
    &&& forall|i: int| 0 <= i < list.len() ==> is_best(ours, theirs, #[trigger] list[i])
    &&& forall|cap: CapabilityModel| #[trigger]
        is_shared(ours, theirs, cap) ==> has_name(list, cap.0)
}

/// How many message ids capabilities take together.
pub open spec fn total_ids(list: Seq<(CapabilityModel, u8)>) -> nat
    decreases list.len(),
{
    if list.len() == 0 {
        0
    } else {
        total_ids(list.drop_last()) + ids_taken(list.last().0, list.last().1) as nat
    }
}

/// Whether the message ids of whatever is shared fit behind the reserved ones.
pub open spec fn ids_fit(ours: Seq<(CapabilityModel, u8)>, theirs: Seq<CapabilityModel>) -> bool {
    forall|list: Seq<(CapabilityModel, u8)>| #[trigger]
        picks(ours, theirs, list) ==> 0x10 + total_ids(list) <= 0xff
}

/// Capabilities with their message ids one behind the other, from 0x10 on.
pub open spec fn laid_out(list: Seq<(CapabilityModel, u8)>) -> Seq<SharedCapabilityModel> {
    Seq::new(
        list.len(),
        |i: int| shared_at(list[i].0, list[i].1, (0x10 + total_ids(list.take(i))) as u8),
    )
}

/// The capabilities that both sides have.
#[derive(Clone, Debug, PartialEq, Eq)]
pub struct SharedCapabilities(Vec<SharedCapability>);

impl SharedCapabilities {
    /// What the capabilities say, in the order of their message ids.
    pub closed spec fn model(self) -> Seq<SharedCapabilityModel> {
        self.0@.map_values(|c: SharedCapability| c.model())
    }

    /// The capabilities that our protocols and a peer share. Message ids are given out without
    /// gaps from 0x10 on, in the alphabetic order of the names. Of several shared versions of a
    /// name the highest wins.
    pub fn try_new(protocols: &Vec<Protocol>, capabilities: &Vec<Capability>) -> (r: Result<
        SharedCapabilities,
        P2PStreamError,
    >)
        requires
            ids_fit(protocol_models(protocols@), capabilities.deep_view()),
        ensures
            r is Ok <==> exists|cap: CapabilityModel| #[trigger]
                is_shared(protocol_models(protocols@), capabilities.deep_view(), cap),
            r matches Ok(s) ==> exists|list: Seq<(CapabilityModel, u8)>| #[trigger]
                picks(protocol_models(protocols@), capabilities.deep_view(), list) && s.model()
                    == laid_out(list),
            r matches Err(e) ==> e == P2PStreamError::HandshakeError(
                P2PHandshakeError::NoSharedCapabilities,
            ),
    {
        let ghost ours = protocol_models(protocols@);
        let ghost theirs = capabilities.deep_view();
        let picked = pick(protocols, capabilities);
        let ghost list = pick_models(picked@);
        if picked.len() == 0 {
            proof {
                assert forall|cap: CapabilityModel| !#[trigger] is_shared(ours, theirs, cap) by {
                    if is_shared(ours, theirs, cap) {
                        assert(has_name(list, cap.0));
                    }
                }
            }
            return Err(P2PStreamError::HandshakeError(P2PHandshakeError::NoSharedCapabilities));
        }
        proof {
            assert(is_best(ours, theirs, list[0]));
        }
        let mut shared: Vec<SharedCapability> = Vec::new();
        let mut offset: u8 = MAX_RESERVED_MESSAGE_ID + 1;
        let mut i: usize = 0;
        while i < picked.len()
            invariant
                i <= picked.len(),
                list == pick_models(picked@),
                picks(ours, theirs, list),
                ids_fit(ours, theirs),
                offset == 0x10 + total_ids(list.take(i as int)),
                shared@.len() == i,
                forall|k: int|
                    0 <= k < i ==> (#[trigger] shared@[k]).model() == laid_out(list)[k],
            decreases picked.len() - i,
        {
            proof {
                lemma_total_ids(list, i + 1);
                assert(list.take(i + 1).drop_last() =~= list.take(i as int));
            }
            let cap = SharedCapability::at(picked[i].cap.copy(), picked[i].messages, offset);
            offset = offset + cap.num_messages();
            shared.push(cap);
            i += 1;
        }
        let r = SharedCapabilities(shared);
        proof {
            assert(r.model() =~= laid_out(list));
        }
        Ok(r)
    }

    /// Whether the message ids of what our protocols and a peer share fit behind the reserved
    /// ones.
    pub fn fit(protocols: &Vec<Protocol>, capabilities: &Vec<Capability>) -> (r: bool)
        ensures
            r == ids_fit(protocol_models(protocols@), capabilities.deep_view()),
    {
        let ghost ours = protocol_models(protocols@);
        let ghost theirs = capabilities.deep_view();
        let picked = pick(protocols, capabilities);
        let ghost list = pick_models(picked@);
        let mut total: usize = 0;
        let mut i: usize = 0;
        while i < picked.len()
            invariant
                i <= picked.len(),
                ours == protocol_models(protocols@),
                theirs == capabilities.deep_view(),
                list == pick_models(picked@),
                picks(ours, theirs, list),
                total == total_ids(list.take(i as int)),
                total <= 0xef,
            decreases picked.len() - i,
        {
            let taken = SharedCapability::at(picked[i].cap.copy(), picked[i].messages, 0);
            proof {
                assert(list.take(i + 1).drop_last() =~= list.take(i as int));
                lemma_total_ids(list, i + 1);
            }
            total = total + taken.num_messages() as usize;
            if total > 0xef {
                return false;
            }
            i += 1;
        }
        proof {
            assert(list.take(i as int) =~= list);
            assert forall|other: Seq<(CapabilityModel, u8)>| #[trigger]
                picks(ours, theirs, other) implies 0x10 + total_ids(other) <= 0xff by {
                lemma_one_pick(ours, theirs, list, other);
            }
        }
        true
    }

    /// The capabilities in the order of their message ids.
    pub fn iter_caps(&self) -> (r: &Vec<SharedCapability>)
        ensures
            r@.map_values(|c: SharedCapability| c.model()) == self.model(),
    {
        &self.0
    }
}

/// The message ids of a shared capability end where those of the next one start.
pub proof fn lemma_ids_adjacent(list: Seq<(CapabilityModel, u8)>, i: int)
    requires
        0 <= i < list.len(),
    ensures
        total_ids(list.take(i + 1)) == total_ids(list.take(i)) + ids_taken(list[i].0, list[i].1),
        total_ids(list.take(0)) == 0,
{
    assert(list.take(i + 1).drop_last() =~= list.take(i));
}

/// Two lists of the same names in alphabetic order have the same names at the same places.
proof fn lemma_same_names(a: Seq<(CapabilityModel, u8)>, b: Seq<(CapabilityModel, u8)>)
    requires
        in_order(a),
        in_order(b),
        forall|name: Seq<char>| has_name(a, name) == has_name(b, name),
    ensures
        a.len() == b.len(),
        forall|i: int| 0 <= i < a.len() ==> (#[trigger] a[i]).0.0 == b[i].0.0,
    decreases a.len(),
{
    if a.len() == 0 {
        if b.len() > 0 {
            assert(b[0].0.0 == b[0].0.0);
            assert(has_name(b, b[0].0.0));
            assert(has_name(a, b[0].0.0));
        }
    } else {
        let x = a[0].0.0;
        assert(has_name(a, x));
        assert(has_name(b, x));
        let j = choose|j: int| 0 <= j < b.len() && (#[trigger] b[j]).0.0 == x;
        let y = b[0].0.0;
        assert(has_name(b, y));
        assert(has_name(a, y));
        let i = choose|i: int| 0 <= i < a.len() && (#[trigger] a[i]).0.0 == y;
        lemma_text_order(x, y, x);
        if j > 0 && i > 0 {
            assert(text_less(b[0].0.0, b[j].0.0));
            assert(text_less(a[0].0.0, a[i].0.0));
        }
        assert(x == y);
        let p = a.skip(1);
        let q = b.skip(1);
        assert forall|name: Seq<char>| has_name(p, name) == has_name(q, name) by {
            lemma_tail_names(a, name);
            lemma_tail_names(b, name);
        }
        assert(in_order(p)) by {
            assert forall|k: int, l: int| 0 <= k < l < p.len() implies text_less(
                (#[trigger] p[k]).0.0,
                (#[trigger] p[l]).0.0,
            ) by {
                assert(text_less(a[k + 1].0.0, a[l + 1].0.0));
            }
        }
        assert(in_order(q)) by {
            assert forall|k: int, l: int| 0 <= k < l < q.len() implies text_less(
                (#[trigger] q[k]).0.0,
                (#[trigger] q[l]).0.0,
            ) by {
                assert(text_less(b[k + 1].0.0, b[l + 1].0.0));
            }
        }
        lemma_same_names(p, q);
        assert forall|k: int| 0 <= k < a.len() implies (#[trigger] a[k]).0.0 == b[k].0.0 by {
            if k > 0 {
                assert(p[k - 1].0.0 == q[k - 1].0.0);
            }
        }
    }
}

/// The names behind the first one are the names but for the first.
proof fn lemma_tail_names(list: Seq<(CapabilityModel, u8)>, name: Seq<char>)
    requires
        list.len() > 0,
        in_order(list),
    ensures
        has_name(list.skip(1), name) == (has_name(list, name) && name != list[0].0.0),
{
    let tail = list.skip(1);
    if has_name(tail, name) {
        let k = choose|k: int| 0 <= k < tail.len() && (#[trigger] tail[k]).0.0 == name;
        assert(list[k + 1].0.0 == name);
        lemma_names_differ(list, 0, k + 1);
    }
    if has_name(list, name) && name != list[0].0.0 {
        let k = choose|k: int| 0 <= k < list.len() && (#[trigger] list[k]).0.0 == name;
        assert(tail[k - 1].0.0 == name);
    }
}

/// The capabilities of protocols, as a peer is told them.
pub open spec fn told(protocols: Seq<(CapabilityModel, u8)>) -> Seq<CapabilityModel> {
    protocols.map_values(|p: (CapabilityModel, u8)| p.0)
}

/// Two peers that have the same number of messages in every shared protocol give the same ids to
/// the same messages.
pub proof fn lemma_peers_agree(
    ours: Seq<(CapabilityModel, u8)>,
    theirs: Seq<(CapabilityModel, u8)>,
    a: Seq<(CapabilityModel, u8)>,
    b: Seq<(CapabilityModel, u8)>,
)
    requires
        picks(ours, told(theirs), a),
        picks(theirs, told(ours), b),
        forall|cap: CapabilityModel| #[trigger]
            is_shared(ours, told(theirs), cap) ==> messages_of(ours, cap) == messages_of(theirs, cap),
    ensures
        a == b,
        laid_out(a) == laid_out(b),
{
    assert forall|cap: CapabilityModel| #[trigger]
        is_shared(ours, told(theirs), cap) == is_shared(theirs, told(ours), cap) by {
        lemma_shared_both(ours, theirs, cap);
        lemma_shared_both(theirs, ours, cap);
    }
    assert forall|name: Seq<char>| has_name(a, name) == has_name(b, name) by {
        if has_name(a, name) {
            let i = choose|i: int| 0 <= i < a.len() && (#[trigger] a[i]).0.0 == name;
            assert(is_best(ours, told(theirs), a[i]));
            assert(is_shared(theirs, told(ours), a[i].0));
        }
        if has_name(b, name) {
            let i = choose|i: int| 0 <= i < b.len() && (#[trigger] b[i]).0.0 == name;
            assert(is_best(theirs, told(ours), b[i]));
            assert(is_shared(ours, told(theirs), b[i].0));
        }
    }
    lemma_same_names(a, b);
    assert forall|i: int| 0 <= i < a.len() implies (#[trigger] a[i]) == b[i] by {
        assert(is_best(ours, told(theirs), a[i]));
        assert(is_best(theirs, told(ours), b[i]));
        assert(is_shared(theirs, told(ours), (b[i].0.0, a[i].0.1)));
        assert(is_shared(ours, told(theirs), (a[i].0.0, b[i].0.1)));
    }
    assert(a =~= b);
}

/// What both sides have does not depend on the side.
proof fn lemma_shared_both(
    ours: Seq<(CapabilityModel, u8)>,
    theirs: Seq<(CapabilityModel, u8)>,
    cap: CapabilityModel,
)
    ensures
        is_shared(ours, told(theirs), cap) ==> is_shared(theirs, told(ours), cap),
{
    reveal(is_shared);
    if is_shared(ours, told(theirs), cap) {
        let i = choose|i: int| 0 <= i < ours.len() && (#[trigger] ours[i]).0 == cap;
        assert(told(ours)[i] == cap);
        let k = choose|k: int| 0 <= k < told(theirs).len() && told(theirs)[k] == cap;
        assert(theirs[k].0 == cap);
    }
}

/// One capability less takes its ids less.
proof fn lemma_total_remove(list: Seq<(CapabilityModel, u8)>, i: int)
    requires
        0 <= i < list.len(),
    ensures
        total_ids(list) == total_ids(list.remove(i)) + ids_taken(list[i].0, list[i].1),
    decreases list.len(),
{
    let last = list.len() - 1;
    if i == last {
        assert(list.remove(i) =~= list.drop_last());
    } else {
        lemma_total_remove(list.drop_last(), i);
        assert(list.remove(i).drop_last() =~= list.drop_last().remove(i));
        assert(list.remove(i).last() == list.last());
    }
}

/// Capabilities of different names out of a list take no more ids than the list.
proof fn lemma_total_part(part: Seq<(CapabilityModel, u8)>, list: Seq<(CapabilityModel, u8)>)
    requires
        in_order(part),
        forall|k: int| 0 <= k < part.len() ==> list.contains(#[trigger] part[k]),
    ensures
        total_ids(part) <= total_ids(list),
    decreases part.len(),
{
    if part.len() > 0 {
        let last = part.len() - 1;
        assert(list.contains(part[last]));
        let i = choose|i: int| 0 <= i < list.len() && list[i] == part[last];
        let rest = list.remove(i);
        let front = part.drop_last();
        assert(in_order(front)) by {
            assert forall|k: int, l: int| 0 <= k < l < front.len() implies text_less(
                (#[trigger] front[k]).0.0,
                (#[trigger] front[l]).0.0,
            ) by {
                assert(text_less(part[k].0.0, part[l].0.0));
            }
        }
        assert forall|k: int| 0 <= k < front.len() implies rest.contains(#[trigger] front[k]) by {
            lemma_names_differ(part, k, last);
            assert(list.contains(part[k]));
            let j = choose|j: int| 0 <= j < list.len() && list[j] == part[k];
            assert(j != i);
            assert(rest[if j < i { j } else { j - 1 }] == front[k]);
        }
        lemma_total_part(front, rest);
        lemma_total_remove(list, i);
    }
}

/// The number of messages of a capability stands beside it.
proof fn lemma_messages_listed(ours: Seq<(CapabilityModel, u8)>, cap: CapabilityModel)
    requires
        exists|i: int| 0 <= i < ours.len() && (#[trigger] ours[i]).0 == cap,
    ensures
        ours.contains((cap, messages_of(ours, cap))),
    decreases ours.len(),
{
    let i = choose|i: int| 0 <= i < ours.len() && (#[trigger] ours[i]).0 == cap;
    let last = ours.len() - 1;
    if ours[last].0 == cap {
        assert(ours[last] == (cap, messages_of(ours, cap)));
    } else {
        let front = ours.drop_last();
        assert(front[i].0 == cap);
        lemma_messages_listed(front, cap);
        let k = choose|k: int| 0 <= k < front.len() && front[k] == (cap, messages_of(front, cap));
        assert(ours[k] == (cap, messages_of(ours, cap)));
    }
}

/// Where all our protocols together leave the ids within a byte, so does whatever is shared.
pub proof fn lemma_ids_fit(ours: Seq<(CapabilityModel, u8)>, theirs: Seq<CapabilityModel>)
    requires
        total_ids(ours) <= 0xef,
    ensures
        ids_fit(ours, theirs),
{
    assert forall|list: Seq<(CapabilityModel, u8)>| #[trigger]
        picks(ours, theirs, list) implies 0x10 + total_ids(list) <= 0xff by {
        assert forall|k: int| 0 <= k < list.len() implies ours.contains(#[trigger] list[k]) by {
            assert(is_best(ours, theirs, list[k]));
            reveal(is_shared);
            lemma_messages_listed(ours, list[k].0);
        }
        lemma_total_part(list, ours);
    }
}

/// What is shared is picked in one way only.
pub proof fn lemma_one_pick(
    ours: Seq<(CapabilityModel, u8)>,
    theirs: Seq<CapabilityModel>,
    a: Seq<(CapabilityModel, u8)>,
    b: Seq<(CapabilityModel, u8)>,
)
    requires
        picks(ours, theirs, a),
        picks(ours, theirs, b),
    ensures
        a == b,
{
    assert forall|name: Seq<char>| has_name(a, name) == has_name(b, name) by {
        if has_name(a, name) {
            let i = choose|i: int| 0 <= i < a.len() && (#[trigger] a[i]).0.0 == name;
            assert(is_best(ours, theirs, a[i]));
        }
        if has_name(b, name) {
            let i = choose|i: int| 0 <= i < b.len() && (#[trigger] b[i]).0.0 == name;
            assert(is_best(ours, theirs, b[i]));
        }
    }
    lemma_same_names(a, b);
    assert forall|i: int| 0 <= i < a.len() implies (#[trigger] a[i]) == b[i] by {
        assert(is_best(ours, theirs, a[i]));
        assert(is_best(ours, theirs, b[i]));
        assert(is_shared(ours, theirs, (b[i].0.0, a[i].0.1)));
        assert(is_shared(ours, theirs, (a[i].0.0, b[i].0.1)));
    }
    assert(a =~= b);
}

/// Fewer capabilities take no more message ids.
proof fn lemma_total_ids(list: Seq<(CapabilityModel, u8)>, n: int)
    requires
        0 <= n <= list.len(),
    ensures
        total_ids(list.take(n)) <= total_ids(list),
    decreases list.len() - n,
{
    if n == list.len() {
        assert(list.take(n) =~= list);
    } else {
        lemma_total_ids(list, n + 1);
        assert(list.take(n + 1).drop_last() =~= list.take(n));
    }
}

/// A shared capability while the highest shared version of each name is looked for.
struct Pick {
    cap: Capability,
    messages: u8,
}

/// What picks say.
spec fn pick_models(picked: Seq<Pick>) -> Seq<(CapabilityModel, u8)> {
    picked.map_values(|p: Pick| (p.cap.model(), p.messages))
}

/// The number of messages of our last protocol with a capability, if there is one.
fn find_messages(protocols: &Vec<Protocol>, cap: &Capability) -> (r: Option<u8>)
    ensures
        match r {
            Some(m) => {
                &&& exists|i: int|
                    0 <= i < protocols.len() && (#[trigger] protocol_models(protocols@)[i]).0
                        == cap.model()
                &&& m == messages_of(protocol_models(protocols@), cap.model())
            },
            None => forall|i: int|
                0 <= i < protocols.len() ==> (#[trigger] protocol_models(protocols@)[i]).0
                    != cap.model(),
        },
{
    let ghost ours = protocol_models(protocols@);
    let mut i: usize = protocols.len();
    proof {
        assert(ours.take(i as int) =~= ours);
    }
    while i > 0
        invariant
            i <= protocols.len(),
            ours == protocol_models(protocols@),
            messages_of(ours, cap.model()) == messages_of(ours.take(i as int), cap.model()),
            forall|k: int| i <= k < protocols.len() ==> (#[trigger] ours[k]).0 != cap.model(),
        decreases i,
    {
        i -= 1;
        proof {
            assert(ours.take(i + 1).drop_last() =~= ours.take(i as int));
            assert(ours.take(i + 1).last() == ours[i as int]);
            assert(ours[i as int] == (
                protocols@[i as int].cap.model(),
                protocols@[i as int].spec_messages(),
            ));
        }
        if protocols[i].cap.same(cap) {
            return Some(protocols[i].messages());
        }
    }
    None
}

/// The shared capability of each name in the highest shared version, in alphabetic order.
fn pick(protocols: &Vec<Protocol>, capabilities: &Vec<Capability>) -> (picked: Vec<Pick>)
    ensures
        picks(protocol_models(protocols@), capabilities.deep_view(), pick_models(picked@)),
{
    let ghost ours = protocol_models(protocols@);
    let ghost theirs = capabilities.deep_view();
    let mut picked: Vec<Pick> = Vec::new();
    let mut n: usize = 0;
    proof {
        reveal(is_shared);
    }
    while n < capabilities.len()
        invariant
            n <= capabilities.len(),
            ours == protocol_models(protocols@),
            theirs == capabilities.deep_view(),
            picks(ours, theirs.take(n as int), pick_models(picked@)),
        decreases capabilities.len() - n,
    {
        let ghost seen = theirs.take(n as int);
        let ghost next = theirs.take(n + 1);
        let cap = &capabilities[n];
        proof {
            assert(next =~= seen.push(cap.model()));
        }
        match find_messages(protocols, cap) {
            Some(messages) => {
                add_pick(&mut picked, cap, messages, Ghost(ours), Ghost(seen));
            },
            None => {
                proof {
                    assert forall|c: CapabilityModel| #[trigger]
                        is_shared(ours, next, c) == is_shared(ours, seen, c) by {
                        lemma_shared_push(ours, seen, cap.model(), c);
                    }
                    lemma_picks_same(ours, seen, next, pick_models(picked@));
                }
            },
        }
        n += 1;
    }
    proof {
        assert(theirs.take(n as int) =~= theirs);
    }
    picked
}

/// What one more capability of the peer adds to what is shared.
proof fn lemma_shared_push(
    ours: Seq<(CapabilityModel, u8)>,
    theirs: Seq<CapabilityModel>,
    added: CapabilityModel,
    cap: CapabilityModel,
)
    ensures
        is_shared(ours, theirs.push(added), cap) == (is_shared(ours, theirs, cap) || (cap == added
            && exists|i: int| 0 <= i < ours.len() && (#[trigger] ours[i]).0 == cap)),
{
    reveal(is_shared);
    let next = theirs.push(added);
    if theirs.contains(cap) {
        let k = choose|k: int| 0 <= k < theirs.len() && theirs[k] == cap;
        assert(next[k] == cap);
    }
    if next.contains(cap) {
        let k = choose|k: int| 0 <= k < next.len() && next[k] == cap;
        assert(k < theirs.len() ==> theirs[k] == cap);
    }
    assert(next[theirs.len() as int] == added);
}

/// Picks depend only on what is shared.
proof fn lemma_picks_same(
    ours: Seq<(CapabilityModel, u8)>,
    a: Seq<CapabilityModel>,
    b: Seq<CapabilityModel>,
    list: Seq<(CapabilityModel, u8)>,
)
    requires
        picks(ours, a, list),
        forall|c: CapabilityModel| #[trigger] is_shared(ours, b, c) == is_shared(ours, a, c),
    ensures
        picks(ours, b, list),
{
    assert forall|i: int| 0 <= i < list.len() implies is_best(ours, b, #[trigger] list[i]) by {
        assert(is_best(ours, a, list[i]));
    }
}

/// A pick stays the best of its name where what is added has another name, or a version that is
/// not higher.
proof fn lemma_stays_best(
    ours: Seq<(CapabilityModel, u8)>,
    seen: Seq<CapabilityModel>,
    c: CapabilityModel,
    pick: (CapabilityModel, u8),
)
    requires
        is_best(ours, seen, pick),
        pick.0.0 != c.0 || c.1 <= pick.0.1,
    ensures
        is_best(ours, seen.push(c), pick),
{
    lemma_shared_push(ours, seen, c, pick.0);
    assert forall|version: usize| #[trigger]
        is_shared(ours, seen.push(c), (pick.0.0, version)) implies version <= pick.0.1 by {
        lemma_shared_push(ours, seen, c, (pick.0.0, version));
    }
}

/// What is added is the best of its name where no version that is shared is higher.
proof fn lemma_becomes_best(
    ours: Seq<(CapabilityModel, u8)>,
    seen: Seq<CapabilityModel>,
    c: CapabilityModel,
)
    requires
        exists|i: int| 0 <= i < ours.len() && (#[trigger] ours[i]).0 == c,
        forall|version: usize| #[trigger]
            is_shared(ours, seen, (c.0, version)) ==> version <= c.1,
    ensures
        is_best(ours, seen.push(c), (c, messages_of(ours, c))),
{
    lemma_shared_push(ours, seen, c, c);
    assert forall|version: usize| #[trigger]
        is_shared(ours, seen.push(c), (c.0, version)) implies version <= c.1 by {
        lemma_shared_push(ours, seen, c, (c.0, version));
    }
}

/// Takes one more shared capability into the picks.
fn add_pick(
    picked: &mut Vec<Pick>,
    cap: &Capability,
    messages: u8,
    ours: Ghost<Seq<(CapabilityModel, u8)>>,
    seen: Ghost<Seq<CapabilityModel>>,
)
    requires
        picks(ours@, seen@, pick_models(old(picked)@)),
        exists|i: int| 0 <= i < ours@.len() && (#[trigger] ours@[i]).0 == cap.model(),
        messages == messages_of(ours@, cap.model()),
    ensures
        picks(ours@, seen@.push(cap.model()), pick_models(final(picked)@)),
{
    let ghost list = pick_models(picked@);
    let ghost c = cap.model();
    let mut at: usize = 0;
    while at < picked.len() && text_before(&picked[at].cap.name, &cap.name)
        invariant
            at <= picked.len(),
            list == pick_models(picked@),
            c == cap.model(),
            forall|k: int| 0 <= k < at ==> text_less((#[trigger] list[k]).0.0, c.0),
        decreases picked.len() - at,
    {
        proof {
            assert(list[at as int].0.0 == picked@[at as int].cap.name@);
        }
        at += 1;
    }
    if at < picked.len() && picked[at].cap.name == cap.name {
        proof {
            assert(list[at as int].0 == picked@[at as int].cap.model());
        }
        if cap.version > picked[at].cap.version {
            proof {
                lemma_picks_replace(ours@, seen@, c, list, at as int);
            }
            picked.set(at, Pick { cap: cap.copy(), messages });
            proof {
                assert(pick_models(picked@) =~= list.update(at as int, (c, messages)));
            }
        } else {
            proof {
                lemma_picks_keep(ours@, seen@, c, list, at as int);
            }
        }
    } else {
        proof {
            if at < picked.len() {
                assert(list[at as int].0.0 == picked@[at as int].cap.name@);
                lemma_text_order(list[at as int].0.0, c.0, c.0);
            }
            lemma_picks_insert(ours@, seen@, c, list, at as int);
        }
        picked.insert(at, Pick { cap: cap.copy(), messages });
        proof {
            assert(pick_models(picked@) =~= list.insert(at as int, (c, messages)));
        }
    }
}

/// Names at different places of an ordered list differ.
proof fn lemma_names_differ(list: Seq<(CapabilityModel, u8)>, i: int, j: int)
    requires
        in_order(list),
        0 <= i < list.len(),
        0 <= j < list.len(),
        i != j,
    ensures
        list[i].0.0 != list[j].0.0,
{
    lemma_text_order(list[i].0.0, list[i].0.0, list[i].0.0);
    if i < j {
        assert(text_less(list[i].0.0, list[j].0.0));
    } else {
        assert(text_less(list[j].0.0, list[i].0.0));
    }
}

/// A higher version takes the place of a lower one of the same name.
proof fn lemma_picks_replace(
    ours: Seq<(CapabilityModel, u8)>,
    seen: Seq<CapabilityModel>,
    c: CapabilityModel,
    list: Seq<(CapabilityModel, u8)>,
    at: int,
)
    requires
        picks(ours, seen, list),
        exists|i: int| 0 <= i < ours.len() && (#[trigger] ours[i]).0 == c,
        0 <= at < list.len(),
        list[at].0.0 == c.0,
        list[at].0.1 < c.1,
    ensures
        picks(ours, seen.push(c), list.update(at, (c, messages_of(ours, c)))),
{
    let next = seen.push(c);
    let new = list.update(at, (c, messages_of(ours, c)));
    assert(in_order(new)) by {
        assert forall|i: int, j: int| 0 <= i < j < new.len() implies text_less(
            (#[trigger] new[i]).0.0,
            (#[trigger] new[j]).0.0,
        ) by {
            assert(text_less(list[i].0.0, list[j].0.0));
        }
    }
    assert forall|i: int| 0 <= i < new.len() implies is_best(ours, next, #[trigger] new[i]) by {
        assert(is_best(ours, seen, list[i]));
        if i == at {
            lemma_becomes_best(ours, seen, c);
        } else {
            lemma_names_differ(list, i, at);
            lemma_stays_best(ours, seen, c, list[i]);
        }
    }
    assert forall|cap: CapabilityModel| #[trigger] is_shared(ours, next, cap) implies has_name(
        new,
        cap.0,
    ) by {
        lemma_shared_push(ours, seen, c, cap);
        if cap == c {
            assert(new[at].0.0 == cap.0);
        } else {
            assert(has_name(list, cap.0));
            let i = choose|i: int| 0 <= i < list.len() && (#[trigger] list[i]).0.0 == cap.0;
            assert(new[i].0.0 == cap.0);
        }
    }
}

/// A version that is not higher changes nothing.
proof fn lemma_picks_keep(
    ours: Seq<(CapabilityModel, u8)>,
    seen: Seq<CapabilityModel>,
    c: CapabilityModel,
    list: Seq<(CapabilityModel, u8)>,
    at: int,
)
    requires
        picks(ours, seen, list),
        0 <= at < list.len(),
        list[at].0.0 == c.0,
        c.1 <= list[at].0.1,
    ensures
        picks(ours, seen.push(c), list),
{
    let next = seen.push(c);
    assert forall|i: int| 0 <= i < list.len() implies is_best(ours, next, #[trigger] list[i]) by {
        assert(is_best(ours, seen, list[i]));
        if i != at {
            lemma_names_differ(list, i, at);
        }
        lemma_stays_best(ours, seen, c, list[i]);
    }
    assert forall|cap: CapabilityModel| #[trigger] is_shared(ours, next, cap) implies has_name(
        list,
        cap.0,
    ) by {
        lemma_shared_push(ours, seen, c, cap);
        if cap == c {
            assert(list[at].0.0 == cap.0);
        } else {
            assert(is_shared(ours, seen, cap));
        }
    }
}

/// A new name goes to its place in the alphabetic order.
proof fn lemma_picks_insert(
    ours: Seq<(CapabilityModel, u8)>,
    seen: Seq<CapabilityModel>,
    c: CapabilityModel,
    list: Seq<(CapabilityModel, u8)>,
    at: int,
)
    requires
        picks(ours, seen, list),
        exists|i: int| 0 <= i < ours.len() && (#[trigger] ours[i]).0 == c,
        0 <= at <= list.len(),
        forall|k: int| 0 <= k < at ==> text_less((#[trigger] list[k]).0.0, c.0),
        at < list.len() ==> text_less(c.0, list[at].0.0),
    ensures
        picks(ours, seen.push(c), list.insert(at, (c, messages_of(ours, c)))),
{
    let next = seen.push(c);
    let new = list.insert(at, (c, messages_of(ours, c)));
    lemma_text_order(c.0, c.0, c.0);
    assert forall|k: int| at <= k < list.len() implies text_less(c.0, (#[trigger] list[k]).0.0) by {
        if k > at {
            assert(text_less(list[at].0.0, list[k].0.0));
            lemma_text_order(c.0, list[at].0.0, list[k].0.0);
        }
    }
    assert forall|k: int| 0 <= k < list.len() implies (#[trigger] list[k]).0.0 != c.0 by {}
    assert(!has_name(list, c.0));
    assert forall|version: usize| #[trigger]
        is_shared(ours, seen, (c.0, version)) implies version <= c.1 by {
        assert(has_name(list, c.0));
    }
    assert(in_order(new)) by {
        assert forall|i: int, j: int| 0 <= i < j < new.len() implies text_less(
            (#[trigger] new[i]).0.0,
            (#[trigger] new[j]).0.0,
        ) by {
            if j < at {
                assert(text_less(list[i].0.0, list[j].0.0));
            } else if i < at && j > at {
                assert(text_less(list[i].0.0, list[j - 1].0.0));
            } else if i > at {
                assert(text_less(list[i - 1].0.0, list[j - 1].0.0));
            } else if i == at {
                assert(text_less(c.0, list[j - 1].0.0));
            } else {
                assert(text_less(list[i].0.0, c.0));
            }
        }
    }
    assert forall|i: int| 0 <= i < new.len() implies is_best(ours, next, #[trigger] new[i]) by {
        if i == at {
            lemma_becomes_best(ours, seen, c);
        } else {
            let k = if i < at { i } else { i - 1 };
            assert(new[i] == list[k]);
            assert(is_best(ours, seen, list[k]));
            lemma_stays_best(ours, seen, c, list[k]);
        }
    }
    assert forall|cap: CapabilityModel| #[trigger] is_shared(ours, next, cap) implies has_name(
        new,
        cap.0,
    ) by {
        lemma_shared_push(ours, seen, c, cap);
        if cap == c {
            assert(new[at].0.0 == cap.0);
        } else {
            assert(has_name(list, cap.0));
            let k = choose|k: int| 0 <= k < list.len() && (#[trigger] list[k]).0.0 == cap.0;
            let i = if k < at { k } else { k + 1 };
            assert(new[i].0.0 == cap.0);
        }
    }
}

/// The message ids of shared capabilities start at 0x10 and do not meet: those of one end before
/// those of the next begin. Each is there under its own name and version.
pub proof fn lemma_ids_do_not_meet(list: Seq<(CapabilityModel, u8)>, i: int, j: int)
    requires
        0 <= i < j < list.len(),
        0x10 + total_ids(list) <= 0xff,
    ensures
        laid_out(list).len() == list.len(),
        laid_out(list)[0].offset() == 0x10,
        laid_out(list)[i].named() == list[i].0,
        laid_out(list)[j].named() == list[j].0,
        laid_out(list)[i].offset() + ids_taken(list[i].0, list[i].1) <= laid_out(list)[j].offset(),
        laid_out(list)[j].offset() + ids_taken(list[j].0, list[j].1) <= 0xff,
        j == i + 1 ==> laid_out(list)[i].offset() + ids_taken(list[i].0, list[i].1) == laid_out(
            list,
        )[j].offset(),
{
    lemma_ids_grow(list, 0, j);
    lemma_ids_grow(list, i + 1, j);
    lemma_ids_grow(list, j + 1, list.len() as int);
    lemma_ids_grow(list, i, j + 1);
    lemma_ids_adjacent(list, i);
    lemma_ids_adjacent(list, j);
    assert(list.take(list.len() as int) =~= list);
    lemma_ids_grow(list, j, list.len() as int);
    assert(list.take(0).len() == 0);
}

/// More capabilities take no fewer ids.
proof fn lemma_ids_grow(list: Seq<(CapabilityModel, u8)>, i: int, j: int)
    requires
        0 <= i <= j <= list.len(),
    ensures
        total_ids(list.take(i)) <= total_ids(list.take(j)),
    decreases j - i,
{
    if i < j {
        lemma_ids_adjacent(list, j - 1);
        lemma_ids_grow(list, i, j - 1);
    }
}

/// What is picked is what both have: each pick is named by both sides, no version that both have is
/// higher, and no name that both have in some version is left out or picked twice.
pub proof fn lemma_picks_are_what_both_have(
    ours: Seq<(CapabilityModel, u8)>,
    theirs: Seq<CapabilityModel>,
    list: Seq<(CapabilityModel, u8)>,
)
    requires
        picks(ours, theirs, list),
    ensures
        forall|k: int|
            0 <= k < list.len() ==> theirs.contains((#[trigger] list[k]).0) && told(ours).contains(
                list[k].0,
            ),
        forall|k: int, c: int|
            0 <= k < list.len() && 0 <= c < theirs.len() && told(ours).contains(#[trigger] theirs[c])
                && theirs[c].0 == (#[trigger] list[k]).0.0 ==> theirs[c].1 <= list[k].0.1,
        forall|c: int|
            0 <= c < theirs.len() && told(ours).contains(#[trigger] theirs[c]) ==> exists|k: int|
                0 <= k < list.len() && (#[trigger] list[k]).0.0 == theirs[c].0,
{
    reveal(is_shared);
    assert forall|cap: CapabilityModel|
        is_shared(ours, theirs, cap) == (theirs.contains(cap) && told(ours).contains(cap)) by {
        if told(ours).contains(cap) {
            let i = choose|i: int| 0 <= i < told(ours).len() && told(ours)[i] == cap;
            assert(ours[i].0 == cap);
        }
        if exists|i: int| 0 <= i < ours.len() && (#[trigger] ours[i]).0 == cap {
            let i = choose|i: int| 0 <= i < ours.len() && (#[trigger] ours[i]).0 == cap;
            assert(told(ours)[i] == cap);
        }
    }
    assert forall|k: int| 0 <= k < list.len() implies theirs.contains((#[trigger] list[k]).0)
        && told(ours).contains(list[k].0) by {
        assert(is_best(ours, theirs, list[k]));
    }
    assert forall|k: int, c: int|
        0 <= k < list.len() && 0 <= c < theirs.len() && told(ours).contains(#[trigger] theirs[c])
            && theirs[c].0 == (#[trigger] list[k]).0.0 implies theirs[c].1 <= list[k].0.1 by {
        assert(is_best(ours, theirs, list[k]));
        assert(theirs.contains(theirs[c]));
        assert(is_shared(ours, theirs, (list[k].0.0, theirs[c].1)));
    }
    assert forall|c: int|
        0 <= c < theirs.len() && told(ours).contains(#[trigger] theirs[c]) implies exists|k: int|
        0 <= k < list.len() && (#[trigger] list[k]).0.0 == theirs[c].0 by {
        assert(is_shared(ours, theirs, theirs[c]));
        assert(has_name(list, theirs[c].0));
    }
}

/// A capability named `eth` of a known version takes the ids of that version, whatever number of
/// messages is given for it; every other takes the number that is given.
pub proof fn lemma_eth_takes_its_own_ids(version: EthVersion, messages: u8, cap: CapabilityModel)
    ensures
        ids_taken(Capability::eth_model(version), messages) == (if version.number() >= 69 {
            18int
        } else {
            17
        }),
        cap.0 != "eth"@ || cap.1 < 66 || cap.1 > 70 ==> ids_taken(cap, messages) == messages,
{
}

/// Of several protocols with one capability the last says how many messages it has.
pub proof fn lemma_last_protocol_counts(
    ours: Seq<(CapabilityModel, u8)>,
    cap: CapabilityModel,
    i: int,
)
    requires
        0 <= i < ours.len(),
        ours[i].0 == cap,
        forall|j: int| i < j < ours.len() ==> (#[trigger] ours[j]).0 != cap,
    ensures
        messages_of(ours, cap) == ours[i].1,
    decreases ours.len(),
{
    if i < ours.len() - 1 {
        assert(ours[ours.len() - 1].0 != cap);
        let front = ours.drop_last();
        assert forall|j: int| i < j < front.len() implies (#[trigger] front[j]).0 != cap by {
            assert(ours[j].0 != cap);
        }
        lemma_last_protocol_counts(front, cap, i);
    }
}

} // verus!
