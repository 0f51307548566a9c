use vstd::prelude::*;
use crate::rlp::{Rlp, RlpError};

verus! {

/// The versions of the `eth` protocol.
#[derive(Clone, Copy, Debug, PartialEq, Eq, Structural, PartialOrd, Ord, Hash)]
pub enum EthVersion {
    Eth66,
    Eth67,
    Eth68,
    Eth69,
    Eth70,
}

/// The version of a number.
pub open spec fn version_of(n: u8) -> Option<EthVersion> {
    if n == 66 {
        Some(EthVersion::Eth66)
    } else if n == 67 {
        Some(EthVersion::Eth67)
    } else if n == 68 {
        Some(EthVersion::Eth68)
    } else if n == 69 {
        Some(EthVersion::Eth69)
    } else if n == 70 {
        Some(EthVersion::Eth70)
    } else {
        None
    }
}

impl EthVersion {
    /// The number of the version.
    pub open spec fn number(self) -> u8 {
        match self {
            EthVersion::Eth66 => 66,
            EthVersion::Eth67 => 67,
            EthVersion::Eth68 => 68,
            EthVersion::Eth69 => 69,
            EthVersion::Eth70 => 70,
        }
    }

    /// The number of the version.
    pub fn to_u8(self) -> (n: u8)
        ensures
            n == self.number(),
    {
        match self {
            EthVersion::Eth66 => 66,
            EthVersion::Eth67 => 67,
            EthVersion::Eth68 => 68,
            EthVersion::Eth69 => 69,
            EthVersion::Eth70 => 70,
        }
    }

    /// The name of the version.
    pub open spec fn text(self) -> Seq<char> {
        match self {
            EthVersion::Eth66 => "Eth66"@,
            EthVersion::Eth67 => "Eth67"@,
            EthVersion::Eth68 => "Eth68"@,
            EthVersion::Eth69 => "Eth69"@,
            EthVersion::Eth70 => "Eth70"@,
        }
    }

    /// The name of the version.
    pub fn name(self) -> (r: &'static str)
        ensures
            r@ == self.text(),
    {
        match self {
            EthVersion::Eth66 => "Eth66",
            EthVersion::Eth67 => "Eth67",
            EthVersion::Eth68 => "Eth68",
            EthVersion::Eth69 => "Eth69",
            EthVersion::Eth70 => "Eth70",
        }
    }

    /// The version of a number.
    pub fn from_u8(n: u8) -> (r: Option<EthVersion>)
        ensures
            r == version_of(n),
    {
        match n {
            66 => Some(EthVersion::Eth66),
            67 => Some(EthVersion::Eth67),
            68 => Some(EthVersion::Eth68),
            69 => Some(EthVersion::Eth69),
            70 => Some(EthVersion::Eth70),
            _ => None,
        }
    }

    /// All versions, the latest first.
    pub open spec fn all() -> Seq<EthVersion> {
        seq![
            EthVersion::Eth70,
            EthVersion::Eth69,
            EthVersion::Eth68,
            EthVersion::Eth67,
            EthVersion::Eth66,
        ]
    }

    /// All versions, the latest first.
    pub fn all_versions() -> (r: Vec<EthVersion>)
        ensures
            r@ == Self::all(),
    {
        let r = vec![
            EthVersion::Eth70,
            EthVersion::Eth69,
            EthVersion::Eth68,
            EthVersion::Eth67,
            EthVersion::Eth66,
        ];
        proof {
            assert(r@ =~= Self::all());
        }
        r
    }
}

impl DeepView for EthVersion {
    type V = EthVersion;

    open spec fn deep_view(&self) -> EthVersion {
        *self
    }
}

impl Rlp for EthVersion {
    open spec fn wire(v: EthVersion) -> Seq<u8> {
        u8::wire(v.number())
    }

    open spec fn sound(v: EthVersion) -> bool {
        true
    }

    open spec fn read(buf: Seq<u8>) -> Result<(EthVersion, int), RlpError> {
        match u8::read(buf) {
            Err(e) => Err(e),
            Ok((v, n)) => match version_of(v) {
                Some(version) => Ok((version, n)),
                None => Err(RlpError::Custom("invalid eth version")),
            },
        }
    }

    fn encode(&self, out: &mut Vec<u8>) {
        self.to_u8().encode(out)
    }

    fn length(&self) -> (n: usize) {
        self.to_u8().length()
    }

    fn decode(buf: &mut &[u8]) -> (r: Result<EthVersion, RlpError>) {
        match u8::decode(buf) {
            Err(e) => Err(e),
            Ok(v) => match EthVersion::from_u8(v) {
                Some(version) => Ok(version),
                None => Err(RlpError::Custom("invalid eth version")),
            },
        }
    }

    proof fn read_within(buf: Seq<u8>) {
        u8::read_within(buf);
    }

    proof fn round_trip(v: EthVersion, rest: Seq<u8>) {
        u8::round_trip(v.number(), rest);
    }
}

/// Each version has a number of its own, by which it is found, and no other number has a version;
/// they are listed from the latest to the first.
pub proof fn lemma_version_numbers(version: EthVersion, n: u8)
    ensures
        version_of(version.number()) == Some(version),
        version_of(n) matches Some(v) ==> v.number() == n,
        version_of(n) is Some <==> 66 <= n <= 70,
        EthVersion::all().contains(version),
        forall|i: int|
            0 <= i < EthVersion::all().len() ==> (#[trigger] EthVersion::all()[i]).number() == 70
                - i,
{
    let all = EthVersion::all();
    assert(all[70 - version.number()] == version);
}

} // verus!
