use vstd::prelude::*;
use vstd::slice::slice_subrange;
use crate::rlp::{
    be_bytes, be_value, decode_string, encode_header, lemma_be_bytes, lemma_be_bytes_len,
    lemma_be_value_bound, lemma_be_value_inverse, lemma_header_within, lemma_pow256_monotonic,
    lemma_string_is_canonical, lemma_string_round_trip,
    length_of_length, pow256, read_string, string_bytes, uint_bytes, Rlp, RlpError,
};

verus! {

/// The big-endian bytes of a number, filled up with zeros to `k` bytes.
pub open spec fn fixed_bytes(n: nat, k: nat) -> Seq<u8>
    decreases k,
{
    if k == 0 {
        Seq::empty()
    } else {
        fixed_bytes(n / 256, (k - 1) as nat).push((n % 256) as u8)
    }
}

/// Bytes of a fixed number, read as a number, give it back, and the other way round.
pub proof fn lemma_fixed_bytes(n: nat, k: nat)
    ensures
        fixed_bytes(n, k).len() == k,
        n < pow256(k) ==> be_value(fixed_bytes(n, k)) == n,
    decreases k,
{
    if k > 0 {
        lemma_fixed_bytes(n / 256, (k - 1) as nat);
        assert(fixed_bytes(n, k).drop_last() =~= fixed_bytes(n / 256, (k - 1) as nat));
    }
}

/// The number of bytes put behind one another.
pub proof fn lemma_be_value_concat(a: Seq<u8>, b: Seq<u8>)
    ensures
        be_value(a + b) == be_value(a) * pow256(b.len()) + be_value(b),
    decreases b.len(),
{
    if b.len() == 0 {
        assert(a + b =~= a);
        assert(be_value(a) * 1 == be_value(a));
    } else {
        let c = b.drop_last();
        lemma_be_value_concat(a, c);
        assert((a + b).drop_last() =~= a + c);
        assert((a + b).last() == b.last());
        let x = be_value(a);
        let p = pow256(c.len());
        assert((x * p + be_value(c)) * 256 + b.last() as nat == x * (256 * p) + (be_value(c) * 256
            + b.last() as nat)) by (nonlinear_arith);
    }
}

/// The shortest bytes of a number with a part above the last `k` bytes.
proof fn lemma_be_bytes_concat(a: nat, b: nat, k: nat)
    requires
        a > 0,
        b < pow256(k),
    ensures
        be_bytes(a * pow256(k) + b) == be_bytes(a) + fixed_bytes(b, k),
    decreases k,
{
    if k == 0 {
        assert(a * 1 == a);
        assert(be_bytes(a) + fixed_bytes(b, k) =~= be_bytes(a));
    } else {
        let p = pow256((k - 1) as nat);
        let n = a * pow256(k) + b;
        assert(n == 256 * (a * p) + b) by (nonlinear_arith)
            requires
                n == a * (256 * p) + b,
        ;
        assert(a * p > 0) by (nonlinear_arith)
            requires
                a > 0,
                p > 0,
        {
        }
        assert(n / 256 == a * p + b / 256);
        assert(n % 256 == b % 256);
        lemma_be_bytes_concat(a, b / 256, (k - 1) as nat);
        assert(be_bytes(a) + fixed_bytes(b, k) =~= (be_bytes(a) + fixed_bytes(
            b / 256,
            (k - 1) as nat,
        )).push((b % 256) as u8));
    }
}

/// The sixteenth power of 256.
proof fn lemma_pow256_16()
    ensures
        pow256(16) == 0x1_0000_0000_0000_0000_0000_0000_0000_0000,
{
    reveal_with_fuel(pow256, 17);
}

/// The number that at most sixteen big-endian bytes stand for.
fn from_be(data: &[u8]) -> (value: u128)
    requires
        data@.len() <= 16,
    ensures
        value == be_value(data@),
{
    let mut value: u128 = 0;
    let mut i: usize = 0;
    while i < data.len()
        invariant
            i <= data.len(),
            data@.len() <= 16,
            value == be_value(data@.take(i as int)),
        decreases data.len() - i,
    {
        proof {
            let next = data@.take(i + 1);
            assert(next.drop_last() =~= data@.take(i as int));
            lemma_be_value_bound(next);
            lemma_pow256_monotonic((i + 1) as nat, 16);
            lemma_pow256_16();
        }
        value = value * 256 + data[i] as u128;
        i += 1;
    }
    proof {
        assert(data@.take(i as int) =~= data@);
    }
    value
}

/// Appends the last `k` big-endian bytes of `n`.
fn push_fixed(n: u128, k: usize, out: &mut Vec<u8>)
    ensures
        final(out)@ == old(out)@ + fixed_bytes(n as nat, k as nat),
    decreases k,
{
    if k > 0 {
        let ghost front = out@;
        push_fixed(n / 256, k - 1, out);
        out.push((n % 256) as u8);
        proof {
            assert(out@ =~= front + fixed_bytes(n as nat, k as nat));
        }
    }
}

/// Appends the shortest big-endian bytes of `n`.
fn push_shortest(n: u128, out: &mut Vec<u8>)
    ensures
        final(out)@ == old(out)@ + be_bytes(n as nat),
    decreases n,
{
    if n > 0 {
        let ghost front = out@;
        push_shortest(n / 256, out);
        out.push((n % 256) as u8);
        proof {
            assert(out@ =~= front + be_bytes(n as nat));
        }
    }
}

/// Appends a byte string as it is encoded.
pub(crate) fn encode_string(data: &Vec<u8>, out: &mut Vec<u8>)
    ensures
        final(out)@ == old(out)@ + string_bytes(data@),
{
    if data.len() != 1 || data[0] >= 0x80 {
        encode_header(false, data.len(), out);
    }
    let ghost front = out@;
    out.extend_from_slice(data.as_slice());
    proof {
        assert(out@ =~= front + data@);
    }
}

/// The length of a byte string as it is encoded.
pub(crate) fn string_length(data: &Vec<u8>) -> (n: usize)
    requires
        string_bytes(data@).len() <= usize::MAX,
    ensures
        n == string_bytes(data@).len(),
{
    if data.len() != 1 || data[0] >= 0x80 {
        length_of_length(data.len()) + data.len()
    } else {
        1
    }
}

/// A string of 32 bytes, such as a hash, held as its two big-endian halves.
#[derive(Clone, Copy, Debug, PartialEq, Eq, Structural, Hash, PartialOrd, Ord)]
pub struct B256 {
    pub hi: u128,
    pub lo: u128,
}

impl DeepView for B256 {
    type V = B256;

    open spec fn deep_view(&self) -> B256 {
        *self
    }
}

/// The hash that 32 bytes are.
pub open spec fn b256_of(data: Seq<u8>) -> B256 {
    B256 { hi: be_value(data.take(16)) as u128, lo: be_value(data.skip(16)) as u128 }
}

impl B256 {
    /// The 32 bytes.
    pub open spec fn bytes(self) -> Seq<u8> {
        fixed_bytes(self.hi as nat, 16) + fixed_bytes(self.lo as nat, 16)
    }

    /// The hash of 32 zero bytes.
    pub fn zero() -> (r: B256)
        ensures
            r == (B256 { hi: 0, lo: 0 }),
    {
        B256 { hi: 0, lo: 0 }
    }

    /// Whether all bytes are zero.
    pub fn is_zero(&self) -> (r: bool)
        ensures
            r == (*self == B256 { hi: 0, lo: 0 }),
    {
        self.hi == 0 && self.lo == 0
    }

    /// The hash that 32 bytes are.
    pub fn from_bytes(data: &[u8; 32]) -> (r: B256)
        ensures
            r == b256_of(data@),
    {
        Self::from_slice(data.as_slice())
    }

    /// The hash that a slice of 32 bytes is.
    pub fn from_slice(data: &[u8]) -> (r: B256)
        requires
            data@.len() == 32,
        ensures
            r == b256_of(data@),
    {
        proof {
            assert(data@.subrange(0, 16) =~= data@.take(16));
            assert(data@.subrange(16, 32) =~= data@.skip(16));
        }
        B256 {
            hi: from_be(slice_subrange(data, 0, 16)),
            lo: from_be(slice_subrange(data, 16, 32)),
        }
    }

    /// The 32 bytes.
    pub fn to_vec(&self) -> (r: Vec<u8>)
        ensures
            r@ == self.bytes(),
    {
        let mut out: Vec<u8> = Vec::new();
        push_fixed(self.hi, 16, &mut out);
        push_fixed(self.lo, 16, &mut out);
        proof {
            assert(out@ =~= self.bytes());
        }
        out
    }

    /// The bytes of a hash are 32, and give the hash back.
    pub proof fn lemma_bytes(self)
        ensures
            self.bytes().len() == 32,
            b256_of(self.bytes()) == self,
    {
        lemma_pow256_16();
        lemma_fixed_bytes(self.hi as nat, 16);
        lemma_fixed_bytes(self.lo as nat, 16);
        assert(self.bytes().take(16) =~= fixed_bytes(self.hi as nat, 16));
        assert(self.bytes().skip(16) =~= fixed_bytes(self.lo as nat, 16));
    }
}

impl Rlp for B256 {
    open spec fn wire(v: B256) -> Seq<u8> {
        string_bytes(v.bytes())
    }

    open spec fn sound(v: B256) -> bool {
        true
    }

    open spec fn read(buf: Seq<u8>) -> Result<(B256, int), RlpError> {
        match read_string(buf) {
            Err(e) => Err(e),
            Ok((data, n)) => if data.len() != 32 {
                Err(RlpError::UnexpectedLength)
            } else {
                Ok((b256_of(data), n))
            },
        }
    }

    fn encode(&self, out: &mut Vec<u8>) {
        let data = self.to_vec();
        encode_string(&data, out)
    }

    fn length(&self) -> (n: usize) {
        proof {
            self.lemma_bytes();
        }
        let data = self.to_vec();
        string_length(&data)
    }

    fn decode(buf: &mut &[u8]) -> (r: Result<B256, RlpError>) {
        match decode_string(buf) {
            Err(e) => Err(e),
            Ok(data) => if data.len() != 32 {
                Err(RlpError::UnexpectedLength)
            } else {
                Ok(B256::from_slice(data))
            },
        }
    }

    proof fn read_within(buf: Seq<u8>) {
        lemma_header_within(buf);
    }

    proof fn round_trip(v: B256, rest: Seq<u8>) {
        v.lemma_bytes();
        lemma_string_round_trip(v.bytes(), rest);
    }
}

/// A string of 64 bytes, the public key by which a peer is known.
#[derive(Clone, Copy, Debug, PartialEq, Eq, Structural, Hash)]
pub struct PeerId {
    pub hi: B256,
    pub lo: B256,
}

impl DeepView for PeerId {
    type V = PeerId;

    open spec fn deep_view(&self) -> PeerId {
        *self
    }
}

impl PeerId {
    /// The 64 bytes.
    pub open spec fn bytes(self) -> Seq<u8> {
        self.hi.bytes() + self.lo.bytes()
    }
}

/// The key that 64 bytes are.
pub open spec fn peer_id_of(data: Seq<u8>) -> PeerId {
    PeerId { hi: b256_of(data.take(32)), lo: b256_of(data.skip(32)) }
}

impl Rlp for PeerId {
    open spec fn wire(v: PeerId) -> Seq<u8> {
        string_bytes(v.bytes())
    }

    open spec fn sound(v: PeerId) -> bool {
        true
    }

    open spec fn read(buf: Seq<u8>) -> Result<(PeerId, int), RlpError> {
        match read_string(buf) {
            Err(e) => Err(e),
            Ok((data, n)) => if data.len() != 64 {
                Err(RlpError::UnexpectedLength)
            } else {
                Ok((peer_id_of(data), n))
            },
        }
    }

    fn encode(&self, out: &mut Vec<u8>) {
        let mut data = self.hi.to_vec();
        let mut low = self.lo.to_vec();
        data.append(&mut low);
        encode_string(&data, out)
    }

    fn length(&self) -> (n: usize) {
        let mut data = self.hi.to_vec();
        let mut low = self.lo.to_vec();
        data.append(&mut low);
        string_length(&data)
    }

    fn decode(buf: &mut &[u8]) -> (r: Result<PeerId, RlpError>) {
        match decode_string(buf) {
            Err(e) => Err(e),
            Ok(data) => if data.len() != 64 {
                Err(RlpError::UnexpectedLength)
            } else {
                proof {
                    assert(data@.subrange(0, 32) =~= data@.take(32));
                    assert(data@.subrange(32, 64) =~= data@.skip(32));
                }
                Ok(
                    PeerId {
                        hi: B256::from_slice(slice_subrange(data, 0, 32)),
                        lo: B256::from_slice(slice_subrange(data, 32, 64)),
                    },
                )
            },
        }
    }

    proof fn read_within(buf: Seq<u8>) {
        lemma_header_within(buf);
    }

    proof fn round_trip(v: PeerId, rest: Seq<u8>) {
        v.hi.lemma_bytes();
        v.lo.lemma_bytes();
        lemma_string_round_trip(v.bytes(), rest);
        assert(v.bytes().take(32) =~= v.hi.bytes());
        assert(v.bytes().skip(32) =~= v.lo.bytes());
    }
}

/// An unsigned integer of 256 bits, held as its two halves.
#[derive(Clone, Copy, Debug, PartialEq, Eq, Structural, Hash)]
pub struct U256 {
    pub hi: u128,
    pub lo: u128,
}

impl DeepView for U256 {
    type V = U256;

    open spec fn deep_view(&self) -> U256 {
        *self
    }
}

/// The 256-bit integer of a number.
pub open spec fn u256_of(n: nat) -> U256 {
    U256 { hi: (n / pow256(16)) as u128, lo: (n % pow256(16)) as u128 }
}

impl U256 {
    /// The number.
    pub open spec fn value(self) -> nat {
        (self.hi * pow256(16) + self.lo) as nat
    }

    /// The integer of a machine word.
    pub fn from_u64(v: u64) -> (r: U256)
        ensures
            r.value() == v,
    {
        U256 { hi: 0, lo: v as u128 }
    }

    /// The number of significant bits.
    pub fn bit_len(&self) -> (r: usize)
        ensures
            r == bit_length(self.value()),
    {
        proof {
            lemma_pow256_16();
        }
        if self.hi == 0 {
            significant_bits(self.lo)
        } else {
            proof {
                lemma_pow2_128();
                lemma_bit_length_split(self.hi as nat, self.lo as nat, 128);
            }
            128 + significant_bits(self.hi)
        }
    }

    /// A number has more than `128 + k` significant bits exactly where its upper half is not below
    /// `2^k`, and never more than 256.
    pub proof fn lemma_bits(self, k: nat)
        ensures
            bit_length(self.value()) <= 256,
            bit_length(self.value()) > 128 + k <==> self.hi
                >= vstd::arithmetic::power2::pow2(k),
            vstd::arithmetic::power2::pow2(32) == 0x1_0000_0000,
    {
        vstd::arithmetic::power2::lemma2_to64();
        lemma_pow256_16();
        lemma_pow2_128();
        vstd::arithmetic::power2::lemma_pow2_pos(k);
        if self.hi == 0 {
            lemma_bit_length_bound(self.lo as nat, 128);
        } else {
            lemma_bit_length_split(self.hi as nat, self.lo as nat, 128);
            lemma_bit_length_bound(self.hi as nat, 128);
            lemma_bit_length_over(self.hi as nat, k);
        }
    }

    /// The halves of the number are those of the integer.
    pub proof fn lemma_join(self)
        ensures
            self.value() < pow256(32),
            u256_of(self.value()) == self,
    {
        lemma_pow256_16();
        lemma_pow256_32();
        let p = pow256(16);
        let h = self.hi as nat;
        let l = self.lo as nat;
        assert(h * p + l < p * p) by (nonlinear_arith)
            requires
                h + 1 <= p,
                l < p,
        ;
        assert((h * p + l) / p == h && (h * p + l) % p == l) by {
            vstd::arithmetic::div_mod::lemma_fundamental_div_mod_converse(
                (h * p + l) as int,
                p as int,
                h as int,
                l as int,
            );
        }
    }
}

/// The number of significant bits of a number: none for zero.
pub open spec fn bit_length(n: nat) -> nat
    decreases n,
{
    if n == 0 {
        0
    } else {
        1 + bit_length(n / 2)
    }
}

/// `2^128` is the sixteenth power of 256.
proof fn lemma_pow2_128()
    ensures
        vstd::arithmetic::power2::pow2(128) == pow256(16),
{
    lemma_pow256_16();
    vstd::arithmetic::power2::lemma2_to64();
    vstd::arithmetic::power2::lemma_pow2_adds(64, 64);
}

/// The bits of a number with a part above the last `k` bits.
proof fn lemma_bit_length_split(a: nat, b: nat, k: nat)
    requires
        a > 0,
        b < vstd::arithmetic::power2::pow2(k),
    ensures
        bit_length((a * vstd::arithmetic::power2::pow2(k) + b) as nat) == k + bit_length(a),
    decreases k,
{
    if k == 0 {
        vstd::arithmetic::power2::lemma2_to64();
        assert(a * 1 == a);
    } else {
        let p = vstd::arithmetic::power2::pow2((k - 1) as nat);
        vstd::arithmetic::power2::lemma_pow2_unfold(k);
        let n = (a * vstd::arithmetic::power2::pow2(k) + b) as nat;
        assert(n == 2 * (a * p) + b) by (nonlinear_arith)
            requires
                n == a * (2 * p) + b,
        ;
        vstd::arithmetic::power2::lemma_pow2_pos((k - 1) as nat);
        assert(a * p > 0) by (nonlinear_arith)
            requires
                a > 0,
                p > 0,
        ;
        assert(n / 2 == a * p + b / 2);
        lemma_bit_length_split(a, b / 2, (k - 1) as nat);
    }
}

/// A number below `2^k` has no more than `k` significant bits.
proof fn lemma_bit_length_bound(n: nat, k: nat)
    requires
        n < vstd::arithmetic::power2::pow2(k),
    ensures
        bit_length(n) <= k,
    decreases k,
{
    if k == 0 {
        vstd::arithmetic::power2::lemma2_to64();
    } else if n > 0 {
        vstd::arithmetic::power2::lemma_pow2_unfold(k);
        lemma_bit_length_bound(n / 2, (k - 1) as nat);
    }
}

/// A number has more than `k` significant bits exactly where it is not below `2^k`.
proof fn lemma_bit_length_over(n: nat, k: nat)
    ensures
        bit_length(n) > k <==> n >= vstd::arithmetic::power2::pow2(k),
    decreases k,
{
    if k == 0 {
        vstd::arithmetic::power2::lemma2_to64();
    } else {
        vstd::arithmetic::power2::lemma_pow2_unfold(k);
        vstd::arithmetic::power2::lemma_pow2_pos((k - 1) as nat);
        if n > 0 {
            lemma_bit_length_over(n / 2, (k - 1) as nat);
        }
    }
}

/// The number of significant bits of a half.
fn significant_bits(n: u128) -> (r: usize)
    ensures
        r == bit_length(n as nat),
        r <= 128,
{
    let mut rest: u128 = n;
    let mut bits: usize = 0;
    proof {
        lemma_pow2_128();
        lemma_pow256_16();
        lemma_bit_length_bound(n as nat, 128);
    }
    while rest > 0
        invariant
            bits + bit_length(rest as nat) == bit_length(n as nat),
            bit_length(n as nat) <= 128,
        decreases rest,
    {
        rest = rest / 2;
        bits += 1;
    }
    bits
}

/// The thirty-second power of 256 is the square of the sixteenth.
proof fn lemma_pow256_32()
    ensures
        pow256(32) == pow256(16) * pow256(16),
{
    lemma_pow256_16();
    reveal_with_fuel(pow256, 17);
    let p = pow256(16);
    assert(pow256(32) == 0x1_0000_0000_0000_0000_0000_0000_0000_0000 * p);
}

/// The shortest big-endian bytes of a 256-bit integer.
fn shortest_bytes(v: U256) -> (r: Vec<u8>)
    ensures
        r@ == be_bytes(v.value()),
{
    let mut out: Vec<u8> = Vec::new();
    if v.hi == 0 {
        push_shortest(v.lo, &mut out);
        proof {
            assert(out@ =~= be_bytes(v.value()));
        }
    } else {
        push_shortest(v.hi, &mut out);
        push_fixed(v.lo, 16, &mut out);
        proof {
            lemma_pow256_16();
            lemma_be_bytes_concat(v.hi as nat, v.lo as nat, 16);
            assert(out@ =~= be_bytes(v.value()));
        }
    }
    out
}

/// The unsigned integer of at most `width` bytes at the front of `buf`, where a leading zero is
/// told before a string that is too long.
pub open spec fn read_big_uint(buf: Seq<u8>, width: nat) -> Result<(nat, int), RlpError> {
    match read_string(buf) {
        Err(e) => Err(e),
        Ok((data, n)) => if data.len() > 0 && data[0] == 0 {
            Err(RlpError::LeadingZero)
        } else if data.len() > width {
            Err(RlpError::Overflow)
        } else {
            Ok((be_value(data), n))
        },
    }
}

impl Rlp for U256 {
    open spec fn wire(v: U256) -> Seq<u8> {
        uint_bytes(v.value())
    }

    open spec fn sound(v: U256) -> bool {
        true
    }

    open spec fn read(buf: Seq<u8>) -> Result<(U256, int), RlpError> {
        match read_big_uint(buf, 32) {
            Err(e) => Err(e),
            Ok((v, n)) => Ok((u256_of(v), n)),
        }
    }

    fn encode(&self, out: &mut Vec<u8>) {
        let data = shortest_bytes(*self);
        encode_string(&data, out)
    }

    fn length(&self) -> (n: usize) {
        let data = shortest_bytes(*self);
        string_length(&data)
    }

    fn decode(buf: &mut &[u8]) -> (r: Result<U256, RlpError>) {
        match decode_string(buf) {
            Err(e) => Err(e),
            Ok(data) => {
                if data.len() > 0 && data[0] == 0 {
                    return Err(RlpError::LeadingZero);
                }
                if data.len() > 32 {
                    return Err(RlpError::Overflow);
                }
                proof {
                    lemma_be_value_bound(data@);
                    lemma_pow256_monotonic(data@.len(), 32);
                    lemma_pow256_16();
                }
                if data.len() <= 16 {
                    proof {
                        lemma_pow256_monotonic(data@.len(), 16);
                    }
                    Ok(U256 { hi: 0, lo: from_be(data) })
                } else {
                    let cut: usize = data.len() - 16;
                    let high = slice_subrange(data, 0, cut);
                    let low = slice_subrange(data, cut, data.len());
                    let v = U256 { hi: from_be(high), lo: from_be(low) };
                    proof {
                        lemma_be_value_concat(high@, low@);
                        assert(high@ + low@ =~= data@);
                        v.lemma_join();
                    }
                    Ok(v)
                }
            },
        }
    }

    proof fn read_within(buf: Seq<u8>) {
        lemma_header_within(buf);
    }

    proof fn round_trip(v: U256, rest: Seq<u8>) {
        v.lemma_join();
        lemma_be_bytes(v.value());
        lemma_be_bytes_len(v.value(), 32);
        lemma_string_round_trip(be_bytes(v.value()), rest);
    }
}

/// An unsigned integer of 128 bits.
#[derive(Clone, Copy, Debug, PartialEq, Eq, Structural, Hash)]
pub struct U128(pub u128);

impl DeepView for U128 {
    type V = U128;

    open spec fn deep_view(&self) -> U128 {
        *self
    }
}

impl Rlp for U128 {
    open spec fn wire(v: U128) -> Seq<u8> {
        uint_bytes(v.0 as nat)
    }

    open spec fn sound(v: U128) -> bool {
        true
    }

    open spec fn read(buf: Seq<u8>) -> Result<(U128, int), RlpError> {
        match read_big_uint(buf, 16) {
            Err(e) => Err(e),
            Ok((v, n)) => Ok((U128(v as u128), n)),
        }
    }

    fn encode(&self, out: &mut Vec<u8>) {
        let mut data: Vec<u8> = Vec::new();
        push_shortest(self.0, &mut data);
        proof {
            assert(data@ =~= be_bytes(self.0 as nat));
        }
        encode_string(&data, out)
    }

    fn length(&self) -> (n: usize) {
        let mut data: Vec<u8> = Vec::new();
        push_shortest(self.0, &mut data);
        proof {
            assert(data@ =~= be_bytes(self.0 as nat));
        }
        string_length(&data)
    }

    fn decode(buf: &mut &[u8]) -> (r: Result<U128, RlpError>) {
        match decode_string(buf) {
            Err(e) => Err(e),
            Ok(data) => {
                if data.len() > 0 && data[0] == 0 {
                    return Err(RlpError::LeadingZero);
                }
                if data.len() > 16 {
                    return Err(RlpError::Overflow);
                }
                Ok(U128(from_be(data)))
            },
        }
    }

    proof fn read_within(buf: Seq<u8>) {
        lemma_header_within(buf);
    }

    proof fn round_trip(v: U128, rest: Seq<u8>) {
        lemma_pow256_16();
        lemma_be_bytes(v.0 as nat);
        lemma_be_bytes_len(v.0 as nat, 16);
        lemma_string_round_trip(be_bytes(v.0 as nat), rest);
    }
}

/// The first four bytes of a hash, by which forks are told apart.
#[derive(Clone, Copy, Debug, PartialEq, Eq, Structural, Hash)]
pub struct ForkHash(pub u32);

impl DeepView for ForkHash {
    type V = ForkHash;

    open spec fn deep_view(&self) -> ForkHash {
        *self
    }
}

impl Rlp for ForkHash {
    open spec fn wire(v: ForkHash) -> Seq<u8> {
        string_bytes(fixed_bytes(v.0 as nat, 4))
    }

    open spec fn sound(v: ForkHash) -> bool {
        true
    }

    open spec fn read(buf: Seq<u8>) -> Result<(ForkHash, int), RlpError> {
        match read_string(buf) {
            Err(e) => Err(e),
            Ok((data, n)) => if data.len() != 4 {
                Err(RlpError::UnexpectedLength)
            } else {
                Ok((ForkHash(be_value(data) as u32), n))
            },
        }
    }

    fn encode(&self, out: &mut Vec<u8>) {
        let mut data: Vec<u8> = Vec::new();
        push_fixed(self.0 as u128, 4, &mut data);
        proof {
            assert(data@ =~= fixed_bytes(self.0 as nat, 4));
        }
        encode_string(&data, out)
    }

    fn length(&self) -> (n: usize) {
        let mut data: Vec<u8> = Vec::new();
        push_fixed(self.0 as u128, 4, &mut data);
        proof {
            assert(data@ =~= fixed_bytes(self.0 as nat, 4));
        }
        string_length(&data)
    }

    fn decode(buf: &mut &[u8]) -> (r: Result<ForkHash, RlpError>) {
        match decode_string(buf) {
            Err(e) => Err(e),
            Ok(data) => if data.len() != 4 {
                Err(RlpError::UnexpectedLength)
            } else {
                proof {
                    lemma_be_value_bound(data@);
                    reveal_with_fuel(pow256, 5);
                }
                Ok(ForkHash(from_be(data) as u32))
            },
        }
    }

    proof fn read_within(buf: Seq<u8>) {
        lemma_header_within(buf);
    }

    proof fn round_trip(v: ForkHash, rest: Seq<u8>) {
        reveal_with_fuel(pow256, 5);
        lemma_fixed_bytes(v.0 as nat, 4);
        lemma_string_round_trip(fixed_bytes(v.0 as nat, 4), rest);
    }
}

/// A large integer is read only from its own encoding, and only where it has no more bytes than are
/// allowed.
pub proof fn lemma_big_uint_is_canonical(buf: Seq<u8>, width: nat)
    ensures
        read_big_uint(buf, width) matches Ok((v, n)) ==> {
            &&& 0 < n <= buf.len()
            &&& buf.take(n) == uint_bytes(v)
            &&& v < pow256(width)
        },
{
    lemma_string_is_canonical(buf);
    if let Ok((v, n)) = read_big_uint(buf, width) {
        let data = read_string(buf)->Ok_0.0;
        lemma_be_value_inverse(data);
        lemma_be_value_bound(data);
        lemma_pow256_monotonic(data.len(), width);
    }
}

} // verus!
