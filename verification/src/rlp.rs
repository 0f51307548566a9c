use vstd::prelude::*;
use vstd::slice::slice_subrange;
use vstd::string::StringExecFns;
use crate::text::{decimal, push_decimal};

verus! {

/// Why a byte string is no RLP encoding of the wanted type.
#[derive(Clone, Copy, Debug, PartialEq, Eq)]
pub enum RlpError {
    Overflow,
    LeadingZero,
    InputTooShort,
    NonCanonicalSingleByte,
    NonCanonicalSize,
    UnexpectedLength,
    UnexpectedString,
    UnexpectedList,
    ListLengthMismatch { expected: usize, got: usize },
    Custom(&'static str),
}

impl RlpError {
    /// What [`RlpError::message`] says.
    pub open spec fn text(self) -> Seq<char> {
        match self {
            RlpError::Overflow => "overflow"@,
            RlpError::LeadingZero => "leading zero"@,
            RlpError::InputTooShort => "input too short"@,
            RlpError::NonCanonicalSingleByte => "non-canonical single byte"@,
            RlpError::NonCanonicalSize => "non-canonical size"@,
            RlpError::UnexpectedLength => "unexpected length"@,
            RlpError::UnexpectedString => "unexpected string"@,
            RlpError::UnexpectedList => "unexpected list"@,
            RlpError::ListLengthMismatch { expected, got } => {
                "unexpected list length (got "@ + decimal(got as nat) + ", expected "@ + decimal(
                    expected as nat,
                ) + ")"@
            },
            RlpError::Custom(text) => text@,
        }
    }

    /// The error in words.
    pub fn message(&self) -> (r: String)
        ensures
            r@ == self.text(),
    {
        match self {
            RlpError::Overflow => "overflow".to_owned(),
            RlpError::LeadingZero => "leading zero".to_owned(),
            RlpError::InputTooShort => "input too short".to_owned(),
            RlpError::NonCanonicalSingleByte => "non-canonical single byte".to_owned(),
            RlpError::NonCanonicalSize => "non-canonical size".to_owned(),
            RlpError::UnexpectedLength => "unexpected length".to_owned(),
            RlpError::UnexpectedString => "unexpected string".to_owned(),
            RlpError::UnexpectedList => "unexpected list".to_owned(),
            RlpError::ListLengthMismatch { expected, got } => {
                let mut r = "unexpected list length (got ".to_owned();
                push_decimal(&mut r, *got as u64);
                r.append(", expected ");
                push_decimal(&mut r, *expected as u64);
                r.append(")");
                r
            },
            RlpError::Custom(text) => (*text).to_owned(),
        }
    }
}

/// The header of an RLP item, and how many bytes it takes.
#[derive(Clone, Copy, Debug, PartialEq, Eq, Structural)]
pub struct RlpHeader {
    pub list: bool,
    pub payload_length: usize,
    pub header_length: usize,
}

/// `alloy_rlp::Error`, with its variants.
#[verifier::external_type_specification]
pub struct ExRlpError(alloy_rlp::Error);

/// What an error of `alloy_rlp` says.
pub open spec fn error_of(e: alloy_rlp::Error) -> RlpError {
    match e {
        alloy_rlp::Error::Overflow => RlpError::Overflow,
        alloy_rlp::Error::LeadingZero => RlpError::LeadingZero,
        alloy_rlp::Error::InputTooShort => RlpError::InputTooShort,
        alloy_rlp::Error::NonCanonicalSingleByte => RlpError::NonCanonicalSingleByte,
        alloy_rlp::Error::NonCanonicalSize => RlpError::NonCanonicalSize,
        alloy_rlp::Error::UnexpectedLength => RlpError::UnexpectedLength,
        alloy_rlp::Error::UnexpectedString => RlpError::UnexpectedString,
        alloy_rlp::Error::UnexpectedList => RlpError::UnexpectedList,
        alloy_rlp::Error::ListLengthMismatch { expected, got } => RlpError::ListLengthMismatch {
            expected,
            got,
        },
        alloy_rlp::Error::Custom(m) => RlpError::Custom(m),
    }
}

/// The number that big-endian bytes stand for.
pub open spec fn be_value(s: Seq<u8>) -> nat
    decreases s.len(),
{
    if s.len() == 0 {
        0
    } else {
        be_value(s.drop_last()) * 256 + s.last() as nat
    }
}

/// The shortest big-endian bytes of a number: none for zero.
pub open spec fn be_bytes(n: nat) -> Seq<u8>
    decreases n,
{
    if n == 0 {
        Seq::empty()
    } else {
        be_bytes(n / 256).push((n % 256) as u8)
    }
}

/// The bytes of the header of a list, or of a string that is not its own encoding.
pub open spec fn header_bytes(list: bool, n: nat) -> Seq<u8> {
    if n < 56 {
        seq![((if list { 0xc0int } else { 0x80 }) + n) as u8]
    } else {
        seq![((if list { 0xf7int } else { 0xb7 }) + be_bytes(n).len()) as u8] + be_bytes(n)
    }
}

/// A header whose payload has to lie in the bytes that follow it.
pub open spec fn header_within(buf: Seq<u8>, list: bool, n: nat, at: int) -> Result<
    RlpHeader,
    RlpError,
> {
    if buf.len() - at < n {
        Err(RlpError::InputTooShort)
    } else {
        Ok(RlpHeader { list, payload_length: n as usize, header_length: at as usize })
    }
}

/// What the header at the front of `buf` says.
pub open spec fn read_header(buf: Seq<u8>) -> Result<RlpHeader, RlpError> {
    if buf.len() == 0 {
        Err(RlpError::InputTooShort)
    } else if buf[0] < 0x80 {
        header_within(buf, false, 1, 0)
    } else if buf[0] < 0xb8 {
        if buf[0] == 0x81 && buf.len() == 1 {
            Err(RlpError::InputTooShort)
        } else if buf[0] == 0x81 && buf[1] < 0x80 {
            Err(RlpError::NonCanonicalSingleByte)
        } else {
            header_within(buf, false, (buf[0] - 0x80) as nat, 1)
        }
    } else if 0xc0 <= buf[0] < 0xf8 {
        header_within(buf, true, (buf[0] - 0xc0) as nat, 1)
    } else {
        let list = buf[0] >= 0xf8;
        let k = if list { buf[0] - 0xf7 } else { buf[0] - 0xb7 };
        let n = be_value(buf.subrange(1, 1 + k));
        if buf.len() - 1 < k {
            Err(RlpError::InputTooShort)
        } else if buf[1] == 0 {
            Err(RlpError::LeadingZero)
        } else if n > usize::MAX {
            Err(RlpError::Custom("Input too big"))
        } else if n < 56 {
            Err(RlpError::NonCanonicalSize)
        } else {
            header_within(buf, list, n, 1 + k)
        }
    }
}

/// What an error of `alloy_rlp` says.
pub(crate) fn rlp_error(e: alloy_rlp::Error) -> (r: RlpError)
    ensures
        r == error_of(e),
{
    match e {
        alloy_rlp::Error::Overflow => RlpError::Overflow,
        alloy_rlp::Error::LeadingZero => RlpError::LeadingZero,
        alloy_rlp::Error::InputTooShort => RlpError::InputTooShort,
        alloy_rlp::Error::NonCanonicalSingleByte => RlpError::NonCanonicalSingleByte,
        alloy_rlp::Error::NonCanonicalSize => RlpError::NonCanonicalSize,
        alloy_rlp::Error::UnexpectedLength => RlpError::UnexpectedLength,
        alloy_rlp::Error::UnexpectedString => RlpError::UnexpectedString,
        alloy_rlp::Error::UnexpectedList => RlpError::UnexpectedList,
        alloy_rlp::Error::ListLengthMismatch { expected, got } => RlpError::ListLengthMismatch {
            expected,
            got,
        },
        alloy_rlp::Error::Custom(m) => RlpError::Custom(m),
    }
}

/// `alloy_rlp::Header::decode`: reads the header at the front of `buf`. It gives whether the item
/// is a list, the length of its payload, and how many bytes are left behind the header.
#[verifier::external_body]
fn header_at(buf: &[u8]) -> (r: Result<(bool, usize, usize), alloy_rlp::Error>)
    ensures
        match read_header(buf@) {
            Ok(h) => r == Ok::<(bool, usize, usize), alloy_rlp::Error>(
                (h.list, h.payload_length, (buf@.len() - h.header_length) as usize),
            ),
            Err(e) => r is Err && error_of(r->Err_0) == e,
        },
{
    let mut rest = buf;
    let header = alloy_rlp::Header::decode(&mut rest)?;
    Ok((header.list, header.payload_length, rest.len()))
}

/// Reads the header at the front of `buf`.
pub(crate) fn decode_header(buf: &[u8]) -> (r: Result<RlpHeader, RlpError>)
    ensures
        r == read_header(buf@),
{
    proof {
        lemma_header_within(buf@);
        assert(buf@.len() == buf.len());
    }
    match header_at(buf) {
        Ok((list, payload_length, left)) => Ok(
            RlpHeader { list, payload_length, header_length: buf.len() - left },
        ),
        Err(e) => Err(rlp_error(e)),
    }
}

/// `alloy_rlp::Header::encode`: appends the header of a payload of `payload_length` bytes.
#[verifier::external_body]
pub(crate) fn encode_header(list: bool, payload_length: usize, out: &mut Vec<u8>)
    ensures
        final(out)@ == old(out)@ + header_bytes(list, payload_length as nat),
{
    alloy_rlp::Header { list, payload_length }.encode(out)
}

/// A value that has an RLP encoding, and is read back from one.
pub trait Rlp: DeepView + Sized {
    /// The encoding of a value.
    spec fn wire(v: Self::V) -> Seq<u8>;

    /// The values that their own encoding gives back.
    spec fn sound(v: Self::V) -> bool;

    /// What reading a value at the front of `buf` gives: the value and the bytes it takes.
    spec fn read(buf: Seq<u8>) -> Result<(Self::V, int), RlpError>;

    /// Appends the encoding.
    fn encode(&self, out: &mut Vec<u8>)
        requires
            Self::wire(self.deep_view()).len() <= usize::MAX,
        ensures
            final(out)@ == old(out)@ + Self::wire(self.deep_view()),
    ;

    /// The length of the encoding.
    fn length(&self) -> (n: usize)
        requires
            Self::wire(self.deep_view()).len() <= usize::MAX,
        ensures
            n == Self::wire(self.deep_view()).len(),
    ;

    /// Reads a value from the front of `buf` and moves the front behind it.
    fn decode(buf: &mut &[u8]) -> (r: Result<Self, RlpError>)
        ensures
            match Self::read(old(buf)@) {
                Ok((v, n)) => r is Ok && r->Ok_0.deep_view() == v && final(buf)@ == old(buf)@.skip(n),
                Err(e) => r == Err::<Self, RlpError>(e),
            },
    ;

    /// A value takes at least one byte and no more than there are.
    proof fn read_within(buf: Seq<u8>)
        ensures
            Self::read(buf) matches Ok((v, n)) ==> 0 < n <= buf.len(),
    ;

    /// An encoding, whatever follows it, is read as the value that it is of.
    proof fn round_trip(v: Self::V, rest: Seq<u8>)
        requires
            Self::sound(v),
            Self::wire(v).len() <= usize::MAX,
        ensures
            Self::read(Self::wire(v) + rest) == Ok::<(Self::V, int), RlpError>(
                (v, Self::wire(v).len() as int),
            ),
    ;
}

/// Moves the front of a buffer by `n` bytes.
pub(crate) fn advance(buf: &mut &[u8], n: usize)
    requires
        n <= old(buf)@.len(),
    ensures
        final(buf)@ == old(buf)@.skip(n as int),
{
    *buf = slice_subrange(*buf, n, buf.len());
}

/// A byte string as it is encoded: itself where it is one byte below 0x80.
pub open spec fn string_bytes(s: Seq<u8>) -> Seq<u8> {
    if s.len() == 1 && s[0] < 0x80 {
        s
    } else {
        header_bytes(false, s.len()) + s
    }
}

/// A list of items that are encoded already.
pub open spec fn list_bytes(payload: Seq<u8>) -> Seq<u8> {
    header_bytes(true, payload.len()) + payload
}

/// The byte string at the front of `buf`.
pub open spec fn read_string(buf: Seq<u8>) -> Result<(Seq<u8>, int), RlpError> {
    match read_header(buf) {
        Err(e) => Err(e),
        Ok(h) => if h.list {
            Err(RlpError::UnexpectedList)
        } else {
            Ok(
                (
                    buf.subrange(h.header_length as int, h.header_length + h.payload_length),
                    h.header_length + h.payload_length,
                ),
            )
        },
    }
}

/// The unsigned integer of at most `width` bytes at the front of `buf`.
pub open spec fn read_uint(buf: Seq<u8>, width: nat) -> Result<(nat, int), RlpError> {
    match read_string(buf) {
        Err(e) => Err(e),
        Ok((data, n)) => if data.len() > width {
            Err(RlpError::Overflow)
        } else if data.len() > 0 && data[0] == 0 {
            Err(RlpError::LeadingZero)
        } else {
            Ok((be_value(data), n))
        },
    }
}

/// An unsigned integer as it is encoded.
pub open spec fn uint_bytes(n: nat) -> Seq<u8> {
    string_bytes(be_bytes(n))
}

/// `256` to the power `k`.
pub open spec fn pow256(k: nat) -> nat
    decreases k,
{
    if k == 0 {
        1
    } else {
        256 * pow256((k - 1) as nat)
    }
}

/// The number that bytes stand for has no more bytes than they are.
pub proof fn lemma_be_value_bound(s: Seq<u8>)
    ensures
        be_value(s) < pow256(s.len()),
    decreases s.len(),
{
    if s.len() > 0 {
        lemma_be_value_bound(s.drop_last());
        let p = pow256((s.len() - 1) as nat);
        assert(be_value(s.drop_last()) * 256 + 255 < 256 * p) by (nonlinear_arith)
            requires
                be_value(s.drop_last()) + 1 <= p,
        ;
    }
}

/// A larger exponent gives no smaller power.
pub proof fn lemma_pow256_monotonic(a: nat, b: nat)
    requires
        a <= b,
    ensures
        pow256(a) <= pow256(b),
    decreases b,
{
    if a < b {
        lemma_pow256_monotonic(a, (b - 1) as nat);
    }
}

/// Powers of 256 up to the eighth.
pub proof fn lemma_pow256_values()
    ensures
        pow256(0) == 1,
        pow256(1) == 0x100,
        pow256(2) == 0x1_0000,
        pow256(4) == 0x1_0000_0000,
        pow256(8) == 0x1_0000_0000_0000_0000,
{
    reveal_with_fuel(pow256, 9);
}

/// The shortest bytes of a number stand for it and start with no zero.
pub proof fn lemma_be_bytes(n: nat)
    ensures
        be_value(be_bytes(n)) == n,
        n > 0 ==> be_bytes(n).len() > 0 && be_bytes(n)[0] != 0,
        n == 0 ==> be_bytes(n).len() == 0,
    decreases n,
{
    if n > 0 {
        lemma_be_bytes(n / 256);
        let s = be_bytes(n);
        assert(s.drop_last() =~= be_bytes(n / 256));
        if n / 256 == 0 {
            assert(s =~= seq![(n % 256) as u8]);
        }
    }
}

/// A number below a power of 256 has no more bytes than the exponent.
pub proof fn lemma_be_bytes_len(n: nat, k: nat)
    requires
        n < pow256(k),
    ensures
        be_bytes(n).len() <= k,
    decreases k,
{
    if n > 0 {
        if k > 0 {
            assert(n / 256 < pow256((k - 1) as nat));
            lemma_be_bytes_len(n / 256, (k - 1) as nat);
        }
    }
}

/// A machine word has at most eight bytes.
pub proof fn lemma_word_bytes_len(n: nat)
    requires
        n <= u64::MAX,
    ensures
        be_bytes(n).len() <= 8,
{
    lemma_pow256_values();
    lemma_be_bytes_len(n, 8);
}

/// A header is read as what it was written for, where the payload follows it.
pub proof fn lemma_header_round_trip(list: bool, payload: Seq<u8>, rest: Seq<u8>)
    requires
        payload.len() <= usize::MAX,
        list || payload.len() != 1 || payload[0] >= 0x80,
    ensures
        read_header(header_bytes(list, payload.len()) + payload + rest) == Ok::<RlpHeader, RlpError>(
            RlpHeader {
                list,
                payload_length: payload.len() as usize,
                header_length: header_bytes(list, payload.len()).len() as usize,
            },
        ),
        header_bytes(list, payload.len()).len() <= 9,
{
    let n = payload.len();
    let h = header_bytes(list, n);
    let buf = h + payload + rest;
    if n < 56 {
        assert(buf[0] == h[0]);
        if n == 1 {
            assert(buf[1] == payload[0]);
        }
    } else {
        lemma_be_bytes(n);
        lemma_word_bytes_len(n);
        let be = be_bytes(n);
        assert(buf[0] == h[0]);
        assert(buf.subrange(1, 1 + be.len() as int) =~= be);
        assert(buf[1] == be[0]);
    }
}

/// A string is read back from its encoding.
pub proof fn lemma_string_round_trip(s: Seq<u8>, rest: Seq<u8>)
    requires
        s.len() <= usize::MAX,
    ensures
        read_string(string_bytes(s) + rest) == Ok::<(Seq<u8>, int), RlpError>(
            (s, string_bytes(s).len() as int),
        ),
        0 < string_bytes(s).len() <= s.len() + 9,
{
    let buf = string_bytes(s) + rest;
    if s.len() == 1 && s[0] < 0x80 {
        assert(buf[0] == s[0]);
        assert(buf.subrange(0, 1) =~= s);
    } else {
        lemma_header_round_trip(false, s, rest);
        let h = header_bytes(false, s.len());
        assert(buf =~= h + s + rest);
        assert(buf.subrange(h.len() as int, (h.len() + s.len()) as int) =~= s);
    }
}

/// An integer is read back from its encoding, where it has no more bytes than are allowed.
pub proof fn lemma_uint_round_trip(n: nat, width: nat, rest: Seq<u8>)
    requires
        n < pow256(width),
        width <= 64,
    ensures
        read_uint(uint_bytes(n) + rest, width) == Ok::<(nat, int), RlpError>(
            (n, uint_bytes(n).len() as int),
        ),
        0 < uint_bytes(n).len() <= width + 9,
{
    lemma_be_bytes(n);
    lemma_be_bytes_len(n, width);
    lemma_string_round_trip(be_bytes(n), rest);
}

/// A header that was read lies, with its payload, in the buffer, and takes a byte at least.
pub proof fn lemma_header_within(buf: Seq<u8>)
    ensures
        read_header(buf) matches Ok(h) ==> {
            &&& h.header_length + h.payload_length <= buf.len()
            &&& 0 < h.header_length + h.payload_length
            &&& h.header_length <= 9
        },
{
}

/// Reads a byte string from the front of `buf`.
pub(crate) fn decode_string<'a>(buf: &mut &'a [u8]) -> (r: Result<&'a [u8], RlpError>)
    ensures
        match read_string(old(buf)@) {
            Ok((v, n)) => r is Ok && r->Ok_0@ == v && final(buf)@ == old(buf)@.skip(n) && 0 < n
                <= old(buf)@.len(),
            Err(e) => r == Err::<&'a [u8], RlpError>(e),
        },
{
    let bytes: &'a [u8] = *buf;
    proof {
        lemma_header_within(bytes@);
        assert(bytes@.len() == bytes.len());
    }
    match decode_header(bytes) {
        Err(e) => Err(e),
        Ok(h) => {
            if h.list {
                return Err(RlpError::UnexpectedList);
            }
            let end: usize = h.header_length + h.payload_length;
            let data = slice_subrange(bytes, h.header_length, end);
            advance(buf, end);
            Ok(data)
        },
    }
}

/// Reads an unsigned integer of at most `width` bytes from the front of `buf`.
pub(crate) fn decode_uint(buf: &mut &[u8], width: usize) -> (r: Result<u64, RlpError>)
    requires
        width <= 8,
    ensures
        match read_uint(old(buf)@, width as nat) {
            Ok((v, n)) => r == Ok::<u64, RlpError>(v as u64) && v < pow256(width as nat) && final(buf)@
                == old(buf)@.skip(n) && 0 < n <= old(buf)@.len(),
            Err(e) => r == Err::<u64, RlpError>(e),
        },
{
    match decode_string(buf) {
        Err(e) => Err(e),
        Ok(data) => {
            if data.len() > width {
                return Err(RlpError::Overflow);
            }
            if data.len() > 0 && data[0] == 0 {
                return Err(RlpError::LeadingZero);
            }
            let mut value: u64 = 0;
            let mut i: usize = 0;
            while i < data.len()
                invariant
                    i <= data.len() <= width <= 8,
                    value == be_value(data@.take(i as int)),
                    value < pow256(i as nat),
                decreases data.len() - i,
            {
                proof {
                    let next = data@.take(i + 1);
                    assert(next.drop_last() =~= data@.take(i as int));
                    lemma_be_value_bound(next);
                    lemma_pow256_monotonic((i + 1) as nat, 8);
                    lemma_pow256_values();
                }
                value = value * 256 + data[i] as u64;
                i += 1;
            }
            proof {
                assert(data@.take(i as int) =~= data@);
                lemma_pow256_monotonic(i as nat, width as nat);
                lemma_pow256_monotonic(width as nat, 8);
                lemma_pow256_values();
            }
            Ok(value)
        },
    }
}

/// `<u64 as alloy_rlp::Decodable>::decode`: reads an integer of at most eight bytes from the
/// front of `buf`. It gives the integer and how many bytes are left behind it.
#[verifier::external_body]
fn u64_at(buf: &[u8]) -> (r: Result<(u64, usize), alloy_rlp::Error>)
    ensures
        match read_uint(buf@, 8) {
            Ok((v, n)) => r == Ok::<(u64, usize), alloy_rlp::Error>(
                (v as u64, (buf@.len() - n) as usize),
            ),
            Err(e) => r is Err && error_of(r->Err_0) == e,
        },
{
    let mut rest = buf;
    let value = <u64 as alloy_rlp::Decodable>::decode(&mut rest)?;
    Ok((value, rest.len()))
}

/// Reads an integer of at most eight bytes from the front of `buf`, and returns beside it how many
/// bytes it takes.
pub(crate) fn decode_u64(buf: &[u8]) -> (r: Result<(u64, usize), RlpError>)
    ensures
        match read_uint(buf@, 8) {
            Ok((v, n)) => r == Ok::<(u64, usize), RlpError>((v as u64, n as usize)),
            Err(e) => r == Err::<(u64, usize), RlpError>(e),
        },
{
    proof {
        lemma_header_within(buf@);
        assert(buf@.len() == buf.len());
    }
    match u64_at(buf) {
        Ok((value, left)) => Ok((value, buf.len() - left)),
        Err(e) => Err(rlp_error(e)),
    }
}

/// `<u64 as alloy_rlp::Encodable>::encode`: appends the shortest big-endian bytes of `x`, as a
/// string.
#[verifier::external_body]
pub(crate) fn encode_u64(x: u64, out: &mut Vec<u8>)
    ensures
        final(out)@ == old(out)@ + uint_bytes(x as nat),
{
    alloy_rlp::Encodable::encode(&x, out)
}

/// `<u64 as alloy_rlp::Encodable>::length`: how many bytes the encoding of `x` takes.
#[verifier::external_body]
pub(crate) fn length_u64(x: u64) -> (n: usize)
    ensures
        n == uint_bytes(x as nat).len(),
{
    alloy_rlp::Encodable::length(&x)
}

/// `alloy_rlp::length_of_length`: how many bytes the header of a payload takes.
#[verifier::external_body]
pub(crate) fn length_of_length(payload_length: usize) -> (n: usize)
    ensures
        n == header_bytes(true, payload_length as nat).len(),
        n == header_bytes(false, payload_length as nat).len(),
{
    alloy_rlp::length_of_length(payload_length)
}

/// Bytes that start with no zero are the shortest of the number that they stand for.
pub proof fn lemma_be_value_inverse(s: Seq<u8>)
    requires
        s.len() > 0 ==> s[0] != 0,
    ensures
        be_bytes(be_value(s)) == s,
    decreases s.len(),
{
    if s.len() > 0 {
        let t = s.drop_last();
        let b = s.last() as nat;
        if t.len() > 0 {
            lemma_be_value_inverse(t);
            lemma_be_bytes(be_value(t));
            if be_value(t) == 0 {
                assert(be_bytes(0).len() == 0);
            }
        } else {
            assert(t =~= Seq::empty());
            assert(be_value(t) == 0);
        }
        let n = be_value(s);
        assert(n == be_value(t) * 256 + b);
        assert(n / 256 == be_value(t) && n % 256 == b);
        assert(be_bytes(be_value(t)) =~= t);
        assert(t.push(b as u8) =~= s);
    }
}

/// A header is read only as it is written: no other bytes are taken for it. A byte below 0x80 stands
/// for itself, without one.
pub proof fn lemma_header_is_canonical(buf: Seq<u8>)
    ensures
        read_header(buf) matches Ok(h) ==> {
            ||| h.header_length == 0 && !h.list && h.payload_length == 1 && buf[0] < 0x80
            ||| {
                &&& buf.take(h.header_length as int) == header_bytes(
                    h.list,
                    h.payload_length as nat,
                )
                &&& !(!h.list && h.payload_length == 1 && buf[h.header_length as int] < 0x80)
            }
        },
{
    if let Ok(h) = read_header(buf) {
        if buf[0] >= 0x80 && !(0xb8 <= buf[0] < 0xc0) && buf[0] < 0xf8 {
            assert(buf.take(1) =~= header_bytes(h.list, h.payload_length as nat));
        } else if buf[0] >= 0x80 {
            let k = if buf[0] >= 0xf8 {
                buf[0] - 0xf7
            } else {
                buf[0] - 0xb7
            };
            let size = buf.subrange(1, 1 + k);
            assert(size[0] == buf[1]);
            lemma_be_value_inverse(size);
            assert(buf.take(1 + k) =~= header_bytes(h.list, h.payload_length as nat));
        }
    }
}

/// A string is read only from its own encoding.
pub proof fn lemma_string_is_canonical(buf: Seq<u8>)
    ensures
        read_string(buf) matches Ok((data, n)) ==> 0 < n <= buf.len() && buf.take(n)
            == string_bytes(data),
{
    lemma_header_is_canonical(buf);
    lemma_header_within(buf);
    if let Ok((data, n)) = read_string(buf) {
        let h = read_header(buf)->Ok_0;
        assert(buf.take(n) =~= buf.take(h.header_length as int) + data);
        assert(buf.take(n) =~= string_bytes(data));
    }
}

/// An integer is read only from its own encoding, and only where it has no more bytes than are
/// allowed.
pub proof fn lemma_uint_is_canonical(buf: Seq<u8>, width: nat)
    ensures
        read_uint(buf, width) matches Ok((v, n)) ==> {
            &&& 0 < n <= buf.len()
            &&& buf.take(n) == uint_bytes(v)
            &&& v < pow256(width)
        },
{
    lemma_string_is_canonical(buf);
    if let Ok((v, n)) = read_uint(buf, width) {
        let data = read_string(buf)->Ok_0.0;
        lemma_be_value_inverse(data);
        lemma_be_value_bound(data);
        lemma_pow256_monotonic(data.len(), width);
    }
}

/// Every error keeps its name, and what it says.
pub proof fn lemma_errors_keep_their_names(e: alloy_rlp::Error)
    ensures
        e == alloy_rlp::Error::Overflow <==> error_of(e) == RlpError::Overflow,
        e == alloy_rlp::Error::LeadingZero <==> error_of(e) == RlpError::LeadingZero,
        e == alloy_rlp::Error::InputTooShort <==> error_of(e) == RlpError::InputTooShort,
        e == alloy_rlp::Error::NonCanonicalSingleByte <==> error_of(e) == RlpError::NonCanonicalSingleByte,
        e == alloy_rlp::Error::NonCanonicalSize <==> error_of(e) == RlpError::NonCanonicalSize,
        e == alloy_rlp::Error::UnexpectedLength <==> error_of(e) == RlpError::UnexpectedLength,
        e == alloy_rlp::Error::UnexpectedString <==> error_of(e) == RlpError::UnexpectedString,
        e == alloy_rlp::Error::UnexpectedList <==> error_of(e) == RlpError::UnexpectedList,
        e matches alloy_rlp::Error::ListLengthMismatch { expected, got } ==> error_of(e)
            == (RlpError::ListLengthMismatch { expected, got }),
        e matches alloy_rlp::Error::Custom(text) ==> error_of(e) == RlpError::Custom(text),
{
}

} // verus!
