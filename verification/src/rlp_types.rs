use vstd::prelude::*;
use vstd::slice::slice_to_vec;
use crate::rlp::{
    decode_string, decode_header, decode_uint, encode_header, encode_u64, header_bytes,
    length_of_length, length_u64, lemma_header_round_trip, lemma_header_within,
    lemma_pow256_values, lemma_string_round_trip, lemma_uint_round_trip, list_bytes, pow256,
    read_header, read_string, read_uint, string_bytes, uint_bytes, Rlp, RlpError, advance,
};

verus! {

impl Rlp for u64 {
    open spec fn wire(v: u64) -> Seq<u8> {
        uint_bytes(v as nat)
    }

    open spec fn sound(v: u64) -> bool {
        true
    }

    open spec fn read(buf: Seq<u8>) -> Result<(u64, int), RlpError> {
        match read_uint(buf, 8) {
            Ok((v, n)) => Ok((v as u64, n)),
            Err(e) => Err(e),
        }
    }

    fn encode(&self, out: &mut Vec<u8>) {
        encode_u64(*self, out)
    }

    fn length(&self) -> (n: usize) {
        length_u64(*self)
    }

    fn decode(buf: &mut &[u8]) -> (r: Result<u64, RlpError>) {
        let bytes = *buf;
        proof {
            lemma_header_within(bytes@);
            assert(bytes@.len() == bytes.len());
        }
        match crate::rlp::decode_u64(bytes) {
            Ok((v, n)) => {
                advance(buf, n);
                Ok(v)
            },
            Err(e) => Err(e),
        }
    }

    proof fn read_within(buf: Seq<u8>) {
        lemma_header_within(buf);
    }

    proof fn round_trip(v: u64, rest: Seq<u8>) {
        lemma_pow256_values();
        lemma_uint_round_trip(v as nat, 8, rest);
    }
}

impl Rlp for u8 {
    open spec fn wire(v: u8) -> Seq<u8> {
        uint_bytes(v as nat)
    }

    open spec fn sound(v: u8) -> bool {
        true
    }

    open spec fn read(buf: Seq<u8>) -> Result<(u8, int), RlpError> {
        match read_uint(buf, 1) {
            Ok((v, n)) => Ok((v as u8, n)),
            Err(e) => Err(e),
        }
    }

    fn encode(&self, out: &mut Vec<u8>) {
        encode_u64(*self as u64, out)
    }

    fn length(&self) -> (n: usize) {
        length_u64(*self as u64)
    }

    fn decode(buf: &mut &[u8]) -> (r: Result<u8, RlpError>) {
        match decode_uint(buf, 1) {
            Ok(v) => {
                proof {
                    lemma_pow256_values();
                }
                Ok(v as u8)
            },
            Err(e) => Err(e),
        }
    }

    proof fn read_within(buf: Seq<u8>) {
        lemma_header_within(buf);
    }

    proof fn round_trip(v: u8, rest: Seq<u8>) {
        lemma_pow256_values();
        lemma_uint_round_trip(v as nat, 1, rest);
    }
}

impl Rlp for u16 {
    open spec fn wire(v: u16) -> Seq<u8> {
        uint_bytes(v as nat)
    }

    open spec fn sound(v: u16) -> bool {
        true
    }

    open spec fn read(buf: Seq<u8>) -> Result<(u16, int), RlpError> {
        match read_uint(buf, 2) {
            Ok((v, n)) => Ok((v as u16, n)),
            Err(e) => Err(e),
        }
    }

    fn encode(&self, out: &mut Vec<u8>) {
        encode_u64(*self as u64, out)
    }

    fn length(&self) -> (n: usize) {
        length_u64(*self as u64)
    }

    fn decode(buf: &mut &[u8]) -> (r: Result<u16, RlpError>) {
        match decode_uint(buf, 2) {
            Ok(v) => {
                proof {
                    lemma_pow256_values();
                }
                Ok(v as u16)
            },
            Err(e) => Err(e),
        }
    }

    proof fn read_within(buf: Seq<u8>) {
        lemma_header_within(buf);
    }

    proof fn round_trip(v: u16, rest: Seq<u8>) {
        lemma_pow256_values();
        lemma_uint_round_trip(v as nat, 2, rest);
    }
}

impl Rlp for u32 {
    open spec fn wire(v: u32) -> Seq<u8> {
        uint_bytes(v as nat)
    }

    open spec fn sound(v: u32) -> bool {
        true
    }

    open spec fn read(buf: Seq<u8>) -> Result<(u32, int), RlpError> {
        match read_uint(buf, 4) {
            Ok((v, n)) => Ok((v as u32, n)),
            Err(e) => Err(e),
        }
    }

    fn encode(&self, out: &mut Vec<u8>) {
        encode_u64(*self as u64, out)
    }

    fn length(&self) -> (n: usize) {
        length_u64(*self as u64)
    }

    fn decode(buf: &mut &[u8]) -> (r: Result<u32, RlpError>) {
        match decode_uint(buf, 4) {
            Ok(v) => {
                proof {
                    lemma_pow256_values();
                }
                Ok(v as u32)
            },
            Err(e) => Err(e),
        }
    }

    proof fn read_within(buf: Seq<u8>) {
        lemma_header_within(buf);
    }

    proof fn round_trip(v: u32, rest: Seq<u8>) {
        lemma_pow256_values();
        lemma_uint_round_trip(v as nat, 4, rest);
    }
}

/// The bytes of a machine word.
pub open spec fn word_width() -> nat {
    (usize::BITS / 8) as nat
}

/// A machine word holds the integers of its bytes.
proof fn lemma_word_width()
    ensures
        word_width() <= 8,
        pow256(word_width()) == usize::MAX + 1,
{
    lemma_pow256_values();
    assert(usize::BITS == 32 || usize::BITS == 64);
}

impl Rlp for usize {
    open spec fn wire(v: usize) -> Seq<u8> {
        uint_bytes(v as nat)
    }

    open spec fn sound(v: usize) -> bool {
        true
    }

    open spec fn read(buf: Seq<u8>) -> Result<(usize, int), RlpError> {
        match read_uint(buf, word_width()) {
            Ok((v, n)) => Ok((v as usize, n)),
            Err(e) => Err(e),
        }
    }

    fn encode(&self, out: &mut Vec<u8>) {
        encode_u64(*self as u64, out)
    }

    fn length(&self) -> (n: usize) {
        length_u64(*self as u64)
    }

    fn decode(buf: &mut &[u8]) -> (r: Result<usize, RlpError>) {
        proof {
            lemma_word_width();
        }
        match decode_uint(buf, (usize::BITS / 8) as usize) {
            Ok(v) => Ok(v as usize),
            Err(e) => Err(e),
        }
    }

    proof fn read_within(buf: Seq<u8>) {
        lemma_header_within(buf);
    }

    proof fn round_trip(v: usize, rest: Seq<u8>) {
        lemma_word_width();
        lemma_uint_round_trip(v as nat, word_width(), rest);
    }
}

/// The encoding of a machine word is short.
pub proof fn lemma_word_wire_is_short(v: usize)
    ensures
        usize::wire(v).len() <= 17,
{
    lemma_word_width();
    lemma_uint_round_trip(v as nat, word_width(), Seq::empty());
}

/// The encodings of the items of a list, one behind the other.
pub open spec fn items_wire<T: Rlp>(vs: Seq<T::V>) -> Seq<u8>
    decreases vs.len(),
{
    if vs.len() == 0 {
        Seq::empty()
    } else {
        T::wire(vs[0]) + items_wire::<T>(vs.skip(1))
    }
}

/// Items read one behind the other until nothing is left.
pub open spec fn read_items<T: Rlp>(payload: Seq<u8>) -> Result<Seq<T::V>, RlpError>
    decreases payload.len(),
{
    if payload.len() == 0 {
        Ok(Seq::empty())
    } else {
        match T::read(payload) {
            Err(e) => Err(e),
            Ok((v, n)) => if 0 < n <= payload.len() {
                prepend(seq![v], read_items::<T>(payload.skip(n)))
            } else {
                Err(RlpError::InputTooShort)
            },
        }
    }
}

/// The items read so far in front of what the rest gives.
pub open spec fn prepend<V>(front: Seq<V>, r: Result<Seq<V>, RlpError>) -> Result<
    Seq<V>,
    RlpError,
> {
    match r {
        Ok(vs) => Ok(front + vs),
        Err(e) => Err(e),
    }
}

/// Items of a list are read back from their encodings.
pub proof fn lemma_items_round_trip<T: Rlp>(vs: Seq<T::V>)
    requires
        forall|i: int| 0 <= i < vs.len() ==> T::sound(#[trigger] vs[i]),
        items_wire::<T>(vs).len() <= usize::MAX,
    ensures
        read_items::<T>(items_wire::<T>(vs)) == Ok::<Seq<T::V>, RlpError>(vs),
    decreases vs.len(),
{
    if vs.len() > 0 {
        let tail = vs.skip(1);
        let rest = items_wire::<T>(tail);
        let all = items_wire::<T>(vs);
        assert(all == T::wire(vs[0]) + rest);
        assert forall|i: int| 0 <= i < tail.len() implies T::sound(#[trigger] tail[i]) by {
            assert(tail[i] == vs[i + 1]);
        }
        T::round_trip(vs[0], rest);
        T::read_within(all);
        lemma_items_round_trip::<T>(tail);
        assert(all.skip(T::wire(vs[0]).len() as int) =~= rest);
        assert(seq![vs[0]] + tail =~= vs);
    } else {
        assert(vs =~= Seq::empty());
    }
}

impl<T: Rlp> Rlp for Vec<T> {
    open spec fn wire(vs: Seq<T::V>) -> Seq<u8> {
        list_bytes(items_wire::<T>(vs))
    }

    open spec fn sound(vs: Seq<T::V>) -> bool {
        forall|i: int| 0 <= i < vs.len() ==> T::sound(#[trigger] vs[i])
    }

    open spec fn read(buf: Seq<u8>) -> Result<(Seq<T::V>, int), RlpError> {
        match read_header(buf) {
            Err(e) => Err(e),
            Ok(h) => if !h.list {
                Err(RlpError::UnexpectedString)
            } else {
                let end = h.header_length + h.payload_length;
                match read_items::<T>(buf.subrange(h.header_length as int, end)) {
                    Err(e) => Err(e),
                    Ok(vs) => Ok((vs, end)),
                }
            },
        }
    }

    fn encode(&self, out: &mut Vec<u8>) {
        let payload_length: usize = items_length(self);
        encode_header(true, payload_length, out);
        let ghost start = out@;
        let ghost vs = self.deep_view();
        let mut i: usize = 0;
        proof {
            assert(vs.skip(0) =~= vs);
        }
        while i < self.len()
            invariant
                i <= self.len(),
                vs == self.deep_view(),
                items_wire::<T>(vs).len() <= usize::MAX,
                out@ + items_wire::<T>(vs.skip(i as int)) == start + items_wire::<T>(vs),
                start.len() <= out@.len(),
            decreases self.len() - i,
        {
            proof {
                let rest = vs.skip(i as int);
                assert(rest[0] == self@[i as int].deep_view());
                assert(rest.skip(1) =~= vs.skip(i + 1));
                assert(items_wire::<T>(rest) == T::wire(rest[0]) + items_wire::<T>(rest.skip(1)));
                assert((out@ + items_wire::<T>(rest)).len() == (start + items_wire::<T>(vs)).len());
            }
            let ghost before = out@;
            self[i].encode(out);
            proof {
                let rest = vs.skip(i as int);
                assert(out@ + items_wire::<T>(rest.skip(1)) =~= before + items_wire::<T>(rest));
            }
            i += 1;
        }
        proof {
            assert(vs.skip(i as int).len() == 0);
            assert(out@ + items_wire::<T>(vs.skip(i as int)) =~= out@);
        }
    }

    fn length(&self) -> (n: usize) {
        let payload_length: usize = items_length(self);
        payload_length + length_of_length(payload_length)
    }

    fn decode(buf: &mut &[u8]) -> (r: Result<Vec<T>, RlpError>) {
        let bytes = *buf;
        proof {
            lemma_header_within(bytes@);
            assert(bytes@.len() == bytes.len());
        }
        match decode_header(bytes) {
            Err(e) => Err(e),
            Ok(h) => {
                if !h.list {
                    return Err(RlpError::UnexpectedString);
                }
                let end: usize = h.header_length + h.payload_length;
                match decode_items::<T>(vstd::slice::slice_subrange(bytes, h.header_length, end)) {
                    Err(e) => Err(e),
                    Ok(items) => {
                        advance(buf, end);
                        Ok(items)
                    },
                }
            },
        }
    }

    proof fn read_within(buf: Seq<u8>) {
        lemma_header_within(buf);
    }

    proof fn round_trip(vs: Seq<T::V>, rest: Seq<u8>) {
        let payload = items_wire::<T>(vs);
        lemma_header_round_trip(true, payload, rest);
        lemma_items_round_trip::<T>(vs);
        let h = header_bytes(true, payload.len());
        let buf = list_bytes(payload) + rest;
        assert(buf =~= h + payload + rest);
        assert(buf.subrange(h.len() as int, (h.len() + payload.len()) as int) =~= payload);
    }
}

/// The length of the encodings of all items.
fn items_length<T: Rlp>(items: &Vec<T>) -> (n: usize)
    requires
        items_wire::<T>(items.deep_view()).len() <= usize::MAX,
    ensures
        n == items_wire::<T>(items.deep_view()).len(),
{
    let ghost vs = items.deep_view();
    let mut n: usize = 0;
    let mut i: usize = 0;
    proof {
        assert(vs.skip(0) =~= vs);
    }
    while i < items.len()
        invariant
            i <= items.len(),
            vs == items.deep_view(),
            items_wire::<T>(vs).len() <= usize::MAX,
            n + items_wire::<T>(vs.skip(i as int)).len() == items_wire::<T>(vs).len(),
        decreases items.len() - i,
    {
        proof {
            let rest = vs.skip(i as int);
            assert(rest[0] == items@[i as int].deep_view());
            assert(rest.skip(1) =~= vs.skip(i + 1));
        }
        n += items[i].length();
        i += 1;
    }
    n
}

/// Reads items one behind the other until nothing is left.
fn decode_items<T: Rlp>(payload: &[u8]) -> (r: Result<Vec<T>, RlpError>)
    ensures
        match read_items::<T>(payload@) {
            Ok(vs) => r is Ok && r->Ok_0.deep_view() == vs,
            Err(e) => r == Err::<Vec<T>, RlpError>(e),
        },
{
    let mut rest = payload;
    let mut items: Vec<T> = Vec::new();
    proof {
        assert(items.deep_view() =~= Seq::empty());
        if read_items::<T>(payload@) is Ok {
            assert(Seq::<T::V>::empty() + read_items::<T>(payload@)->Ok_0
                =~= read_items::<T>(payload@)->Ok_0);
        }
    }
    while rest.len() > 0
        invariant
            read_items::<T>(payload@) == prepend(items.deep_view(), read_items::<T>(rest@)),
        decreases rest@.len(),
    {
        let ghost before = rest@;
        let ghost seen = items.deep_view();
        proof {
            T::read_within(before);
        }
        match T::decode(&mut rest) {
            Err(e) => {
                return Err(e);
            },
            Ok(item) => {
                let ghost v = item.deep_view();
                items.push(item);
                proof {
                    assert(items.deep_view() =~= seen.push(v));
                    let tail = read_items::<T>(rest@);
                    if tail is Ok {
                        assert(seen + (seq![v] + tail->Ok_0) =~= seen.push(v) + tail->Ok_0);
                    }
                }
            },
        }
    }
    proof {
        assert(items.deep_view() + Seq::<T::V>::empty() =~= items.deep_view());
    }
    Ok(items)
}

impl Rlp for bool {
    open spec fn wire(v: bool) -> Seq<u8> {
        u8::wire(if v { 1 } else { 0 })
    }

    open spec fn sound(v: bool) -> bool {
        true
    }

    open spec fn read(buf: Seq<u8>) -> Result<(bool, int), RlpError> {
        match u8::read(buf) {
            Ok((v, n)) => if v <= 1 {
                Ok((v == 1, n))
            } else {
                Err(RlpError::Custom("invalid bool value, must be 0 or 1"))
            },
            Err(e) => Err(e),
        }
    }

    fn encode(&self, out: &mut Vec<u8>) {
        let v: u8 = if *self { 1 } else { 0 };
        v.encode(out)
    }

    fn length(&self) -> (n: usize) {
        let v: u8 = if *self { 1 } else { 0 };
        v.length()
    }

    fn decode(buf: &mut &[u8]) -> (r: Result<bool, RlpError>) {
        match u8::decode(buf) {
            Ok(v) => if v <= 1 {
                Ok(v == 1)
            } else {
                Err(RlpError::Custom("invalid bool value, must be 0 or 1"))
            },
            Err(e) => Err(e),
        }
    }

    proof fn read_within(buf: Seq<u8>) {
        u8::read_within(buf);
    }

    proof fn round_trip(v: bool, rest: Seq<u8>) {
        u8::round_trip(if v { 1 } else { 0 }, rest);
    }
}

/// A byte string.
#[derive(Clone, Debug, PartialEq, Eq)]
pub struct Bytes(pub Vec<u8>);

impl DeepView for Bytes {
    type V = Seq<u8>;

    open spec fn deep_view(&self) -> Seq<u8> {
        self.0@
    }
}

impl Rlp for Bytes {
    open spec fn wire(v: Seq<u8>) -> Seq<u8> {
        string_bytes(v)
    }

    open spec fn sound(v: Seq<u8>) -> bool {
        true
    }

    open spec fn read(buf: Seq<u8>) -> Result<(Seq<u8>, int), RlpError> {
        read_string(buf)
    }

    fn encode(&self, out: &mut Vec<u8>) {
        if self.0.len() != 1 || self.0[0] >= 0x80 {
            encode_header(false, self.0.len(), out);
        }
        let ghost front = out@;
        out.extend_from_slice(self.0.as_slice());
        proof {
            assert(out@ =~= front + self.0@);
        }
    }

    fn length(&self) -> (n: usize) {
        if self.0.len() != 1 || self.0[0] >= 0x80 {
            length_of_length(self.0.len()) + self.0.len()
        } else {
            1
        }
    }

    fn decode(buf: &mut &[u8]) -> (r: Result<Bytes, RlpError>) {
        match decode_string(buf) {
            Ok(data) => Ok(Bytes(slice_to_vec(data))),
            Err(e) => Err(e),
        }
    }

    proof fn read_within(buf: Seq<u8>) {
        lemma_header_within(buf);
    }

    proof fn round_trip(v: Seq<u8>, rest: Seq<u8>) {
        lemma_string_round_trip(v, rest);
    }
}

impl<A: Rlp, B: Rlp> Rlp for (A, B) {
    open spec fn wire(v: (A::V, B::V)) -> Seq<u8> {
        A::wire(v.0) + B::wire(v.1)
    }

    open spec fn sound(v: (A::V, B::V)) -> bool {
        A::sound(v.0) && B::sound(v.1)
    }

    open spec fn read(buf: Seq<u8>) -> Result<((A::V, B::V), int), RlpError> {
        match A::read(buf) {
            Err(e) => Err(e),
            Ok((a, n)) => match B::read(buf.skip(n)) {
                Err(e) => Err(e),
                Ok((b, m)) => Ok(((a, b), n + m)),
            },
        }
    }

    fn encode(&self, out: &mut Vec<u8>) {
        let ghost front = out@;
        self.0.encode(out);
        self.1.encode(out);
        proof {
            assert(out@ =~= front + Self::wire(self.deep_view()));
        }
    }

    fn length(&self) -> (n: usize) {
        self.0.length() + self.1.length()
    }

    fn decode(buf: &mut &[u8]) -> (r: Result<(A, B), RlpError>) {
        let ghost start = buf@;
        proof {
            A::read_within(start);
        }
        let a: A = match A::decode(buf) {
            Ok(a) => a,
            Err(e) => {
                return Err(e);
            },
        };
        proof {
            B::read_within(buf@);
        }
        let ghost middle = buf@;
        let b: B = match B::decode(buf) {
            Ok(b) => b,
            Err(e) => {
                return Err(e);
            },
        };
        proof {
            let n = A::read(start)->Ok_0.1;
            let m = B::read(middle)->Ok_0.1;
            assert(start.skip(n).skip(m) =~= start.skip(n + m));
        }
        Ok((a, b))
    }

    proof fn read_within(buf: Seq<u8>) {
        A::read_within(buf);
        if let Ok((a, n)) = A::read(buf) {
            B::read_within(buf.skip(n));
        }
    }

    proof fn round_trip(v: (A::V, B::V), rest: Seq<u8>) {
        let a = A::wire(v.0);
        let b = B::wire(v.1);
        assert(a + b + rest =~= a + (b + rest));
        A::round_trip(v.0, b + rest);
        B::round_trip(v.1, rest);
        assert((a + b + rest).skip(a.len() as int) =~= b + rest);
    }
}

/// What a list whose items are the fields of a value holds.
#[derive(Clone, Debug, PartialEq, Eq)]
pub struct Listed<T>(pub T);

impl<T: DeepView> DeepView for Listed<T> {
    type V = T::V;

    open spec fn deep_view(&self) -> T::V {
        self.0.deep_view()
    }
}

impl<T: Rlp> Rlp for Listed<T> {
    open spec fn wire(v: T::V) -> Seq<u8> {
        list_bytes(T::wire(v))
    }

    open spec fn sound(v: T::V) -> bool {
        T::sound(v)
    }

    open spec fn read(buf: Seq<u8>) -> Result<(T::V, int), RlpError> {
        match read_header(buf) {
            Err(e) => Err(e),
            Ok(h) => if !h.list {
                Err(RlpError::UnexpectedString)
            } else {
                match T::read(buf.skip(h.header_length as int)) {
                    Err(e) => Err(e),
                    Ok((v, n)) => if n != h.payload_length {
                        Err(
                            RlpError::ListLengthMismatch {
                                expected: h.payload_length,
                                got: n as usize,
                            },
                        )
                    } else {
                        Ok((v, h.header_length + n))
                    },
                }
            },
        }
    }

    fn encode(&self, out: &mut Vec<u8>) {
        let ghost front = out@;
        encode_header(true, self.0.length(), out);
        self.0.encode(out);
        proof {
            assert(out@ =~= front + Self::wire(self.deep_view()));
        }
    }

    fn length(&self) -> (n: usize) {
        let payload_length: usize = self.0.length();
        payload_length + length_of_length(payload_length)
    }

    fn decode(buf: &mut &[u8]) -> (r: Result<Listed<T>, RlpError>) {
        let bytes = *buf;
        proof {
            lemma_header_within(bytes@);
            assert(bytes@.len() == bytes.len());
        }
        match decode_header(bytes) {
            Err(e) => Err(e),
            Ok(h) => {
                if !h.list {
                    return Err(RlpError::UnexpectedString);
                }
                advance(buf, h.header_length);
                let fields = *buf;
                proof {
                    T::read_within(fields@);
                    assert(fields@.len() == fields.len());
                }
                match T::decode(buf) {
                    Err(e) => Err(e),
                    Ok(v) => {
                        let got: usize = fields.len() - buf.len();
                        if got != h.payload_length {
                            return Err(
                                RlpError::ListLengthMismatch { expected: h.payload_length, got },
                            );
                        }
                        proof {
                            assert(buf@ =~= bytes@.skip(h.header_length + got));
                        }
                        Ok(Listed(v))
                    },
                }
            },
        }
    }

    proof fn read_within(buf: Seq<u8>) {
        lemma_header_within(buf);
    }

    proof fn round_trip(v: T::V, rest: Seq<u8>) {
        let payload = T::wire(v);
        lemma_header_round_trip(true, payload, rest);
        let h = header_bytes(true, payload.len());
        let buf = list_bytes(payload) + rest;
        assert(buf =~= h + payload + rest);
        assert(buf.skip(h.len() as int) =~= payload + rest);
        T::round_trip(v, rest);
    }
}

/// Appends the encodings of two values.
pub(crate) fn encode_pair<A: Rlp, B: Rlp>(a: &A, b: &B, out: &mut Vec<u8>)
    requires
        <(A, B)>::wire((a.deep_view(), b.deep_view())).len() <= usize::MAX,
    ensures
        final(out)@ == old(out)@ + <(A, B)>::wire((a.deep_view(), b.deep_view())),
{
    let ghost front = out@;
    a.encode(out);
    b.encode(out);
    proof {
        assert(out@ =~= front + <(A, B)>::wire((a.deep_view(), b.deep_view())));
    }
}

/// The length of the encodings of two values.
pub(crate) fn pair_length<A: Rlp, B: Rlp>(a: &A, b: &B) -> (n: usize)
    requires
        <(A, B)>::wire((a.deep_view(), b.deep_view())).len() <= usize::MAX,
    ensures
        n == <(A, B)>::wire((a.deep_view(), b.deep_view())).len(),
{
    a.length() + b.length()
}

} // verus!
