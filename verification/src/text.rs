use vstd::prelude::*;
use vstd::utf8::{decode_utf8, encode_utf8, encode_utf8_decode_utf8, encode_utf8_valid_utf8, valid_utf8};
use vstd::slice::slice_to_vec;
use vstd::string::StringExecFns;
use crate::primitives::{encode_string, string_length};
use crate::rlp::{
    decode_string, lemma_header_within, lemma_string_round_trip, read_string, string_bytes, Rlp,
    RlpError,
};

verus! {

/// `std::str::from_utf8`: the text that bytes are the UTF-8 of, if they are that of any.
#[verifier::external_body]
fn text_of(bytes: &[u8]) -> (r: Option<String>)
    ensures
        match r {
            Some(s) => valid_utf8(bytes@) && s@ == decode_utf8(bytes@),
            None => !valid_utf8(bytes@),
        },
{
    match std::str::from_utf8(bytes) {
        Ok(s) => Some(s.to_owned()),
        Err(_) => None,
    }
}

impl Rlp for String {
    open spec fn wire(v: Seq<char>) -> Seq<u8> {
        string_bytes(encode_utf8(v))
    }

    open spec fn sound(v: Seq<char>) -> bool {
        true
    }

    open spec fn read(buf: Seq<u8>) -> Result<(Seq<char>, int), RlpError> {
        match read_string(buf) {
            Err(e) => Err(e),
            Ok((data, n)) => if valid_utf8(data) {
                Ok((decode_utf8(data), n))
            } else {
                Err(RlpError::Custom("invalid string"))
            },
        }
    }

    fn encode(&self, out: &mut Vec<u8>) {
        let data = slice_to_vec(self.as_str().as_bytes());
        encode_string(&data, out)
    }

    fn length(&self) -> (n: usize) {
        let data = slice_to_vec(self.as_str().as_bytes());
        string_length(&data)
    }

    fn decode(buf: &mut &[u8]) -> (r: Result<String, RlpError>) {
        match decode_string(buf) {
            Err(e) => Err(e),
            Ok(data) => match text_of(data) {
                Some(s) => Ok(s),
                None => Err(RlpError::Custom("invalid string")),
            },
        }
    }

    proof fn read_within(buf: Seq<u8>) {
        lemma_header_within(buf);
    }

    proof fn round_trip(v: Seq<char>, rest: Seq<u8>) {
        encode_utf8_valid_utf8(v);
        encode_utf8_decode_utf8(v);
        lemma_string_round_trip(encode_utf8(v), rest);
    }
}

/// The order of byte strings by their first difference, a prefix coming first.
pub open spec fn bytes_less(a: Seq<u8>, b: Seq<u8>) -> bool
    decreases b.len(),
{
    if b.len() == 0 {
        false
    } else if a.len() == 0 {
        true
    } else if a[0] != b[0] {
        a[0] < b[0]
    } else {
        bytes_less(a.skip(1), b.skip(1))
    }
}

/// The alphabetic order of texts, upper and lower case told apart.
#[verifier::opaque]
pub open spec fn text_less(a: Seq<char>, b: Seq<char>) -> bool {
    bytes_less(encode_utf8(a), encode_utf8(b))
}

/// Of two different byte strings one comes first, and only one.
proof fn lemma_bytes_total(a: Seq<u8>, b: Seq<u8>)
    ensures
        a != b ==> bytes_less(a, b) || bytes_less(b, a),
        !(bytes_less(a, b) && bytes_less(b, a)),
        a == b ==> !bytes_less(a, b),
    decreases a.len(),
{
    if a.len() > 0 && b.len() > 0 {
        if a[0] == b[0] {
            lemma_bytes_total(a.skip(1), b.skip(1));
            if a.skip(1) == b.skip(1) {
                assert(a =~= seq![a[0]] + a.skip(1));
                assert(b =~= seq![b[0]] + b.skip(1));
            }
        }
    } else {
        assert(a.len() == 0 && b.len() == 0 ==> a =~= b);
    }
}

/// What comes before what comes before a third comes before the third.
proof fn lemma_bytes_transitive(a: Seq<u8>, b: Seq<u8>, c: Seq<u8>)
    requires
        bytes_less(a, b),
        bytes_less(b, c),
    ensures
        bytes_less(a, c),
    decreases b.len(),
{
    if a.len() > 0 && b.len() > 0 && c.len() > 0 {
        if a[0] == b[0] && b[0] == c[0] {
            lemma_bytes_transitive(a.skip(1), b.skip(1), c.skip(1));
        }
    }
}

/// The alphabetic order of texts is a strict order in which any two texts compare.
pub proof fn lemma_text_order(a: Seq<char>, b: Seq<char>, c: Seq<char>)
    ensures
        a != b ==> text_less(a, b) || text_less(b, a),
        !(text_less(a, b) && text_less(b, a)),
        !text_less(a, a),
        text_less(a, b) && text_less(b, c) ==> text_less(a, c),
{
    reveal(text_less);
    encode_utf8_decode_utf8(a);
    encode_utf8_decode_utf8(b);
    lemma_bytes_total(encode_utf8(a), encode_utf8(b));
    lemma_bytes_total(encode_utf8(a), encode_utf8(a));
    if text_less(a, b) && text_less(b, c) {
        lemma_bytes_transitive(encode_utf8(a), encode_utf8(b), encode_utf8(c));
    }
}

/// Whether a text comes before another in alphabetic order.
pub fn text_before(a: &String, b: &String) -> (r: bool)
    ensures
        r == text_less(a@, b@),
{
    proof {
        reveal(text_less);
    }
    let x = a.as_str().as_bytes();
    let y = b.as_str().as_bytes();
    let mut i: usize = 0;
    proof {
        assert(x@.skip(0) =~= x@);
        assert(y@.skip(0) =~= y@);
    }
    while i < x.len() && i < y.len()
        invariant
            i <= x.len(),
            i <= y.len(),
            x@ == encode_utf8(a@),
            y@ == encode_utf8(b@),
            bytes_less(x@, y@) == bytes_less(x@.skip(i as int), y@.skip(i as int)),
        decreases x.len() - i,
    {
        if x[i] != y[i] {
            proof {
                reveal(text_less);
            }
            return x[i] < y[i];
        }
        proof {
            assert(x@.skip(i as int).skip(1) =~= x@.skip(i + 1));
            assert(y@.skip(i as int).skip(1) =~= y@.skip(i + 1));
        }
        i += 1;
    }
    i < y.len()
}

/// The digit of a number below ten.
pub open spec fn digit(n: u8) -> Seq<char> {
    match n {
        0 => "0"@,
        1 => "1"@,
        2 => "2"@,
        3 => "3"@,
        4 => "4"@,
        5 => "5"@,
        6 => "6"@,
        7 => "7"@,
        8 => "8"@,
        _ => "9"@,
    }
}

/// The digits of a number.
pub open spec fn decimal(n: nat) -> Seq<char>
    decreases n,
{
    if n < 10 {
        digit(n as u8)
    } else {
        decimal(n / 10) + digit((n % 10) as u8)
    }
}

/// Puts the digits of a number behind a text.
pub(crate) fn push_decimal(out: &mut String, n: u64)
    ensures
        final(out)@ == old(out)@ + decimal(n as nat),
    decreases n,
{
    let ghost front = out@;
    if n >= 10 {
        push_decimal(out, n / 10);
    }
    let last: &str = match (n % 10) as u8 {
        0 => "0",
        1 => "1",
        2 => "2",
        3 => "3",
        4 => "4",
        5 => "5",
        6 => "6",
        7 => "7",
        8 => "8",
        _ => "9",
    };
    out.append(last);
    proof {
        assert(out@ =~= front + decimal(n as nat));
    }
}

/// The number that digits stand for.
pub open spec fn decimal_value(digits: Seq<char>) -> int
    decreases digits.len(),
{
    if digits.len() == 0 {
        0
    } else {
        10 * decimal_value(digits.drop_last()) + (digits.last() as int - '0' as int)
    }
}

/// A digit is one of the ten, which stand in the order of the numbers.
proof fn lemma_digit(n: u8)
    requires
        n < 10,
    ensures
        digit(n).len() == 1,
        digit(n)[0] as int == '0' as int + n,
{
    reveal_strlit("0");
    reveal_strlit("1");
    reveal_strlit("2");
    reveal_strlit("3");
    reveal_strlit("4");
    reveal_strlit("5");
    reveal_strlit("6");
    reveal_strlit("7");
    reveal_strlit("8");
    reveal_strlit("9");
}

/// The digits of a number stand for it, all of them are digits, and none is in vain: the first is not
/// zero unless it is the only one.
pub proof fn lemma_decimal(n: nat)
    ensures
        decimal(n).len() > 0,
        decimal_value(decimal(n)) == n,
        forall|i: int| 0 <= i < decimal(n).len() ==> '0' <= #[trigger] decimal(n)[i] <= '9',
        n > 0 ==> decimal(n)[0] != '0',
    decreases n,
{
    if n < 10 {
        lemma_digit(n as u8);
        reveal_with_fuel(decimal_value, 2);
        assert(decimal(n).drop_last() =~= Seq::empty());
    } else {
        lemma_decimal(n / 10);
        lemma_digit((n % 10) as u8);
        assert(decimal(n).drop_last() =~= decimal(n / 10));
    }
}

/// The first difference decides which of two byte strings comes first, and the beginning of a longer
/// one comes before it.
pub proof fn lemma_first_difference(a: Seq<u8>, b: Seq<u8>, i: int)
    requires
        0 <= i <= a.len(),
        i < b.len(),
        forall|j: int| 0 <= j < i ==> a[j] == b[j],
    ensures
        i == a.len() ==> bytes_less(a, b),
        i < a.len() && a[i] != b[i] ==> (bytes_less(a, b) <==> a[i] < b[i]),
    decreases i,
{
    if i > 0 {
        assert(a[0] == b[0]);
        let c = a.skip(1);
        let d = b.skip(1);
        assert forall|j: int| 0 <= j < i - 1 implies c[j] == d[j] by {
            assert(a[j + 1] == b[j + 1]);
        }
        lemma_first_difference(c, d, i - 1);
    }
}

} // verus!
