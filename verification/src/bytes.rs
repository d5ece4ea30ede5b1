//! Byte strings: lexicographic order, prefixes and big-endian integers.

use vstd::prelude::*;
use vstd::slice::slice_to_vec;
use vstd::string::*;

verus! {

/// The bytes of a text that holds ASCII characters only.
pub open spec fn ascii(text: Seq<char>) -> Seq<u8> {
    Seq::new(text.len(), |i: int| text[i] as u8)
}

/// `a` and `b` hold the same first `n` bytes.
pub open spec fn agree(a: Seq<u8>, b: Seq<u8>, n: int) -> bool {
    &&& 0 <= n <= a.len()
    &&& n <= b.len()
    &&& forall|i: int| 0 <= i < n ==> a[i] == b[i]
}

/// `a` stands before `b`, and their first difference is at `n`.
pub open spec fn before_at(a: Seq<u8>, b: Seq<u8>, n: int) -> bool {
    &&& agree(a, b, n)
    &&& n < b.len()
    &&& (n == a.len() || a[n] < b[n])
}

/// Lexicographic order on byte strings.
pub open spec fn lex_lt(a: Seq<u8>, b: Seq<u8>) -> bool {
    exists|n: int| before_at(a, b, n)
}

/// Lexicographic order on byte strings, equality allowed.
pub open spec fn lex_le(a: Seq<u8>, b: Seq<u8>) -> bool {
    a == b || lex_lt(a, b)
}

/// No byte string stands before itself.
pub proof fn lex_irreflexive(a: Seq<u8>)
    ensures
        !lex_lt(a, a),
{
}

/// The lexicographic order is transitive.
pub proof fn lex_transitive(a: Seq<u8>, b: Seq<u8>, c: Seq<u8>)
    requires
        lex_lt(a, b),
        lex_lt(b, c),
    ensures
        lex_lt(a, c),
{
    let m = choose|m: int| before_at(a, b, m);
    let n = choose|n: int| before_at(b, c, n);
    if m <= n {
        assert(before_at(a, c, m));
    } else {
        assert(before_at(a, c, n));
    }
}

/// Of two byte strings that differ one stands before the other.
pub proof fn lex_total(a: Seq<u8>, b: Seq<u8>)
    ensures
        a == b || lex_lt(a, b) || lex_lt(b, a),
    decreases a.len(),
{
    if a.len() == 0 {
        if b.len() == 0 {
            assert(a =~= b);
        } else {
            assert(before_at(a, b, 0));
        }
    } else if b.len() == 0 {
        assert(before_at(b, a, 0));
    } else if a[0] < b[0] {
        assert(before_at(a, b, 0));
    } else if b[0] < a[0] {
        assert(before_at(b, a, 0));
    } else {
        let (ta, tb) = (a.drop_first(), b.drop_first());
        lex_total(ta, tb);
        if ta == tb {
            assert forall|i: int| 0 <= i < a.len() implies a[i] == b[i] by {
                if i > 0 {
                    assert(a[i] == ta[i - 1]);
                    assert(b[i] == tb[i - 1]);
                }
            }
            assert(a.len() == ta.len() + 1);
            assert(a =~= b);
        } else if lex_lt(ta, tb) {
            let n = choose|n: int| before_at(ta, tb, n);
            lex_push_front(a, b, n);
        } else {
            let n = choose|n: int| before_at(tb, ta, n);
            lex_push_front(b, a, n);
        }
    }
}

proof fn lex_push_front(a: Seq<u8>, b: Seq<u8>, n: int)
    requires
        a.len() > 0,
        b.len() > 0,
        a[0] == b[0],
        before_at(a.drop_first(), b.drop_first(), n),
    ensures
        before_at(a, b, n + 1),
{
    let (ta, tb) = (a.drop_first(), b.drop_first());
    assert forall|i: int| 0 <= i < n + 1 implies a[i] == b[i] by {
        if i > 0 {
            assert(a[i] == ta[i - 1]);
            assert(b[i] == tb[i - 1]);
        }
    }
    if n < ta.len() {
        assert(a[n + 1] == ta[n]);
    }
    assert(b[n + 1] == tb[n]);
}

/// A byte string stands before every proper extension of itself, and the order
/// of two strings that share a prefix is the order of what follows it.
pub proof fn lex_prefix(p: Seq<u8>, a: Seq<u8>, b: Seq<u8>)
    ensures
        lex_lt(a, b) ==> lex_lt(p + a, p + b),
        a.len() > 0 ==> lex_lt(p, p + a),
{
    if lex_lt(a, b) {
        let n = choose|n: int| before_at(a, b, n);
        assert(before_at(p + a, p + b, p.len() + n));
    }
    if a.len() > 0 {
        assert(before_at(p, p + a, p.len() as int));
    }
}

/// How two keys stand to each other.
#[derive(Clone, Copy, PartialEq, Eq, Structural, Debug)]
pub enum Order {
    Less,
    Equal,
    Greater,
}

/// Compares two byte strings lexicographically.
pub fn lex_order(a: &[u8], b: &[u8]) -> (o: Order)
    ensures
        o == Order::Less <==> lex_lt(a@, b@),
        o == Order::Equal <==> a@ == b@,
        o == Order::Greater <==> lex_lt(b@, a@),
{
    let mut i: usize = 0;
    while i < a.len() && i < b.len() && a[i] == b[i]
        invariant
            agree(a@, b@, i as int),
        decreases a.len() - i,
    {
        i = i + 1;
    }
    proof {
        lex_irreflexive(a@);
        if lex_lt(a@, b@) && lex_lt(b@, a@) {
            lex_transitive(a@, b@, a@);
        }
    }
    if i < b.len() && (i == a.len() || a[i] < b[i]) {
        assert(before_at(a@, b@, i as int));
        Order::Less
    } else if i < a.len() {
        assert(before_at(b@, a@, i as int));
        Order::Greater
    } else {
        assert(a@ =~= b@);
        Order::Equal
    }
}

/// `a` stands before `b`.
pub fn bytes_lt(a: &[u8], b: &[u8]) -> (r: bool)
    ensures
        r == lex_lt(a@, b@),
{
    lex_order(a, b) == Order::Less
}

/// `a` stands before `b` or is `b`.
pub fn bytes_le(a: &[u8], b: &[u8]) -> (r: bool)
    ensures
        r == lex_le(a@, b@),
{
    proof {
        lex_total(a@, b@);
    }
    lex_order(a, b) != Order::Greater
}

/// `a` and `b` hold the same bytes.
pub fn bytes_eq(a: &[u8], b: &[u8]) -> (r: bool)
    ensures
        r == (a@ == b@),
{
    lex_order(a, b) == Order::Equal
}

/// `key` begins with `prefix`.
pub fn starts_with(key: &[u8], prefix: &[u8]) -> (r: bool)
    ensures
        r == prefix@.is_prefix_of(key@),
{
    if prefix.len() > key.len() {
        return false;
    }
    let mut i: usize = 0;
    while i < prefix.len()
        invariant
            prefix.len() <= key.len(),
            agree(prefix@, key@, i as int),
        decreases prefix.len() - i,
    {
        if prefix[i] != key[i] {
            assert(prefix@[i as int] != key@.subrange(0, prefix@.len() as int)[i as int]);
            return false;
        }
        i = i + 1;
    }
    assert(prefix@ =~= key@.subrange(0, prefix@.len() as int));
    true
}

/// `byte` occurs in `s`.
pub fn contains_byte(s: &[u8], byte: u8) -> (r: bool)
    ensures
        r == s@.contains(byte),
{
    let mut i: usize = 0;
    while i < s.len()
        invariant
            i <= s.len(),
            forall|j: int| 0 <= j < i ==> s@[j] != byte,
        decreases s.len() - i,
    {
        if s[i] == byte {
            return true;
        }
        i = i + 1;
    }
    false
}

/// A copy of `s`.
pub fn copy_bytes(s: &[u8]) -> (r: Vec<u8>)
    ensures
        r@ == s@,
{
    slice_to_vec(s)
}

/// `a` followed by `b`.
pub fn concat(a: &[u8], b: &[u8]) -> (r: Vec<u8>)
    ensures
        r@ == a@ + b@,
{
    let mut r: Vec<u8> = slice_to_vec(a);
    r.extend_from_slice(b);
    assert(r@ =~= a@ + b@);
    r
}

/// The bytes of an ASCII text.
pub fn ascii_bytes(text: &str) -> (r: Vec<u8>)
    requires
        is_ascii(text),
    ensures
        r@ == ascii(text@),
{
    broadcast use is_ascii_spec_bytes;

    let r: Vec<u8> = slice_to_vec(text.as_bytes());
    assert(r@ =~= ascii(text@));
    r
}

/// 256 to the power `n`.
pub open spec fn pow256(n: nat) -> nat
    decreases n,
{
    if n == 0 {
        1
    } else {
        256 * pow256((n - 1) as nat)
    }
}

/// The last `n` base-256 digits of `x`, the most significant first.
pub open spec fn be_bytes(x: nat, n: nat) -> Seq<u8>
    decreases n,
{
    if n == 0 {
        Seq::empty()
    } else {
        be_bytes(x / 256, (n - 1) as nat).push((x % 256) as u8)
    }
}

/// The number that `s` denotes in base 256, the most significant digit first.
pub open spec fn be_value(s: Seq<u8>) -> nat
    decreases s.len(),
{
    if s.len() == 0 {
        0
    } else {
        be_value(s.drop_last()) * 256 + s.last() as nat
    }
}

proof fn pow256_8()
    ensures
        pow256(8) == 0x1_0000_0000_0000_0000,
{
    reveal_with_fuel(pow256, 9);
}

/// Encoding gives `n` bytes, and decoding gives back what was encoded.
pub proof fn be_round_trip(x: nat, n: nat)
    ensures
        be_bytes(x, n).len() == n,
        x < pow256(n) ==> be_value(be_bytes(x, n)) == x,
    decreases n,
{
    if n > 0 {
        be_round_trip(x / 256, (n - 1) as nat);
        let s = be_bytes(x, n);
        assert(s.drop_last() =~= be_bytes(x / 256, (n - 1) as nat));
    }
}

/// A number denoted by `s` is below 256 to the power of the length of `s`.
pub proof fn be_value_bound(s: Seq<u8>)
    ensures
        be_value(s) < pow256(s.len()),
    decreases s.len(),
{
    if s.len() > 0 {
        be_value_bound(s.drop_last());
    }
}

/// Encoding what was decoded gives the same bytes back.
pub proof fn be_round_trip_bytes(s: Seq<u8>)
    ensures
        be_bytes(be_value(s), s.len()) == s,
    decreases s.len(),
{
    if s.len() > 0 {
        be_round_trip_bytes(s.drop_last());
        assert(s.drop_last().push(s.last()) =~= s);
    }
}

/// Big-endian encodings of one length are ordered as the numbers are.
pub proof fn be_ordered(x: nat, y: nat, n: nat)
    requires
        x < y < pow256(n),
    ensures
        lex_lt(be_bytes(x, n), be_bytes(y, n)),
    decreases n,
{
    if n > 0 {
        let k = (n - 1) as nat;
        be_round_trip(x / 256, k);
        be_round_trip(y / 256, k);
        let (sx, sy) = (be_bytes(x, n), be_bytes(y, n));
        if x / 256 < y / 256 {
            be_ordered(x / 256, y / 256, k);
            let (px, py) = (be_bytes(x / 256, k), be_bytes(y / 256, k));
            let m = choose|m: int| before_at(px, py, m);
            assert(before_at(sx, sy, m));
        } else {
            assert(before_at(sx, sy, k as int));
        }
    }
}

/// The two's complement reading of a 64-bit integer.
pub open spec fn i64_bits(x: i64) -> nat {
    if x < 0 {
        (x + 0x1_0000_0000_0000_0000) as nat
    } else {
        x as nat
    }
}

/// The eight bytes of an unsigned integer, most significant first.
pub open spec fn be_u64(x: u64) -> Seq<u8> {
    be_bytes(x as nat, 8)
}

/// The eight bytes of a signed integer in two's complement, most significant first.
pub open spec fn be_i64(x: i64) -> Seq<u8> {
    be_bytes(i64_bits(x), 8)
}

/// The unsigned integer that the first eight bytes of `s` denote.
pub open spec fn read_u64(s: Seq<u8>) -> u64 {
    be_value(s.take(8)) as u64
}

/// The signed integer that the first eight bytes of `s` denote in two's complement.
pub open spec fn read_i64(s: Seq<u8>) -> i64 {
    let v = be_value(s.take(8)) as int;
    if v >= 0x8000_0000_0000_0000 {
        (v - 0x1_0000_0000_0000_0000) as i64
    } else {
        v as i64
    }
}

/// Reading gives back the unsigned integer that was written in front.
pub proof fn u64_round_trip(x: u64, rest: Seq<u8>)
    ensures
        be_u64(x).len() == 8,
        read_u64(be_u64(x) + rest) == x,
{
    pow256_8();
    be_round_trip(x as nat, 8);
    assert((be_u64(x) + rest).take(8) =~= be_u64(x));
}

/// Reading gives back the signed integer that was written in front.
pub proof fn i64_round_trip(x: i64, rest: Seq<u8>)
    ensures
        be_i64(x).len() == 8,
        read_i64(be_i64(x) + rest) == x,
{
    pow256_8();
    be_round_trip(i64_bits(x), 8);
    assert((be_i64(x) + rest).take(8) =~= be_i64(x));
}

/// Encoded unsigned integers are ordered as the integers are.
pub proof fn u64_ordered(x: u64, y: u64)
    requires
        x < y,
    ensures
        lex_lt(be_u64(x), be_u64(y)),
{
    pow256_8();
    be_ordered(x as nat, y as nat, 8);
}

/// The eight bytes of `x`, most significant first.
pub fn encode_u64(x: u64) -> (r: Vec<u8>)
    ensures
        r@ == be_u64(x),
{
    let mut digits: Vec<u8> = Vec::new();
    let mut rest: u64 = x;
    let mut i: usize = 0;
    while i < 8
        invariant
            i <= 8,
            be_bytes(rest as nat, (8 - i) as nat) + digits@ == be_bytes(x as nat, 8),
        decreases 8 - i,
    {
        let ghost before = be_bytes(rest as nat, (8 - i) as nat) + digits@;
        let digit: u8 = (rest % 256) as u8;
        digits.insert(0, digit);
        proof {
            assert(be_bytes((rest / 256) as nat, (7 - i) as nat) + digits@ =~= before);
        }
        rest = rest / 256;
        i = i + 1;
    }
    assert(be_bytes(rest as nat, 0) + digits@ =~= digits@);
    digits
}

/// The eight bytes of `x` in two's complement, most significant first.
pub fn encode_i64(x: i64) -> (r: Vec<u8>)
    ensures
        r@ == be_i64(x),
{
    let bits: u64 = if x < 0 {
        let wide: i128 = x as i128 + 0x1_0000_0000_0000_0000i128;
        wide as u64
    } else {
        x as u64
    };
    encode_u64(bits)
}

/// The unsigned integer that the first eight bytes of `s` denote.
pub fn decode_u64(s: &[u8]) -> (r: u64)
    requires
        s@.len() >= 8,
    ensures
        r == read_u64(s@),
        r == be_value(s@.take(8)),
{
    let mut acc: u64 = 0;
    let mut i: usize = 0;
    while i < 8
        invariant
            i <= 8 <= s@.len(),
            acc == be_value(s@.take(i as int)),
        decreases 8 - i,
    {
        proof {
            let next = s@.take(i + 1);
            assert(next.drop_last() =~= s@.take(i as int));
            be_value_bound(next);
            pow256_monotone((i + 1) as nat, 8);
            pow256_8();
        }
        acc = acc * 256 + s[i] as u64;
        i = i + 1;
    }
    acc
}

proof fn pow256_monotone(m: nat, n: nat)
    requires
        m <= n,
    ensures
        pow256(m) <= pow256(n),
    decreases n,
{
    if m < n {
        pow256_monotone(m, (n - 1) as nat);
    }
}

/// The signed integer that the first eight bytes of `s` denote in two's complement.
pub fn decode_i64(s: &[u8]) -> (r: i64)
    requires
        s@.len() >= 8,
    ensures
        r == read_i64(s@),
{
    let bits: u64 = decode_u64(s);
    if bits >= 0x8000_0000_0000_0000 {
        let wide: i128 = bits as i128 - 0x1_0000_0000_0000_0000i128;
        wide as i64
    } else {
        bits as i64
    }
}

/// Writing the signed integer that eight bytes denote gives the same bytes back.
pub proof fn i64_round_trip_bytes(s: Seq<u8>)
    requires
        s.len() >= 8,
    ensures
        be_i64(read_i64(s)) == s.take(8),
{
    pow256_8();
    let bytes = s.take(8);
    be_value_bound(bytes);
    be_round_trip_bytes(bytes);
}

/// The bytes of an integer are its base-256 digits: the last of them is the
/// remainder by 256, an integer that is not negative has the same bytes signed and
/// unsigned, and a negative one those of the integer that is 2 to the power of 64
/// above it.
pub proof fn bytes_are_digits(x: u64, y: i64)
    ensures
        be_u64(x).len() == 8,
        be_u64(x)[7] == x % 256,
        be_value(be_u64(x)) == x,
        y >= 0 ==> be_i64(y) == be_u64(y as u64),
        y < 0 ==> be_value(be_i64(y)) == y + 0x1_0000_0000_0000_0000,
{
    pow256_8();
    be_round_trip(x as nat, 8);
    be_round_trip(i64_bits(y), 8);
}

/// An ASCII text has as many bytes as characters, each the number of its character.
pub proof fn ascii_is_one_for_one(text: Seq<char>)
    ensures
        ascii(text).len() == text.len(),
        forall|i: int| 0 <= i < text.len() ==> #[trigger] ascii(text)[i] == text[i] as u8,
{
}

/// Of two byte strings that differ in a byte for the first time, the one with the
/// smaller byte stands before the other; and a byte string stands before all that
/// begin with it and are longer.
pub proof fn smaller_bytes_stand_before(a: Seq<u8>, b: Seq<u8>, n: int)
    requires
        0 <= n <= a.len(),
        n < b.len(),
        forall|i: int| 0 <= i < n ==> a[i] == b[i],
    ensures
        n < a.len() && a[n] != b[n] ==> (lex_lt(a, b) <==> a[n] < b[n]),
        n == a.len() ==> lex_lt(a, b) && !lex_lt(b, a),
{
    if n == a.len() || a[n] < b[n] {
        assert(before_at(a, b, n));
    } else if a[n] > b[n] {
        assert(before_at(b, a, n));
    }
    lex_irreflexive(a);
    if lex_lt(a, b) && lex_lt(b, a) {
        lex_transitive(a, b, a);
    }
}

} // verus!
