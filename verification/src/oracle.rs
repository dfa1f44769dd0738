//! Seeded inputs, digests and overlap checks of the accuracy gates.
use vstd::prelude::*;

verus! {

/// The `i`-th number of the splitmix64 generator.
pub open spec fn splitmix64(seed: u64, i: u64) -> u64 {
    let a = seed.wrapping_add(i.wrapping_add(1).wrapping_mul(0x9E37_79B9_7F4A_7C15));
    let b = (a ^ (a >> 30)).wrapping_mul(0xBF58_476D_1CE4_E5B9);
    let c = (b ^ (b >> 27)).wrapping_mul(0x94D0_49BB_1331_11EB);
    c ^ (c >> 31)
}

/// The `i`-th uniform number of the generator, as its 53 bits behind the
/// binary point.
pub open spec fn uniform53(seed: u64, i: u64) -> u64 {
    splitmix64(seed, i) >> 11
}

fn next_uniform(seed: u64, i: u64) -> (r: u64)
    ensures
        r == uniform53(seed, i),
        r < 0x20_0000_0000_0000,
{
    let a: u64 = seed.wrapping_add(i.wrapping_add(1).wrapping_mul(0x9E37_79B9_7F4A_7C15));
    let b: u64 = (a ^ (a >> 30)).wrapping_mul(0xBF58_476D_1CE4_E5B9);
    let c: u64 = (b ^ (b >> 27)).wrapping_mul(0x94D0_49BB_1331_11EB);
    let z: u64 = c ^ (c >> 31);
    assert(z >> 11 < 0x20_0000_0000_0000) by (bit_vector);
    z >> 11
}

/// The uniform numbers that a seeded hidden state is made of.
pub fn seeded_uniform(seed: u64, count: usize) -> (r: Vec<u64>)
    ensures
        r@ == Seq::new(count as nat, |i: int| uniform53(seed, i as u64)),
{
    let mut out: Vec<u64> = Vec::new();
    let mut i: usize = 0;
    while i < count
        invariant
            i <= count,
            out.len() == i,
            forall|j: int| 0 <= j < i ==> #[trigger] out@[j] == uniform53(seed, j as u64),
        decreases count - i,
    {
        out.push(next_uniform(seed, i as u64));
        i = i + 1;
    }
    assert(out@ =~= Seq::new(count as nat, |i: int| uniform53(seed, i as u64)));
    out
}

/// The value of the last of the 53 significant bits of a number.
pub open spec fn last_place(q: nat) -> nat
    decreases q,
{
    if q < 0x20_0000_0000_0000 {
        1
    } else {
        2 * last_place(q / 2)
    }
}

/// A number rounded to a multiple of a unit, a tie to the even multiple.
pub open spec fn round_to(q: nat, unit: nat) -> nat {
    let f = q / unit;
    let r = q % unit;
    if 2 * r < unit || (2 * r == unit && f % 2 == 0) {
        f * unit
    } else {
        (f + 1) * unit
    }
}

/// The token that a uniform number stands for: the product with the
/// vocabulary size in double precision, truncated.
pub open spec fn scaled_token(uniform: u64, vocab: int) -> int {
    let product = (uniform * vocab) as nat;
    crate::arith::least(
        round_to(product, last_place(product)) as int / 0x20_0000_0000_0000,
        vocab - 1,
    )
}

/// How far two numbers lie apart.
pub open spec fn distance(a: int, b: int) -> int {
    if a <= b {
        b - a
    } else {
        a - b
    }
}

/// The last place leaves 53 significant bits: a number of fewer bits is
/// counted in ones, a larger one in units of which it holds at least 2^52
/// and fewer than 2^53.
pub proof fn a_number_has_fifty_three_significant_bits(q: nat)
    ensures
        last_place(q) > 0,
        q / last_place(q) < 0x20_0000_0000_0000,
        last_place(q) == 1 || q / last_place(q) >= 0x10_0000_0000_0000,
        q < 0x20_0000_0000_0000 ==> last_place(q) == 1,
    decreases q,
{
    if q >= 0x20_0000_0000_0000 {
        a_number_has_fifty_three_significant_bits(q / 2);
        let unit = last_place(q / 2) as int;
        vstd::arithmetic::div_mod::lemma_div_denominator(q as int, 2, unit);
        assert(q as int / (2 * unit) == q as int / 2 / unit);
        if unit == 1 {
            assert(q as int / 2 / 1 == q as int / 2);
        }
    }
}

/// Rounding is to the nearest: what comes out is a multiple of the unit, no
/// multiple is closer, and of two that are as close it is the even one.
pub proof fn rounding_is_to_the_nearest(q: nat, unit: nat, k: int)
    requires
        unit > 0,
    ensures
        round_to(q, unit) % unit == 0,
        distance(q as int, round_to(q, unit) as int) <= distance(q as int, k * unit),
        distance(q as int, round_to(q, unit) as int) == distance(q as int, k * unit)
            && k * unit != round_to(q, unit) ==> k % 2 != 0,
{
    let f = (q / unit) as int;
    let r = (q % unit) as int;
    let u = unit as int;
    vstd::arithmetic::div_mod::lemma_fundamental_div_mod(q as int, u);
    assert(q == f * u + r) by (nonlinear_arith)
        requires
            q == u * f + r,
    ;
    assert((f + 1) * u == f * u + u) by (nonlinear_arith);
    vstd::arithmetic::div_mod::lemma_mod_multiples_basic(f, u);
    vstd::arithmetic::div_mod::lemma_mod_multiples_basic(f + 1, u);
    if k < f {
        assert(k * u <= (f - 1) * u) by (nonlinear_arith)
            requires
                k <= f - 1,
                u > 0,
        ;
        assert((f - 1) * u == f * u - u) by (nonlinear_arith);
    } else if k > f + 1 {
        assert(k * u >= (f + 2) * u) by (nonlinear_arith)
            requires
                k >= f + 2,
                u > 0,
        ;
        assert((f + 2) * u == f * u + 2 * u) by (nonlinear_arith);
    }
}

/// A token is its share of the vocabulary: the rounded product counted in
/// wholes, and the last token where that is past the end.
pub proof fn a_token_is_its_share_of_the_vocabulary(uniform: u64, vocab: int)
    requires
        0 < vocab <= 0x1_0000_0000,
        uniform < 0x20_0000_0000_0000,
    ensures
        0 <= scaled_token(uniform, vocab) < vocab,
        ({
            let product = (uniform * vocab) as nat;
            let rounded = round_to(product, last_place(product));
            let token = scaled_token(uniform, vocab);
            &&& token * 0x20_0000_0000_0000 <= rounded
            &&& rounded < (token + 1) * 0x20_0000_0000_0000 || token == vocab - 1
        }),
{
    assert(uniform * vocab >= 0) by (nonlinear_arith)
        requires
            uniform >= 0,
            vocab > 0,
    ;
}

fn unit_of(q: u128) -> (r: u128)
    requires
        q < 0x20_0000_0000_0000_0000_0000,
    ensures
        r == last_place(q as nat),
        0 < r < 0x2_0000_0000,
{
    let mut unit: u128 = 1;
    let mut h: u128 = q;
    while h >= 0x20_0000_0000_0000
        invariant
            q < 0x20_0000_0000_0000_0000_0000,
            unit > 0,
            last_place(q as nat) == unit * last_place(h as nat),
            unit * h <= q,
            unit * 0x10_0000_0000_0000 <= q || unit == 1,
        decreases h,
    {
        let half: u128 = h / 2;
        proof {
            assert(unit * h >= unit * 0x20_0000_0000_0000) by (nonlinear_arith)
                requires
                    h >= 0x20_0000_0000_0000,
                    unit > 0,
            ;
            assert(unit * 2 * last_place(half as nat) == unit * (2 * last_place(half as nat)))
                by (nonlinear_arith);
            assert((unit * 2) * half <= unit * h) by (nonlinear_arith)
                requires
                    2 * half <= h,
                    unit > 0,
            ;
        }
        unit = unit * 2;
        h = half;
    }
    proof {
        assert(last_place(h as nat) == 1);
        assert(unit * 1 == unit) by (nonlinear_arith);
    }
    unit
}

fn scale_token(uniform: u64, vocab: usize) -> (r: u32)
    requires
        uniform < 0x20_0000_0000_0000,
        0 < vocab <= 0x1_0000_0000,
    ensures
        r == scaled_token(uniform, vocab as int),
        r < vocab,
{
    assert(uniform * vocab < 0x20_0000_0000_0000 * 0x1_0000_0000) by (nonlinear_arith)
        requires
            uniform < 0x20_0000_0000_0000,
            0 < vocab <= 0x1_0000_0000,
    ;
    let q: u128 = uniform as u128 * vocab as u128;
    let unit: u128 = unit_of(q);
    let f: u128 = q / unit;
    let rest: u128 = q % unit;
    proof {
        vstd::arithmetic::div_mod::lemma_fundamental_div_mod(q as int, unit as int);
        assert(f * unit <= q) by (nonlinear_arith)
            requires
                q == unit * f + rest,
                rest >= 0,
        ;
        assert((f + 1) * unit == f * unit + unit) by (nonlinear_arith);
    }
    let rounded: u128 = if 2 * rest < unit || (2 * rest == unit && f % 2 == 0) {
        f * unit
    } else {
        (f + 1) * unit
    };
    let token: u128 = rounded / 0x20_0000_0000_0000;
    if token < vocab as u128 {
        token as u32
    } else {
        (vocab - 1) as u32
    }
}

/// Token ids drawn from a seed.
pub fn seeded_token_ids(seed: u64, count: usize, vocab: usize) -> (r: Vec<u32>)
    requires
        0 < vocab <= 0x1_0000_0000,
    ensures
        r.len() == count,
        forall|i: int|
            0 <= i < count ==> #[trigger] r@[i] == scaled_token(
                uniform53(seed ^ 0xB00C, i as u64),
                vocab as int,
            ) && r@[i] < vocab,
{
    let salted: u64 = seed ^ 0xB00C;
    let mut out: Vec<u32> = Vec::new();
    let mut i: usize = 0;
    while i < count
        invariant
            i <= count,
            0 < vocab <= 0x1_0000_0000,
            salted == seed ^ 0xB00C,
            out.len() == i,
            forall|j: int|
                0 <= j < i ==> #[trigger] out@[j] == scaled_token(
                    uniform53(seed ^ 0xB00C, j as u64),
                    vocab as int,
                ) && out@[j] < vocab,
        decreases count - i,
    {
        let u: u64 = next_uniform(salted, i as u64);
        out.push(scale_token(u, vocab));
        i = i + 1;
    }
    out
}

/// The little-endian bytes of 16-bit values.
pub open spec fn le_bytes16(bits: Seq<u16>) -> Seq<u8> {
    Seq::new(
        2 * bits.len(),
        |i: int|
            if i % 2 == 0 {
                (bits[i / 2] % 256) as u8
            } else {
                (bits[i / 2] / 256) as u8
            },
    )
}

/// The little-endian bytes of 16-bit values.
pub fn bf16_bytes(bits: &Vec<u16>) -> (r: Vec<u8>)
    ensures
        r@ == le_bytes16(bits@),
{
    let mut bytes: Vec<u8> = Vec::new();
    let mut i: usize = 0;
    while i < bits.len()
        invariant
            i <= bits.len(),
            bytes.len() == 2 * i,
            forall|j: int| 0 <= j < 2 * i ==> #[trigger] bytes@[j] == le_bytes16(bits@)[j],
        decreases bits.len() - i,
    {
        bytes.push((bits[i] % 256) as u8);
        bytes.push((bits[i] / 256) as u8);
        i = i + 1;
    }
    assert(bytes@ =~= le_bytes16(bits@));
    bytes
}

/// The 16-bit values that bytes hold, lowest byte first; a last odd byte is
/// left out.
pub fn bf16_bits(bytes: &Vec<u8>) -> (r: Vec<u16>)
    ensures
        r.len() == bytes.len() / 2,
        forall|i: int|
            0 <= i < r.len() ==> #[trigger] r@[i] == bytes@[2 * i] + 256 * bytes@[2 * i + 1],
{
    let n: usize = bytes.len() / 2;
    let mut bits: Vec<u16> = Vec::new();
    let mut i: usize = 0;
    while i < n
        invariant
            i <= n,
            n == bytes.len() / 2,
            bits.len() == i,
            forall|j: int|
                0 <= j < i ==> #[trigger] bits@[j] == bytes@[2 * j] + 256 * bytes@[2 * j + 1],
        decreases n - i,
    {
        bits.push(bytes[2 * i] as u16 + 256 * bytes[2 * i + 1] as u16);
        i = i + 1;
    }
    bits
}

/// Writing 16-bit values as bytes loses nothing: reading them back gives the
/// values.
pub proof fn bytes_give_the_bits_back(bits: Seq<u16>, i: int)
    requires
        0 <= i < bits.len(),
    ensures
        le_bytes16(bits).len() / 2 == bits.len(),
        bits[i] == le_bytes16(bits)[2 * i] + 256 * le_bytes16(bits)[2 * i + 1],
{
    assert((2 * i) / 2 == i && (2 * i + 1) / 2 == i);
}

/// A 32-bit value's unsigned twin: two's complement.
pub open spec fn unsigned32(v: i32) -> int {
    if v < 0 {
        v + 0x1_0000_0000
    } else {
        v as int
    }
}

/// The little-endian bytes of signed 32-bit values.
pub open spec fn le_bytes32(values: Seq<i32>) -> Seq<u8> {
    Seq::new(
        4 * values.len(),
        |i: int|
            (if i % 4 == 0 {
                unsigned32(values[i / 4]) % 256
            } else if i % 4 == 1 {
                unsigned32(values[i / 4]) / 0x100 % 256
            } else if i % 4 == 2 {
                unsigned32(values[i / 4]) / 0x1_0000 % 256
            } else {
                unsigned32(values[i / 4]) / 0x100_0000
            }) as u8,
    )
}

fn i32_bytes(values: &Vec<i32>) -> (r: Vec<u8>)
    ensures
        r@ == le_bytes32(values@),
{
    let mut bytes: Vec<u8> = Vec::new();
    let mut i: usize = 0;
    while i < values.len()
        invariant
            i <= values.len(),
            bytes.len() == 4 * i,
            forall|j: int| 0 <= j < 4 * i ==> #[trigger] bytes@[j] == le_bytes32(values@)[j],
        decreases values.len() - i,
    {
        let v: i32 = values[i];
        let u: u64 = if v < 0 {
            (v as i64 + 0x1_0000_0000) as u64
        } else {
            v as u64
        };
        bytes.push((u % 256) as u8);
        bytes.push((u / 0x100 % 256) as u8);
        bytes.push((u / 0x1_0000 % 256) as u8);
        bytes.push((u / 0x100_0000) as u8);
        i = i + 1;
    }
    assert(bytes@ =~= le_bytes32(values@));
    bytes
}

/// Writing 32-bit values as bytes loses nothing: the four bytes of a value,
/// lowest first, sum up to it, and to it and the whole range where it is
/// negative.
pub proof fn four_bytes_give_the_value_back(values: Seq<i32>, i: int)
    requires
        0 <= i < values.len(),
    ensures
        le_bytes32(values).len() == 4 * values.len(),
        ({
            let b = le_bytes32(values);
            let sum = b[4 * i] + 0x100 * b[4 * i + 1] + 0x1_0000 * b[4 * i + 2] + 0x100_0000
                * b[4 * i + 3];
            sum == (if values[i] < 0 {
                values[i] + 0x1_0000_0000
            } else {
                values[i] as int
            })
        }),
{
    let u = unsigned32(values[i]);
    assert((4 * i) / 4 == i && (4 * i + 1) / 4 == i && (4 * i + 2) / 4 == i && (4 * i + 3) / 4
        == i);
    assert((4 * i) % 4 == 0 && (4 * i + 1) % 4 == 1 && (4 * i + 2) % 4 == 2 && (4 * i + 3) % 4
        == 3);
    assert(0 <= u / 0x100_0000 < 256);
    assert(u == u % 256 + 0x100 * (u / 0x100 % 256) + 0x1_0000 * (u / 0x1_0000 % 256) + 0x100_0000
        * (u / 0x100_0000));
}

/// The SHA-256 hash of bytes.
pub uninterp spec fn sha256_of(data: Seq<u8>) -> Seq<u8>;

/// Calls `Digest::digest` of `sha2::Sha256`: the 32 bytes of the hash are a
/// function of the data alone, named `sha256_of`.
#[verifier::external_body]
pub(crate) fn sha256(data: &[u8]) -> (r: Vec<u8>)
    ensures
        r@ == sha256_of(data@),
        r@.len() == 32,
{
    <sha2::Sha256 as sha2::Digest>::digest(data).to_vec()
}

/// The lower-case character of a hexadecimal digit.
pub open spec fn hex_char(d: int) -> char {
    if d < 10 {
        (48 + d) as char
    } else {
        (87 + d) as char
    }
}

/// Bytes as hexadecimal digits, the higher four bits first.
pub open spec fn hex_digits(data: Seq<u8>) -> Seq<char> {
    Seq::new(
        2 * data.len(),
        |i: int|
            if i % 2 == 0 {
                hex_char(data[i / 2] as int / 16)
            } else {
                hex_char(data[i / 2] as int % 16)
            },
    )
}

/// What a lower-case hexadecimal character stands for.
pub open spec fn hex_value(c: char) -> int {
    if '0' <= c <= '9' {
        c as int - '0' as int
    } else {
        10 + (c as int - 'a' as int)
    }
}

/// Hexadecimal digits lose nothing: each pair of them gives its byte back, and
/// every one is a decimal digit or a letter from a to f.
pub proof fn two_digits_give_the_byte_back(data: Seq<u8>, i: int)
    requires
        0 <= i < data.len(),
    ensures
        hex_digits(data).len() == 2 * data.len(),
        data[i] == 16 * hex_value(hex_digits(data)[2 * i]) + hex_value(hex_digits(data)[2 * i + 1]),
        forall|j: int|
            2 * i <= j <= 2 * i + 1 ==> ('0' <= #[trigger] hex_digits(data)[j] <= '9' || 'a'
                <= hex_digits(data)[j] <= 'f'),
{
    assert((2 * i) / 2 == i && (2 * i + 1) / 2 == i);
    let high = data[i] as int / 16;
    let low = data[i] as int % 16;
    assert(0 <= high < 16 && 0 <= low < 16);
    assert(hex_digits(data)[2 * i] == hex_char(high));
    assert(hex_digits(data)[2 * i + 1] == hex_char(low));
}

/// Calls `hex::encode`: two lower-case digits for each byte.
#[verifier::external_body]
pub(crate) fn hex_text(data: &[u8]) -> (r: String)
    ensures
        r@ == hex_digits(data@),
{
    hex::encode(data)
}

/// The digest of bytes: the first eight bytes of their hash, in hexadecimal.
pub open spec fn digest_of(data: Seq<u8>) -> Seq<char> {
    hex_digits(sha256_of(data).subrange(0, 8))
}

/// The text of a hash's first eight bytes.
pub fn digest_text(hash: &Vec<u8>) -> (r: String)
    requires
        hash.len() >= 8,
    ensures
        r@ == hex_digits(hash@.subrange(0, 8)),
        r@.len() == 16,
{
    hex_text(vstd::slice::slice_subrange(hash.as_slice(), 0, 8))
}

/// The digest of bfloat16 values, given by their bits.
pub fn bf16_digest(bits: &Vec<u16>) -> (r: String)
    ensures
        r@ == digest_of(le_bytes16(bits@)),
        r@ == hex_digits(sha256_of(le_bytes16(bits@)).subrange(0, 8)),
{
    let bytes: Vec<u8> = bf16_bytes(bits);
    let hash: Vec<u8> = sha256(bytes.as_slice());
    digest_text(&hash)
}

/// The digest of signed 32-bit values.
pub fn i32_digest(values: &Vec<i32>) -> (r: String)
    ensures
        r@ == digest_of(le_bytes32(values@)),
        r@ == hex_digits(sha256_of(le_bytes32(values@)).subrange(0, 8)),
{
    let bytes: Vec<u8> = i32_bytes(values);
    let hash: Vec<u8> = sha256(bytes.as_slice());
    digest_text(&hash)
}

/// The values of a list, with or without the negative ones.
pub open spec fn values_of(list: Seq<i32>, negative: bool) -> Set<i32> {
    list.to_set().filter(|v: i32| negative || v >= 0)
}

/// The values of a list are its elements, the negative ones left out where
/// they are not asked for.
pub proof fn values_are_the_elements(list: Seq<i32>, negative: bool, v: i32)
    ensures
        values_of(list, negative).contains(v) <==> list.contains(v) && (negative || v >= 0),
        values_of(list, negative).finite(),
        values_of(list, negative).len() <= list.len(),
{
    list.lemma_cardinality_of_set();
    vstd::set_lib::lemma_len_subset(values_of(list, negative), list.to_set());
}

fn holds(list: &Vec<i32>, value: i32) -> (r: bool)
    ensures
        r == list@.contains(value),
{
    let mut i: usize = 0;
    while i < list.len()
        invariant
            i <= list.len(),
            forall|j: int| 0 <= j < i ==> #[trigger] list@[j] != value,
        decreases list.len() - i,
    {
        if list[i] == value {
            assert(list@[i as int] == value);
            return true;
        }
        i = i + 1;
    }
    false
}

/// The values of a list, each once.
fn distinct(list: &Vec<i32>, negative: bool) -> (r: Vec<i32>)
    ensures
        r@.no_duplicates(),
        r@.to_set() == values_of(list@, negative),
        r@.len() == values_of(list@, negative).len(),
{
    let mut out: Vec<i32> = Vec::new();
    let mut i: usize = 0;
    while i < list.len()
        invariant
            i <= list.len(),
            out@.no_duplicates(),
            forall|v: i32| #[trigger]
                out@.contains(v) <==> list@.subrange(0, i as int).contains(v) && (negative || v
                    >= 0),
        decreases list.len() - i,
    {
        let v: i32 = list[i];
        let ghost before = out@;
        let ghost shorter = list@.subrange(0, i as int);
        let ghost longer = list@.subrange(0, i + 1);
        assert(longer =~= shorter.push(v));
        assert forall|w: i32| longer.contains(w) <==> shorter.contains(w) || w == v by {
            if shorter.contains(w) {
                let k = choose|k: int| 0 <= k < shorter.len() && shorter[k] == w;
                assert(longer[k] == w);
            }
            if w == v {
                assert(longer[i as int] == w);
            }
            if longer.contains(w) && w != v {
                let k = choose|k: int| 0 <= k < longer.len() && longer[k] == w;
                assert(shorter[k] == w);
            }
        }
        if (negative || v >= 0) && !holds(&out, v) {
            out.push(v);
            assert forall|w: i32| #[trigger] out@.contains(w) <==> before.contains(w) || w
                == v by {
                if before.contains(w) {
                    let k = choose|k: int| 0 <= k < before.len() && before[k] == w;
                    assert(out@[k] == w);
                }
                if w == v {
                    assert(out@[before.len() as int] == w);
                }
                if out@.contains(w) && w != v {
                    let k = choose|k: int| 0 <= k < out@.len() && out@[k] == w;
                    assert(before[k] == w);
                }
            }
        }
        i = i + 1;
    }
    proof {
        assert(list@.subrange(0, i as int) =~= list@);
        assert(out@.to_set() =~= values_of(list@, negative));
        out@.unique_seq_to_set();
    }
    out
}

/// How many values two lists without repetitions share.
fn shared(a: &Vec<i32>, b: &Vec<i32>) -> (r: usize)
    requires
        a@.no_duplicates(),
    ensures
        r == a@.to_set().intersect(b@.to_set()).len(),
{
    let ghost mut common: Seq<i32> = Seq::empty();
    let mut count: usize = 0;
    let mut i: usize = 0;
    while i < a.len()
        invariant
            i <= a.len(),
            a@.no_duplicates(),
            count == common.len(),
            count <= i,
            common.no_duplicates(),
            forall|v: i32| #[trigger]
                common.contains(v) <==> a@.subrange(0, i as int).contains(v) && b@.contains(v),
        decreases a.len() - i,
    {
        let v: i32 = a[i];
        let ghost before = common;
        let ghost shorter = a@.subrange(0, i as int);
        let ghost longer = a@.subrange(0, i + 1);
        assert(longer =~= shorter.push(v));
        assert(!shorter.contains(v)) by {
            if shorter.contains(v) {
                let k = choose|k: int| 0 <= k < shorter.len() && shorter[k] == v;
                assert(a@[k] == a@[i as int]);
            }
        }
        assert forall|w: i32| longer.contains(w) <==> shorter.contains(w) || w == v by {
            if shorter.contains(w) {
                let k = choose|k: int| 0 <= k < shorter.len() && shorter[k] == w;
                assert(longer[k] == w);
            }
            if w == v {
                assert(longer[i as int] == w);
            }
            if longer.contains(w) && w != v {
                let k = choose|k: int| 0 <= k < longer.len() && longer[k] == w;
                assert(shorter[k] == w);
            }
        }
        if holds(b, v) {
            proof {
                assert(!before.contains(v));
                common = common.push(v);
                assert forall|w: i32| #[trigger] common.contains(w) <==> before.contains(w) || w
                    == v by {
                    if before.contains(w) {
                        let k = choose|k: int| 0 <= k < before.len() && before[k] == w;
                        assert(common[k] == w);
                    }
                    if w == v {
                        assert(common[before.len() as int] == w);
                    }
                    if common.contains(w) && w != v {
                        let k = choose|k: int| 0 <= k < common.len() && common[k] == w;
                        assert(before[k] == w);
                    }
                }
            }
            count = count + 1;
        }
        i = i + 1;
    }
    proof {
        assert(a@.subrange(0, i as int) =~= a@);
        assert(common.to_set() =~= a@.to_set().intersect(b@.to_set()));
        common.unique_seq_to_set();
    }
    count
}

/// How far the selected tokens agree with the reference's.
#[derive(Clone, Copy, Debug, PartialEq, Eq, Structural)]
pub struct TopkOverlap {
    pub overlap: usize,
    pub selected: usize,
    pub reference: usize,
    /// The agreement that is asked for.
    pub required: usize,
}

/// Holds the selected tokens against the reference's: one may differ, as a tie
/// between two logits may be broken either way. Padding entries are negative
/// and left out.
pub fn check_topk_overlap(topk: &Vec<i32>, reference: &Vec<i32>) -> (r: Result<
    TopkOverlap,
    TopkOverlap,
>)
    ensures
        ({
            let mine = values_of(topk@, false);
            let theirs = values_of(reference@, true);
            let (good, o) = match r {
                Ok(o) => (true, o),
                Err(o) => (false, o),
            };
            &&& o.overlap == mine.intersect(theirs).len()
            &&& o.selected == mine.len()
            &&& o.reference == theirs.len()
            &&& o.required == (if mine.len() == 0 && theirs.len() == 0 {
                0int
            } else if mine.len() >= theirs.len() {
                mine.len() - 1
            } else {
                theirs.len() - 1
            })
            &&& good == (o.overlap >= o.required)
        }),
{
    let mine: Vec<i32> = distinct(topk, false);
    let theirs: Vec<i32> = distinct(reference, true);
    let overlap: usize = shared(&mine, &theirs);
    let larger: usize = if mine.len() >= theirs.len() {
        mine.len()
    } else {
        theirs.len()
    };
    let required: usize = if larger == 0 {
        0
    } else {
        larger - 1
    };
    let o = TopkOverlap { overlap, selected: mine.len(), reference: theirs.len(), required };
    if overlap >= required {
        Ok(o)
    } else {
        Err(o)
    }
}

} // verus!
