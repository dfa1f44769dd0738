//! Decimal numbers and byte sizes in names, messages and arguments.
use vstd::prelude::*;
use vstd::string::*;

verus! {

/// The character of a decimal digit.
pub open spec fn digit_char(d: int) -> char {
    (48 + d) as char
}

/// Whether a character is a decimal digit.
pub open spec fn is_digit(c: char) -> bool {
    '0' <= c <= '9'
}

/// The decimal digits of a number, without leading zeros.
pub open spec fn decimal(n: nat) -> Seq<char>
    decreases n,
{
    if n < 10 {
        seq![digit_char(n as int)]
    } else {
        decimal(n / 10).push(digit_char((n % 10) as int))
    }
}

/// The number that a sequence of digits writes down.
pub open spec fn digits_value(s: Seq<char>) -> nat
    decreases s.len(),
{
    if s.len() == 0 {
        0
    } else {
        digits_value(s.drop_last()) * 10 + (s.last() as nat - 48) as nat
    }
}

/// Whether every character is a digit.
pub open spec fn all_digits(s: Seq<char>) -> bool {
    forall|i: int| 0 <= i < s.len() ==> is_digit(#[trigger] s[i])
}

/// The digits of an unsigned number: one leading `+` is dropped unless it
/// stands alone.
pub open spec fn unsigned_digits(s: Seq<char>) -> Seq<char> {
    if s.len() > 1 && s[0] == '+' {
        s.subrange(1, s.len() as int)
    } else {
        s
    }
}

/// The unsigned number that a text writes down, if it is one that is at most
/// `max`.
pub open spec fn unsigned_value(s: Seq<char>, max: nat) -> Option<nat> {
    let digits = unsigned_digits(s);
    if digits.len() > 0 && all_digits(digits) && digits_value(digits) <= max {
        Some(digits_value(digits))
    } else {
        None
    }
}

/// The position of the last occurrence of `c`, if there is one.
pub open spec fn is_last_position(s: Seq<char>, c: char, at: int) -> bool {
    &&& 0 <= at < s.len()
    &&& s[at] == c
    &&& forall|j: int| at < j < s.len() ==> #[trigger] s[j] != c
}

/// The position of the first occurrence of `c`, if there is one.
pub open spec fn is_first_position(s: Seq<char>, c: char, at: int) -> bool {
    &&& 0 <= at < s.len()
    &&& s[at] == c
    &&& forall|j: int| 0 <= j < at ==> #[trigger] s[j] != c
}

/// Whether `s` starts with `prefix`.
pub open spec fn starts_with(s: Seq<char>, prefix: Seq<char>) -> bool {
    prefix.len() <= s.len() && s.subrange(0, prefix.len() as int) == prefix
}

/// What follows the first `n` characters.
pub open spec fn rest_from(s: Seq<char>, n: int) -> Seq<char> {
    s.subrange(n, s.len() as int)
}

/// Whether a character is white space (the Unicode property `White_Space`).
pub open spec fn is_space(c: char) -> bool {
    ||| '\t' <= c <= '\r'
    ||| c == ' '
    ||| c == '\u{85}'
    ||| c == '\u{a0}'
    ||| c == '\u{1680}'
    ||| '\u{2000}' <= c <= '\u{200a}'
    ||| c == '\u{2028}'
    ||| c == '\u{2029}'
    ||| c == '\u{202f}'
    ||| c == '\u{205f}'
    ||| c == '\u{3000}'
}

/// A text without the white space in front of it.
pub open spec fn trimmed_start(s: Seq<char>) -> Seq<char>
    decreases s.len(),
{
    if s.len() > 0 && is_space(s[0]) {
        trimmed_start(s.subrange(1, s.len() as int))
    } else {
        s
    }
}

/// A text without the white space behind it.
pub open spec fn trimmed_end(s: Seq<char>) -> Seq<char>
    decreases s.len(),
{
    if s.len() > 0 && is_space(s.last()) {
        trimmed_end(s.drop_last())
    } else {
        s
    }
}

/// A text without the white space around it.
pub open spec fn trimmed(s: Seq<char>) -> Seq<char> {
    trimmed_end(trimmed_start(s))
}

/// The pieces of a text between the occurrences of `c`.
pub open spec fn split(s: Seq<char>, c: char) -> Seq<Seq<char>>
    decreases s.len(),
{
    if s.len() == 0 {
        seq![s]
    } else if s[0] == c {
        seq![Seq::<char>::empty()] + split(s.subrange(1, s.len() as int), c)
    } else {
        let rest = split(s.subrange(1, s.len() as int), c);
        rest.update(0, seq![s[0]] + rest[0])
    }
}

/// A digit as text.
fn digit_text(d: u64) -> (t: &'static str)
    requires
        d < 10,
    ensures
        t@ == seq![digit_char(d as int)],
{
    proof {
        reveal_strlit("0");
        reveal_strlit("1");
        reveal_strlit("2");
        reveal_strlit("3");
        reveal_strlit("4");
        reveal_strlit("5");
        reveal_strlit("6");
        reveal_strlit("7");
        reveal_strlit("8");
        reveal_strlit("9");
    }
    match d {
        0 => "0",
        1 => "1",
        2 => "2",
        3 => "3",
        4 => "4",
        5 => "5",
        6 => "6",
        7 => "7",
        8 => "8",
        _ => "9",
    }
}

/// A number in decimal.
pub fn decimal_text(n: u64) -> (t: String)
    ensures
        t@ == decimal(n as nat),
    decreases n,
{
    if n < 10 {
        String::from_str(digit_text(n))
    } else {
        let mut t = decimal_text(n / 10);
        t.append(digit_text(n % 10));
        proof {
            assert(decimal(n as nat) == decimal((n / 10) as nat).push(
                digit_char((n % 10) as int),
            ));
        }
        t
    }
}

/// A signed number in decimal.
pub open spec fn signed_decimal(n: int) -> Seq<char> {
    if n < 0 {
        "-"@ + decimal((-n) as nat)
    } else {
        decimal(n as nat)
    }
}

/// A signed number in decimal.
pub fn signed_text(n: i64) -> (t: String)
    ensures
        t@ == signed_decimal(n as int),
        n >= 0 ==> t@ == decimal(n as nat),
        n < 0 ==> t@ == "-"@ + decimal((-n) as nat),
{
    if n < 0 {
        let mut t = String::from_str("-");
        t.append(decimal_text((-(n as i128)) as u64).as_str());
        t
    } else {
        decimal_text(n as u64)
    }
}

/// Numbers with commas between them.
pub open spec fn numbers_joined(numbers: Seq<u64>) -> Seq<char>
    decreases numbers.len(),
{
    if numbers.len() == 0 {
        Seq::empty()
    } else if numbers.len() == 1 {
        decimal(numbers[0] as nat)
    } else {
        numbers_joined(numbers.drop_last()) + ", "@ + decimal(numbers.last() as nat)
    }
}

/// A list of numbers in brackets.
pub open spec fn number_list(numbers: Seq<u64>) -> Seq<char> {
    "["@ + numbers_joined(numbers) + "]"@
}

/// The same numbers, as 64-bit numbers.
pub open spec fn widened(numbers: Seq<usize>) -> Seq<u64> {
    Seq::new(numbers.len(), |i: int| numbers[i] as u64)
}

/// A list of numbers in brackets.
pub fn usize_list_text(numbers: &Vec<usize>) -> (t: String)
    ensures
        t@ == number_list(widened(numbers@)),
{
    let mut wide: Vec<u64> = Vec::new();
    let mut i: usize = 0;
    while i < numbers.len()
        invariant
            i <= numbers.len(),
            wide.len() == i,
            forall|k: int| 0 <= k < i ==> #[trigger] wide@[k] == numbers@[k] as u64,
        decreases numbers.len() - i,
    {
        wide.push(numbers[i] as u64);
        i = i + 1;
    }
    assert(wide@ =~= widened(numbers@));
    number_list_text(&wide)
}

/// A list of numbers in brackets.
pub fn number_list_text(numbers: &Vec<u64>) -> (t: String)
    ensures
        t@ == number_list(numbers@),
{
    let mut t = String::from_str("[");
    let mut i: usize = 0;
    proof {
        assert(t@ =~= "["@ + numbers_joined(numbers@.subrange(0, 0)));
    }
    while i < numbers.len()
        invariant
            i <= numbers.len(),
            t@ == "["@ + numbers_joined(numbers@.subrange(0, i as int)),
        decreases numbers.len() - i,
    {
        let ghost before = numbers@.subrange(0, i as int);
        let ghost after = numbers@.subrange(0, i + 1);
        assert(after.drop_last() =~= before);
        assert(after.last() == numbers@[i as int]);
        let ghost joined = numbers_joined(before);
        let digits = decimal_text(numbers[i]);
        if i > 0 {
            t.append(", ");
            t.append(digits.as_str());
            assert((("["@ + joined) + ", "@) + digits@ =~= "["@ + (joined + ", "@ + digits@));
        } else {
            assert(joined =~= Seq::<char>::empty());
            t.append(digits.as_str());
            assert(("["@ + joined) + digits@ =~= "["@ + digits@);
        }
        assert(t@ == "["@ + numbers_joined(after));
        i = i + 1;
    }
    assert(numbers@.subrange(0, numbers.len() as int) =~= numbers@);
    t.append("]");
    t
}

/// A pair of numbers in round brackets.
pub open spec fn pair_shown(pair: (u64, u64)) -> Seq<char> {
    "("@ + decimal(pair.0 as nat) + ", "@ + decimal(pair.1 as nat) + ")"@
}

/// Pairs with commas between them.
pub open spec fn pairs_joined(pairs: Seq<(u64, u64)>) -> Seq<char>
    decreases pairs.len(),
{
    if pairs.len() == 0 {
        Seq::empty()
    } else if pairs.len() == 1 {
        pair_shown(pairs[0])
    } else {
        pairs_joined(pairs.drop_last()) + ", "@ + pair_shown(pairs.last())
    }
}

/// A list of pairs in brackets.
pub open spec fn pair_list(pairs: Seq<(u64, u64)>) -> Seq<char> {
    "["@ + pairs_joined(pairs) + "]"@
}

/// A list of pairs in brackets.
pub fn pair_list_text(pairs: &Vec<(u64, u64)>) -> (t: String)
    ensures
        t@ == pair_list(pairs@),
{
    let mut t = String::from_str("[");
    let mut i: usize = 0;
    proof {
        assert(t@ =~= "["@ + pairs_joined(pairs@.subrange(0, 0)));
    }
    while i < pairs.len()
        invariant
            i <= pairs.len(),
            t@ == "["@ + pairs_joined(pairs@.subrange(0, i as int)),
        decreases pairs.len() - i,
    {
        let ghost before = pairs@.subrange(0, i as int);
        let ghost after = pairs@.subrange(0, i + 1);
        assert(after.drop_last() =~= before);
        assert(after.last() == pairs@[i as int]);
        let ghost joined = pairs_joined(before);
        let (first, second) = pairs[i];
        let mut shown = String::from_str("(");
        shown.append(decimal_text(first).as_str());
        shown.append(", ");
        shown.append(decimal_text(second).as_str());
        shown.append(")");
        assert(shown@ =~= pair_shown(pairs@[i as int]));
        if i > 0 {
            t.append(", ");
            t.append(shown.as_str());
            assert((("["@ + joined) + ", "@) + shown@ =~= "["@ + (joined + ", "@ + shown@));
        } else {
            assert(joined =~= Seq::<char>::empty());
            t.append(shown.as_str());
            assert(("["@ + joined) + shown@ =~= "["@ + shown@);
        }
        assert(t@ == "["@ + pairs_joined(after));
        i = i + 1;
    }
    assert(pairs@.subrange(0, pairs.len() as int) =~= pairs@);
    t.append("]");
    t
}

proof fn lemma_digits_value_prefix(s: Seq<char>, i: int)
    requires
        0 <= i <= s.len(),
        all_digits(s),
    ensures
        digits_value(s.subrange(0, i)) <= digits_value(s),
    decreases s.len() - i,
{
    if i < s.len() {
        lemma_digits_value_prefix(s, i + 1);
        let longer = s.subrange(0, i + 1);
        assert(longer.drop_last() =~= s.subrange(0, i));
    } else {
        assert(s.subrange(0, i) =~= s);
    }
}

/// Reads an unsigned decimal number of 64 bits.
pub fn parse_u64(s: &str) -> (r: Option<u64>)
    ensures
        r == (match unsigned_value(s@, u64::MAX as nat) {
            Some(v) => Some(v as u64),
            None => None::<u64>,
        }),
{
    let n: usize = s.unicode_len();
    let start: usize = if n > 1 && s.get_char(0) == '+' {
        1
    } else {
        0
    };
    let ghost digits = unsigned_digits(s@);
    assert(digits =~= s@.subrange(start as int, n as int));
    if start == n {
        return None;
    }
    let mut acc: u64 = 0;
    let mut i: usize = start;
    while i < n
        invariant
            n == s@.len(),
            start <= i <= n,
            start < n,
            digits == unsigned_digits(s@),
            digits =~= s@.subrange(start as int, n as int),
            forall|j: int| 0 <= j < i - start ==> is_digit(#[trigger] digits[j]),
            acc == digits_value(digits.subrange(0, i - start)),
        decreases n - i,
    {
        let c = s.get_char(i);
        assert(digits[i - start] == c);
        if !(c >= '0' && c <= '9') {
            return None;
        }
        let d: u64 = (c as u32 - 48) as u64;
        let ghost longer = digits.subrange(0, i + 1 - start);
        assert(longer.drop_last() =~= digits.subrange(0, i - start));
        assert(longer.last() == c);
        assert(digits_value(longer) == acc * 10 + d);
        proof {
            if all_digits(digits) {
                lemma_digits_value_prefix(digits, i + 1 - start);
            }
        }
        let shifted = match acc.checked_mul(10) {
            Some(v) => v,
            None => {
                return None;
            },
        };
        acc = match shifted.checked_add(d) {
            Some(v) => v,
            None => {
                return None;
            },
        };
        i = i + 1;
    }
    assert(digits.subrange(0, n - start) =~= digits);
    Some(acc)
}

/// Reads an unsigned decimal number.
pub fn parse_usize(s: &str) -> (r: Option<usize>)
    ensures
        r == (match unsigned_value(s@, usize::MAX as nat) {
            Some(v) => Some(v as usize),
            None => None::<usize>,
        }),
{
    match parse_u64(s) {
        Some(v) => if v <= usize::MAX as u64 {
            Some(v as usize)
        } else {
            None
        },
        None => None,
    }
}

/// Finds the last occurrence of a character.
pub fn last_position(s: &str, c: char) -> (r: Option<usize>)
    ensures
        match r {
            Some(at) => is_last_position(s@, c, at as int),
            None => forall|j: int| 0 <= j < s@.len() ==> #[trigger] s@[j] != c,
        },
        r matches Some(at) ==> at < s@.len() && s@[at as int] == c && forall|j: int|
            at < j < s@.len() ==> #[trigger] s@[j] != c,
{
    let mut i: usize = s.unicode_len();
    while i > 0
        invariant
            i <= s@.len(),
            forall|j: int| i <= j < s@.len() ==> #[trigger] s@[j] != c,
        decreases i,
    {
        i = i - 1;
        if s.get_char(i) == c {
            return Some(i);
        }
    }
    None
}

/// Finds the first occurrence of a character.
pub fn first_position(s: &str, c: char) -> (r: Option<usize>)
    ensures
        match r {
            Some(at) => is_first_position(s@, c, at as int),
            None => forall|j: int| 0 <= j < s@.len() ==> #[trigger] s@[j] != c,
        },
        r matches Some(at) ==> at < s@.len() && s@[at as int] == c && forall|j: int|
            0 <= j < at ==> #[trigger] s@[j] != c,
{
    let n: usize = s.unicode_len();
    let mut i: usize = 0;
    while i < n
        invariant
            n == s@.len(),
            i <= n,
            forall|j: int| 0 <= j < i ==> #[trigger] s@[j] != c,
        decreases n - i,
    {
        if s.get_char(i) == c {
            return Some(i);
        }
        i = i + 1;
    }
    None
}

/// Whether two texts are equal.
pub fn same_text(a: &str, b: &str) -> (r: bool)
    ensures
        r == (a@ == b@),
{
    let n: usize = a.unicode_len();
    if n != b.unicode_len() {
        return false;
    }
    let mut i: usize = 0;
    while i < n
        invariant
            n == a@.len(),
            n == b@.len(),
            i <= n,
            forall|j: int| 0 <= j < i ==> #[trigger] a@[j] == b@[j],
        decreases n - i,
    {
        if a.get_char(i) != b.get_char(i) {
            return false;
        }
        i = i + 1;
    }
    assert(a@ =~= b@);
    true
}

/// Drops `prefix` from the front of `s`, if it is there.
pub fn after_prefix<'a>(s: &'a str, prefix: &str) -> (r: Option<&'a str>)
    ensures
        match r {
            Some(rest) => starts_with(s@, prefix@) && rest@ == rest_from(
                s@,
                prefix@.len() as int,
            ),
            None => !starts_with(s@, prefix@),
        },
{
    let n: usize = s.unicode_len();
    let k: usize = prefix.unicode_len();
    if k > n {
        return None;
    }
    if same_text(s.substring_char(0, k), prefix) {
        Some(s.substring_char(k, n))
    } else {
        None
    }
}

/// Whether `part` stands in `s` at a position.
pub open spec fn stands_at(s: Seq<char>, part: Seq<char>, at: int) -> bool {
    0 <= at && at + part.len() <= s.len() && s.subrange(at, at + part.len()) == part
}

/// Whether `part` stands in `s` anywhere.
pub open spec fn holds_text(s: Seq<char>, part: Seq<char>) -> bool {
    exists|at: int| stands_at(s, part, at)
}

/// A text holds another exactly where some piece of it reads as the other.
pub proof fn a_held_text_is_a_piece(s: Seq<char>, part: Seq<char>)
    ensures
        holds_text(s, part) <==> exists|front: Seq<char>, back: Seq<char>|
            s == #[trigger] (front + part + back),
{
    if holds_text(s, part) {
        let at = choose|at: int| stands_at(s, part, at);
        let front = s.subrange(0, at);
        let back = s.subrange(at + part.len(), s.len() as int);
        assert(s =~= front + part + back);
    }
    if exists|front: Seq<char>, back: Seq<char>| s == #[trigger] (front + part + back) {
        let (front, back) = choose|front: Seq<char>, back: Seq<char>|
            s == #[trigger] (front + part + back);
        assert(s.subrange(front.len() as int, front.len() as int + part.len()) =~= part);
        assert(stands_at(s, part, front.len() as int));
    }
}

/// Whether `part` stands in `s` anywhere.
pub fn contains_text(s: &str, part: &str) -> (r: bool)
    ensures
        r == holds_text(s@, part@),
{
    let n: usize = s.unicode_len();
    let k: usize = part.unicode_len();
    if k > n {
        return false;
    }
    let mut at: usize = 0;
    while at <= n - k
        invariant
            n == s@.len(),
            k == part@.len(),
            k <= n,
            at <= n - k + 1,
            forall|j: int| 0 <= j < at ==> !#[trigger] stands_at(s@, part@, j),
        decreases n - k + 1 - at,
    {
        if same_text(s.substring_char(at, at + k), part) {
            assert(stands_at(s@, part@, at as int));
            return true;
        }
        if at == n - k {
            return false;
        }
        at = at + 1;
    }
    false
}

fn space_char(c: char) -> (r: bool)
    ensures
        r == is_space(c),
{
    (c >= '\t' && c <= '\r') || c == ' ' || c == '\u{85}' || c == '\u{a0}' || c == '\u{1680}' || (c
        >= '\u{2000}' && c <= '\u{200a}') || c == '\u{2028}' || c == '\u{2029}' || c == '\u{202f}'
        || c == '\u{205f}' || c == '\u{3000}'
}

/// Drops the white space around a text.
pub fn trim(s: &str) -> (r: &str)
    ensures
        r@ == trimmed(s@),
{
    let n: usize = s.unicode_len();
    let mut a: usize = 0;
    assert(rest_from(s@, 0) =~= s@);
    while a < n && space_char(s.get_char(a))
        invariant
            n == s@.len(),
            a <= n,
            trimmed_start(rest_from(s@, a as int)) == trimmed_start(s@),
        decreases n - a,
    {
        assert(rest_from(s@, a as int).subrange(1, n - a) =~= rest_from(s@, a + 1));
        a = a + 1;
    }
    let ghost start = trimmed_start(s@);
    assert(start == rest_from(s@, a as int));
    let mut b: usize = n;
    assert(s@.subrange(a as int, n as int) =~= start);
    while b > a && space_char(s.get_char(b - 1))
        invariant
            n == s@.len(),
            a <= b <= n,
            trimmed_end(s@.subrange(a as int, b as int)) == trimmed_end(start),
        decreases b,
    {
        assert(s@.subrange(a as int, b as int).drop_last() =~= s@.subrange(a as int, b - 1));
        b = b - 1;
    }
    s.substring_char(a, b)
}

/// A text splits at the first occurrence of `c`, or not at all where there is
/// none.
pub(crate) proof fn lemma_split_first(s: Seq<char>, c: char, at: int)
    requires
        0 <= at <= s.len(),
        forall|j: int| 0 <= j < at ==> #[trigger] s[j] != c,
        at < s.len() ==> s[at] == c,
    ensures
        at < s.len() ==> split(s, c) == seq![s.subrange(0, at)] + split(rest_from(s, at + 1), c),
        at == s.len() ==> split(s, c) == seq![s],
        split(s, c).len() > 0,
    decreases s.len(),
{
    if s.len() > 0 {
        let rest = s.subrange(1, s.len() as int);
        if at == 0 {
            assert(s.subrange(0, 0) =~= Seq::<char>::empty());
            assert(rest_from(s, 1) == rest);
        } else {
            assert forall|j: int| 0 <= j < at - 1 implies #[trigger] rest[j] != c by {
                assert(rest[j] == s[j + 1]);
            }
            lemma_split_first(rest, c, at - 1);
            assert(seq![s[0]] + rest.subrange(0, at - 1) =~= s.subrange(0, at));
            assert(seq![s[0]] + rest =~= s);
            if at < s.len() {
                assert(rest_from(rest, at) =~= rest_from(s, at + 1));
                let later = split(rest_from(s, at + 1), c);
                assert((seq![rest.subrange(0, at - 1)] + later).update(
                    0,
                    s.subrange(0, at),
                ) =~= seq![s.subrange(0, at)] + later);
            } else {
                assert(seq![rest].update(0, s) =~= seq![s]);
            }
        }
    }
}

/// What `bytesize::ByteSize` displays for a number of bytes.
pub uninterp spec fn byte_size_display(bytes: u64) -> Seq<char>;

/// Calls `ByteSize::to_string` of the `bytesize` crate: the result is a
/// function of the number of bytes alone, named `byte_size_display`.
#[verifier::external_body]
pub(crate) fn byte_size_text(bytes: u64) -> (t: String)
    ensures
        t@ == byte_size_display(bytes),
{
    bytesize::ByteSize(bytes).to_string()
}

/// The byte sizes of a fleet, each as text.
pub fn format_bytes(values: &Vec<u64>) -> (r: Vec<String>)
    ensures
        r.len() == values.len(),
        forall|i: int| 0 <= i < r.len() ==> (#[trigger] r[i])@ == byte_size_display(values[i]),
{
    let mut out: Vec<String> = Vec::new();
    let mut i: usize = 0;
    while i < values.len()
        invariant
            i <= values.len(),
            out.len() == i,
            forall|j: int| 0 <= j < i ==> (#[trigger] out[j])@ == byte_size_display(values[j]),
        decreases values.len() - i,
    {
        out.push(byte_size_text(values[i]));
        i = i + 1;
    }
    out
}

proof fn lemma_decimal_digits(n: nat)
    ensures
        decimal(n).len() > 0,
        all_digits(decimal(n)),
        digits_value(decimal(n)) == n,
    decreases n,
{
    reveal_with_fuel(digits_value, 2);
    if n >= 10 {
        lemma_decimal_digits(n / 10);
        let s = decimal(n);
        assert(s.drop_last() =~= decimal(n / 10));
        assert(s.last() == digit_char((n % 10) as int));
    } else {
        let s = decimal(n);
        assert(s.drop_last() =~= Seq::<char>::empty());
    }
}

/// Reading back a number written in decimal gives that number.
pub proof fn decimal_round_trip(n: nat, max: nat)
    requires
        n <= max,
    ensures
        unsigned_value(decimal(n), max) == Some(n),
{
    lemma_decimal_digits(n);
    assert(unsigned_digits(decimal(n)) == decimal(n)) by {
        if decimal(n).len() > 1 {
            assert(is_digit(decimal(n)[0]));
        }
    }
}

/// Two numbers with the same digits are the same number.
pub proof fn decimal_injective(a: nat, b: nat)
    requires
        decimal(a) == decimal(b),
    ensures
        a == b,
{
    lemma_decimal_digits(a);
    lemma_decimal_digits(b);
}

/// A number in decimal holds digits only.
pub proof fn decimal_holds_digits(n: nat)
    ensures
        decimal(n).len() > 0,
        all_digits(decimal(n)),
{
    lemma_decimal_digits(n);
}

/// A plus sign in front of a number changes nothing, one more digit behind it
/// takes it ten times and the digit, and nothing but digits is a number.
pub proof fn numbers_are_read_digit_by_digit(s: Seq<char>, d: int, max: nat)
    requires
        s.len() > 0,
        0 <= d < 10,
    ensures
        s[0] != '+' ==> unsigned_value(seq!['+'] + s, max) == unsigned_value(s, max),
        unsigned_value(s, max) matches Some(n) ==> unsigned_value(s.push(digit_char(d)), max)
            == (if 10 * n + d <= max {
            Some((10 * n + d) as nat)
        } else {
            None
        }),
        unsigned_value(s, max) matches Some(n) ==> n <= max && forall|i: int|
            0 < i < s.len() ==> '0' <= #[trigger] s[i] <= '9',
{
    assert((seq!['+'] + s).subrange(1, s.len() as int + 1) =~= s);
    let digits = unsigned_digits(s);
    if unsigned_value(s, max) is Some {
        let longer = s.push(digit_char(d));
        assert(is_digit(digits[0]));
        assert(s.len() == 1 ==> s[0] != '+');
        assert(unsigned_digits(longer) =~= digits.push(digit_char(d)));
        let more = digits.push(digit_char(d));
        assert(more.drop_last() =~= digits);
        assert forall|i: int| 0 <= i < more.len() implies is_digit(#[trigger] more[i]) by {
            if i < digits.len() {
                assert(is_digit(digits[i]));
            }
        }
        assert forall|i: int| 0 < i < s.len() implies '0' <= #[trigger] s[i] <= '9' by {
            if digits == s {
                assert(is_digit(digits[i]));
            } else {
                assert(is_digit(digits[i - 1]));
            }
        }
    }
}

proof fn lemma_trimmed_start(s: Seq<char>) -> (k: int)
    ensures
        0 <= k <= s.len(),
        trimmed_start(s) == s.subrange(k, s.len() as int),
        forall|i: int| 0 <= i < k ==> is_space(#[trigger] s[i]),
        k < s.len() ==> !is_space(s[k]),
    decreases s.len(),
{
    if s.len() > 0 && is_space(s[0]) {
        let rest = s.subrange(1, s.len() as int);
        let k = lemma_trimmed_start(rest);
        assert(rest.subrange(k, rest.len() as int) =~= s.subrange(k + 1, s.len() as int));
        assert forall|i: int| 0 <= i < k + 1 implies is_space(#[trigger] s[i]) by {
            if i > 0 {
                assert(rest[i - 1] == s[i]);
            }
        }
        k + 1
    } else {
        assert(s.subrange(0, s.len() as int) =~= s);
        0
    }
}

proof fn lemma_trimmed_end(s: Seq<char>) -> (k: int)
    ensures
        0 <= k <= s.len(),
        trimmed_end(s) == s.subrange(0, k),
        forall|i: int| k <= i < s.len() ==> is_space(#[trigger] s[i]),
        k > 0 ==> !is_space(s[k - 1]),
    decreases s.len(),
{
    if s.len() > 0 && is_space(s.last()) {
        let k = lemma_trimmed_end(s.drop_last());
        assert(s.drop_last().subrange(0, k) =~= s.subrange(0, k));
        assert forall|i: int| k <= i < s.len() implies is_space(#[trigger] s[i]) by {
            if i < s.len() - 1 {
                assert(s.drop_last()[i] == s[i]);
            }
        }
        k
    } else {
        assert(s.subrange(0, s.len() as int) =~= s);
        s.len() as int
    }
}

/// A trimmed text is what stands between the white space in front of a text
/// and that behind it, and neither begins nor ends with any.
pub proof fn only_white_space_is_trimmed(s: Seq<char>) -> (r: (int, int))
    ensures
        0 <= r.0 <= r.1 <= s.len(),
        trimmed(s) == s.subrange(r.0, r.1),
        forall|i: int| 0 <= i < r.0 || r.1 <= i < s.len() ==> is_space(#[trigger] s[i]),
        trimmed(s).len() > 0 ==> !is_space(trimmed(s)[0]) && !is_space(trimmed(s).last()),
{
    let a = lemma_trimmed_start(s);
    let start = trimmed_start(s);
    let k = lemma_trimmed_end(start);
    assert(start.subrange(0, k) =~= s.subrange(a, a + k));
    assert forall|i: int| 0 <= i < a || a + k <= i < s.len() implies is_space(#[trigger] s[i]) by {
        if i >= a {
            assert(start[i - a] == s[i]);
        }
    }
    (a, a + k)
}

/// Pieces put together again with `c` between them.
pub open spec fn joined(pieces: Seq<Seq<char>>, c: char) -> Seq<char>
    decreases pieces.len(),
{
    if pieces.len() == 0 {
        Seq::empty()
    } else if pieces.len() == 1 {
        pieces[0]
    } else {
        pieces[0] + seq![c] + joined(pieces.subrange(1, pieces.len() as int), c)
    }
}

/// The pieces that a text splits into hold no separator, and put together
/// again they are the text.
pub proof fn pieces_give_the_text_back(s: Seq<char>, c: char)
    ensures
        split(s, c).len() > 0,
        joined(split(s, c), c) == s,
        forall|i: int, j: int|
            0 <= i < split(s, c).len() && 0 <= j < split(s, c)[i].len()
                ==> #[trigger] split(s, c)[i][j] != c,
    decreases s.len(),
{
    if s.len() > 0 {
        let tail = s.subrange(1, s.len() as int);
        let rest = split(tail, c);
        let pieces = split(s, c);
        pieces_give_the_text_back(tail, c);
        if s[0] == c {
            assert(pieces.subrange(1, pieces.len() as int) =~= rest);
            assert(joined(pieces, c) =~= Seq::<char>::empty() + seq![c] + tail);
            assert(s =~= seq![c] + tail);
            assert forall|i: int, j: int| 0 <= i < pieces.len() && 0 <= j < pieces[i].len() implies
                #[trigger] pieces[i][j] != c by {
                if i > 0 {
                    assert(pieces[i] == rest[i - 1]);
                    assert(rest[i - 1][j] != c);
                }
            }
        } else {
            let first = seq![s[0]] + rest[0];
            assert(pieces[0] == first);
            if rest.len() > 1 {
                assert(pieces.subrange(1, pieces.len() as int) =~= rest.subrange(
                    1,
                    rest.len() as int,
                ));
            }
            assert(joined(pieces, c) =~= seq![s[0]] + joined(rest, c));
            assert(s =~= seq![s[0]] + tail);
            assert forall|i: int, j: int| 0 <= i < pieces.len() && 0 <= j < pieces[i].len() implies
                #[trigger] pieces[i][j] != c by {
                if i > 0 {
                    assert(pieces[i] == rest[i]);
                    assert(rest[i][j] != c);
                } else if j > 0 {
                    assert(rest[0][j - 1] != c);
                }
            }
        }
    }
}

} // verus!
