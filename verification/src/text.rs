//! Character-level text helpers: decimal rendering of integers and amounts,
//! infix search and the order of strings.

use vstd::prelude::*;
use vstd::string::*;
use vstd::utf8::encode_utf8;

verus! {

/// The decimal digit character for `d` (0..=9).
pub open spec fn digit_char(d: int) -> char {
    (d + 48) as char
}

/// Decimal digits of a natural number, most significant first, without leading zeros.
pub open spec fn nat_digits(n: nat) -> Seq<char>
    decreases n,
{
    if n < 10 {
        seq![digit_char(n as int)]
    } else {
        nat_digits(n / 10).push(digit_char((n % 10) as int))
    }
}

/// Appends one character to a string: std's `String::push`, which (as its
/// documentation says) adds the character at the end.
#[verifier::external_body]
fn push_char(s: &mut String, c: char)
    ensures
        final(s)@ == old(s)@.push(c),
{
    s.push(c);
}

fn digit_of(d: u64) -> (c: char)
    requires
        d < 10,
    ensures
        c == digit_char(d as int),
{
    let b: u8 = d as u8 + 48u8;
    b as char
}

/// Appends the decimal digits of `m`.
pub fn push_digits(s: &mut String, m: u64)
    ensures
        final(s)@ == old(s)@ + nat_digits(m as nat),
    decreases m,
{
    if m >= 10 {
        push_digits(s, m / 10);
    }
    push_char(s, digit_of(m % 10));
    assert(s@ =~= old(s)@ + nat_digits(m as nat));
}

/// Decimal text of an integer: a minus sign for negative numbers, then the digits.
pub open spec fn int_text(n: int) -> Seq<char> {
    if n < 0 {
        seq!['-'] + nat_digits((-n) as nat)
    } else {
        nat_digits(n as nat)
    }
}

/// The decimal text of `n`.
pub fn render_int(n: i64) -> (s: String)
    ensures
        s@ == int_text(n as int),
{
    let mut s = String::new();
    if n < 0 {
        push_char(&mut s, '-');
        let m: u64 = (-(n + 1)) as u64 + 1;
        push_digits(&mut s, m);
    } else {
        push_digits(&mut s, n as u64);
    }
    assert(s@ =~= int_text(n as int));
    s
}

/// Digits after the decimal point of `f` thousandths (1 ..= 999), trailing zeros dropped.
pub open spec fn fraction_digits(f: int) -> Seq<char> {
    let d1 = f / 100;
    let d2 = (f / 10) % 10;
    let d3 = f % 10;
    if d3 != 0 {
        seq![digit_char(d1), digit_char(d2), digit_char(d3)]
    } else if d2 != 0 {
        seq![digit_char(d1), digit_char(d2)]
    } else {
        seq![digit_char(d1)]
    }
}

/// Decimal text of `m` thousandths (`m / 1000`), with no fractional part when it is whole
/// and no trailing zeros otherwise.
pub open spec fn magnitude_text(m: nat) -> Seq<char> {
    if m % 1000 == 0 {
        nat_digits(m / 1000)
    } else {
        nat_digits(m / 1000) + seq!['.'] + fraction_digits((m % 1000) as int)
    }
}

/// Decimal text of the amount `n` given in thousandths of a currency unit (milliunits):
/// `-12340` reads `-12.34`, `5000` reads `5`, `1` reads `0.001`.
pub open spec fn amount_text(n: int) -> Seq<char> {
    if n < 0 {
        seq!['-'] + magnitude_text((-n) as nat)
    } else {
        magnitude_text(n as nat)
    }
}

/// The number that a sequence of decimal digit characters denotes.
pub open spec fn digits_value(s: Seq<char>) -> int
    decreases s.len(),
{
    if s.len() == 0 {
        0
    } else {
        digits_value(s.drop_last()) * 10 + ((s.last() as int) - 48)
    }
}

proof fn lemma_digits_value_push(s: Seq<char>, c: char)
    ensures
        digits_value(s.push(c)) == digits_value(s) * 10 + ((c as int) - 48),
{
    assert(s.push(c).drop_last() =~= s);
}

/// `c` is a decimal digit character.
pub open spec fn is_digit(c: char) -> bool {
    '0' <= c <= '9'
}

/// Law: the decimal digits of `n` are digit characters that denote `n`, with no
/// leading zero.
pub proof fn lemma_nat_digits_denote(n: nat)
    ensures
        nat_digits(n).len() >= 1,
        forall|i: int| 0 <= i < nat_digits(n).len() ==> is_digit(#[trigger] nat_digits(n)[i]),
        digits_value(nat_digits(n)) == n,
        n >= 10 ==> nat_digits(n)[0] != '0',
    decreases n,
{
    let d = nat_digits(n);
    if n >= 10 {
        lemma_nat_digits_denote(n / 10);
        assert(d.drop_last() =~= nat_digits(n / 10));
        assert(d[0] == nat_digits(n / 10)[0]);
        assert((digit_char((n % 10) as int) as int) - 48 == n % 10);
        lemma_digits_value_push(nat_digits(n / 10), digit_char((n % 10) as int));
        assert forall|i: int| 0 <= i < d.len() implies is_digit(#[trigger] d[i]) by {
            if i < d.len() - 1 {
                assert(d[i] == nat_digits(n / 10)[i]);
            }
        }
    } else {
        let e = Seq::<char>::empty();
        assert(digits_value(e) == 0);
        lemma_digits_value_push(e, digit_char(n as int));
        assert(e.push(digit_char(n as int)) =~= d);
        assert((digit_char(n as int) as int) - 48 == n);
    }
}

/// Law: the text of a whole number of currency units, given in milliunits, is the
/// decimal text of that number.
pub proof fn lemma_amount_text_whole(n: int)
    ensures
        amount_text(n * 1000) == int_text(n),
{
    if n < 0 {
        assert(((-(n * 1000)) as nat) / 1000 == -n);
        assert(((-(n * 1000)) as nat) % 1000 == 0);
    } else {
        assert(((n * 1000) as nat) / 1000 == n);
        assert(((n * 1000) as nat) % 1000 == 0);
    }
}

/// Law: a negative amount reads as a minus sign before the text of its magnitude.
pub proof fn lemma_amount_text_negative(m: int)
    requires
        m > 0,
    ensures
        amount_text(-m) == seq!['-'] + amount_text(m),
{
}

/// Law: an amount with a fraction of a currency unit reads as its whole units, a
/// point, then one to three digits that give the fraction in thousandths (scaled
/// by the positions left out) and do not end in a zero.
pub proof fn lemma_amount_text_fraction(m: nat)
    requires
        m % 1000 != 0,
    ensures
        exists|f: Seq<char>| {
            &&& #[trigger] amount_text(m as int) == nat_digits(m / 1000) + seq!['.'] + f
            &&& 1 <= f.len() <= 3
            &&& forall|i: int| 0 <= i < f.len() ==> is_digit(#[trigger] f[i])
            &&& f.last() != '0'
            &&& digits_value(f) * (if f.len() == 1 { 100int } else if f.len() == 2 { 10int } else { 1int }) == m % 1000
        },
{
    let r = (m % 1000) as int;
    let f = fraction_digits(r);
    let d1 = r / 100;
    let d2 = (r / 10) % 10;
    let d3 = r % 10;
    let e = Seq::<char>::empty();
    assert(digits_value(e) == 0);
    lemma_digits_value_push(e, digit_char(d1));
    assert(e.push(digit_char(d1)) =~= seq![digit_char(d1)]);
    lemma_digits_value_push(seq![digit_char(d1)], digit_char(d2));
    assert(seq![digit_char(d1)].push(digit_char(d2)) =~= seq![digit_char(d1), digit_char(d2)]);
    lemma_digits_value_push(seq![digit_char(d1), digit_char(d2)], digit_char(d3));
    assert(seq![digit_char(d1), digit_char(d2)].push(digit_char(d3)) =~= seq![digit_char(d1), digit_char(d2), digit_char(d3)]);
    assert((digit_char(d1) as int) - 48 == d1);
    assert((digit_char(d2) as int) - 48 == d2);
    assert((digit_char(d3) as int) - 48 == d3);
    assert(forall|i: int| 0 <= i < f.len() ==> is_digit(#[trigger] f[i]));
    assert(amount_text(m as int) == nat_digits(m / 1000) + seq!['.'] + f);
}

fn push_magnitude(s: &mut String, m: u64)
    ensures
        final(s)@ == old(s)@ + magnitude_text(m as nat),
{
    push_digits(s, m / 1000);
    let f = m % 1000;
    if f != 0 {
        push_char(s, '.');
        let d1 = f / 100;
        let d2 = (f / 10) % 10;
        let d3 = f % 10;
        push_char(s, digit_of(d1));
        if d2 != 0 || d3 != 0 {
            push_char(s, digit_of(d2));
        }
        if d3 != 0 {
            push_char(s, digit_of(d3));
        }
    }
    assert(s@ =~= old(s)@ + magnitude_text(m as nat));
}

/// The decimal text of an amount in milliunits, in currency units (see `amount_text`).
/// Nothing here proves a relation to floating point: that this is also the text Rust
/// prints for the quotient `n as f64 / 1000.0` (for amounts below 10^15 milliunits)
/// is only checked by tests.
pub fn render_amount(n: i64) -> (s: String)
    ensures
        s@ == amount_text(n as int),
{
    let mut s = String::new();
    if n < 0 {
        push_char(&mut s, '-');
        let m: u64 = (-(n + 1)) as u64 + 1;
        push_magnitude(&mut s, m);
    } else {
        push_magnitude(&mut s, n as u64);
    }
    assert(s@ =~= amount_text(n as int));
    s
}

/// The characters of a string.
pub fn chars_of(s: &str) -> (v: Vec<char>)
    ensures
        v@ == s@,
{
    let n = s.unicode_len();
    let mut v: Vec<char> = Vec::new();
    for i in 0..n
        invariant
            n == s@.len(),
            v@ == s@.subrange(0, i as int),
    {
        v.push(s.get_char(i));
        assert(v@ =~= s@.subrange(0, i + 1));
    }
    assert(v@ =~= s@);
    v
}

/// A string made of the given characters.
pub fn string_of(v: &Vec<char>) -> (s: String)
    ensures
        s@ == v@,
{
    let mut s = String::new();
    for i in 0..v.len()
        invariant
            s@ == v@.subrange(0, i as int),
    {
        push_char(&mut s, v[i]);
        assert(s@ =~= v@.subrange(0, i + 1));
    }
    assert(s@ =~= v@);
    s
}

/// `p` occurs in `s` starting at position `i`.
pub open spec fn infix_at(s: Seq<char>, p: Seq<char>, i: int) -> bool {
    0 <= i && i + p.len() <= s.len() && s.subrange(i, i + p.len()) == p
}

/// `p` occurs in `s` as a contiguous run of characters.
pub open spec fn has_infix(s: Seq<char>, p: Seq<char>) -> bool {
    exists|i: int| #[trigger] infix_at(s, p, i)
}

/// `i` is the first position at which `p` occurs in `s`.
pub open spec fn is_first_infix(s: Seq<char>, p: Seq<char>, i: int) -> bool {
    &&& infix_at(s, p, i)
    &&& forall|j: int| 0 <= j < i ==> !#[trigger] infix_at(s, p, j)
}

/// There is at most one first position.
pub proof fn lemma_first_infix_unique(s: Seq<char>, p: Seq<char>, i: int, j: int)
    requires
        is_first_infix(s, p, i),
        is_first_infix(s, p, j),
    ensures
        i == j,
{
    if i < j {
        assert(!infix_at(s, p, i));
    } else if j < i {
        assert(!infix_at(s, p, j));
    }
}

fn matches_at(s: &Vec<char>, p: &Vec<char>, i: usize) -> (b: bool)
    requires
        i + p.len() <= s.len(),
    ensures
        b == infix_at(s@, p@, i as int),
{
    for k in 0..p.len()
        invariant
            i + p.len() <= s.len(),
            forall|j: int| 0 <= j < k ==> s@[i + j] == p@[j],
    {
        if s[i + k] != p[k] {
            assert(s@.subrange(i as int, i + p.len())[k as int] != p@[k as int]);
            return false;
        }
    }
    assert(s@.subrange(i as int, i + p.len()) =~= p@);
    true
}

/// The first position at which `p` occurs in `s`, if it occurs.
pub fn find_infix(s: &Vec<char>, p: &Vec<char>) -> (r: Option<usize>)
    ensures
        match r {
            None => !has_infix(s@, p@),
            Some(i) => is_first_infix(s@, p@, i as int),
        },
{
    if p.len() > s.len() {
        assert forall|j: int| !#[trigger] infix_at(s@, p@, j) by {}
        return None;
    }
    let last = s.len() - p.len();
    for i in 0..last
        invariant
            last + p.len() == s.len(),
            forall|j: int| 0 <= j < i ==> !#[trigger] infix_at(s@, p@, j),
    {
        if matches_at(s, p, i) {
            return Some(i);
        }
    }
    if matches_at(s, p, last) {
        return Some(last);
    }
    assert forall|j: int| !#[trigger] infix_at(s@, p@, j) by {
        if 0 <= j && j + p.len() <= s.len() {
            assert(j <= last);
        }
    }
    None
}

/// Whether `p` occurs in `s` (the character-level `str::contains`).
pub fn contains_infix(s: &Vec<char>, p: &Vec<char>) -> (b: bool)
    ensures
        b == has_infix(s@, p@),
{
    find_infix(s, p).is_some()
}

/// `v` without the `len` characters that start at `start`.
pub fn splice_out(v: &Vec<char>, start: usize, len: usize) -> (r: Vec<char>)
    requires
        start + len <= v.len(),
    ensures
        r@ == v@.subrange(0, start as int) + v@.subrange(start + len, v.len() as int),
{
    let mut r: Vec<char> = Vec::new();
    for i in 0..start
        invariant
            start + len <= v.len(),
            r@ == v@.subrange(0, i as int),
    {
        r.push(v[i]);
        assert(r@ =~= v@.subrange(0, i + 1));
    }
    let from = start + len;
    for i in from..v.len()
        invariant
            from == start + len,
            from <= i <= v.len(),
            r@ == v@.subrange(0, start as int) + v@.subrange(from as int, i as int),
    {
        r.push(v[i]);
        assert(r@ =~= v@.subrange(0, start as int) + v@.subrange(from as int, i + 1));
    }
    r
}

/// Lexicographic order of byte sequences: `a` comes no later than `b`.
pub open spec fn bytes_le(a: Seq<u8>, b: Seq<u8>) -> bool
    decreases a.len(),
{
    if a.len() == 0 {
        true
    } else if b.len() == 0 {
        false
    } else if a[0] < b[0] {
        true
    } else if a[0] > b[0] {
        false
    } else {
        bytes_le(a.drop_first(), b.drop_first())
    }
}

/// The order of strings that `String`'s comparison follows: lexicographic by the
/// bytes of their UTF-8 encoding.
pub open spec fn text_le(a: Seq<char>, b: Seq<char>) -> bool {
    bytes_le(encode_utf8(a), encode_utf8(b))
}

/// Every sequence comes no later than itself.
pub proof fn lemma_bytes_le_reflexive(a: Seq<u8>)
    ensures
        bytes_le(a, a),
    decreases a.len(),
{
    if a.len() > 0 {
        lemma_bytes_le_reflexive(a.drop_first());
    }
}

/// Any two sequences are ordered one way or the other.
pub proof fn lemma_bytes_le_total(a: Seq<u8>, b: Seq<u8>)
    ensures
        bytes_le(a, b) || bytes_le(b, a),
    decreases a.len(),
{
    if a.len() > 0 && b.len() > 0 && a[0] == b[0] {
        lemma_bytes_le_total(a.drop_first(), b.drop_first());
    }
}

/// The order is transitive.
pub proof fn lemma_bytes_le_transitive(a: Seq<u8>, b: Seq<u8>, c: Seq<u8>)
    requires
        bytes_le(a, b),
        bytes_le(b, c),
    ensures
        bytes_le(a, c),
    decreases a.len(),
{
    if a.len() > 0 && b.len() > 0 && c.len() > 0 && a[0] == b[0] && b[0] == c[0] {
        lemma_bytes_le_transitive(a.drop_first(), b.drop_first(), c.drop_first());
    }
}

/// Byte sequences that agree before position `i` and differ at `i`.
proof fn lemma_bytes_le_at_difference(a: Seq<u8>, b: Seq<u8>, i: int)
    requires
        0 <= i < a.len(),
        i < b.len(),
        forall|j: int| 0 <= j < i ==> a[j] == b[j],
        a[i] != b[i],
    ensures
        bytes_le(a, b) <==> (a[i] as int) < (b[i] as int),
    decreases i,
{
    if i > 0 {
        assert forall|j: int| 0 <= j < i - 1 implies a.drop_first()[j] == b.drop_first()[j] by {
            assert(a[j + 1] == b[j + 1]);
        }
        assert(a[0] == b[0]);
        lemma_bytes_le_at_difference(a.drop_first(), b.drop_first(), i - 1);
    }
}

proof fn lemma_bytes_le_of_prefix(a: Seq<u8>, b: Seq<u8>)
    requires
        a.len() <= b.len(),
        forall|j: int| 0 <= j < a.len() ==> a[j] == b[j],
    ensures
        bytes_le(a, b),
        a.len() < b.len() ==> !bytes_le(b, a),
    decreases a.len(),
{
    if a.len() > 0 {
        assert forall|j: int| 0 <= j < a.len() - 1 implies a.drop_first()[j] == b.drop_first()[j] by {
            assert(a[j + 1] == b[j + 1]);
        }
        assert(a[0] == b[0]);
        lemma_bytes_le_of_prefix(a.drop_first(), b.drop_first());
    }
}

/// Law: strings are ordered by their UTF-8 bytes, compared as numbers: when the
/// encodings of `a` and `b` first differ at byte `i`, `a` comes no later than `b`
/// exactly when its byte there is the smaller number.
pub proof fn lemma_text_le_first_difference(a: Seq<char>, b: Seq<char>, i: int)
    requires
        0 <= i < encode_utf8(a).len(),
        i < encode_utf8(b).len(),
        forall|j: int| 0 <= j < i ==> encode_utf8(a)[j] == encode_utf8(b)[j],
        encode_utf8(a)[i] != encode_utf8(b)[i],
    ensures
        text_le(a, b) <==> (encode_utf8(a)[i] as int) < (encode_utf8(b)[i] as int),
{
    lemma_bytes_le_at_difference(encode_utf8(a), encode_utf8(b), i);
}

/// Law: a string comes no later than any string whose UTF-8 encoding extends its
/// own, and a strictly longer extension comes later.
pub proof fn lemma_text_le_prefix(a: Seq<char>, b: Seq<char>)
    requires
        encode_utf8(a).len() <= encode_utf8(b).len(),
        forall|j: int| 0 <= j < encode_utf8(a).len() ==> encode_utf8(a)[j] == encode_utf8(b)[j],
    ensures
        text_le(a, b),
        encode_utf8(a).len() < encode_utf8(b).len() ==> !text_le(b, a),
{
    lemma_bytes_le_of_prefix(encode_utf8(a), encode_utf8(b));
}

/// Whether the string `a` comes no later than `b` in `String`'s order (see `text_le`).
pub fn text_le_exec(a: &str, b: &str) -> (r: bool)
    ensures
        r == text_le(a@, b@),
{
    let x = a.as_bytes();
    let y = b.as_bytes();
    let mut i: usize = 0;
    assert(x@.skip(0) =~= x@);
    assert(y@.skip(0) =~= y@);
    while i < x.len()
        invariant
            i <= x.len(),
            i <= y.len(),
            x@ == encode_utf8(a@),
            y@ == encode_utf8(b@),
            bytes_le(x@, y@) == bytes_le(x@.skip(i as int), y@.skip(i as int)),
        decreases x.len() - i,
    {
        if i == y.len() {
            return false;
        }
        if x[i] < y[i] {
            return true;
        }
        if x[i] > y[i] {
            return false;
        }
        assert(x@.skip(i as int).drop_first() =~= x@.skip(i + 1));
        assert(y@.skip(i as int).drop_first() =~= y@.skip(i + 1));
        i = i + 1;
    }
    true
}

/// UTF-8 encoding distributes over concatenation.
pub proof fn lemma_encode_utf8_concat(a: Seq<char>, b: Seq<char>)
    ensures
        encode_utf8(a + b) == encode_utf8(a) + encode_utf8(b),
    decreases a.len(),
{
    if a.len() == 0 {
        assert(a + b =~= b);
    } else {
        lemma_encode_utf8_concat(a.drop_first(), b);
        assert((a + b).drop_first() =~= a.drop_first() + b);
        assert((a + b)[0] == a[0]);
        assert(encode_utf8(a + b) =~= encode_utf8(a) + encode_utf8(b));
    }
}

} // verus!
