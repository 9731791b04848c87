//! Fixed-width decimal fields, the building block of every textual form in
//! this crate.

use vstd::prelude::*;

verus! {

/// The byte of the digit `0` in ASCII.
const ASCII_ZERO: u8 = 48;

/// The byte of the digit `9` in ASCII.
const ASCII_NINE: u8 = 57;

/// The character that writes the decimal digit `d`, for `0 <= d <= 9`.
pub open spec fn digit_char(d: int) -> char {
    ('0' as int + d) as char
}

/// Whether `c` is one of the ASCII digits `'0'` to `'9'`.
pub open spec fn is_digit(c: char) -> bool {
    '0' <= c && c <= '9'
}

/// The value of the ASCII digit `c`.
pub open spec fn digit_value(c: char) -> int {
    c as int - '0' as int
}

/// Whether every character of `s` is an ASCII digit.
pub open spec fn all_digits(s: Seq<char>) -> bool {
    forall|i: int| 0 <= i < s.len() ==> is_digit(#[trigger] s[i])
}

/// `n` written with exactly two decimal digits, padded with a zero.
pub open spec fn two_digits(n: int) -> Seq<char> {
    seq![digit_char(n / 10), digit_char(n % 10)]
}

/// `n` written with exactly four decimal digits, padded with zeros.
pub open spec fn four_digits(n: int) -> Seq<char> {
    two_digits(n / 100) + two_digits(n % 100)
}

/// The number that the two digits of `s` starting at `at` write.
pub open spec fn two_digit_number(s: Seq<char>, at: int) -> int {
    digit_value(s[at]) * 10 + digit_value(s[at + 1])
}

/// The number that the four digits of `s` starting at `at` write.
pub open spec fn four_digit_number(s: Seq<char>, at: int) -> int {
    two_digit_number(s, at) * 100 + two_digit_number(s, at + 2)
}

/// A digit's character is a digit and reads back as the same value.
pub proof fn lemma_digit_char(d: int)
    requires
        0 <= d <= 9,
    ensures
        is_digit(digit_char(d)),
        digit_value(digit_char(d)) == d,
{
}

/// A digit is the character of its own value.
pub proof fn lemma_digit_value(c: char)
    requires
        is_digit(c),
    ensures
        0 <= digit_value(c) <= 9,
        digit_char(digit_value(c)) == c,
{
}

/// Reading two written digits gives the number back.
pub proof fn lemma_two_digits_read_back(n: int, s: Seq<char>, at: int)
    requires
        0 <= n <= 99,
        0 <= at,
        at + 2 <= s.len(),
        s.subrange(at, at + 2) == two_digits(n),
    ensures
        is_digit(s[at]),
        is_digit(s[at + 1]),
        two_digit_number(s, at) == n,
{
    let written = s.subrange(at, at + 2);
    assert(written[0] == s[at] && written[1] == s[at + 1]);
    lemma_digit_char(n / 10);
    lemma_digit_char(n % 10);
}

/// Reading four written digits gives the number back.
pub proof fn lemma_four_digits_read_back(n: int, s: Seq<char>, at: int)
    requires
        0 <= n <= 9999,
        0 <= at,
        at + 4 <= s.len(),
        s.subrange(at, at + 4) == four_digits(n),
    ensures
        is_digit(s[at]),
        is_digit(s[at + 1]),
        is_digit(s[at + 2]),
        is_digit(s[at + 3]),
        four_digit_number(s, at) == n,
{
    let written = s.subrange(at, at + 4);
    assert(s.subrange(at, at + 2) =~= written.subrange(0, 2));
    assert(s.subrange(at + 2, at + 4) =~= written.subrange(2, 4));
    assert(written.subrange(0, 2) =~= two_digits(n / 100));
    assert(written.subrange(2, 4) =~= two_digits(n % 100));
    lemma_two_digits_read_back(n / 100, s, at);
    lemma_two_digits_read_back(n % 100, s, at + 2);
}

/// Writing the number that two digits read gives the digits back.
pub proof fn lemma_two_digits_written_back(s: Seq<char>, at: int)
    requires
        0 <= at,
        at + 2 <= s.len(),
        is_digit(s[at]),
        is_digit(s[at + 1]),
    ensures
        0 <= two_digit_number(s, at) <= 99,
        two_digits(two_digit_number(s, at)) == s.subrange(at, at + 2),
{
    lemma_digit_value(s[at]);
    lemma_digit_value(s[at + 1]);
}

/// Writing the number that four digits read gives the digits back.
pub proof fn lemma_four_digits_written_back(s: Seq<char>, at: int)
    requires
        0 <= at,
        at + 4 <= s.len(),
        is_digit(s[at]),
        is_digit(s[at + 1]),
        is_digit(s[at + 2]),
        is_digit(s[at + 3]),
    ensures
        0 <= four_digit_number(s, at) <= 9999,
        four_digits(four_digit_number(s, at)) == s.subrange(at, at + 4),
{
    lemma_two_digits_written_back(s, at);
    lemma_two_digits_written_back(s, at + 2);
    let n = four_digit_number(s, at);
    assert(n / 100 == two_digit_number(s, at));
    assert(n % 100 == two_digit_number(s, at + 2));
    assert(s.subrange(at, at + 4) =~= s.subrange(at, at + 2) + s.subrange(at + 2, at + 4));
}

/// Whether `s` stands before `t` in the order of the dictionary: up to some
/// place the two are the same, and there `s` ends and `t` goes on, or `s`
/// has the smaller character.
pub open spec fn text_before(s: Seq<char>, t: Seq<char>) -> bool {
    exists|k: int| first_difference(s, t, k)
}

/// Whether `k` is the place that sets `s` before `t`.
pub open spec fn first_difference(s: Seq<char>, t: Seq<char>, k: int) -> bool {
    &&& 0 <= k <= s.len()
    &&& k < t.len()
    &&& forall|j: int| 0 <= j < k ==> s[j] == t[j]
    &&& (k == s.len() || s[k] < t[k])
}

/// Of two texts at most one stands before the other, and none before
/// itself.
pub proof fn lemma_text_before_asymmetric(s: Seq<char>, t: Seq<char>)
    ensures
        !(text_before(s, t) && text_before(t, s)),
        !text_before(s, s),
{
    if text_before(s, t) && text_before(t, s) {
        let k = choose|k: int| first_difference(s, t, k);
        let l = choose|l: int| first_difference(t, s, l);
        assert(k < l || l < k || k == l);
    }
    if text_before(s, s) {
        let k = choose|k: int| first_difference(s, s, k);
        assert(k < s.len() && s[k] < s[k]);
    }
}

/// Texts that begin with parts of one length are ordered by those parts,
/// and by what follows them where the parts are the same.
pub proof fn lemma_text_before_concat(p: Seq<char>, q: Seq<char>, x: Seq<char>, y: Seq<char>)
    requires
        p.len() == q.len(),
    ensures
        text_before(p, q) ==> text_before(p + x, q + y),
        p == q && text_before(x, y) ==> text_before(p + x, q + y),
{
    if text_before(p, q) {
        let k = choose|k: int| first_difference(p, q, k);
        assert(first_difference(p + x, q + y, k));
    }
    if p == q && text_before(x, y) {
        let k = choose|k: int| first_difference(x, y, k);
        assert(first_difference(p + x, q + y, p.len() + k)) by {
            assert forall|j: int| 0 <= j < p.len() + k implies (p + x)[j] == (q + y)[j] by {
                if j >= p.len() {
                    assert(x[j - p.len()] == y[j - p.len()]);
                }
            }
        }
    }
}

/// The smaller of two numbers below a hundred has the two digits that stand
/// before those of the other.
pub proof fn lemma_two_digits_ordered(m: int, n: int)
    requires
        0 <= m < n <= 99,
    ensures
        text_before(two_digits(m), two_digits(n)),
{
    lemma_digit_char(m / 10);
    lemma_digit_char(m % 10);
    lemma_digit_char(n / 10);
    lemma_digit_char(n % 10);
    if m / 10 < n / 10 {
        assert(first_difference(two_digits(m), two_digits(n), 0));
    } else {
        assert(first_difference(two_digits(m), two_digits(n), 1));
    }
}

/// The smaller of two numbers below ten thousand has the four digits that
/// stand before those of the other.
pub proof fn lemma_four_digits_ordered(m: int, n: int)
    requires
        0 <= m < n <= 9999,
    ensures
        text_before(four_digits(m), four_digits(n)),
{
    if m / 100 < n / 100 {
        lemma_two_digits_ordered(m / 100, n / 100);
    } else {
        lemma_two_digits_ordered(m % 100, n % 100);
    }
    lemma_text_before_concat(
        two_digits(m / 100),
        two_digits(n / 100),
        two_digits(m % 100),
        two_digits(n % 100),
    );
}

/// The one-character text of the decimal digit `d`.
fn digit_text(d: u8) -> (s: &'static str)
    requires
        d <= 9,
    ensures
        s@ == seq![digit_char(d as int)],
{
    proof {
        reveal_strlit("0");
        reveal_strlit("1");
        reveal_strlit("2");
        reveal_strlit("3");
        reveal_strlit("4");
        reveal_strlit("5");
        reveal_strlit("6");
        reveal_strlit("7");
        reveal_strlit("8");
        reveal_strlit("9");
    }
    let s: &'static str = match d {
        0 => "0",
        1 => "1",
        2 => "2",
        3 => "3",
        4 => "4",
        5 => "5",
        6 => "6",
        7 => "7",
        8 => "8",
        _ => "9",
    };
    s
}

/// Appends `n` to `out` as two decimal digits.
pub(crate) fn push_two_digits(out: &mut String, n: u8)
    requires
        n <= 99,
    ensures
        final(out)@ == old(out)@ + two_digits(n as int),
{
    out.append(digit_text(n / 10));
    out.append(digit_text(n % 10));
}

/// Appends `n` to `out` as four decimal digits.
pub(crate) fn push_four_digits(out: &mut String, n: u16)
    requires
        n <= 9999,
    ensures
        final(out)@ == old(out)@ + four_digits(n as int),
{
    push_two_digits(out, (n / 100) as u8);
    push_two_digits(out, (n % 100) as u8);
}

/// The values of the decimal digits that make up `s`, or `None` where some
/// character of `s` is not an ASCII digit.
pub(crate) fn digit_values(s: &str) -> (values: Option<Vec<u8>>)
    ensures
        values is Some <==> all_digits(s@),
        values matches Some(v) ==> {
            &&& v@.len() == s@.len()
            &&& forall|i: int| 0 <= i < v@.len() ==> #[trigger] v@[i] == digit_value(s@[i])
        },
{
    if !s.is_ascii() {
        proof {
            let i = choose|i: int| 0 <= i < s@.len() && !('\0' <= #[trigger] s@[i] <= '\u{7f}');
            assert(!is_digit(s@[i]));
        }
        return None;
    }
    let bytes = s.as_bytes();
    proof {
        vstd::string::is_ascii_spec_bytes(s);
    }
    let mut values: Vec<u8> = Vec::new();
    let mut i: usize = 0;
    while i < bytes.len()
        invariant
            i <= bytes@.len(),
            bytes@.len() == s@.len(),
            forall|j: int| 0 <= j < bytes@.len() ==> #[trigger] bytes@[j] == s@[j] as u8,
            forall|j: int| 0 <= j < s@.len() ==> '\0' <= #[trigger] s@[j] <= '\u{7f}',
            values@.len() == i,
            forall|j: int| 0 <= j < i ==> is_digit(#[trigger] s@[j]),
            forall|j: int| 0 <= j < i ==> #[trigger] values@[j] == digit_value(s@[j]),
        decreases bytes@.len() - i,
    {
        let byte: u8 = bytes[i];
        if byte < ASCII_ZERO || byte > ASCII_NINE {
            return None;
        }
        values.push(byte - ASCII_ZERO);
        i += 1;
    }
    Some(values)
}

/// Whether two texts are the same sequence of characters.
pub(crate) fn same_text(a: &str, b: &str) -> (same: bool)
    ensures
        same == (a@ == b@),
{
    let x = a.as_bytes();
    let y = b.as_bytes();
    proof {
        vstd::utf8::encode_utf8_decode_utf8(a@);
        vstd::utf8::encode_utf8_decode_utf8(b@);
    }
    if x.len() != y.len() {
        return false;
    }
    let mut i: usize = 0;
    while i < x.len()
        invariant
            i <= x@.len(),
            x@.len() == y@.len(),
            forall|j: int| 0 <= j < i ==> x@[j] == y@[j],
            a@ == b@ ==> x@ == y@,
        decreases x@.len() - i,
    {
        if x[i] != y[i] {
            return false;
        }
        i += 1;
    }
    assert(x@ =~= y@);
    true
}

} // verus!
