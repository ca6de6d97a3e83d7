//! Character-level scanning of address text: runs of a character class at
//! either end of a text, positions of a character, and decimal port numbers.

use vstd::prelude::*;
use vstd::slice::slice_subrange;
use vstd::string::*;

verus! {

/// A set of characters that a scan looks for.
#[derive(Clone, Copy, Debug)]
pub enum CharClass {
    /// The one given character.
    Exactly(char),
    /// The characters with the Unicode property `White_Space`.
    Whitespace,
    /// The letters `a` to `z` and `A` to `Z`.
    AsciiAlphabetic,
    /// The digits `0` to `9`.
    AsciiDigit,
}

/// Whether `c` has the Unicode property `White_Space`.
pub open spec fn is_whitespace(c: char) -> bool {
    let n = c as u32;
    ||| 0x09 <= n <= 0x0d
    ||| n == 0x20
    ||| n == 0x85
    ||| n == 0xa0
    ||| n == 0x1680
    ||| 0x2000 <= n <= 0x200a
    ||| n == 0x2028
    ||| n == 0x2029
    ||| n == 0x202f
    ||| n == 0x205f
    ||| n == 0x3000
}

/// Whether `c` is one of the letters `a` to `z` and `A` to `Z`.
pub open spec fn is_ascii_alphabetic(c: char) -> bool {
    let n = c as u32;
    0x41 <= n <= 0x5a || 0x61 <= n <= 0x7a
}

/// Whether `c` is one of the digits `0` to `9`.
pub open spec fn is_ascii_digit(c: char) -> bool {
    let n = c as u32;
    0x30 <= n <= 0x39
}

impl CharClass {
    /// Whether `c` belongs to the class.
    pub open spec fn holds(self, c: char) -> bool {
        match self {
            CharClass::Exactly(x) => c == x,
            CharClass::Whitespace => is_whitespace(c),
            CharClass::AsciiAlphabetic => is_ascii_alphabetic(c),
            CharClass::AsciiDigit => is_ascii_digit(c),
        }
    }

    /// Whether `c` belongs to the class.
    pub fn contains(&self, c: char) -> (b: bool)
        ensures
            b == self.holds(c),
    {
        let n: u32 = c as u32;
        match self {
            CharClass::Exactly(x) => c == *x,
            CharClass::Whitespace => {
                (0x09 <= n && n <= 0x0d) || n == 0x20 || n == 0x85 || n == 0xa0 || n == 0x1680 || (
                0x2000 <= n && n <= 0x200a) || n == 0x2028 || n == 0x2029 || n == 0x202f || n
                    == 0x205f || n == 0x3000
            },
            CharClass::AsciiAlphabetic => (0x41 <= n && n <= 0x5a) || (0x61 <= n && n <= 0x7a),
            CharClass::AsciiDigit => 0x30 <= n && n <= 0x39,
        }
    }
}

/// `k` is the length of the longest prefix of `s` in which every character
/// is inside the class (`wanted`) or outside it (`!wanted`).
pub open spec fn is_prefix_run(s: Seq<char>, class: CharClass, wanted: bool, k: int) -> bool {
    &&& 0 <= k <= s.len()
    &&& forall|i: int| 0 <= i < k ==> class.holds(#[trigger] s[i]) == wanted
    &&& k < s.len() ==> class.holds(s[k]) != wanted
}

/// The length of the longest prefix of `s` in which every character is
/// inside the class (`wanted`) or outside it (`!wanted`).
pub open spec fn prefix_run(s: Seq<char>, class: CharClass, wanted: bool) -> int {
    choose|k: int| is_prefix_run(s, class, wanted, k)
}

/// `k` is the length of the longest suffix of `s` in which every character
/// is inside the class (`wanted`) or outside it (`!wanted`).
pub open spec fn is_suffix_run(s: Seq<char>, class: CharClass, wanted: bool, k: int) -> bool {
    &&& 0 <= k <= s.len()
    &&& forall|i: int| s.len() - k <= i < s.len() ==> class.holds(#[trigger] s[i]) == wanted
    &&& k < s.len() ==> class.holds(s[s.len() - k - 1]) != wanted
}

/// The length of the longest suffix of `s` in which every character is
/// inside the class (`wanted`) or outside it (`!wanted`).
pub open spec fn suffix_run(s: Seq<char>, class: CharClass, wanted: bool) -> int {
    choose|k: int| is_suffix_run(s, class, wanted, k)
}

/// A text has exactly one longest prefix run.
pub proof fn lemma_prefix_run_unique(s: Seq<char>, class: CharClass, wanted: bool, k: int)
    requires
        is_prefix_run(s, class, wanted, k),
    ensures
        prefix_run(s, class, wanted) == k,
{
    let j = prefix_run(s, class, wanted);
    assert(is_prefix_run(s, class, wanted, j));
    if j < k {
        assert(class.holds(s[j]) == wanted);
    } else if k < j {
        assert(class.holds(s[k]) == wanted);
    }
}

/// A text has exactly one longest suffix run.
pub proof fn lemma_suffix_run_unique(s: Seq<char>, class: CharClass, wanted: bool, k: int)
    requires
        is_suffix_run(s, class, wanted, k),
    ensures
        suffix_run(s, class, wanted) == k,
{
    let j = suffix_run(s, class, wanted);
    assert(is_suffix_run(s, class, wanted, j));
    if j < k {
        assert(class.holds(s[s.len() - j - 1]) == wanted);
    } else if k < j {
        assert(class.holds(s[s.len() - k - 1]) == wanted);
    }
}

/// The position of the first `c` in `s`, if `c` occurs in it.
pub open spec fn first_index(s: Seq<char>, c: char) -> Option<int> {
    let k = prefix_run(s, CharClass::Exactly(c), false);
    if k < s.len() {
        Some(k)
    } else {
        None
    }
}

/// The position of the last `c` in `s`, if `c` occurs in it.
pub open spec fn last_index(s: Seq<char>, c: char) -> Option<int> {
    let k = suffix_run(s, CharClass::Exactly(c), false);
    if k < s.len() {
        Some(s.len() - k - 1)
    } else {
        None
    }
}

/// The first `c` of a text stands where no `c` stands before it, and a text
/// has one exactly where `c` occurs in it.
pub proof fn lemma_first_index(s: Seq<char>, c: char)
    ensures
        match first_index(s, c) {
            Some(i) => 0 <= i < s.len() && s[i] == c && forall|j: int|
                0 <= j < i ==> #[trigger] s[j] != c,
            None => !s.contains(c),
        },
{
    let k = prefix_run(s, CharClass::Exactly(c), false);
    lemma_prefix_run_exists(s, CharClass::Exactly(c), false, 0);
    assert(is_prefix_run(s, CharClass::Exactly(c), false, k));
    if k < s.len() {
        assert forall|j: int| 0 <= j < k implies #[trigger] s[j] != c by {
            assert(CharClass::Exactly(c).holds(s[j]) == false);
        }
    } else {
        assert forall|j: int| 0 <= j < s.len() implies #[trigger] s[j] != c by {
            assert(CharClass::Exactly(c).holds(s[j]) == false);
        }
    }
}

/// The last `c` of a text stands where no `c` stands after it, and a text
/// has one exactly where `c` occurs in it.
pub proof fn lemma_last_index(s: Seq<char>, c: char)
    ensures
        match last_index(s, c) {
            Some(i) => 0 <= i < s.len() && s[i] == c && forall|j: int|
                i < j < s.len() ==> #[trigger] s[j] != c,
            None => !s.contains(c),
        },
{
    let k = suffix_run(s, CharClass::Exactly(c), false);
    lemma_suffix_run_exists(s, CharClass::Exactly(c), false, 0);
    assert(is_suffix_run(s, CharClass::Exactly(c), false, k));
    if k < s.len() {
        assert forall|j: int| s.len() - k - 1 < j < s.len() implies #[trigger] s[j] != c by {
            assert(CharClass::Exactly(c).holds(s[j]) == false);
        }
    } else {
        assert forall|j: int| 0 <= j < s.len() implies #[trigger] s[j] != c by {
            assert(CharClass::Exactly(c).holds(s[j]) == false);
        }
    }
}

/// Every text has a longest prefix run: a run of `k` characters either
/// ends there or goes on.
pub proof fn lemma_prefix_run_exists(s: Seq<char>, class: CharClass, wanted: bool, k: int)
    requires
        0 <= k <= s.len(),
        forall|i: int| 0 <= i < k ==> class.holds(#[trigger] s[i]) == wanted,
    ensures
        is_prefix_run(s, class, wanted, prefix_run(s, class, wanted)),
    decreases s.len() - k,
{
    if k < s.len() && class.holds(s[k]) == wanted {
        lemma_prefix_run_exists(s, class, wanted, k + 1);
    } else {
        assert(is_prefix_run(s, class, wanted, k));
    }
}

/// Every text has a longest suffix run: a run of `k` characters either
/// ends there or goes on.
pub proof fn lemma_suffix_run_exists(s: Seq<char>, class: CharClass, wanted: bool, k: int)
    requires
        0 <= k <= s.len(),
        forall|i: int| s.len() - k <= i < s.len() ==> class.holds(#[trigger] s[i]) == wanted,
    ensures
        is_suffix_run(s, class, wanted, suffix_run(s, class, wanted)),
    decreases s.len() - k,
{
    if k < s.len() && class.holds(s[s.len() - k - 1]) == wanted {
        lemma_suffix_run_exists(s, class, wanted, k + 1);
    } else {
        assert(is_suffix_run(s, class, wanted, k));
    }
}

/// `s` without the whitespace at its two ends.
pub open spec fn trimmed(s: Seq<char>) -> Seq<char> {
    let rest = s.skip(prefix_run(s, CharClass::Whitespace, true));
    rest.take(rest.len() - suffix_run(rest, CharClass::Whitespace, true))
}

/// `s` without its leading run of `c`.
pub open spec fn without_leading(s: Seq<char>, c: char) -> Seq<char> {
    s.skip(prefix_run(s, CharClass::Exactly(c), true))
}

/// `s` without its trailing run of `c`.
pub open spec fn without_trailing(s: Seq<char>, c: char) -> Seq<char> {
    s.take(s.len() - suffix_run(s, CharClass::Exactly(c), true))
}

/// `s` without one final `c`, where it ends in one.
pub open spec fn without_final(s: Seq<char>, c: char) -> Seq<char> {
    if s.len() > 0 && s.last() == c {
        s.drop_last()
    } else {
        s
    }
}

/// Whether a letter `a` to `z` or `A` to `Z` occurs in `s`.
pub open spec fn has_ascii_letter(s: Seq<char>) -> bool {
    exists|i: int| 0 <= i < s.len() && is_ascii_alphabetic(#[trigger] s[i])
}

/// The number that the digits of `s` write in base ten.
pub open spec fn decimal_value(s: Seq<char>) -> nat
    decreases s.len(),
{
    if s.len() == 0 {
        0
    } else {
        (decimal_value(s.drop_last()) * 10 + (s.last() as u32 - 0x30)) as nat
    }
}

/// Whether every character of `s` is a digit `0` to `9`.
pub open spec fn all_digits(s: Seq<char>) -> bool {
    forall|i: int| 0 <= i < s.len() ==> is_ascii_digit(#[trigger] s[i])
}

/// `s` without the `+` that may stand before a number.
pub open spec fn port_digits(s: Seq<char>) -> Seq<char> {
    if s.len() > 0 && s[0] == '+' {
        s.drop_first()
    } else {
        s
    }
}

/// The port that `s` writes: an optional `+`, then one or more digits whose
/// value is at most 65535. Any other text writes no port.
pub open spec fn port_value(s: Seq<char>) -> Option<u16> {
    let digits = port_digits(s);
    if digits.len() > 0 && all_digits(digits) && decimal_value(digits) <= 0xffff {
        Some(decimal_value(digits) as u16)
    } else {
        None
    }
}

/// A number does not shrink when digits are appended to it.
pub proof fn lemma_decimal_value_grows(s: Seq<char>, k: int)
    requires
        all_digits(s),
        0 <= k <= s.len(),
    ensures
        decimal_value(s.take(k)) <= decimal_value(s),
    decreases s.len() - k,
{
    if k < s.len() {
        let next = s.take(k + 1);
        assert(next.drop_last() == s.take(k));
        assert(is_ascii_digit(s[k]));
        assert(next.last() == s[k]);
        lemma_decimal_value_grows(s, k + 1);
    } else {
        assert(s.take(k) == s);
    }
}

/// The characters of `s`, one element each.
pub fn chars_of(s: &str) -> (chars: Vec<char>)
    ensures
        chars@ == s@,
{
    let mut chars: Vec<char> = Vec::new();
    for c in it: s.chars()
        invariant
            chars@ == it.seq().take(it.index() as int),
            it.seq() == s@,
    {
        chars.push(c);
    }
    chars
}

/// The characters `from..to` of `s` as a text of their own.
pub fn substring(s: &str, from: usize, to: usize) -> (part: String)
    requires
        from <= to <= s@.len(),
    ensures
        part@ == s@.subrange(from as int, to as int),
{
    s.substring_char(from, to).to_owned()
}

/// The length of the longest prefix of `chars` that lies inside the class
/// (`wanted`) or outside it (`!wanted`).
pub fn scan_prefix(chars: &[char], class: CharClass, wanted: bool) -> (k: usize)
    ensures
        k == prefix_run(chars@, class, wanted),
        is_prefix_run(chars@, class, wanted, k as int),
{
    let mut k: usize = 0;
    while k < chars.len() && class.contains(chars[k]) == wanted
        invariant
            k <= chars.len(),
            forall|i: int| 0 <= i < k ==> class.holds(#[trigger] chars@[i]) == wanted,
        decreases chars.len() - k,
    {
        k += 1;
    }
    proof {
        lemma_prefix_run_unique(chars@, class, wanted, k as int);
    }
    k
}

/// The length of the longest suffix of `chars` that lies inside the class
/// (`wanted`) or outside it (`!wanted`).
pub fn scan_suffix(chars: &[char], class: CharClass, wanted: bool) -> (k: usize)
    ensures
        k == suffix_run(chars@, class, wanted),
        is_suffix_run(chars@, class, wanted, k as int),
{
    let n = chars.len();
    let mut k: usize = 0;
    while k < n && class.contains(chars[n - k - 1]) == wanted
        invariant
            n == chars.len(),
            k <= n,
            forall|i: int| n - k <= i < n ==> class.holds(#[trigger] chars@[i]) == wanted,
        decreases n - k,
    {
        k += 1;
    }
    proof {
        lemma_suffix_run_unique(chars@, class, wanted, k as int);
    }
    k
}

/// The position of the first `c` in `chars`.
pub fn find_first(chars: &[char], c: char) -> (found: Option<usize>)
    ensures
        match found {
            Some(i) => first_index(chars@, c) == Some(i as int) && i < chars.len() && chars[i as int]
                == c,
            None => first_index(chars@, c) is None,
        },
        found is None <==> !chars@.contains(c),
{
    let k = scan_prefix(chars, CharClass::Exactly(c), false);
    proof {
        lemma_first_index(chars@, c);
    }
    if k < chars.len() {
        Some(k)
    } else {
        None
    }
}

/// The position of the last `c` in `chars`.
pub fn find_last(chars: &[char], c: char) -> (found: Option<usize>)
    ensures
        match found {
            Some(i) => last_index(chars@, c) == Some(i as int) && i < chars.len() && chars[i as int]
                == c,
            None => last_index(chars@, c) is None,
        },
        found is None <==> !chars@.contains(c),
{
    let k = scan_suffix(chars, CharClass::Exactly(c), false);
    proof {
        lemma_last_index(chars@, c);
    }
    if k < chars.len() {
        Some(chars.len() - k - 1)
    } else {
        None
    }
}

/// Whether a letter `a` to `z` or `A` to `Z` occurs in `chars`.
pub fn contains_ascii_letter(chars: &[char]) -> (b: bool)
    ensures
        b == has_ascii_letter(chars@),
{
    let k = scan_prefix(chars, CharClass::AsciiAlphabetic, false);
    if k < chars.len() {
        assert(is_ascii_alphabetic(chars@[k as int]));
        true
    } else {
        false
    }
}

/// The bounds `(from, to)` of `chars` without the whitespace at its ends.
pub fn trim_bounds(chars: &[char]) -> (bounds: (usize, usize))
    ensures
        bounds.0 <= bounds.1 <= chars.len(),
        chars@.subrange(bounds.0 as int, bounds.1 as int) == trimmed(chars@),
{
    let from = scan_prefix(chars, CharClass::Whitespace, true);
    let rest = slice_subrange(chars, from, chars.len());
    assert(rest@ == chars@.skip(from as int));
    let trailing = scan_suffix(rest, CharClass::Whitespace, true);
    let to = chars.len() - trailing;
    assert(chars@.subrange(from as int, to as int) == rest@.take(rest@.len() - trailing));
    (from, to)
}

/// Reads a port number: an optional `+`, then digits, at most 65535.
pub fn parse_port(chars: &[char]) -> (port: Option<u16>)
    ensures
        port == port_value(chars@),
{
    let n = chars.len();
    let start: usize = if n > 0 && chars[0] == '+' {
        1
    } else {
        0
    };
    let digits = slice_subrange(chars, start, n);
    assert(digits@ == port_digits(chars@));
    let m = digits.len();
    if m == 0 {
        return None;
    }
    let mut value: u32 = 0;
    let mut i: usize = 0;
    while i < m
        invariant
            m == digits.len(),
            0 < m,
            digits@ == port_digits(chars@),
            i <= m,
            value <= 0xffff,
            value == decimal_value(digits@.take(i as int)),
            all_digits(digits@.take(i as int)),
        decreases m - i,
    {
        let c = digits[i];
        if !CharClass::AsciiDigit.contains(c) {
            assert(!all_digits(digits@)) by {
                assert(!is_ascii_digit(digits@[i as int]));
            }
            return None;
        }
        let d: u32 = c as u32 - 0x30;
        let next: u32 = value * 10 + d;
        proof {
            let taken = digits@.take(i as int + 1);
            assert(taken.drop_last() == digits@.take(i as int));
            assert(taken.last() == c);
            assert(decimal_value(taken) == next);
            assert(all_digits(taken)) by {
                assert forall|j: int| 0 <= j < taken.len() implies is_ascii_digit(
                    #[trigger] taken[j],
                ) by {
                    if j < i {
                        assert(taken[j] == digits@.take(i as int)[j]);
                    }
                }
            }
        }
        if next > 0xffff {
            proof {
                if all_digits(digits@) {
                    lemma_decimal_value_grows(digits@, i as int + 1);
                }
            }
            return None;
        }
        value = next;
        i += 1;
    }
    assert(digits@.take(m as int) == digits@);
    Some(value as u16)
}

} // verus!
