//! Reading a host's text: names whatever their case, and whole numbers.

use vstd::prelude::*;

verus! {

/// Whether two texts are the same.
pub fn same(a: &str, b: &str) -> (r: bool)
    ensures
        r == (a@ == b@),
{
    let n: usize = a.unicode_len();
    if n != b.unicode_len() {
        return false;
    }
    let mut i: usize = 0;
    while i < n
        invariant
            i <= n,
            n == a@.len() == b@.len(),
            forall|j: int| 0 <= j < i ==> #[trigger] a@[j] == b@[j],
        decreases n - i,
    {
        if a.get_char(i) != b.get_char(i) {
            assert(a@[i as int] != b@[i as int]);
            return false;
        }
        i = i + 1;
    }
    assert(a@ =~= b@);
    true
}

/// A letter of the alphabet as a small one; anything else as it is.
pub open spec fn small(c: char) -> char {
    if 'A' <= c && c <= 'Z' {
        ((c as u32) + 32) as char
    } else {
        c
    }
}

/// Whether two texts are the same but for the case of their letters.
pub open spec fn alike(a: Seq<char>, b: Seq<char>) -> bool {
    &&& a.len() == b.len()
    &&& forall|i: int| 0 <= i < a.len() ==> small(#[trigger] a[i]) == small(b[i])
}

/// The code of a character, letters of the alphabet as small ones.
fn small_code(c: char) -> (r: u32)
    ensures
        r == small(c) as u32,
{
    let code: u32 = c as u32;
    if 'A' <= c && c <= 'Z' {
        code + 32
    } else {
        code
    }
}

/// Whether two texts are the same but for the case of their letters.
pub fn same_ignoring_case(a: &str, b: &str) -> (r: bool)
    ensures
        r == alike(a@, b@),
{
    let n: usize = a.unicode_len();
    if n != b.unicode_len() {
        return false;
    }
    let mut i: usize = 0;
    while i < n
        invariant
            i <= n,
            n == a@.len() == b@.len(),
            forall|j: int| 0 <= j < i ==> small(#[trigger] a@[j]) == small(b@[j]),
        decreases n - i,
    {
        if small_code(a.get_char(i)) != small_code(b.get_char(i)) {
            assert(small(a@[i as int]) != small(b@[i as int]));
            return false;
        }
        i = i + 1;
    }
    true
}

/// Whether a character is a decimal digit.
pub open spec fn is_digit(c: char) -> bool {
    '0' <= c && c <= '9'
}

/// The number that digits from `from` on spell.
pub open spec fn digits_value(s: Seq<char>, from: int, to: int) -> int
    decreases to - from,
{
    if to <= from {
        0
    } else {
        10 * digits_value(s, from, to - 1) + (s[to - 1] as u32 - '0' as u32)
    }
}

/// Where the digits of a whole number start: after its sign, where it has
/// one.
pub open spec fn digits_start(s: Seq<char>) -> int {
    if s.len() > 0 && (s[0] == '+' || s[0] == '-') {
        1
    } else {
        0
    }
}

/// Whether a text spells a whole number: a sign or none, then digits, one at
/// least.
pub open spec fn spells_number(s: Seq<char>) -> bool {
    &&& digits_start(s) < s.len()
    &&& forall|i: int| digits_start(s) <= i < s.len() ==> is_digit(#[trigger] s[i])
}

/// The whole number a text spells.
pub open spec fn spelled(s: Seq<char>) -> int {
    let v = digits_value(s, digits_start(s), s.len() as int);
    if s[0] == '-' {
        -v
    } else {
        v
    }
}

proof fn lemma_digits_grow(s: Seq<char>, from: int, to: int, end: int)
    requires
        from <= to <= end <= s.len(),
        0 <= from,
        forall|i: int| from <= i < end ==> is_digit(#[trigger] s[i]),
    ensures
        0 <= digits_value(s, from, to) <= digits_value(s, from, end),
    decreases end - from,
{
    if to < end {
        lemma_digits_grow(s, from, to, end - 1);
        assert(is_digit(s[end - 1]));
    } else if from < to {
        lemma_digits_grow(s, from, to - 1, to - 1);
        assert(is_digit(s[to - 1]));
    }
}

/// The whole number a text spells, where it spells one that fits.
pub fn whole_number(text: &str) -> (r: Option<i32>)
    ensures
        match r {
            Some(v) => spells_number(text@) && v == spelled(text@),
            None => !spells_number(text@) || spelled(text@) < i32::MIN || spelled(text@) > i32::MAX,
        },
{
    let n: usize = text.unicode_len();
    if n == 0 {
        return None;
    }
    let first: char = text.get_char(0);
    let negative: bool = first == '-';
    let start: usize = if first == '+' || first == '-' {
        1
    } else {
        0
    };
    if start == n {
        return None;
    }
    let mut value: i64 = 0;
    let mut i: usize = start;
    while i < n
        invariant
            start <= i <= n,
            n == text@.len(),
            start == digits_start(text@),
            start < n,
            first == text@[0],
            negative == (text@[0] == '-'),
            0 <= value <= 2147483648,
            value == digits_value(text@, start as int, i as int),
            forall|j: int| start <= j < i ==> is_digit(#[trigger] text@[j]),
        decreases n - i,
    {
        let c: char = text.get_char(i);
        if c < '0' || c > '9' {
            assert(!is_digit(text@[i as int]));
            return None;
        }
        value = value * 10 + (c as u32 - '0' as u32) as i64;
        assert(value == digits_value(text@, start as int, i + 1));
        if value > 2147483648 {
            proof {
                if spells_number(text@) {
                    lemma_digits_grow(text@, start as int, i + 1, n as int);
                }
            }
            return None;
        }
        i = i + 1;
    }
    assert(spells_number(text@));
    if negative {
        Some((-value) as i32)
    } else if value == 2147483648 {
        None
    } else {
        Some(value as i32)
    }
}

/// A capital is read as the small letter thirty-two codes on, and anything
/// else as itself; a letter read so is read so again.
pub proof fn law_capitals_are_read_small(c: char)
    ensures
        65 <= c as u32 <= 90 ==> small(c) as u32 == c as u32 + 32,
        c as u32 > 90 || (c as u32) < 65 ==> small(c) == c,
        small(small(c)) == small(c),
{
}

/// Texts that are alike stay alike whichever is read first, and a text is
/// like itself; texts of two lengths never are.
pub proof fn law_case_does_not_tell_texts_apart(a: Seq<char>, b: Seq<char>)
    ensures
        alike(a, a),
        alike(a, b) ==> alike(b, a),
        alike(a, b) ==> a.len() == b.len(),
        alike(a.map_values(|c: char| small(c)), a),
{
    let s = a.map_values(|c: char| small(c));
    assert forall|i: int| 0 <= i < s.len() implies small(#[trigger] s[i]) == small(a[i]) by {
        law_capitals_are_read_small(a[i]);
    }
}

/// Texts are alike exactly where each letter of one is the letter of the
/// other or its other case: the same character, or a capital and the small
/// letter thirty-two codes on.
pub proof fn law_alike_texts_agree_letter_by_letter(a: Seq<char>, b: Seq<char>, i: int)
    requires
        0 <= i < a.len(),
        a.len() == b.len(),
    ensures
        alike(a, b) ==> {
            ||| a[i] == b[i]
            ||| 65 <= a[i] as u32 <= 90 && b[i] as u32 == a[i] as u32 + 32
            ||| 65 <= b[i] as u32 <= 90 && a[i] as u32 == b[i] as u32 + 32
        },
        (forall|j: int| 0 <= j < a.len() ==> #[trigger] a[j] == b[j]) ==> alike(a, b),
        a[i] != b[i] && (a[i] as u32 > 127 || b[i] as u32 > 127) ==> !alike(a, b),
{
    law_capitals_are_read_small(a[i]);
    law_capitals_are_read_small(b[i]);
    assert(alike(a, b) ==> small(a[i]) == small(b[i]));
}

proof fn lemma_digits_same(s: Seq<char>, t: Seq<char>, from: int, off: int, to: int)
    requires
        forall|i: int| from <= i < to ==> #[trigger] s[i] == t[i + off],
    ensures
        digits_value(s, from, to) == digits_value(t, from + off, to + off),
    decreases to - from,
{
    if from < to {
        lemma_digits_same(s, t, from, off, to - 1);
        assert(s[to - 1] == t[to - 1 + off]);
    }
}

/// A digit written after a whole number makes it ten times as large and adds
/// the digit, away from nought on either side of it.
pub proof fn law_a_digit_more_is_ten_times_as_large(s: Seq<char>, c: char)
    requires
        spells_number(s),
        is_digit(c),
    ensures
        spells_number(s.push(c)),
        s[0] != '-' ==> spelled(s.push(c)) == 10 * spelled(s) + (c as u32 - 48),
        s[0] == '-' ==> spelled(s.push(c)) == 10 * spelled(s) - (c as u32 - 48),
{
    let t = s.push(c);
    let from = digits_start(s);
    assert(t[0] == s[0]);
    assert(digits_start(t) == from);
    assert forall|i: int| from <= i < t.len() implies is_digit(#[trigger] t[i]) by {
        if i < s.len() {
            assert(t[i] == s[i]);
        }
    }
    lemma_digits_same(s, t, from, 0, s.len() as int);
}

/// A digit alone spells itself, a sign before a number without one keeps or
/// turns it, and a text with anything else spells none.
pub proof fn law_a_sign_turns_a_number(s: Seq<char>, c: char, i: int)
    ensures
        is_digit(c) <==> 48 <= c as u32 <= 57,
        is_digit(c) ==> spells_number(seq![c]) && spelled(seq![c]) == c as u32 - 48,
        spells_number(s) && is_digit(s[0]) ==> spells_number(seq!['-'] + s) && spelled(seq!['-'] + s) == -spelled(s),
        spells_number(s) && is_digit(s[0]) ==> spells_number(seq!['+'] + s) && spelled(seq!['+'] + s) == spelled(s),
        !spells_number(Seq::<char>::empty()),
        !spells_number(seq!['-']) && !spells_number(seq!['+']),
        0 < i < s.len() && !is_digit(s[i]) ==> !spells_number(s),
{
    if is_digit(c) {
        reveal_with_fuel(digits_value, 3);
        assert(spells_number(seq![c]));
    }
    if spells_number(s) && is_digit(s[0]) {
        let (m, p) = (seq!['-'] + s, seq!['+'] + s);
        assert forall|j: int| 1 <= j < m.len() implies is_digit(#[trigger] m[j]) by {
            assert(m[j] == s[j - 1]);
        }
        assert forall|j: int| 1 <= j < p.len() implies is_digit(#[trigger] p[j]) by {
            assert(p[j] == s[j - 1]);
        }
        lemma_digits_same(s, m, 0, 1, s.len() as int);
        lemma_digits_same(s, p, 0, 1, s.len() as int);
    }
}

} // verus!
