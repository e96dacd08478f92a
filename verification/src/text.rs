//! Characters and decimal numbers in script text.

use vstd::prelude::*;

verus! {

/// Whether a character has the Unicode property White_Space.
pub open spec fn is_white_space(c: char) -> bool {
    let n = c as u32;
    ||| 0x09 <= n <= 0x0D
    ||| n == 0x20
    ||| n == 0x85
    ||| n == 0xA0
    ||| n == 0x1680
    ||| 0x2000 <= n <= 0x200A
    ||| n == 0x2028
    ||| n == 0x2029
    ||| n == 0x202F
    ||| n == 0x205F
    ||| n == 0x3000
}

/// A text without the white space at its start.
pub open spec fn trim_start(s: Seq<char>) -> Seq<char>
    decreases s.len(),
{
    if s.len() > 0 && is_white_space(s[0]) {
        trim_start(s.drop_first())
    } else {
        s
    }
}

/// A text without the white space at its end.
pub open spec fn trim_end(s: Seq<char>) -> Seq<char>
    decreases s.len(),
{
    if s.len() > 0 && is_white_space(s.last()) {
        trim_end(s.drop_last())
    } else {
        s
    }
}

/// A text without the white space at either end.
pub open spec fn trimmed(s: Seq<char>) -> Seq<char> {
    trim_end(trim_start(s))
}

/// Whether a character is one of the ten decimal digits.
pub open spec fn is_digit(c: char) -> bool {
    '0' <= c <= '9'
}

/// The number that a run of decimal digits writes.
pub open spec fn digits_value(s: Seq<char>) -> nat
    decreases s.len(),
{
    if s.len() == 0 {
        0
    } else {
        (10 * digits_value(s.drop_last()) + (s.last() as u32 - '0' as u32)) as nat
    }
}

/// Whether a text holds decimal digits and nothing else.
pub open spec fn all_digits(s: Seq<char>) -> bool {
    forall|i: int| 0 <= i < s.len() ==> is_digit(#[trigger] s[i])
}

/// A text without the plus sign that may stand in front of a number.
pub open spec fn without_plus(s: Seq<char>) -> Seq<char> {
    if s.len() > 0 && s[0] == '+' {
        s.drop_first()
    } else {
        s
    }
}

/// The unsigned 32-bit number that a text writes in decimal: an optional
/// plus sign, then one digit or more and nothing else, with a value in
/// range.
pub open spec fn decimal_u32(s: Seq<char>) -> Option<u32> {
    let digits = without_plus(s);
    if digits.len() > 0 && all_digits(digits) && digits_value(digits) <= u32::MAX {
        Some(digits_value(digits) as u32)
    } else {
        None
    }
}

/// Whether `at` is the place of the one and only comma of a text.
pub open spec fn is_only_comma(s: Seq<char>, at: int) -> bool {
    &&& 0 <= at < s.len()
    &&& s[at] == ','
    &&& forall|j: int| 0 <= j < s.len() && j != at ==> #[trigger] s[j] != ','
}

/// The two parts of a text that holds exactly one comma: what stands before
/// the comma and what stands after it.
pub open spec fn comma_pair(s: Seq<char>) -> Option<(Seq<char>, Seq<char>)> {
    if exists|at: int| is_only_comma(s, at) {
        let at = choose|at: int| is_only_comma(s, at);
        Some((s.take(at), s.skip(at + 1)))
    } else {
        None
    }
}

/// The characters of a string slice, one by one.
pub fn chars_of(s: &str) -> (chars: Vec<char>)
    ensures
        chars@ == s@,
{
    let mut chars: Vec<char> = Vec::new();
    for c in it: s.chars()
        invariant
            chars@ == it.seq().take(it.index() as int),
            it.seq() == s@,
    {
        chars.push(c);
    }
    chars
}

/// Tests a character for the Unicode property White_Space.
pub fn white_space(c: char) -> (found: bool)
    ensures
        found == is_white_space(c),
{
    let n: u32 = c as u32;
    (0x09 <= n && n <= 0x0D) || n == 0x20 || n == 0x85 || n == 0xA0 || n == 0x1680 || (0x2000 <= n
        && n <= 0x200A) || n == 0x2028 || n == 0x2029 || n == 0x202F || n == 0x205F || n == 0x3000
}

/// Finds where a text begins and ends once the white space at both ends is
/// left out.
pub fn trim_bounds(chars: &[char]) -> (bounds: (usize, usize))
    ensures
        bounds.0 <= bounds.1 <= chars@.len(),
        chars@.subrange(bounds.0 as int, bounds.1 as int) == trimmed(chars@),
{
    let n = chars.len();
    let mut start: usize = 0;
    proof {
        assert(chars@.subrange(0, n as int) == chars@);
    }
    while start < n && white_space(chars[start])
        invariant
            n == chars@.len(),
            start <= n,
            trim_start(chars@) == trim_start(chars@.subrange(start as int, n as int)),
        decreases n - start,
    {
        proof {
            assert(chars@.subrange(start as int, n as int).drop_first() == chars@.subrange(
                start + 1,
                n as int,
            ));
        }
        start += 1;
    }
    let mut end: usize = n;
    while end > start && white_space(chars[end - 1])
        invariant
            start <= end <= n,
            n == chars@.len(),
            trim_start(chars@) == chars@.subrange(start as int, n as int),
            trimmed(chars@) == trim_end(chars@.subrange(start as int, end as int)),
        decreases end,
    {
        proof {
            assert(chars@.subrange(start as int, end as int).drop_last() == chars@.subrange(
                start as int,
                end - 1,
            ));
        }
        end -= 1;
    }
    (start, end)
}

/// Compares a text, held as characters, with a string slice.
pub fn text_equals(chars: &[char], other: &str) -> (same: bool)
    ensures
        same == (chars@ == other@),
{
    let mut i: usize = 0;
    for c in it: other.chars()
        invariant
            it.seq() == other@,
            i == it.index(),
            i <= chars@.len(),
            chars@.take(i as int) == other@.take(i as int),
    {
        if i >= chars.len() || chars[i] != c {
            proof {
                if i < chars@.len() {
                    assert(chars@[i as int] != other@[i as int]);
                }
            }
            return false;
        }
        proof {
            assert(chars@.take(i + 1) == chars@.take(i as int).push(chars@[i as int]));
            assert(other@.take(i + 1) == other@.take(i as int).push(other@[i as int]));
        }
        i += 1;
    }
    proof {
        assert(other@.take(i as int) == other@);
        if i == chars@.len() {
            assert(chars@.take(i as int) == chars@);
        }
    }
    i == chars.len()
}

/// The value of a run of digits is at least that of any of its beginnings.
proof fn lemma_digits_value_grows(s: Seq<char>, k: int)
    requires
        0 <= k <= s.len(),
        all_digits(s),
    ensures
        digits_value(s.take(k)) <= digits_value(s),
    decreases s.len() - k,
{
    if k == s.len() {
        assert(s.take(k) == s);
    } else {
        lemma_digits_value_grows(s, k + 1);
        assert(s.take(k + 1).drop_last() == s.take(k));
    }
}

/// Reads an unsigned 32-bit number written in decimal.
pub fn parse_u32(chars: &[char]) -> (value: Option<u32>)
    ensures
        value == decimal_u32(chars@),
{
    let n = chars.len();
    let first: usize = if n > 0 && chars[0] == '+' {
        1
    } else {
        0
    };
    let ghost digits = without_plus(chars@);
    proof {
        assert(digits == chars@.subrange(first as int, n as int));
    }
    if first == n {
        return None;
    }
    let mut total: u64 = 0;
    let mut i: usize = first;
    while i < n
        invariant
            first <= i <= n,
            n == chars@.len(),
            digits == chars@.subrange(first as int, n as int),
            digits == without_plus(chars@),
            forall|j: int| 0 <= j < i - first ==> is_digit(#[trigger] digits[j]),
            total == digits_value(digits.take(i - first)),
            total <= u32::MAX,
        decreases n - i,
    {
        let c = chars[i];
        if c < '0' || c > '9' {
            proof {
                assert(!is_digit(digits[i - first]));
            }
            return None;
        }
        let digit: u64 = (c as u32 - '0' as u32) as u64;
        let next: u64 = 10 * total + digit;
        proof {
            assert(digits.take(i + 1 - first).drop_last() == digits.take(i - first));
            assert(digits.take(i + 1 - first).last() == c);
            assert(next == digits_value(digits.take(i + 1 - first)));
        }
        if next > 0xFFFF_FFFF {
            proof {
                if all_digits(digits) {
                    lemma_digits_value_grows(digits, i + 1 - first);
                }
            }
            return None;
        }
        total = next;
        i += 1;
    }
    proof {
        assert(digits.take(n - first) == digits);
    }
    Some(total as u32)
}

/// Finds the one and only comma of a text, if the text has exactly one.
pub fn find_only_comma(chars: &[char]) -> (place: Option<usize>)
    ensures
        match place {
            Some(at) => is_only_comma(chars@, at as int),
            None => forall|at: int| !is_only_comma(chars@, at),
        },
{
    let n = chars.len();
    let mut i: usize = 0;
    while i < n && chars[i] != ','
        invariant
            i <= n,
            n == chars@.len(),
            forall|j: int| 0 <= j < i ==> #[trigger] chars@[j] != ',',
        decreases n - i,
    {
        i += 1;
    }
    if i == n {
        return None;
    }
    let mut k: usize = i + 1;
    while k < n && chars[k] != ','
        invariant
            i < k <= n,
            n == chars@.len(),
            chars@[i as int] == ',',
            forall|j: int| 0 <= j < k && j != i ==> #[trigger] chars@[j] != ',',
        decreases n - k,
    {
        k += 1;
    }
    if k == n {
        Some(i)
    } else {
        proof {
            assert forall|at: int| !is_only_comma(chars@, at) by {
                if is_only_comma(chars@, at) {
                    if at == i {
                        assert(chars@[k as int] != ',');
                    } else {
                        assert(chars@[i as int] != ',');
                    }
                }
            }
        }
        None
    }
}

/// What is left of a text without the white space at its start is the end
/// of the text, and does not begin with white space.
pub proof fn lemma_trim_start_is_suffix(s: Seq<char>) -> (from: int)
    ensures
        0 <= from <= s.len(),
        trim_start(s) == s.skip(from),
        forall|i: int| 0 <= i < from ==> is_white_space(#[trigger] s[i]),
        from < s.len() ==> !is_white_space(s[from]),
    decreases s.len(),
{
    if s.len() > 0 && is_white_space(s[0]) {
        let rest = lemma_trim_start_is_suffix(s.drop_first());
        assert(s.drop_first().skip(rest) == s.skip(rest + 1));
        assert forall|i: int| 0 <= i < rest + 1 implies is_white_space(#[trigger] s[i]) by {
            if i > 0 {
                assert(s[i] == s.drop_first()[i - 1]);
            }
        }
        rest + 1
    } else {
        assert(s.skip(0) == s);
        0
    }
}

/// What is left of a text without the white space at its end is the
/// beginning of the text, and does not end with white space.
pub proof fn lemma_trim_end_is_prefix(s: Seq<char>) -> (to: int)
    ensures
        0 <= to <= s.len(),
        trim_end(s) == s.take(to),
        forall|i: int| to <= i < s.len() ==> is_white_space(#[trigger] s[i]),
        to > 0 ==> !is_white_space(s[to - 1]),
    decreases s.len(),
{
    if s.len() > 0 && is_white_space(s.last()) {
        let to = lemma_trim_end_is_prefix(s.drop_last());
        assert(s.drop_last().take(to) == s.take(to));
        assert forall|i: int| to <= i < s.len() implies is_white_space(#[trigger] s[i]) by {
            if i < s.len() - 1 {
                assert(s[i] == s.drop_last()[i]);
            }
        }
        if to > 0 {
            assert(s[to - 1] == s.drop_last()[to - 1]);
        }
        to
    } else {
        assert(s.take(s.len() as int) == s);
        s.len() as int
    }
}

/// A trimmed text is the stretch of the text between its first and its last
/// character that is no white space: white space stands before and after
/// it, and none at either of its ends. A text of white space alone, or of
/// nothing, leaves nothing.
pub proof fn lemma_trimmed_is_stretch(s: Seq<char>) -> (bounds: (int, int))
    ensures
        0 <= bounds.0 <= bounds.1 <= s.len(),
        trimmed(s) == s.subrange(bounds.0, bounds.1),
        forall|i: int|
            0 <= i < s.len() && !(bounds.0 <= i < bounds.1) ==> is_white_space(#[trigger] s[i]),
        bounds.0 < bounds.1 ==> !is_white_space(s[bounds.0]) && !is_white_space(s[bounds.1 - 1]),
{
    let from = lemma_trim_start_is_suffix(s);
    let rest = s.skip(from);
    let to = lemma_trim_end_is_prefix(rest);
    assert(rest.take(to) == s.subrange(from, from + to));
    assert forall|i: int| 0 <= i < s.len() && !(from <= i < from + to) implies is_white_space(
        #[trigger] s[i],
    ) by {
        if i >= from + to {
            assert(s[i] == rest[i - from]);
        }
    }
    if to > 0 {
        assert(rest[to - 1] == s[from + to - 1]);
    }
    (from, from + to)
}

} // verus!
