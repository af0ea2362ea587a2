//! Scanning and number conversion on text: white-space separated fields and
//! hexadecimal numbers, as the kernel writes them in its per-process listings.

use vstd::prelude::*;

verus! {

/// Whether `c` is Unicode white space. Fields of a line are separated by runs
/// of such characters.
pub open spec fn is_space(c: char) -> bool {
    let u = c as u32;
    ||| 0x09 <= u <= 0x0d
    ||| u == 0x20
    ||| u == 0x85
    ||| u == 0xa0
    ||| u == 0x1680
    ||| 0x2000 <= u <= 0x200a
    ||| u == 0x2028
    ||| u == 0x2029
    ||| u == 0x202f
    ||| u == 0x205f
    ||| u == 0x3000
}

/// What a scan looks for.
#[derive(Clone, Copy, Debug)]
pub enum Stop {
    /// A white-space character.
    Space,
    /// A character that is not white space.
    Text,
    /// The character `-`.
    Dash,
}

/// Whether a scan for `stop` ends at the character `c`.
pub open spec fn stops(stop: Stop, c: char) -> bool {
    match stop {
        Stop::Space => is_space(c),
        Stop::Text => !is_space(c),
        Stop::Dash => c == '-',
    }
}

/// The first position at or after `from` whose character ends a scan for
/// `stop`; the length of `s` when there is none.
pub open spec fn first_at(s: Seq<char>, from: int, stop: Stop) -> int
    decreases s.len() - from,
{
    if from >= s.len() {
        s.len() as int
    } else if stops(stop, s[from]) {
        from
    } else {
        first_at(s, from + 1, stop)
    }
}

/// Where the field number `k` of `s` starts and where it ends, counting
/// fields from 0. Both are the length of `s` when `s` has no such field.
pub open spec fn token_bounds(s: Seq<char>, k: nat) -> (int, int)
    decreases k,
{
    let from = if k == 0 {
        0
    } else {
        token_bounds(s, (k - 1) as nat).1
    };
    let start = first_at(s, from, Stop::Text);
    (start, first_at(s, start, Stop::Space))
}

/// The field number `k` of `s`: the `k`-th maximal run of characters that are
/// not white space.
pub open spec fn token(s: Seq<char>, k: nat) -> Option<Seq<char>> {
    let (start, end) = token_bounds(s, k);
    if start < s.len() {
        Some(s.subrange(start, end))
    } else {
        None
    }
}

/// The value of a hexadecimal digit, in either case.
pub open spec fn hex_digit(c: char) -> Option<nat> {
    let u = c as u32;
    if 0x30 <= u <= 0x39 {
        Some((u - 0x30) as nat)
    } else if 0x61 <= u <= 0x66 {
        Some((u - 0x61 + 10) as nat)
    } else if 0x41 <= u <= 0x46 {
        Some((u - 0x41 + 10) as nat)
    } else {
        None
    }
}

/// Whether every character of `digits` is a hexadecimal digit.
pub open spec fn all_hex(digits: Seq<char>) -> bool {
    forall|i: int| 0 <= i < digits.len() ==> (#[trigger] hex_digit(digits[i])) is Some
}

/// The number that the hexadecimal digits `digits` write, most significant
/// digit first.
pub open spec fn hex_value(digits: Seq<char>) -> nat
    decreases digits.len(),
{
    if digits.len() == 0 {
        0
    } else {
        16 * hex_value(digits.drop_last()) + hex_digit(digits.last()).unwrap_or(0)
    }
}

/// The 64-bit number that `s` writes in hexadecimal: one or more digits, in
/// either case, after an optional `+`. `None` when `s` is not of that form or
/// the number does not fit.
pub open spec fn parse_hex(s: Seq<char>) -> Option<u64> {
    let digits = if s.len() > 0 && s[0] == '+' {
        s.skip(1)
    } else {
        s
    };
    if digits.len() > 0 && all_hex(digits) && hex_value(digits) <= u64::MAX {
        Some(hex_value(digits) as u64)
    } else {
        None
    }
}

/// The lower-case hexadecimal digit of value `d`.
pub open spec fn hex_char(d: nat) -> char {
    if d == 0 {
        '0'
    } else if d == 1 {
        '1'
    } else if d == 2 {
        '2'
    } else if d == 3 {
        '3'
    } else if d == 4 {
        '4'
    } else if d == 5 {
        '5'
    } else if d == 6 {
        '6'
    } else if d == 7 {
        '7'
    } else if d == 8 {
        '8'
    } else if d == 9 {
        '9'
    } else if d == 10 {
        'a'
    } else if d == 11 {
        'b'
    } else if d == 12 {
        'c'
    } else if d == 13 {
        'd'
    } else if d == 14 {
        'e'
    } else {
        'f'
    }
}

/// `n` in lower-case hexadecimal, without prefix and without leading zeros.
pub open spec fn hex_text(n: nat) -> Seq<char>
    decreases n,
{
    if n < 16 {
        seq![hex_char(n)]
    } else {
        hex_text(n / 16).push(hex_char(n % 16))
    }
}

/// A position that no earlier character stops at, and that stops or ends the
/// text, is where the scan ends.
pub proof fn lemma_first_at(s: Seq<char>, from: int, stop: Stop, at: int)
    requires
        0 <= from <= at <= s.len(),
        forall|j: int| from <= j < at ==> !stops(stop, #[trigger] s[j]),
        at == s.len() || stops(stop, s[at]),
    ensures
        first_at(s, from, stop) == at,
    decreases at - from,
{
    if from < at {
        lemma_first_at(s, from + 1, stop, at);
    }
}

/// Where a scan ends: at or after where it starts, past characters that do
/// not end it only, and at a character that ends it unless the text is over.
pub proof fn lemma_first_at_found(s: Seq<char>, from: int, stop: Stop)
    requires
        0 <= from <= s.len(),
    ensures
        from <= first_at(s, from, stop) <= s.len(),
        first_at(s, from, stop) < s.len() ==> stops(stop, s[first_at(s, from, stop)]),
        forall|j: int| from <= j < first_at(s, from, stop) ==> !stops(stop, #[trigger] s[j]),
    decreases s.len() - from,
{
    if from < s.len() && !stops(stop, s[from]) {
        lemma_first_at_found(s, from + 1, stop);
    }
}

/// A field is a run of characters that are not white space and that cannot
/// be made longer: white space, or an end of the text, stands on either
/// side. Fields come one after the other.
pub proof fn lemma_token_is_run(s: Seq<char>, k: nat)
    ensures
        ({
            let (start, end) = token_bounds(s, k);
            &&& 0 <= start <= end <= s.len()
            &&& start < s.len() ==> start < end
            &&& forall|j: int| start <= j < end ==> !is_space(#[trigger] s[j])
            &&& start > 0 && start < s.len() ==> is_space(s[start - 1])
            &&& end < s.len() ==> is_space(s[end])
            &&& k > 0 ==> token_bounds(s, (k - 1) as nat).1 <= start
        }),
    decreases k,
{
    let from = if k == 0 {
        0
    } else {
        token_bounds(s, (k - 1) as nat).1
    };
    if k > 0 {
        lemma_token_is_run(s, (k - 1) as nat);
    }
    lemma_first_at_found(s, from, Stop::Text);
    let start = first_at(s, from, Stop::Text);
    lemma_first_at_found(s, start, Stop::Space);
    if start > 0 && start < s.len() {
        if start > from {
            assert(!stops(Stop::Text, s[start - 1]));
        } else {
            assert(k > 0);
            assert(from < s.len());
            assert(is_space(s[from]) || token_bounds(s, (k - 1) as nat).1 == s.len());
        }
    }
}

/// The digits written so far never write more than all of them do.
pub proof fn lemma_hex_value_grows(digits: Seq<char>, k: int)
    requires
        0 <= k <= digits.len(),
    ensures
        hex_value(digits.take(k)) <= hex_value(digits),
    decreases digits.len() - k,
{
    if k == digits.len() {
        assert(digits.take(k) == digits);
    } else {
        lemma_hex_value_grows(digits, k + 1);
        assert(digits.take(k + 1).drop_last() == digits.take(k));
    }
}

/// What is written in hexadecimal is read back as the same number.
pub proof fn lemma_hex_round_trip(n: nat)
    ensures
        hex_text(n).len() > 0,
        all_hex(hex_text(n)),
        hex_value(hex_text(n)) == n,
        n <= u64::MAX ==> parse_hex(hex_text(n)) == Some(n as u64),
    decreases n,
{
    let text = hex_text(n);
    assert forall|d: nat| d < 16 implies #[trigger] hex_digit(hex_char(d)) == Some(d) by {}
    if n < 16 {
        assert(text.drop_last() =~= Seq::<char>::empty());
        assert(hex_value(text.drop_last()) == 0);
        assert(hex_digit(text[0]) == Some(n));
    } else {
        lemma_hex_round_trip(n / 16);
        let front = hex_text(n / 16);
        assert(text.drop_last() =~= front);
        assert(text.last() == hex_char(n % 16));
        assert forall|i: int| 0 <= i < text.len() implies (#[trigger] hex_digit(text[i])) is Some by {
            if i < front.len() {
                assert(text[i] == front[i]);
                assert(hex_digit(front[i]) is Some);
            }
        }
    }
    assert(hex_digit(text[0]) is Some);
    assert(text[0] != '+');
}

/// The characters of `s`, in order.
pub fn chars_of(s: &str) -> (chars: Vec<char>)
    ensures
        chars@ == s@,
{
    let mut chars: Vec<char> = Vec::new();
    for c in it: s.chars()
        invariant
            it.seq() == s@,
            chars@ == s@.take(it.index() as int),
    {
        chars.push(c);
    }
    chars
}

/// Whether `c` is Unicode white space.
pub fn is_whitespace(c: char) -> (space: bool)
    ensures
        space == is_space(c),
{
    let u: u32 = c as u32;
    (0x09 <= u && u <= 0x0d) || u == 0x20 || u == 0x85 || u == 0xa0 || u == 0x1680 || (0x2000 <= u
        && u <= 0x200a) || u == 0x2028 || u == 0x2029 || u == 0x202f || u == 0x205f || u == 0x3000
}

/// The first position at or after `from` at which a scan for `stop` ends.
pub fn scan(chars: &Vec<char>, from: usize, stop: Stop) -> (at: usize)
    requires
        from <= chars.len(),
    ensures
        at == first_at(chars@, from as int, stop),
        from <= at <= chars.len(),
{
    let mut at: usize = from;
    while at < chars.len()
        invariant
            from <= at <= chars.len(),
            forall|j: int| from <= j < at ==> !stops(stop, #[trigger] chars@[j]),
        ensures
            from <= at <= chars.len(),
            forall|j: int| from <= j < at ==> !stops(stop, #[trigger] chars@[j]),
            at == chars.len() || stops(stop, chars@[at as int]),
        decreases chars.len() - at,
    {
        let c = chars[at];
        let found = match stop {
            Stop::Space => is_whitespace(c),
            Stop::Text => !is_whitespace(c),
            Stop::Dash => c == '-',
        };
        if found {
            break;
        }
        at += 1;
    }
    proof {
        lemma_first_at(chars@, from as int, stop, at as int);
    }
    at
}

/// The bounds of the first field of `chars` that starts at or after `from`.
/// Both bounds are the length of `chars` when there is no such field.
pub fn next_token(chars: &Vec<char>, from: usize) -> (bounds: (usize, usize))
    requires
        from <= chars.len(),
    ensures
        bounds.0 == first_at(chars@, from as int, Stop::Text),
        bounds.1 == first_at(chars@, bounds.0 as int, Stop::Space),
        from <= bounds.0 <= bounds.1 <= chars.len(),
{
    let start = scan(chars, from, Stop::Text);
    let end = scan(chars, start, Stop::Space);
    (start, end)
}

/// The value of `c` as a hexadecimal digit.
pub fn hex_digit_of(c: char) -> (value: Option<u64>)
    ensures
        match value {
            Some(d) => hex_digit(c) == Some(d as nat) && d < 16,
            None => hex_digit(c) is None,
        },
{
    let u: u32 = c as u32;
    if 0x30 <= u && u <= 0x39 {
        Some((u - 0x30) as u64)
    } else if 0x61 <= u && u <= 0x66 {
        Some((u - 0x61 + 10) as u64)
    } else if 0x41 <= u && u <= 0x46 {
        Some((u - 0x41 + 10) as u64)
    } else {
        None
    }
}

/// Reads the hexadecimal number that `chars` holds from `from` up to `to`.
pub fn parse_hex_u64(chars: &Vec<char>, from: usize, to: usize) -> (value: Option<u64>)
    requires
        from <= to <= chars.len(),
    ensures
        value == parse_hex(chars@.subrange(from as int, to as int)),
{
    let ghost s = chars@.subrange(from as int, to as int);
    let mut at: usize = from;
    if at < to && chars[at] == '+' {
        at += 1;
    }
    let first: usize = at;
    let ghost digits = chars@.subrange(first as int, to as int);
    assert(digits == if s.len() > 0 && s[0] == '+' {
        s.skip(1)
    } else {
        s
    });
    if at == to {
        return None;
    }
    let mut value: u64 = 0;
    while at < to
        invariant
            first <= at <= to <= chars.len(),
            s == chars@.subrange(from as int, to as int),
            digits == chars@.subrange(first as int, to as int),
            parse_hex(s) == if digits.len() > 0 && all_hex(digits) && hex_value(digits)
                <= u64::MAX {
                Some(hex_value(digits) as u64)
            } else {
                None
            },
            all_hex(digits.take(at - first)),
            value == hex_value(digits.take(at - first)),
        decreases to - at,
    {
        let ghost read = digits.take(at - first);
        let ghost more = digits.take(at + 1 - first);
        assert(more.drop_last() == read);
        assert(more.last() == chars@[at as int]);
        let digit: u64 = match hex_digit_of(chars[at]) {
            Some(digit) => digit,
            None => {
                assert(hex_digit(digits[at - first]) is None);
                return None;
            },
        };
        if value > (u64::MAX - digit) / 16 {
            proof {
                lemma_hex_value_grows(digits, at + 1 - first);
            }
            return None;
        }
        value = value * 16 + digit;
        at += 1;
    }
    assert(digits.take(at - first) == digits);
    Some(value)
}

/// The lower-case hexadecimal digit of value `d`, as text.
pub fn hex_digit_text(d: u64) -> (text: &'static str)
    requires
        d < 16,
    ensures
        text@ == seq![hex_char(d as nat)],
{
    proof {
        reveal_strlit("0");
        reveal_strlit("1");
        reveal_strlit("2");
        reveal_strlit("3");
        reveal_strlit("4");
        reveal_strlit("5");
        reveal_strlit("6");
        reveal_strlit("7");
        reveal_strlit("8");
        reveal_strlit("9");
        reveal_strlit("a");
        reveal_strlit("b");
        reveal_strlit("c");
        reveal_strlit("d");
        reveal_strlit("e");
        reveal_strlit("f");
    }
    let text = if d == 0 {
        "0"
    } else if d == 1 {
        "1"
    } else if d == 2 {
        "2"
    } else if d == 3 {
        "3"
    } else if d == 4 {
        "4"
    } else if d == 5 {
        "5"
    } else if d == 6 {
        "6"
    } else if d == 7 {
        "7"
    } else if d == 8 {
        "8"
    } else if d == 9 {
        "9"
    } else if d == 10 {
        "a"
    } else if d == 11 {
        "b"
    } else if d == 12 {
        "c"
    } else if d == 13 {
        "d"
    } else if d == 14 {
        "e"
    } else {
        "f"
    };
    assert(text@ =~= seq![hex_char(d as nat)]);
    text
}

/// Appends `n` in lower-case hexadecimal to `out`.
pub fn push_hex(out: &mut String, n: u64)
    ensures
        final(out)@ == old(out)@ + hex_text(n as nat),
    decreases n,
{
    if n >= 16 {
        push_hex(out, n / 16);
    }
    out.append(hex_digit_text(n % 16));
    assert(final(out)@ =~= old(out)@ + hex_text(n as nat));
}

/// The decimal digit of value `d`.
pub open spec fn decimal_char(d: nat) -> char {
    if d < 10 {
        hex_char(d)
    } else {
        '9'
    }
}

/// `n` in decimal, without leading zeros.
pub open spec fn decimal_text(n: nat) -> Seq<char>
    decreases n,
{
    if n < 10 {
        seq![decimal_char(n)]
    } else {
        decimal_text(n / 10).push(decimal_char(n % 10))
    }
}

/// Appends `n` in decimal to `out`.
pub fn push_decimal(out: &mut String, n: u64)
    ensures
        final(out)@ == old(out)@ + decimal_text(n as nat),
    decreases n,
{
    if n >= 10 {
        push_decimal(out, n / 10);
    }
    out.append(hex_digit_text(n % 10));
    assert(final(out)@ =~= old(out)@ + decimal_text(n as nat));
}

/// Whether two texts hold the same characters.
pub fn same_text(one: &str, other: &str) -> (same: bool)
    ensures
        same == (one@ == other@),
{
    let left = chars_of(one);
    let right = chars_of(other);
    if left.len() != right.len() {
        return false;
    }
    let mut at: usize = 0;
    while at < left.len()
        invariant
            at <= left.len(),
            left.len() == right.len(),
            left@ == one@,
            right@ == other@,
            forall|i: int| 0 <= i < at ==> left@[i] == right@[i],
        decreases left.len() - at,
    {
        if left[at] != right[at] {
            return false;
        }
        at += 1;
    }
    assert(left@ =~= right@);
    true
}

} // verus!
