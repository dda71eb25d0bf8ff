//! Text helpers over `str`, with their meaning stated on sequences of characters.

use vstd::prelude::*;

verus! {

/// `String::push` adds one character at the end of the string.
pub assume_specification[ String::push ](s: &mut String, c: char)
    ensures
        final(s)@ == old(s)@.push(c),
;

/// Whether `needle` stands somewhere in `text`.
pub open spec fn occurs_in(needle: Seq<char>, text: Seq<char>) -> bool {
    exists|at: int| #[trigger] occurs_at(needle, text, at)
}

/// Whether `needle` stands in `text` from position `at` on.
pub open spec fn occurs_at(needle: Seq<char>, text: Seq<char>, at: int) -> bool {
    &&& 0 <= at
    &&& at + needle.len() <= text.len()
    &&& text.subrange(at, at + needle.len()) == needle
}

/// `text` without the run of `c` at its end.
pub open spec fn trimmed_end(text: Seq<char>, c: char) -> Seq<char>
    decreases text.len(),
{
    if text.len() > 0 && text.last() == c {
        trimmed_end(text.drop_last(), c)
    } else {
        text
    }
}

/// `text` without the run of `c` at its start.
pub open spec fn trimmed_start(text: Seq<char>, c: char) -> Seq<char>
    decreases text.len(),
{
    if text.len() > 0 && text[0] == c {
        trimmed_start(text.drop_first(), c)
    } else {
        text
    }
}

/// The characters of a string.
pub fn chars_of(s: &str) -> (chars: Vec<char>)
    ensures
        chars@ == s@,
{
    let mut chars: Vec<char> = Vec::new();
    for c in it: s.chars()
        invariant
            it.seq() == s@,
            chars@ == s@.take(it.index()),
    {
        chars.push(c);
        assert(s@.take(it.index() + 1) =~= s@.take(it.index()).push(c));
    }
    assert(s@.take(s@.len() as int) =~= s@);
    chars
}

/// Whether two strings hold the same characters.
pub fn same_text(a: &str, b: &str) -> (same: bool)
    ensures
        same == (a@ == b@),
{
    let left: Vec<char> = chars_of(a);
    let right: Vec<char> = chars_of(b);
    if left.len() != right.len() {
        return false;
    }
    let mut i: usize = 0;
    while i < left.len()
        invariant
            left@ == a@,
            right@ == b@,
            left@.len() == right@.len(),
            i <= left@.len(),
            forall|j: int| 0 <= j < i ==> left@[j] == right@[j],
        decreases left@.len() - i,
    {
        if left[i] != right[i] {
            return false;
        }
        i += 1;
    }
    assert(a@ =~= b@);
    true
}

/// Whether `s` starts with `prefix`.
pub fn has_prefix(s: &str, prefix: &str) -> (found: bool)
    ensures
        found == prefix@.is_prefix_of(s@),
{
    let whole: Vec<char> = chars_of(s);
    let head: Vec<char> = chars_of(prefix);
    if whole.len() < head.len() {
        return false;
    }
    let mut i: usize = 0;
    while i < head.len()
        invariant
            whole@ == s@,
            head@ == prefix@,
            head@.len() <= whole@.len(),
            i <= head@.len(),
            forall|j: int| 0 <= j < i ==> head@[j] == whole@[j],
        decreases head@.len() - i,
    {
        if whole[i] != head[i] {
            assert(s@.subrange(0, prefix@.len() as int)[i as int] != prefix@[i as int]);
            return false;
        }
        i += 1;
    }
    assert(s@.subrange(0, prefix@.len() as int) =~= prefix@);
    true
}

/// What follows `prefix` in `s`, where `s` starts with it.
pub fn after_prefix<'a>(s: &'a str, prefix: &str) -> (rest: Option<&'a str>)
    ensures
        rest is Some <==> prefix@.is_prefix_of(s@),
        rest matches Some(r) ==> r@ == s@.skip(prefix@.len() as int),
{
    if has_prefix(s, prefix) {
        let rest = s.substring_char(prefix.unicode_len(), s.unicode_len());
        assert(rest@ =~= s@.skip(prefix@.len() as int));
        Some(rest)
    } else {
        None
    }
}

/// The string without the run of `c` at its end.
pub fn trim_end<'a>(s: &'a str, c: char) -> (rest: &'a str)
    ensures
        rest@ == trimmed_end(s@, c),
{
    let chars: Vec<char> = chars_of(s);
    let mut end: usize = chars.len();
    assert(s@.take(end as int) =~= s@);
    while end > 0 && chars[end - 1] == c
        invariant
            chars@ == s@,
            end <= s@.len(),
            trimmed_end(s@, c) == trimmed_end(s@.take(end as int), c),
        decreases end,
    {
        assert(s@.take(end as int).drop_last() =~= s@.take(end - 1));
        end = end - 1;
    }
    let rest = s.substring_char(0, end);
    assert(rest@ =~= s@.take(end as int));
    rest
}

/// The string without the run of `c` at its start.
pub fn trim_start<'a>(s: &'a str, c: char) -> (rest: &'a str)
    ensures
        rest@ == trimmed_start(s@, c),
{
    let chars: Vec<char> = chars_of(s);
    let mut start: usize = 0;
    assert(s@.skip(0) =~= s@);
    while start < chars.len() && chars[start] == c
        invariant
            chars@ == s@,
            start <= s@.len(),
            trimmed_start(s@, c) == trimmed_start(s@.skip(start as int), c),
        decreases s@.len() - start,
    {
        assert(s@.skip(start as int).drop_first() =~= s@.skip(start + 1));
        start = start + 1;
    }
    let rest = s.substring_char(start, chars.len());
    assert(rest@ =~= s@.skip(start as int));
    rest
}

/// The decimal digit of a number below ten.
pub open spec fn digit(d: nat) -> char {
    if d == 0 {
        '0'
    } else if d == 1 {
        '1'
    } else if d == 2 {
        '2'
    } else if d == 3 {
        '3'
    } else if d == 4 {
        '4'
    } else if d == 5 {
        '5'
    } else if d == 6 {
        '6'
    } else if d == 7 {
        '7'
    } else if d == 8 {
        '8'
    } else {
        '9'
    }
}

/// A number in decimal notation, without leading zeros.
pub open spec fn decimal_text(n: nat) -> Seq<char>
    decreases n,
{
    if n < 10 {
        seq![digit(n)]
    } else {
        decimal_text(n / 10).push(digit(n % 10))
    }
}

/// A number in decimal notation.
pub fn decimal(n: u64) -> (s: String)
    ensures
        s@ == decimal_text(n as nat),
    decreases n,
{
    let mut s: String = if n < 10 {
        String::new()
    } else {
        decimal(n / 10)
    };
    let d: u64 = n % 10;
    let c: char = if d == 0 {
        '0'
    } else if d == 1 {
        '1'
    } else if d == 2 {
        '2'
    } else if d == 3 {
        '3'
    } else if d == 4 {
        '4'
    } else if d == 5 {
        '5'
    } else if d == 6 {
        '6'
    } else if d == 7 {
        '7'
    } else if d == 8 {
        '8'
    } else {
        '9'
    };
    s.push(c);
    assert(n < 10 ==> s@ =~= seq![digit(n as nat)]);
    s
}

/// The value of a decimal digit.
pub open spec fn digit_value(c: char) -> Option<nat> {
    if '0' <= c <= '9' {
        Some((c as int - '0' as int) as nat)
    } else {
        None
    }
}

/// The number that a run of decimal digits denotes, nothing where another character stands in it.
pub open spec fn digits_value(s: Seq<char>) -> Option<nat>
    decreases s.len(),
{
    if s.len() == 0 {
        Some(0)
    } else {
        match (digits_value(s.drop_last()), digit_value(s.last())) {
            (Some(high), Some(low)) => Some(high * 10 + low),
            _ => None,
        }
    }
}

/// The digits of an unsigned number: everything behind an optional plus sign.
pub open spec fn unsigned_digits(s: Seq<char>) -> Seq<char> {
    if s.len() > 0 && s[0] == '+' {
        s.drop_first()
    } else {
        s
    }
}

/// The number that a text denotes: an optional plus sign, then at least one decimal digit and
/// nothing else, for a value that fits 64 bits.
pub open spec fn parsed_u64(s: Seq<char>) -> Option<u64> {
    let digits = unsigned_digits(s);
    if digits.len() == 0 {
        None
    } else {
        match digits_value(digits) {
            Some(n) => if n <= u64::MAX {
                Some(n as u64)
            } else {
                None
            },
            None => None,
        }
    }
}

proof fn lemma_digits_value_grows(s: Seq<char>, n: int)
    requires
        0 <= n <= s.len(),
        digits_value(s) is Some,
    ensures
        digits_value(s.take(n)) is Some,
        digits_value(s.take(n))->0 <= digits_value(s)->0,
    decreases s.len() - n,
{
    if n < s.len() {
        lemma_digits_value_grows(s, n + 1);
        assert(s.take(n + 1).drop_last() =~= s.take(n));
    } else {
        assert(s.take(n) =~= s);
    }
}

/// Reads an unsigned decimal number.
pub fn parse_u64(s: &str) -> (n: Option<u64>)
    ensures
        n == parsed_u64(s@),
{
    let chars: Vec<char> = chars_of(s);
    let start: usize = if chars.len() > 0 && chars[0] == '+' {
        1
    } else {
        0
    };
    let ghost digits = unsigned_digits(s@);
    assert(digits =~= s@.skip(start as int));
    if chars.len() == start {
        return None;
    }
    let mut value: u64 = 0;
    let mut i: usize = start;
    while i < chars.len()
        invariant
            chars@ == s@,
            start <= i <= chars@.len(),
            digits == s@.skip(start as int),
            digits == unsigned_digits(s@),
            digits.len() > 0,
            digits_value(digits.take(i - start)) == Some(value as nat),
        decreases chars@.len() - i,
    {
        let c: char = chars[i];
        let ghost n = i - start;
        assert(digits.take(n + 1).drop_last() =~= digits.take(n));
        assert(digits.take(n + 1).last() == c);
        proof {
            if digits_value(digits) is Some {
                lemma_digits_value_grows(digits, n + 1);
            }
        }
        if !('0' <= c && c <= '9') {
            return None;
        }
        let low: u64 = (c as u32 - '0' as u32) as u64;
        match value.checked_mul(10) {
            Some(high) => match high.checked_add(low) {
                Some(next) => {
                    value = next;
                },
                None => {
                    return None;
                },
            },
            None => {
                return None;
            },
        }
        i += 1;
    }
    assert(digits.take(digits.len() as int) =~= digits);
    Some(value)
}

/// A text occurs in another exactly where the other can be cut into something before it, the text
/// itself, and something after it.
pub proof fn what_occurs_can_be_cut_out(needle: Seq<char>, text: Seq<char>)
    ensures
        occurs_in(needle, text) <==> exists|before: Seq<char>, after: Seq<char>|
            text == #[trigger] before.add(needle).add(after),
{
    if occurs_in(needle, text) {
        let at = choose|at: int| #[trigger] occurs_at(needle, text, at);
        let before = text.take(at);
        let after = text.skip(at + needle.len());
        assert(text =~= before.add(needle).add(after));
    }
    if exists|before: Seq<char>, after: Seq<char>| text == #[trigger] before.add(needle).add(after) {
        let (before, after) = choose|before: Seq<char>, after: Seq<char>|
            text == #[trigger] before.add(needle).add(after);
        let at = before.len() as int;
        assert(text.subrange(at, at + needle.len()) =~= needle);
        assert(occurs_at(needle, text, at));
    }
}

/// A run of one character behind a text is cut off, and nothing else is.
pub proof fn a_run_at_the_end_is_cut_off(text: Seq<char>, c: char, run: nat)
    requires
        text.len() == 0 || text.last() != c,
    ensures
        trimmed_end(text + Seq::new(run, |i: int| c), c) == text,
    decreases run,
{
    let whole = text + Seq::new(run, |i: int| c);
    if run > 0 {
        let shorter = text + Seq::new((run - 1) as nat, |i: int| c);
        assert(whole.drop_last() =~= shorter);
        a_run_at_the_end_is_cut_off(text, c, (run - 1) as nat);
    } else {
        assert(whole =~= text);
    }
}

/// A run of one character in front of a text is cut off, and nothing else is.
pub proof fn a_run_at_the_start_is_cut_off(text: Seq<char>, c: char, run: nat)
    requires
        text.len() == 0 || text[0] != c,
    ensures
        trimmed_start(Seq::new(run, |i: int| c) + text, c) == text,
    decreases run,
{
    let whole = Seq::new(run, |i: int| c) + text;
    if run > 0 {
        let shorter = Seq::new((run - 1) as nat, |i: int| c) + text;
        assert(whole.drop_first() =~= shorter);
        a_run_at_the_start_is_cut_off(text, c, (run - 1) as nat);
    } else {
        assert(whole =~= text);
    }
}

/// A number is written with its last digit behind the digits of its tenth.
pub proof fn numbers_are_written_digit_by_digit(n: nat, d: nat)
    requires
        d < 10,
    ensures
        decimal_text(d) == seq!["0123456789"@[d as int]],
        n > 0 ==> decimal_text(10 * n + d) == decimal_text(n).push("0123456789"@[d as int]),
{
    reveal_strlit("0123456789");
    assert((10 * n + d) / 10 == n);
    assert((10 * n + d) % 10 == d);
    assert(digit(d) == "0123456789"@[d as int]);
}

/// A digit behind a number makes it ten times as large and adds the digit's value. Nothing else
/// can stand behind a number, and no number exceeds 64 bits.
pub proof fn numbers_are_read_digit_by_digit(s: Seq<char>, c: char)
    ensures
        s.len() == 0 ==> parsed_u64(s.push(c)) == if '0' <= c <= '9' {
            Some((c as int - '0' as int) as u64)
        } else {
            None::<u64>
        },
        s.len() > 0 && s != seq!['+'] ==> parsed_u64(s.push(c)) == if parsed_u64(s) is Some && '0'
            <= c <= '9' && parsed_u64(s)->0 * 10 + (c as int - '0' as int) <= 0xffff_ffff_ffff_ffff {
            Some((parsed_u64(s)->0 * 10 + (c as int - '0' as int)) as u64)
        } else {
            None::<u64>
        },
{
    let whole = s.push(c);
    if s.len() == 0 {
        assert(whole =~= seq![c]);
        if c != '+' {
            assert(unsigned_digits(whole).drop_last() =~= Seq::<char>::empty());
        }
        reveal_with_fuel(digits_value, 2);
    } else if s != seq!['+'] {
        if s.len() == 1 && s[0] == '+' {
            assert(s =~= seq!['+']);
        }
        let digits = unsigned_digits(s);
        assert(unsigned_digits(whole) =~= digits.push(c));
        assert(digits.push(c).drop_last() =~= digits);
        assert(digits.len() > 0);
    }
}

/// A single plus sign in front of a number changes nothing. A text without digits is no number.
pub proof fn a_plus_sign_changes_nothing(s: Seq<char>)
    ensures
        s.len() == 0 ==> parsed_u64(s) is None,
        s.len() == 0 || s[0] != '+' ==> parsed_u64(seq!['+'] + s) == parsed_u64(s),
        s.len() > 0 && s[0] == '+' ==> parsed_u64(seq!['+'] + s) is None,
{
    let signed = seq!['+'] + s;
    assert(signed.drop_first() =~= s);
    if s.len() > 0 && s[0] == '+' {
        lemma_no_digits_no_value(s, 0);
    }
}

proof fn lemma_no_digits_no_value(s: Seq<char>, at: int)
    requires
        0 <= at < s.len(),
        !('0' <= s[at] <= '9'),
    ensures
        digits_value(s) is None,
    decreases s.len(),
{
    if at < s.len() - 1 {
        lemma_no_digits_no_value(s.drop_last(), at);
    }
}

/// What is written as a number is read as the same number.
pub proof fn written_numbers_are_read_back(n: u64)
    ensures
        parsed_u64(decimal_text(n as nat)) == Some(n),
{
    lemma_written_digits(n as nat);
}

proof fn lemma_written_digits(n: nat)
    ensures
        decimal_text(n).len() > 0,
        '0' <= decimal_text(n)[0] <= '9',
        digits_value(decimal_text(n)) == Some(n),
    decreases n,
{
    if n < 10 {
        assert(seq![digit(n)].drop_last() =~= Seq::<char>::empty());
        reveal_with_fuel(digits_value, 2);
    } else {
        lemma_written_digits(n / 10);
        assert(decimal_text(n).drop_last() =~= decimal_text(n / 10));
    }
}

} // verus!
