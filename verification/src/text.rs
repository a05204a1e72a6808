//! Small pieces of text, decimal numbers, and lists of ids.

use vstd::prelude::*;

verus! {

/// The character that stands for one decimal digit.
pub open spec fn digit_char(d: nat) -> char {
    (48 + d) as char
}

/// The decimal notation of `n`, without leading zeros.
pub open spec fn decimal(n: nat) -> Seq<char>
    decreases n,
{
    if n < 10 {
        seq![digit_char(n)]
    } else {
        decimal(n / 10).push(digit_char(n % 10))
    }
}

fn digit_text(d: u64) -> (text: &'static str)
    requires
        d < 10,
    ensures
        text@ == seq![digit_char(d as nat)],
{
    proof {
        reveal_strlit("0");
        reveal_strlit("1");
        reveal_strlit("2");
        reveal_strlit("3");
        reveal_strlit("4");
        reveal_strlit("5");
        reveal_strlit("6");
        reveal_strlit("7");
        reveal_strlit("8");
        reveal_strlit("9");
    }
    let text = match d {
        0 => "0",
        1 => "1",
        2 => "2",
        3 => "3",
        4 => "4",
        5 => "5",
        6 => "6",
        7 => "7",
        8 => "8",
        _ => "9",
    };
    assert(text@ =~= seq![digit_char(d as nat)]);
    text
}

/// Writes `n` in decimal.
pub fn decimal_text(n: u64) -> (text: String)
    ensures
        text@ == decimal(n as nat),
    decreases n,
{
    if n < 10 {
        digit_text(n).to_owned()
    } else {
        let mut text = decimal_text(n / 10);
        text.append(digit_text(n % 10));
        assert(text@ =~= decimal(n as nat));
        text
    }
}

/// Different numbers are written differently.
pub proof fn decimal_is_injective(a: nat, b: nat)
    requires
        decimal(a) == decimal(b),
    ensures
        a == b,
    decreases a,
{
    lemma_decimal_not_empty(a / 10);
    lemma_decimal_not_empty(b / 10);
    assert(decimal(a).last() == digit_char(a % 10));
    assert(decimal(b).last() == digit_char(b % 10));
    assert(a % 10 == b % 10);
    if a >= 10 && b >= 10 {
        assert(decimal(a).drop_last() =~= decimal(a / 10));
        assert(decimal(b).drop_last() =~= decimal(b / 10));
        decimal_is_injective(a / 10, b / 10);
    } else if a >= 10 {
        assert(decimal(a).len() > 1);
    } else if b >= 10 {
        assert(decimal(b).len() > 1);
    }
}

proof fn lemma_decimal_not_empty(n: nat)
    ensures
        decimal(n).len() > 0,
    decreases n,
{
    if n >= 10 {
        lemma_decimal_not_empty(n / 10);
    }
}

/// A copy of an optional text.
pub fn copy_text(text: &Option<String>) -> (copy: Option<String>)
    ensures
        copy == *text,
{
    match text {
        Some(t) => Some(t.clone()),
        None => None,
    }
}

/// `String::from_utf8`: the text that bytes encode, if they do.
#[verifier::external_body]
fn string_from_utf8(bytes: Vec<u8>) -> (text: Option<String>)
    ensures
        match text {
            Some(t) => vstd::utf8::valid_utf8(bytes@) && t@ == vstd::utf8::decode_utf8(bytes@),
            None => !vstd::utf8::valid_utf8(bytes@),
        },
{
    String::from_utf8(bytes).ok()
}

/// The text that bytes encode, or nothing if they are not UTF-8.
pub fn decode_text(bytes: Vec<u8>) -> (text: Option<String>)
    ensures
        match text {
            Some(t) => vstd::utf8::valid_utf8(bytes@) && t@ == vstd::utf8::decode_utf8(bytes@),
            None => !vstd::utf8::valid_utf8(bytes@),
        },
{
    string_from_utf8(bytes)
}

/// The characters of a text.
pub fn chars_of(text: &str) -> (chars: Vec<char>)
    ensures
        chars@ == text@,
{
    let mut chars: Vec<char> = Vec::new();
    let n: usize = text.unicode_len();
    let mut i: usize = 0;
    while i < n
        invariant
            i <= n,
            n == text@.len(),
            chars@ =~= text@.take(i as int),
        decreases n - i,
    {
        chars.push(text.get_char(i));
        i += 1;
    }
    chars
}

/// Whether characters spell a text.
pub fn spells(chars: &Vec<char>, text: &str) -> (same: bool)
    ensures
        same == (chars@ == text@),
{
    let other = chars_of(text);
    if chars.len() != other.len() {
        return false;
    }
    let mut i: usize = 0;
    while i < chars.len()
        invariant
            i <= chars@.len(),
            chars@.len() == other@.len(),
            other@ == text@,
            forall|j: int| 0 <= j < i ==> chars@[j] == other@[j],
        decreases chars.len() - i,
    {
        if chars[i] != other[i] {
            return false;
        }
        i += 1;
    }
    assert(chars@ =~= other@);
    true
}

/// A text without the `c` at its beginning.
pub open spec fn trimmed_start(text: Seq<char>, c: char) -> Seq<char>
    decreases text.len(),
{
    if text.len() > 0 && text[0] == c {
        trimmed_start(text.skip(1), c)
    } else {
        text
    }
}

/// A text without the `c` at its end.
pub open spec fn trimmed_end(text: Seq<char>, c: char) -> Seq<char>
    decreases text.len(),
{
    if text.len() > 0 && text.last() == c {
        trimmed_end(text.drop_last(), c)
    } else {
        text
    }
}

/// Removes all `c` from both ends.
pub fn trim_matches(text: Vec<char>, c: char) -> (trimmed: Vec<char>)
    ensures
        trimmed@ == trimmed_end(trimmed_start(text@, c), c),
{
    let mut start: usize = 0;
    assert(text@.skip(0) =~= text@);
    while start < text.len() && text[start] == c
        invariant
            start <= text@.len(),
            trimmed_start(text@.skip(start as int), c) == trimmed_start(text@, c),
        decreases text.len() - start,
    {
        assert(text@.skip(start as int).skip(1) =~= text@.skip(start + 1));
        start += 1;
    }
    let mut end: usize = text.len();
    let ghost front = trimmed_start(text@, c);
    assert(front == text@.skip(start as int));
    assert(text@.subrange(start as int, end as int) =~= front);
    while end > start && text[end - 1] == c
        invariant
            start <= end <= text@.len(),
            trimmed_end(text@.subrange(start as int, end as int), c) == trimmed_end(front, c),
        decreases end,
    {
        assert(text@.subrange(start as int, end as int).drop_last() =~= text@.subrange(
            start as int,
            end - 1,
        ));
        end -= 1;
    }
    let mut trimmed: Vec<char> = Vec::new();
    let mut i: usize = start;
    while i < end
        invariant
            start <= i <= end <= text@.len(),
            trimmed@ =~= text@.subrange(start as int, i as int),
        decreases end - i,
    {
        trimmed.push(text[i]);
        i += 1;
    }
    trimmed
}

pub open spec fn is_digit(c: char) -> bool {
    '0' <= c <= '9'
}

/// The number that digits stand for.
pub open spec fn digits_value(digits: Seq<char>) -> nat
    decreases digits.len(),
{
    if digits.len() == 0 {
        0
    } else {
        digits_value(digits.drop_last()) * 10 + (digits.last() as nat - 48) as nat
    }
}

/// The digits of a number, after a plus sign if there is one.
pub open spec fn unsigned_digits(text: Seq<char>) -> Seq<char> {
    if text.len() > 0 && text[0] == '+' {
        text.skip(1)
    } else {
        text
    }
}

/// The number that a text stands for, if it is one and not above `max`.
pub open spec fn parsed(text: Seq<char>, max: nat) -> Option<nat> {
    let digits = unsigned_digits(text);
    if digits.len() > 0 && (forall|i: int| 0 <= i < digits.len() ==> is_digit(#[trigger] digits[i]))
        && digits_value(digits) <= max {
        Some(digits_value(digits))
    } else {
        None
    }
}

proof fn lemma_digits_value_grows(digits: Seq<char>, n: int)
    requires
        0 <= n <= digits.len(),
        forall|i: int| 0 <= i < digits.len() ==> is_digit(#[trigger] digits[i]),
    ensures
        digits_value(digits.take(n)) <= digits_value(digits),
    decreases digits.len() - n,
{
    if n < digits.len() {
        let next = digits.take(n + 1);
        assert(next.drop_last() =~= digits.take(n));
        assert(is_digit(digits[n]));
        lemma_digits_value_grows(digits, n + 1);
    } else {
        assert(digits.take(n) =~= digits);
    }
}

/// Reads an unsigned number in decimal.
pub fn parse_unsigned(text: &Vec<char>, max: u64) -> (number: Option<u64>)
    ensures
        match number {
            Some(n) => parsed(text@, max as nat) == Some(n as nat),
            None => parsed(text@, max as nat) is None,
        },
{
    let ghost digits = unsigned_digits(text@);
    let first: usize = if text.len() > 0 && text[0] == '+' {
        1
    } else {
        0
    };
    assert(digits =~= text@.skip(first as int));
    if first == text.len() {
        return None;
    }
    let mut value: u64 = 0;
    let mut i: usize = first;
    while i < text.len()
        invariant
            first <= i <= text@.len(),
            first < text@.len(),
            digits == text@.skip(first as int),
            digits == unsigned_digits(text@),
            value == digits_value(digits.take(i - first)),
            value <= max,
            forall|j: int| 0 <= j < i - first ==> is_digit(#[trigger] digits[j]),
        decreases text.len() - i,
    {
        let c: char = text[i];
        assert(digits[i - first] == c);
        if !('0' <= c && c <= '9') {
            return None;
        }
        let digit: u64 = (c as u32 - 48) as u64;
        assert(digits.take(i - first + 1).drop_last() =~= digits.take(i - first));
        let next: u128 = value as u128 * 10 + digit as u128;
        if next > max as u128 {
            proof {
                if forall|j: int| 0 <= j < digits.len() ==> is_digit(#[trigger] digits[j]) {
                    lemma_digits_value_grows(digits, i - first + 1);
                }
            }
            return None;
        }
        value = next as u64;
        i += 1;
    }
    assert(digits.take(i - first) =~= digits);
    Some(value)
}

/// White space, as Unicode has it.
pub open spec fn is_space(c: char) -> bool {
    let n = c as u32;
    ||| 9 <= n <= 13
    ||| n == 0x20
    ||| n == 0x85
    ||| n == 0xa0
    ||| n == 0x1680
    ||| 0x2000 <= n <= 0x200a
    ||| n == 0x2028
    ||| n == 0x2029
    ||| n == 0x202f
    ||| n == 0x205f
    ||| n == 0x3000
}

fn space(c: char) -> (result: bool)
    ensures
        result == is_space(c),
{
    let n: u32 = c as u32;
    (9 <= n && n <= 13) || n == 0x20 || n == 0x85 || n == 0xa0 || n == 0x1680 || (0x2000 <= n && n
        <= 0x200a) || n == 0x2028 || n == 0x2029 || n == 0x202f || n == 0x205f || n == 0x3000
}

/// Where a run of characters ends.
#[derive(Debug, Clone, Copy, PartialEq, Eq, Structural)]
pub enum Stop {
    AtSpace,
    AtNoSpace,
    At(char),
}

pub open spec fn stops(stop: Stop, c: char) -> bool {
    match stop {
        Stop::AtSpace => is_space(c),
        Stop::AtNoSpace => !is_space(c),
        Stop::At(end) => c == end,
    }
}

/// The length of the run at the beginning of a text.
pub open spec fn run_len(text: Seq<char>, stop: Stop) -> nat
    decreases text.len(),
{
    if text.len() == 0 || stops(stop, text[0]) {
        0
    } else {
        1 + run_len(text.skip(1), stop)
    }
}

/// A run is no longer than its text, and a text that goes on after it does so
/// where the run stops.
pub proof fn lemma_run_len(text: Seq<char>, stop: Stop)
    ensures
        run_len(text, stop) <= text.len(),
        run_len(text, stop) < text.len() ==> stops(stop, text[run_len(text, stop) as int]),
        forall|i: int| 0 <= i < run_len(text, stop) ==> !stops(stop, #[trigger] text[i]),
    decreases text.len(),
{
    if text.len() > 0 && !stops(stop, text[0]) {
        let rest = text.skip(1);
        lemma_run_len(rest, stop);
        assert forall|i: int| 0 <= i < run_len(text, stop) implies !stops(
            stop,
            #[trigger] text[i],
        ) by {
            if i > 0 {
                assert(rest[i - 1] == text[i]);
            }
        }
    }
}

/// The run of characters that begins at `from`.
pub fn take_run(chars: &Vec<char>, from: usize, stop: Stop) -> (run: Vec<char>)
    requires
        from <= chars@.len(),
    ensures
        run@ == chars@.skip(from as int).take(run_len(chars@.skip(from as int), stop) as int),
        run@.len() == run_len(chars@.skip(from as int), stop),
        run@.len() <= chars@.len() - from,
{
    let ghost text = chars@.skip(from as int);
    let ghost len = run_len(text, stop);
    proof {
        lemma_run_len(text, stop);
    }
    let mut run: Vec<char> = Vec::new();
    let mut i: usize = from;
    while i < chars.len()
        invariant_except_break
            from <= i <= chars@.len(),
            text == chars@.skip(from as int),
            len == run_len(text, stop),
            i - from <= len <= text.len(),
            len < text.len() ==> stops(stop, text[len as int]),
            forall|j: int| 0 <= j < len ==> !stops(stop, #[trigger] text[j]),
            run@ == text.take(i - from),
        ensures
            run@ == text.take(len as int),
        decreases chars.len() - i,
    {
        let c: char = chars[i];
        assert(text[i - from] == c);
        let ends = match stop {
            Stop::AtSpace => space(c),
            Stop::AtNoSpace => !space(c),
            Stop::At(end) => c == end,
        };
        if ends {
            break;
        }
        run.push(c);
        assert(text.take(i + 1 - from) =~= text.take(i - from).push(c));
        i += 1;
    }
    run
}

/// A text without white space at its beginning.
pub open spec fn without_leading_space(text: Seq<char>) -> Seq<char> {
    text.skip(run_len(text, Stop::AtNoSpace) as int)
}

/// The first word of a text, which is empty if there is none.
pub open spec fn first_word(text: Seq<char>) -> Seq<char> {
    let rest = without_leading_space(text);
    rest.take(run_len(rest, Stop::AtSpace) as int)
}

pub fn take_first_word(chars: &Vec<char>) -> (word: Vec<char>)
    ensures
        word@ == first_word(chars@),
{
    assert(chars@.skip(0) =~= chars@);
    let spaces = take_run(chars, 0, Stop::AtNoSpace);
    take_run(chars, spaces.len(), Stop::AtSpace)
}

/// A number that was written is read back, if it is not above the bound.
pub proof fn written_number_is_read(n: nat, max: nat)
    ensures
        n <= max ==> parsed(decimal(n), max) == Some(n),
        n > max ==> parsed(decimal(n), max) is None,
{
    lemma_decimal_digits(n);
    let digits = decimal(n);
    assert(is_digit(digits[0]));
    assert(unsigned_digits(digits) == digits);
}

/// The decimal notation holds digits alone, which stand for the number.
pub proof fn lemma_decimal_digits(n: nat)
    ensures
        decimal(n).len() > 0,
        forall|i: int| 0 <= i < decimal(n).len() ==> is_digit(#[trigger] decimal(n)[i]),
        digits_value(decimal(n)) == n,
    decreases n,
{
    if n < 10 {
        let digits = decimal(n);
        assert(digits.drop_last() =~= Seq::<char>::empty());
        assert(digits_value(digits.drop_last()) == 0);
    } else {
        lemma_decimal_digits(n / 10);
        let digits = decimal(n);
        assert(digits.drop_last() =~= decimal(n / 10));
        assert(is_digit(digit_char(n % 10)));
    }
}

/// A text without a character at its ends neither begins nor ends with it, and
/// is the text again where it has none there.
pub proof fn trimmed_text_has_other_ends(text: Seq<char>, c: char)
    ensures
        ({
            let trimmed = trimmed_end(trimmed_start(text, c), c);
            &&& trimmed.len() > 0 ==> trimmed[0] != c && trimmed.last() != c
            &&& text.len() > 0 && text[0] != c && text.last() != c ==> trimmed == text
            &&& exists|from: int, to: int|
                0 <= from <= to <= text.len() && trimmed == #[trigger] text.subrange(from, to)
                    && (forall|i: int| 0 <= i < from || to <= i < text.len() ==> text[i] == c)
        }),
{
    let start = trimmed_start(text, c);
    lemma_trimmed_start(text, c);
    lemma_trimmed_end(start, c);
    let end = trimmed_end(start, c);
    let from = text.len() - start.len();
    let to = from + end.len();
    assert(end =~= text.subrange(from, to));
    assert forall|i: int| 0 <= i < from || to <= i < text.len() implies text[i] == c by {
        if to <= i {
            assert(start[i - from] == c);
        }
    }
}

proof fn lemma_trimmed_start(text: Seq<char>, c: char)
    ensures
        ({
            let rest = trimmed_start(text, c);
            &&& rest.len() <= text.len()
            &&& rest == text.skip(text.len() - rest.len())
            &&& rest.len() > 0 ==> rest[0] != c
            &&& forall|i: int| 0 <= i < text.len() - rest.len() ==> text[i] == c
        }),
    decreases text.len(),
{
    if text.len() > 0 && text[0] == c {
        lemma_trimmed_start(text.skip(1), c);
        let rest = trimmed_start(text.skip(1), c);
        assert(rest =~= text.skip(text.len() - rest.len()));
        assert forall|i: int| 0 <= i < text.len() - rest.len() implies text[i] == c by {
            if i > 0 {
                assert(text.skip(1)[i - 1] == c);
            }
        }
    } else {
        assert(text =~= text.skip(0));
    }
}

proof fn lemma_trimmed_end(text: Seq<char>, c: char)
    ensures
        ({
            let rest = trimmed_end(text, c);
            &&& rest.len() <= text.len()
            &&& rest == text.take(rest.len() as int)
            &&& rest.len() > 0 ==> rest.last() != c
            &&& forall|i: int| rest.len() <= i < text.len() ==> text[i] == c
        }),
    decreases text.len(),
{
    if text.len() > 0 && text.last() == c {
        lemma_trimmed_end(text.drop_last(), c);
        let rest = trimmed_end(text.drop_last(), c);
        assert(rest =~= text.take(rest.len() as int));
        assert forall|i: int| rest.len() <= i < text.len() implies text[i] == c by {
            if i < text.len() - 1 {
                assert(text.drop_last()[i] == c);
            }
        }
    } else {
        assert(text =~= text.take(text.len() as int));
    }
}

/// A run ends at the first character that stops it.
pub proof fn lemma_run_ends(text: Seq<char>, stop: Stop, n: int)
    requires
        0 <= n <= text.len(),
        forall|i: int| 0 <= i < n ==> !stops(stop, #[trigger] text[i]),
        n < text.len() ==> stops(stop, text[n]),
    ensures
        run_len(text, stop) == n,
{
    lemma_run_len(text, stop);
}

} // verus!
