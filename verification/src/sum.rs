//! A function module of the kind that the node runs: it adds up a list of
//! numbers given as text.

use vstd::prelude::*;
use vstd::string::*;

verus! {

/// Whether a character is white space.
pub open spec fn is_space(c: char) -> bool {
    let u = c as u32;
    ||| 9 <= u <= 13
    ||| u == 0x20
    ||| u == 0x85
    ||| u == 0xA0
    ||| u == 0x1680
    ||| 0x2000 <= u <= 0x200A
    ||| u == 0x2028
    ||| u == 0x2029
    ||| u == 0x202F
    ||| u == 0x205F
    ||| u == 0x3000
}

/// The first index from `from` on, below `to`, that holds no white space;
/// `to` if there is none.
pub open spec fn skip_spaces(text: Seq<char>, from: int, to: int) -> int
    decreases to - from,
{
    if 0 <= from < to <= text.len() && is_space(text[from]) {
        skip_spaces(text, from + 1, to)
    } else {
        from
    }
}

/// The end of the text between `from` and `to` once the white space at its
/// end is dropped.
pub open spec fn drop_spaces(text: Seq<char>, from: int, to: int) -> int
    decreases to - from,
{
    if 0 <= from < to <= text.len() && is_space(text[to - 1]) {
        drop_spaces(text, from, to - 1)
    } else {
        to
    }
}

/// The index of the first comma from `from` on, or the length of the text.
pub open spec fn field_end(text: Seq<char>, from: int) -> int
    decreases text.len() - from,
{
    if 0 <= from < text.len() && text[from] != ',' {
        field_end(text, from + 1)
    } else {
        from
    }
}

/// Why a text is not a number.
#[derive(Clone, Copy, Debug, PartialEq, Eq, Structural)]
pub enum ParseFault {
    /// The text is empty.
    Empty,
    /// The text holds something other than digits behind an optional sign,
    /// or nothing but a sign.
    InvalidDigit,
    /// The number is above the largest that the result type holds.
    TooLarge,
    /// The number is below the smallest that the result type holds.
    TooSmall,
}

/// The value of a decimal digit.
pub open spec fn digit_of(c: char) -> Option<int> {
    if '0' <= c <= '9' {
        Some(c as u32 - 48)
    } else {
        None
    }
}

/// The number that the digits from `at` up to `to` add to `acc`, read from
/// the left. Reading stops at the first character that is no digit, and at
/// the first digit with which the number leaves the range of `i32`.
pub open spec fn scan(text: Seq<char>, at: int, to: int, acc: int, negative: bool) -> Result<
    int,
    ParseFault,
>
    decreases to - at,
{
    if !(0 <= at < to <= text.len()) {
        Ok(acc)
    } else {
        match digit_of(text[at]) {
            None => Err(ParseFault::InvalidDigit),
            Some(d) => {
                let next = if negative {
                    acc * 10 - d
                } else {
                    acc * 10 + d
                };
                if next > i32::MAX {
                    Err(ParseFault::TooLarge)
                } else if next < i32::MIN {
                    Err(ParseFault::TooSmall)
                } else {
                    scan(text, at + 1, to, next, negative)
                }
            },
        }
    }
}

/// The number that the text between `from` and `to` denotes: decimal
/// digits, behind one `+` or `-` if any.
pub open spec fn number_at(text: Seq<char>, from: int, to: int) -> Result<int, ParseFault> {
    if from >= to {
        Err(ParseFault::Empty)
    } else if text[from] == '+' || text[from] == '-' {
        if from + 1 == to {
            Err(ParseFault::InvalidDigit)
        } else {
            scan(text, from + 1, to, 0, text[from] == '-')
        }
    } else {
        scan(text, from, to, 0, false)
    }
}

/// The number in the field that starts at `from`, white space around it
/// set aside.
pub open spec fn field_number(text: Seq<char>, from: int) -> Result<int, ParseFault> {
    let end = field_end(text, from);
    let start = skip_spaces(text, from, end);
    number_at(text, start, drop_spaces(text, start, end))
}

/// The numbers of the fields from `from` on, or the fault of the first
/// field that is no number.
pub open spec fn numbers_from(text: Seq<char>, from: int) -> Result<Seq<int>, ParseFault>
    decreases text.len() - from,
{
    let end = field_end(text, from);
    match field_number(text, from) {
        Err(fault) => Err(fault),
        Ok(n) => if 0 <= from <= end < text.len() {
            match numbers_from(text, end + 1) {
                Ok(rest) => Ok(seq![n] + rest),
                Err(fault) => Err(fault),
            }
        } else {
            Ok(seq![n])
        },
    }
}

/// The sum of the first `count` numbers.
pub open spec fn partial_sum(numbers: Seq<int>, count: int) -> int
    decreases count,
{
    if count <= 0 || count > numbers.len() {
        0
    } else {
        partial_sum(numbers, count - 1) + numbers[count - 1]
    }
}

/// Whether the numbers can be added from the left without ever leaving
/// the range of `i32`.
pub open spec fn sums_fit(numbers: Seq<int>) -> bool {
    forall|count: int|
        0 <= count <= numbers.len() ==> i32::MIN <= #[trigger] partial_sum(numbers, count)
            <= i32::MAX
}

/// The decimal digits of a natural number.
pub open spec fn digits(n: nat) -> Seq<char>
    decreases n,
{
    if n < 10 {
        seq![(48 + n) as u8 as char]
    } else {
        digits(n / 10) + seq![(48 + n % 10) as u8 as char]
    }
}

/// A number in decimal, with a minus sign where it is negative.
pub open spec fn decimal(n: int) -> Seq<char> {
    if n < 0 {
        seq!['-'] + digits((-n) as nat)
    } else {
        digits(n as nat)
    }
}

/// What is said of a fault.
pub open spec fn fault_text(fault: ParseFault) -> Seq<char> {
    match fault {
        ParseFault::Empty => "cannot parse integer from empty string"@,
        ParseFault::InvalidDigit => "invalid digit found in string"@,
        ParseFault::TooLarge => "number too large to fit in target type"@,
        ParseFault::TooSmall => "number too small to fit in target type"@,
    }
}

/// What the function returns for a text: the sum of its numbers in
/// decimal; else the fault of the first field that is no number; else, where
/// all are numbers, that their sum does not fit.
pub open spec fn sum_of(text: Seq<char>) -> Result<Seq<char>, Seq<char>> {
    match numbers_from(text, 0) {
        Err(fault) => Err("Failed to parse numbers: "@ + fault_text(fault)),
        Ok(numbers) => if sums_fit(numbers) {
            Ok(decimal(partial_sum(numbers, numbers.len() as int)))
        } else {
            Err("Failed to add numbers: sum does not fit in target type"@)
        },
    }
}

/// The numbers of a list of `i32`.
pub open spec fn ints(numbers: Seq<i32>) -> Seq<int> {
    numbers.map_values(|n: i32| n as int)
}

/// The characters of a text.
fn chars_of(text: &str) -> (chars: Vec<char>)
    ensures
        chars@ == text@,
{
    let len = text.unicode_len();
    let mut chars: Vec<char> = Vec::new();
    let mut i: usize = 0;
    while i < len
        invariant
            len == text@.len(),
            i <= len,
            chars@ == text@.subrange(0, i as int),
        decreases len - i,
    {
        chars.push(text.get_char(i));
        proof {
            assert(chars@ =~= text@.subrange(0, i + 1));
        }
        i += 1;
    }
    proof {
        assert(text@.subrange(0, len as int) =~= text@);
    }
    chars
}

/// Tells whether a character is white space.
fn is_space_char(c: char) -> (space: bool)
    ensures
        space == is_space(c),
{
    let u: u32 = c as u32;
    (9 <= u && u <= 13) || u == 0x20 || u == 0x85 || u == 0xA0 || u == 0x1680 || (0x2000 <= u
        && u <= 0x200A) || u == 0x2028 || u == 0x2029 || u == 0x202F || u == 0x205F || u
        == 0x3000
}

/// Reads the digits from `from` up to `to`.
fn read_digits(text: &[char], from: usize, to: usize, negative: bool) -> (number: Result<
    i32,
    ParseFault,
>)
    requires
        from <= to <= text.len(),
    ensures
        match scan(text@, from as int, to as int, 0, negative) {
            Ok(n) => number == Ok::<i32, ParseFault>(n as i32) && i32::MIN <= n <= i32::MAX,
            Err(fault) => number == Err::<i32, ParseFault>(fault),
        },
{
    let mut acc: i32 = 0;
    let mut at: usize = from;
    while at < to
        invariant
            from <= at <= to <= text.len(),
            scan(text@, from as int, to as int, 0, negative) == scan(
                text@,
                at as int,
                to as int,
                acc as int,
                negative,
            ),
        decreases to - at,
    {
        let c = text[at];
        if !('0' <= c && c <= '9') {
            return Err(ParseFault::InvalidDigit);
        }
        let d: i64 = (c as u32 - 48) as i64;
        let next: i64 = if negative {
            acc as i64 * 10 - d
        } else {
            acc as i64 * 10 + d
        };
        if next > i32::MAX as i64 {
            return Err(ParseFault::TooLarge);
        }
        if next < i32::MIN as i64 {
            return Err(ParseFault::TooSmall);
        }
        acc = next as i32;
        at += 1;
    }
    Ok(acc)
}

/// Reads the number between `from` and `to`.
fn read_number(text: &[char], from: usize, to: usize) -> (number: Result<i32, ParseFault>)
    requires
        from <= to <= text.len(),
    ensures
        match number_at(text@, from as int, to as int) {
            Ok(n) => number == Ok::<i32, ParseFault>(n as i32) && i32::MIN <= n <= i32::MAX,
            Err(fault) => number == Err::<i32, ParseFault>(fault),
        },
{
    if from >= to {
        return Err(ParseFault::Empty);
    }
    let first = text[from];
    if first == '+' || first == '-' {
        if from + 1 == to {
            Err(ParseFault::InvalidDigit)
        } else {
            read_digits(text, from + 1, to, first == '-')
        }
    } else {
        read_digits(text, from, to, false)
    }
}

/// Finds the end of the field that starts at `from`.
fn find_field_end(text: &[char], from: usize) -> (end: usize)
    requires
        from <= text.len(),
    ensures
        end == field_end(text@, from as int),
        from <= end <= text.len(),
{
    let mut end: usize = from;
    while end < text.len() && text[end] != ','
        invariant
            from <= end <= text.len(),
            field_end(text@, from as int) == field_end(text@, end as int),
        decreases text.len() - end,
    {
        end += 1;
    }
    end
}

/// Reads the number of the field between `from` and `end`.
fn read_field(text: &[char], from: usize, end: usize) -> (number: Result<i32, ParseFault>)
    requires
        from <= end <= text.len(),
        end == field_end(text@, from as int),
    ensures
        match field_number(text@, from as int) {
            Ok(n) => number == Ok::<i32, ParseFault>(n as i32) && i32::MIN <= n <= i32::MAX,
            Err(fault) => number == Err::<i32, ParseFault>(fault),
        },
{
    let mut start: usize = from;
    while start < end && is_space_char(text[start])
        invariant
            from <= start <= end <= text.len(),
            skip_spaces(text@, from as int, end as int) == skip_spaces(
                text@,
                start as int,
                end as int,
            ),
        decreases end - start,
    {
        start += 1;
    }
    let mut stop: usize = end;
    while start < stop && is_space_char(text[stop - 1])
        invariant
            start <= stop <= end <= text.len(),
            drop_spaces(text@, start as int, end as int) == drop_spaces(
                text@,
                start as int,
                stop as int,
            ),
        decreases stop - start,
    {
        stop -= 1;
    }
    read_number(text, start, stop)
}

/// Reads the numbers of all fields.
fn read_numbers(text: &[char]) -> (numbers: Result<Vec<i32>, ParseFault>)
    ensures
        match numbers_from(text@, 0) {
            Ok(ns) => numbers.is_ok() && ints(numbers.unwrap()@) == ns,
            Err(fault) => numbers == Err::<Vec<i32>, ParseFault>(fault),
        },
{
    let mut numbers: Vec<i32> = Vec::new();
    let mut from: usize = 0;
    proof {
        assert(ints(numbers@) =~= Seq::<int>::empty());
        assert(Seq::<int>::empty() + numbers_from(text@, 0).unwrap() =~= numbers_from(
            text@,
            0,
        ).unwrap());
    }
    loop
        invariant
            from <= text.len(),
            numbers_from(text@, 0) == match numbers_from(text@, from as int) {
                Ok(rest) => Ok::<Seq<int>, ParseFault>(ints(numbers@) + rest),
                Err(fault) => Err::<Seq<int>, ParseFault>(fault),
            },
        decreases text.len() - from,
    {
        let end = find_field_end(text, from);
        let ghost before = numbers@;
        match read_field(text, from, end) {
            Err(fault) => {
                return Err(fault);
            },
            Ok(n) => {
                numbers.push(n);
                proof {
                    assert(ints(numbers@) =~= ints(before) + seq![n as int]);
                }
                if end < text.len() {
                    proof {
                        if numbers_from(text@, end + 1).is_ok() {
                            let rest = numbers_from(text@, end + 1).unwrap();
                            assert(ints(before) + (seq![n as int] + rest) =~= ints(numbers@)
                                + rest);
                        }
                    }
                    from = end + 1;
                } else {
                    return Ok(numbers);
                }
            },
        }
    }
}

/// Adds the numbers from the left, as far as the sum fits.
fn add_all(numbers: &[i32]) -> (sum: Option<i32>)
    ensures
        match sum {
            Some(total) => sums_fit(ints(numbers@)) && total == partial_sum(
                ints(numbers@),
                numbers.len() as int,
            ),
            None => !sums_fit(ints(numbers@)),
        },
{
    let mut total: i32 = 0;
    let mut i: usize = 0;
    while i < numbers.len()
        invariant
            i <= numbers.len(),
            total == partial_sum(ints(numbers@), i as int),
            forall|count: int|
                0 <= count <= i ==> i32::MIN <= #[trigger] partial_sum(ints(numbers@), count)
                    <= i32::MAX,
        decreases numbers.len() - i,
    {
        let next: i64 = total as i64 + numbers[i] as i64;
        assert(ints(numbers@)[i as int] == numbers@[i as int]);
        assert(next == partial_sum(ints(numbers@), i + 1));
        if next > i32::MAX as i64 || next < i32::MIN as i64 {
            return None;
        }
        total = next as i32;
        i += 1;
    }
    Some(total)
}

/// The text of one decimal digit.
fn digit_text(d: u64) -> (text: &'static str)
    requires
        d < 10,
    ensures
        text@ == seq![(48 + d) as u8 as char],
{
    proof {
        reveal_strlit("0");
        reveal_strlit("1");
        reveal_strlit("2");
        reveal_strlit("3");
        reveal_strlit("4");
        reveal_strlit("5");
        reveal_strlit("6");
        reveal_strlit("7");
        reveal_strlit("8");
        reveal_strlit("9");
    }
    let text = match d {
        0 => "0",
        1 => "1",
        2 => "2",
        3 => "3",
        4 => "4",
        5 => "5",
        6 => "6",
        7 => "7",
        8 => "8",
        _ => "9",
    };
    proof {
        assert(text@ =~= seq![(48 + d) as u8 as char]);
    }
    text
}

/// Appends the decimal digits of `n` to `out`.
fn write_digits(n: u64, out: &mut String)
    ensures
        final(out)@ == old(out)@ + digits(n as nat),
    decreases n,
{
    if n >= 10 {
        write_digits(n / 10, out);
    }
    out.append(digit_text(n % 10));
    proof {
        if n >= 10 {
            assert(final(out)@ =~= old(out)@ + digits(n as nat));
        }
    }
}

/// A number in decimal.
pub fn to_decimal(n: i32) -> (text: String)
    ensures
        text@ == decimal(n as int),
{
    let mut text = String::new();
    if n < 0 {
        proof {
            reveal_strlit("-");
        }
        text.append("-");
        write_digits((-(n as i64)) as u64, &mut text);
        proof {
            assert(text@ =~= seq!['-'] + digits((-n) as nat));
        }
    } else {
        write_digits(n as u64, &mut text);
        proof {
            assert(text@ =~= digits(n as nat));
        }
    }
    text
}

/// The message for a fault.
fn fault_message(fault: ParseFault) -> (message: String)
    ensures
        message@ == "Failed to parse numbers: "@ + fault_text(fault),
{
    let mut message = String::from_str("Failed to parse numbers: ");
    match fault {
        ParseFault::Empty => message.append("cannot parse integer from empty string"),
        ParseFault::InvalidDigit => message.append("invalid digit found in string"),
        ParseFault::TooLarge => message.append("number too large to fit in target type"),
        ParseFault::TooSmall => message.append("number too small to fit in target type"),
    }
    message
}

/// Adds up a list of numbers.
///
/// The input is cut at its commas; each field, white space around it set
/// aside, must be a decimal number in the range of `i32`. The result is the
/// sum in decimal. The first field that is no number fails the call with a
/// message that says what is wrong with it; so does a sum that leaves the
/// range of `i32` while the numbers are added from the left.
pub fn invoke(input: String) -> (output: Result<String, String>)
    ensures
        match sum_of(input@) {
            Ok(text) => output.is_ok() && output.unwrap()@ == text,
            Err(message) => output.is_err() && output.unwrap_err()@ == message,
        },
{
    let chars = chars_of(input.as_str());
    match read_numbers(chars.as_slice()) {
        Err(fault) => Err(fault_message(fault)),
        Ok(numbers) => match add_all(numbers.as_slice()) {
            Some(total) => Ok(to_decimal(total)),
            None => Err(
                String::from_str("Failed to add numbers: sum does not fit in target type"),
            ),
        },
    }
}

} // verus!
