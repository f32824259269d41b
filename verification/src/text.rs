//! Numbers and strings as the menu and the log show them.

use vstd::prelude::*;
use vstd::string::StrSliceExecFns;

verus! {

/// `String::push` appends the given character to the end of the string.
pub assume_specification[ String::push ](text: &mut String, ch: char)
    ensures
        final(text)@ == old(text)@.push(ch),
;

/// The character that stands for a digit below ten.
pub open spec fn digit(value: nat) -> char {
    (value + 48) as char
}

/// A number in decimal, without leading zeros.
pub open spec fn digits(value: nat) -> Seq<char>
    decreases value,
{
    if value < 10 {
        seq![digit(value)]
    } else {
        digits(value / 10).push(digit(value % 10))
    }
}

/// A whole number in decimal, with a leading minus where it is negative.
pub open spec fn signed_digits(value: int) -> Seq<char> {
    if value < 0 {
        seq!['-'] + digits((-value) as nat)
    } else {
        digits(value as nat)
    }
}

fn digit_of(value: u64) -> (ch: char)
    requires
        value < 10,
    ensures
        ch == digit(value as nat),
{
    (value as u8 + 48) as char
}

pub fn decimal(value: u64) -> (text: String)
    ensures
        text@ == digits(value as nat),
    decreases value,
{
    if value < 10 {
        let mut text = String::new();
        text.push(digit_of(value));
        text
    } else {
        let mut text = decimal(value / 10);
        text.push(digit_of(value % 10));
        text
    }
}

pub fn decimal_signed(value: i64) -> (text: String)
    ensures
        text@ == signed_digits(value as int),
{
    if value < 0 {
        let mut text = String::new();
        text.push('-');
        let size: u64 = if value == i64::MIN {
            0x8000_0000_0000_0000
        } else {
            (-value) as u64
        };
        text.append(decimal(size).as_str());
        text
    } else {
        decimal(value as u64)
    }
}

/// The character that stands for a hexadecimal digit.
pub open spec fn hex_digit(value: nat, upper: bool) -> char {
    if value < 10 {
        digit(value)
    } else if upper {
        (value + 55) as char
    } else {
        (value + 87) as char
    }
}

/// A number in hexadecimal, without leading zeros.
pub open spec fn hex_digits(value: nat, upper: bool) -> Seq<char>
    decreases value,
{
    if value < 16 {
        seq![hex_digit(value, upper)]
    } else {
        hex_digits(value / 16, upper).push(hex_digit(value % 16, upper))
    }
}

/// Some digits with zeros in front, so that there are at least `width`.
pub open spec fn padded(text: Seq<char>, width: nat) -> Seq<char>
    decreases width - text.len(),
{
    if text.len() >= width {
        text
    } else {
        padded(seq!['0'] + text, width)
    }
}

fn hex_digit_of(value: u32, upper: bool) -> (ch: char)
    requires
        value < 16,
    ensures
        ch == hex_digit(value as nat, upper),
{
    if value < 10 {
        (value as u8 + 48) as char
    } else if upper {
        (value as u8 + 55) as char
    } else {
        (value as u8 + 87) as char
    }
}

fn bare_hexadecimal(value: u32, upper: bool) -> (text: String)
    ensures
        text@ == hex_digits(value as nat, upper),
    decreases value,
{
    if value < 16 {
        let mut text = String::new();
        text.push(hex_digit_of(value, upper));
        text
    } else {
        let mut text = bare_hexadecimal(value / 16, upper);
        text.push(hex_digit_of(value % 16, upper));
        text
    }
}

/// A number in hexadecimal, in at least `width` digits.
pub fn hexadecimal(value: u32, width: usize, upper: bool) -> (text: String)
    ensures
        text@ == padded(hex_digits(value as nat, upper), width as nat),
{
    let bare = bare_hexadecimal(value, upper);
    let mut text = bare.clone();
    let mut length: usize = bare.as_str().unicode_len();
    while length < width
        invariant
            length == text@.len(),
            padded(text@, width as nat) == padded(bare@, width as nat),
        decreases width - length,
    {
        let mut longer = "0".to_owned();
        proof {
            reveal_strlit("0");
            assert("0"@ == seq!['0']);
        }
        longer.append(text.as_str());
        text = longer;
        length += 1;
    }
    text
}

/// A count of thousandths in whole units, a half to the even neighbour.
pub open spec fn whole_units(thousandths: nat) -> nat {
    let whole = thousandths / 1000;
    let rest = thousandths % 1000;
    if rest > 500 || (rest == 500 && whole % 2 == 1) {
        whole + 1
    } else {
        whole
    }
}

pub fn rounded(thousandths: u64) -> (units: u64)
    ensures
        units == whole_units(thousandths as nat),
{
    let whole: u64 = thousandths / 1000;
    let rest: u64 = thousandths % 1000;
    if rest > 500 || (rest == 500 && whole % 2 == 1) {
        whole + 1
    } else {
        whole
    }
}

/// Whether two strings hold the same characters.
pub fn same(left: &str, right: &str) -> (equal: bool)
    ensures
        equal == (left@ == right@),
{
    left.to_owned() == right.to_owned()
}

/// The characters of a string.
pub fn characters(text: &str) -> (chars: Vec<char>)
    ensures
        chars@ == text@,
{
    let mut chars: Vec<char> = Vec::new();
    for ch in iter: text.chars()
        invariant
            chars@.len() == iter.index(),
            forall|i: int| 0 <= i < chars@.len() ==> chars@[i] == iter.seq()[i],
    {
        chars.push(ch);
    }
    chars
}

/// The string of some characters.
pub fn text_of(chars: &[char]) -> (text: String)
    ensures
        text@ == chars@,
{
    let mut text = String::new();
    let mut i: usize = 0;
    while i < chars.len()
        invariant
            i <= chars@.len(),
            text@ == chars@.take(i as int),
        decreases chars@.len() - i,
    {
        text.push(chars[i]);
        assert(chars@.take(i as int).push(chars@[i as int]) == chars@.take(i + 1));
        i += 1;
    }
    assert(chars@.take(i as int) == chars@);
    text
}

// --- reading numbers --------------------------------------------------------

pub open spec fn is_digit(ch: char) -> bool {
    '0' <= ch <= '9'
}

pub open spec fn all_digits(text: Seq<char>) -> bool {
    forall|i: int| 0 <= i < text.len() ==> is_digit(#[trigger] text[i])
}

/// The number that some digits stand for.
pub open spec fn number(text: Seq<char>) -> nat
    decreases text.len(),
{
    if text.len() == 0 {
        0
    } else {
        number(text.drop_last()) * 10 + (text.last() as nat - 48) as nat
    }
}

/// A string without the plus sign it may start with.
pub open spec fn unsigned_part(text: Seq<char>) -> Seq<char> {
    if text.len() > 0 && text[0] == '+' {
        text.skip(1)
    } else {
        text
    }
}

/// The number that a string holds, if it holds one of 32 bits: at least one
/// digit and nothing else, behind a plus sign at most.
pub open spec fn parsed_u32(text: Seq<char>) -> Option<u32> {
    let part = unsigned_part(text);
    if part.len() > 0 && all_digits(part) && number(part) <= u32::MAX {
        Some(number(part) as u32)
    } else {
        None
    }
}

proof fn lemma_number_grows(text: Seq<char>, i: int)
    requires
        0 <= i <= text.len(),
    ensures
        number(text.take(i)) <= number(text),
    decreases text.len() - i,
{
    if i < text.len() {
        assert(text.take(i + 1).drop_last() == text.take(i));
        lemma_number_grows(text, i + 1);
    } else {
        assert(text.take(i) == text);
    }
}

/// Reads a number of 32 bits.
pub fn parse_u32(text: &[char]) -> (value: Option<u32>)
    ensures
        value == parsed_u32(text@),
{
    let ghost part = unsigned_part(text@);
    let start: usize = if text.len() > 0 && text[0] == '+' {
        1
    } else {
        0
    };
    proof {
        assert(part == text@.skip(start as int));
    }
    if text.len() == start {
        return None;
    }
    let mut value: u64 = 0;
    let mut i: usize = start;
    while i < text.len()
        invariant
            start <= i <= text@.len(),
            part == unsigned_part(text@),
            part == text@.skip(start as int),
            part.len() > 0,
            forall|j: int| 0 <= j < i - start ==> is_digit(#[trigger] part[j]),
            value == number(part.take(i - start)),
            value <= u32::MAX,
        decreases text@.len() - i,
    {
        let ch: char = text[i];
        assert(part[i - start] == ch);
        if !('0' <= ch && ch <= '9') {
            assert(!is_digit(part[i - start]));
            return None;
        }
        proof {
            assert(part.take(i - start + 1).drop_last() == part.take(i - start));
            lemma_number_grows(part, i - start + 1);
        }
        value = value * 10 + (ch as u64 - 48);
        if value > 0xFFFF_FFFF {
            return None;
        }
        i += 1;
    }
    assert(part.take(i - start) == part);
    Some(value as u32)
}

proof fn lemma_digits(value: nat)
    ensures
        digits(value).len() > 0,
        all_digits(digits(value)),
        number(digits(value)) == value,
    decreases value,
{
    if value < 10 {
        assert(digits(value).drop_last() == Seq::<char>::empty());
        assert(digits(value).last() == digit(value));
        assert(number(Seq::<char>::empty()) == 0);
    } else {
        lemma_digits(value / 10);
        let before = digits(value / 10);
        assert(digits(value).drop_last() == before);
        assert(digits(value).last() == digit(value % 10));
        assert forall|i: int| 0 <= i < digits(value).len() implies is_digit(
            #[trigger] digits(value)[i],
        ) by {
            if i < before.len() {
                assert(before[i] == digits(value)[i]);
            }
        }
    }
}

/// Reading back a number that was written gives the number.
pub proof fn law_a_written_number_reads_back(value: u32)
    ensures
        parsed_u32(digits(value as nat)) == Some(value),
        all_digits(digits(value as nat)),
{
    lemma_digits(value as nat);
    assert(is_digit(digits(value as nat)[0]));
}

// --- cutting strings up -----------------------------------------------------

/// The pieces of a string between separators. There is always at least one.
pub open spec fn pieces(text: Seq<char>, separator: char) -> Seq<Seq<char>>
    decreases text.len(),
{
    if text.len() == 0 {
        seq![Seq::empty()]
    } else {
        let before = pieces(text.drop_last(), separator);
        if text.last() == separator {
            before.push(Seq::empty())
        } else {
            before.update(before.len() - 1, before.last().push(text.last()))
        }
    }
}

proof fn lemma_pieces(text: Seq<char>, separator: char)
    ensures
        pieces(text, separator).len() > 0,
    decreases text.len(),
{
    if text.len() > 0 {
        lemma_pieces(text.drop_last(), separator);
    }
}

/// What some strings of characters hold.
pub open spec fn shown(parts: Seq<Vec<char>>) -> Seq<Seq<char>> {
    parts.map_values(|part: Vec<char>| part@)
}

/// Cuts a string at every separator.
pub fn split(text: &[char], separator: char) -> (parts: Vec<Vec<char>>)
    ensures
        shown(parts@) == pieces(text@, separator),
        parts@.len() > 0,
{
    let mut parts: Vec<Vec<char>> = Vec::new();
    let mut last: Vec<char> = Vec::new();
    let mut i: usize = 0;
    assert(shown(parts@).push(last@) =~= pieces(text@.take(0), separator));
    while i < text.len()
        invariant
            i <= text@.len(),
            shown(parts@).push(last@) == pieces(text@.take(i as int), separator),
        decreases text@.len() - i,
    {
        let ch: char = text[i];
        let ghost before = pieces(text@.take(i as int), separator);
        proof {
            assert(text@.take(i + 1).drop_last() == text@.take(i as int));
        }
        if ch == separator {
            let ghost earlier = shown(parts@);
            parts.push(last);
            last = Vec::new();
            assert(shown(parts@) =~= before);
            assert(shown(parts@).push(last@) =~= pieces(text@.take(i + 1), separator));
        } else {
            last.push(ch);
            assert(shown(parts@).push(last@) =~= before.update(
                before.len() - 1,
                before.last().push(ch),
            ));
        }
        i += 1;
    }
    parts.push(last);
    assert(text@.take(i as int) == text@);
    assert(shown(parts@) =~= pieces(text@, separator));
    parts
}

/// A separator in front of something starts a piece of its own.
pub proof fn lemma_pieces_of_two(left: Seq<char>, right: Seq<char>, separator: char)
    ensures
        pieces(left.push(separator) + right, separator) == pieces(left, separator) + pieces(
            right,
            separator,
        ),
    decreases right.len(),
{
    lemma_pieces(right, separator);
    let whole = left.push(separator) + right;
    if right.len() == 0 {
        assert(whole == left.push(separator));
        assert(whole.drop_last() == left);
        assert(pieces(whole, separator) =~= pieces(left, separator) + pieces(right, separator));
    } else {
        let rest = right.drop_last();
        lemma_pieces_of_two(left, rest, separator);
        lemma_pieces(rest, separator);
        assert(whole.drop_last() == left.push(separator) + rest);
        assert(whole.last() == right.last());
        assert(pieces(whole, separator) =~= pieces(left, separator) + pieces(right, separator));
    }
}

/// A string that holds no separator is one piece.
pub proof fn lemma_one_piece(text: Seq<char>, separator: char)
    requires
        !text.contains(separator),
    ensures
        pieces(text, separator) == seq![text],
    decreases text.len(),
{
    if text.len() > 0 {
        let rest = text.drop_last();
        assert(!rest.contains(separator)) by {
            if rest.contains(separator) {
                let i = choose|i: int| 0 <= i < rest.len() && rest[i] == separator;
                assert(text[i] == separator);
            }
        }
        lemma_one_piece(rest, separator);
        assert(text.last() == text[text.len() - 1]);
        assert(rest.push(text.last()) == text);
        assert(pieces(text, separator) =~= seq![text]);
    } else {
        assert(text == Seq::<char>::empty());
    }
}

/// A line without the carriage return it may end in.
pub open spec fn bare_line(line: Seq<char>) -> Seq<char> {
    if line.len() > 0 && line.last() == '\r' {
        line.drop_last()
    } else {
        line
    }
}

/// The lines of a text: what stands before each line feed, without a carriage
/// return in front of it, and what stands behind the last one, if anything.
pub open spec fn lines_of(text: Seq<char>) -> Seq<Seq<char>> {
    let parts = pieces(text, '\n');
    let ended = parts.drop_last().map_values(|line: Seq<char>| bare_line(line));
    if parts.last().len() == 0 {
        ended
    } else {
        ended.push(parts.last())
    }
}

/// Cuts a text into lines.
pub fn lines(text: &[char]) -> (lines: Vec<Vec<char>>)
    ensures
        shown(lines@) == lines_of(text@),
{
    let mut parts = split(text, '\n');
    let ghost all = shown(parts@);
    let last: Vec<char> = match parts.pop() {
        Some(last) => last,
        None => Vec::new(),
    };
    assert(last@ == all.last());
    assert(shown(parts@) =~= all.drop_last());
    let mut lines: Vec<Vec<char>> = Vec::new();
    let ghost ended = all.drop_last().map_values(|line: Seq<char>| bare_line(line));
    while lines.len() < parts.len()
        invariant
            lines@.len() <= parts@.len(),
            shown(parts@) == all.drop_last(),
            ended == all.drop_last().map_values(|line: Seq<char>| bare_line(line)),
            shown(lines@) == ended.take(lines@.len() as int),
        decreases parts@.len() - lines@.len(),
    {
        let index: usize = lines.len();
        let mut line: Vec<char> = Vec::new();
        let mut i: usize = 0;
        while i < parts[index].len()
            invariant
                index < parts@.len(),
                i <= parts@[index as int]@.len(),
                line@ == parts@[index as int]@.take(i as int),
            decreases parts@[index as int]@.len() - i,
        {
            line.push(parts[index][i]);
            assert(parts@[index as int]@.take(i as int).push(parts@[index as int]@[i as int])
                == parts@[index as int]@.take(i + 1));
            i += 1;
        }
        assert(line@ == parts@[index as int]@);
        assert(shown(parts@)[index as int] == line@);
        let count: usize = line.len();
        if count > 0 && line[count - 1] == '\r' {
            line.pop();
        }
        assert(line@ == ended[index as int]);
        let ghost before = lines@;
        lines.push(line);
        assert(shown(lines@) =~= shown(before).push(line@));
        assert(shown(lines@) =~= ended.take(lines@.len() as int));
    }
    assert(ended.take(lines@.len() as int) == ended);
    let ghost before = lines@;
    if last.len() > 0 {
        lines.push(last);
        assert(shown(lines@) =~= shown(before).push(last@));
    }
    lines
}

// --- what holds of written numbers and cut-up text --------------------------

/// What a digit is worth, in bases up to sixteen.
pub open spec fn worth(ch: char) -> int {
    if '0' <= ch <= '9' {
        ch as int - 48
    } else if 'a' <= ch <= 'f' {
        ch as int - 87
    } else {
        ch as int - 55
    }
}

/// What a number that is written in a base comes to.
pub open spec fn read_in(base: int, text: Seq<char>) -> int
    decreases text.len(),
{
    if text.len() == 0 {
        0
    } else {
        read_in(base, text.drop_last()) * base + worth(text.last())
    }
}

proof fn lemma_decimal(value: nat)
    ensures
        digits(value).len() > 0,
        read_in(10, digits(value)) == value,
        forall|i: int| 0 <= i < digits(value).len() ==> '0' <= #[trigger] digits(value)[i] <= '9',
        value < 10 ==> digits(value).len() == 1,
        value >= 10 ==> digits(value)[0] != '0',
        value > 0 ==> digits(value)[0] != '0',
    decreases value,
{
    reveal_with_fuel(read_in, 2);
    if value < 10 {
        assert(digits(value).drop_last() =~= Seq::<char>::empty());
        assert(digits(value).last() == digit(value));
    } else {
        lemma_decimal(value / 10);
        assert(digits(value).drop_last() =~= digits(value / 10));
        assert(digits(value).last() == digit(value % 10));
        assert(digits(value)[0] == digits(value / 10)[0]);
    }
}

/// A number reads back as itself, in the ten digits, with no zero in front.
pub proof fn law_a_number_is_written_in_decimal(value: u64, text: String, i: int)
    requires
        call_ensures(decimal, (value,), text),
        0 <= i < text@.len(),
    ensures
        read_in(10, text@) == value,
        '0' <= text@[i] <= '9',
        value > 0 ==> text@[0] != '0',
        value == 0 ==> text@ == seq!['0'],
{
    lemma_decimal(value as nat);
}

/// A negative number has its size behind a minus.
pub proof fn law_a_sign_is_written_in_front(value: i64, text: String)
    requires
        call_ensures(decimal_signed, (value,), text),
    ensures
        value < 0 ==> text@.len() > 1 && text@[0] == '-' && text@[1] != '0' && read_in(
            10,
            text@.skip(1),
        ) == -value,
        value >= 0 ==> text@.len() > 0 && text@[0] != '-' && read_in(10, text@) == value,
{
    if value < 0 {
        lemma_decimal((-value) as nat);
        assert(text@.skip(1) =~= digits((-value) as nat));
    } else {
        lemma_decimal(value as nat);
    }
}

proof fn lemma_hexadecimal(value: nat, upper: bool)
    ensures
        hex_digits(value, upper).len() > 0,
        read_in(16, hex_digits(value, upper)) == value,
        value > 0 ==> hex_digits(value, upper)[0] != '0',
        forall|i: int|
            0 <= i < hex_digits(value, upper).len() ==> ('0' <= #[trigger] hex_digits(
                value,
                upper,
            )[i] <= '9' || (upper && 'A' <= hex_digits(value, upper)[i] <= 'F') || (!upper && 'a'
                <= hex_digits(value, upper)[i] <= 'f')),
    decreases value,
{
    reveal_with_fuel(read_in, 2);
    if value < 16 {
        assert(hex_digits(value, upper).drop_last() =~= Seq::<char>::empty());
        assert(hex_digits(value, upper).last() == hex_digit(value, upper));
    } else {
        lemma_hexadecimal(value / 16, upper);
        assert(hex_digits(value, upper).drop_last() =~= hex_digits(value / 16, upper));
        assert(hex_digits(value, upper).last() == hex_digit(value % 16, upper));
        assert(hex_digits(value, upper)[0] == hex_digits(value / 16, upper)[0]);
    }
}

proof fn lemma_zero_in_front(base: int, text: Seq<char>)
    ensures
        read_in(base, seq!['0'] + text) == read_in(base, text),
    decreases text.len(),
{
    let longer = seq!['0'] + text;
    if text.len() == 0 {
        reveal_with_fuel(read_in, 2);
        assert(longer.drop_last() =~= Seq::<char>::empty());
        assert(longer.last() == '0');
    } else {
        lemma_zero_in_front(base, text.drop_last());
        assert(longer.drop_last() =~= seq!['0'] + text.drop_last());
        assert(longer.last() == text.last());
    }
}

proof fn lemma_padding(base: int, text: Seq<char>, width: nat)
    ensures
        read_in(base, padded(text, width)) == read_in(base, text),
        padded(text, width).len() == (if text.len() < width {
            width
        } else {
            text.len()
        }),
        forall|i: int|
            0 <= i < padded(text, width).len() ==> #[trigger] padded(text, width)[i] == (if i
                < padded(text, width).len() - text.len() {
                '0'
            } else {
                text[i - (padded(text, width).len() - text.len())]
            }),
    decreases width - text.len(),
{
    if text.len() < width {
        lemma_zero_in_front(base, text);
        lemma_padding(base, seq!['0'] + text, width);
    }
}

/// A number in hexadecimal reads back as itself, is as wide as was asked for, or
/// wider without a zero in front, and keeps to one case.
pub proof fn law_a_number_is_written_in_hexadecimal(
    value: u32,
    width: usize,
    upper: bool,
    text: String,
    i: int,
)
    requires
        call_ensures(hexadecimal, (value, width, upper), text),
        0 <= i < text@.len(),
    ensures
        read_in(16, text@) == value,
        text@.len() >= width,
        text@.len() > width && value > 0 ==> text@[0] != '0',
        value == 0 && width <= 1 ==> text@ == seq!['0'],
        '0' <= text@[i] <= '9' || (upper && 'A' <= text@[i] <= 'F') || (!upper && 'a' <= text@[i]
            <= 'f'),
{
    let bare = hex_digits(value as nat, upper);
    lemma_hexadecimal(value as nat, upper);
    lemma_padding(16, bare, width as nat);
    let front = text@.len() - bare.len();
    if i >= front {
        assert(text@[i] == bare[i - front]);
    }
}

/// Rounding goes to the nearest unit, and to the even one of two.
pub proof fn law_rounding_goes_to_the_nearest(thousandths: u64, units: u64)
    requires
        call_ensures(rounded, (thousandths,), units),
    ensures
        units * 1000 - thousandths <= 500,
        thousandths - units * 1000 <= 500,
        units * 1000 - thousandths == 500 || thousandths - units * 1000 == 500 ==> units % 2 == 0,
{
}

proof fn lemma_number_is_read(text: Seq<char>)
    requires
        all_digits(text),
    ensures
        read_in(10, text) == number(text),
    decreases text.len(),
{
    if text.len() > 0 {
        assert(all_digits(text.drop_last())) by {
            assert forall|i: int| 0 <= i < text.len() - 1 implies is_digit(
                #[trigger] text.drop_last()[i],
            ) by {
                assert(is_digit(text[i]));
            }
        }
        lemma_number_is_read(text.drop_last());
        assert(is_digit(text[text.len() - 1]));
    }
}

/// A number is read exactly where digits, behind a plus or not, write one that
/// fits.
pub proof fn law_a_number_is_read_from_its_digits(
    text: &[char],
    from: int,
    value: Option<u32>,
)
    requires
        call_ensures(parse_u32, (text,), value),
        from == (if text@.len() > 0 && text@[0] == '+' {
            1int
        } else {
            0
        }),
    ensures
        value is Some <==> from < text@.len() && (forall|i: int|
            from <= i < text@.len() ==> '0' <= #[trigger] text@[i] <= '9') && read_in(
            10,
            text@.skip(from),
        ) <= 0xFFFF_FFFF,
        value matches Some(number) ==> number == read_in(10, text@.skip(from)),
{
    let part = unsigned_part(text@);
    assert(part =~= text@.skip(from));
    if forall|i: int| from <= i < text@.len() ==> '0' <= #[trigger] text@[i] <= '9' {
        assert(all_digits(part)) by {
            assert forall|i: int| 0 <= i < part.len() implies is_digit(#[trigger] part[i]) by {
                assert(text@[i + from] == part[i]);
            }
        }
    }
    if all_digits(part) {
        lemma_number_is_read(part);
        assert forall|i: int| from <= i < text@.len() implies '0' <= #[trigger] text@[i] <= '9' by {
            assert(is_digit(part[i - from]));
        }
    }
}

/// Text is cut at the separator and nowhere else: one more separator begins a
/// new piece, and anything else goes on with the last.
pub proof fn law_text_is_cut_at_the_separator(
    text: &[char],
    more: &[char],
    ch: char,
    separator: char,
    parts: Vec<Vec<char>>,
    then: Vec<Vec<char>>,
    i: int,
)
    requires
        more@ == text@.push(ch),
        call_ensures(split, (text, separator), parts),
        call_ensures(split, (more, separator), then),
        0 <= i < parts@.len(),
    ensures
        text@.len() == 0 ==> parts@.len() == 1 && parts@[0]@.len() == 0,
        ch == separator ==> {
            &&& then@.len() == parts@.len() + 1
            &&& then@[i]@ == parts@[i]@
            &&& then@.last()@.len() == 0
        },
        ch != separator ==> {
            &&& then@.len() == parts@.len()
            &&& then@[i]@ == (if i == parts@.len() - 1 {
                parts@[i]@.push(ch)
            } else {
                parts@[i]@
            })
        },
{
    assert(more@.drop_last() =~= text@);
    assert(more@.last() == ch);
    let before = pieces(text@, separator);
    let after = pieces(more@, separator);
    assert(shown(parts@).len() == parts@.len());
    assert(shown(then@).len() == then@.len());
    assert(before[i] == parts@[i]@);
    assert(after[i] == then@[i]@);
    if text@.len() == 0 {
        assert(before[0] == parts@[0]@);
    }
    assert(after[after.len() - 1] == then@[then@.len() - 1]@);
}

/// The first line of a text ends at its first line feed, without a carriage
/// return before it; the other lines are those of the rest. Text without a line
/// feed is one line, and nothing is none.
pub proof fn law_lines_end_at_line_feeds(
    line: Seq<char>,
    rest: &[char],
    text: &[char],
    single: &[char],
    others: Vec<Vec<char>>,
    all: Vec<Vec<char>>,
    alone: Vec<Vec<char>>,
    i: int,
)
    requires
        !line.contains('\n'),
        text@ == line.push('\n') + rest@,
        single@ == line,
        call_ensures(lines, (rest,), others),
        call_ensures(lines, (text,), all),
        call_ensures(lines, (single,), alone),
    ensures
        all@.len() == others@.len() + 1,
        all@[0]@ == (if line.len() > 0 && line.last() == '\r' {
            line.drop_last()
        } else {
            line
        }),
        0 <= i < others@.len() ==> all@[i + 1]@ == others@[i]@,
        line.len() == 0 ==> alone@.len() == 0,
        line.len() > 0 ==> alone@.len() == 1 && alone@[0]@ == line,
{
    lemma_pieces_of_two(line, rest@, '\n');
    lemma_one_piece(line, '\n');
    lemma_pieces(rest@, '\n');
    let tail = pieces(rest@, '\n');
    let whole = pieces(text@, '\n');
    assert(whole.drop_last() =~= seq![line] + tail.drop_last());
    assert(whole.last() == tail.last());
    let bare = |line: Seq<char>| bare_line(line);
    assert(whole.drop_last().map_values(bare) =~= seq![bare_line(line)]
        + tail.drop_last().map_values(bare));
    assert(lines_of(text@) =~= seq![bare_line(line)] + lines_of(rest@));
    assert(shown(all@)[0] == all@[0]@);
    if 0 <= i < others@.len() {
        assert(shown(all@)[i + 1] == all@[i + 1]@);
        assert(shown(others@)[i] == others@[i]@);
    }
    assert(shown(all@).len() == all@.len());
    assert(shown(others@).len() == others@.len());
    assert(pieces(line, '\n').drop_last() =~= Seq::<Seq<char>>::empty());
    assert(shown(alone@).len() == alone@.len());
    if line.len() > 0 {
        assert(shown(alone@)[0] == alone@[0]@);
    }
}

} // verus!
