//! Text helpers: letter case, whitespace, numbers as text and truncation.
use vstd::prelude::*;
use vstd::string::*;

verus! {

/// The ASCII lower-case form of a character; all others stay as they are.
pub open spec fn ascii_lower(c: char) -> char {
    if 'A' <= c <= 'Z' {
        (c as u32 + 32) as char
    } else {
        c
    }
}

/// The ASCII lower-case form of a text.
pub open spec fn lowercase(text: Seq<char>) -> Seq<char> {
    text.map_values(|c: char| ascii_lower(c))
}

/// `str::to_ascii_lowercase` maps `A` to `Z` to `a` to `z` and keeps the rest.
pub assume_specification[ str::to_ascii_lowercase ](text: &str) -> (lower: String)
    ensures
        lower@ == lowercase(text@),
;

/// `==` on two string slices: whether they hold the same characters.
#[verifier::external_body]
pub(crate) fn same_text(left: &str, right: &str) -> (same: bool)
    ensures
        same == (left@ == right@),
{
    left == right
}

/// The value of a digit in the given radix, for a radix of at most 36.
pub open spec fn digit_value(c: char, radix: nat) -> Option<nat> {
    let value = if '0' <= c <= '9' {
        (c as u32 - '0' as u32) as nat
    } else if 'a' <= c <= 'z' {
        (c as u32 - 'a' as u32 + 10) as nat
    } else if 'A' <= c <= 'Z' {
        (c as u32 - 'A' as u32 + 10) as nat
    } else {
        36
    };
    if value < radix {
        Some(value)
    } else {
        None
    }
}

/// The number that a sequence of digits stands for, most significant first.
pub open spec fn digits_value(digits: Seq<char>, radix: nat) -> Option<nat>
    decreases digits.len(),
{
    if digits.len() == 0 {
        Some(0)
    } else {
        match (digits_value(digits.drop_last(), radix), digit_value(digits.last(), radix)) {
            (Some(high), Some(low)) => Some(high * radix + low),
            _ => None,
        }
    }
}

/// The unsigned 64-bit number that a text stands for: an optional `+`, then at
/// least one digit and nothing else, within range.
pub open spec fn parsed_u64(text: Seq<char>, radix: nat) -> Option<u64> {
    let digits = if text.len() > 0 && text[0] == '+' {
        text.skip(1)
    } else {
        text
    };
    if digits.len() == 0 {
        None
    } else {
        match digits_value(digits, radix) {
            Some(value) => if value <= u64::MAX {
                Some(value as u64)
            } else {
                None
            },
            None => None,
        }
    }
}

proof fn lemma_digits_only_grow(digits: Seq<char>, radix: nat, upto: int)
    requires
        0 <= upto <= digits.len(),
        radix >= 1,
    ensures
        digits_value(digits.take(upto), radix) is None ==> digits_value(digits, radix) is None,
        (digits_value(digits.take(upto), radix) is Some && digits_value(digits, radix) is Some)
            ==> digits_value(digits.take(upto), radix)->0 <= digits_value(digits, radix)->0,
    decreases digits.len() - upto,
{
    if upto == digits.len() {
        assert(digits.take(upto) =~= digits);
    } else {
        lemma_digits_only_grow(digits, radix, upto + 1);
        let longer = digits.take(upto + 1);
        assert(longer.drop_last() =~= digits.take(upto));
        if let Some(high) = digits_value(digits.take(upto), radix) {
            assert(high * radix >= high) by (nonlinear_arith)
                requires
                    radix >= 1,
                    high >= 0,
            ;
        }
    }
}

fn digit_of(c: char, radix: u64) -> (value: Option<u64>)
    requires
        radix <= 36,
    ensures
        (match value {
            Some(v) => digit_value(c, radix as nat) == Some(v as nat),
            None => digit_value(c, radix as nat) is None,
        }),
{
    let code: u32 = c as u32;
    let value: u32 = if '0' <= c && c <= '9' {
        code - 48
    } else if 'a' <= c && c <= 'z' {
        code - 87
    } else if 'A' <= c && c <= 'Z' {
        code - 55
    } else {
        36
    };
    if (value as u64) < radix {
        Some(value as u64)
    } else {
        None
    }
}

/// Reads an unsigned 64-bit number written in the given radix.
pub fn parse_u64(text: &str, radix: u64) -> (value: Option<u64>)
    requires
        2 <= radix <= 36,
    ensures
        value == parsed_u64(text@, radix as nat),
{
    let length: usize = text.unicode_len();
    let digits: &str = if length > 0 && text.get_char(0) == '+' {
        text.substring_char(1, length)
    } else {
        text
    };
    if digits.is_empty() {
        return None;
    }
    let mut value: u64 = 0;
    for c in it: digits.chars()
        invariant
            2 <= radix <= 36,
            digits@.len() > 0,
            digits@ == (if text@.len() > 0 && text@[0] == '+' { text@.skip(1) } else { text@ }),
            it.seq() == digits@,
            digits_value(digits@.take(it.index()), radix as nat) == Some(value as nat),
    {
        proof {
            let read = it.index() + 1;
            assert(digits@.take(read).drop_last() =~= digits@.take(read - 1));
            lemma_digits_only_grow(digits@, radix as nat, read);
        }
        let low: u64 = match digit_of(c, radix) {
            Some(low) => low,
            None => return None,
        };
        let high: u64 = match value.checked_mul(radix) {
            Some(high) => high,
            None => return None,
        };
        value = match high.checked_add(low) {
            Some(sum) => sum,
            None => return None,
        };
    }
    assert(digits@.take(digits@.len() as int) =~= digits@);
    Some(value)
}

/// Whether two texts are equal up to ASCII letter case.
pub fn same_ignoring_case(left: &str, right: &str) -> (same: bool)
    ensures
        same == (lowercase(left@) == lowercase(right@)),
{
    left.to_ascii_lowercase() == right.to_ascii_lowercase()
}

/// Whether a character has the Unicode property `White_Space`.
pub open spec fn is_white_space(c: char) -> bool {
    let code = c as u32;
    ||| 0x9 <= code <= 0xD
    ||| code == 0x20
    ||| code == 0x85
    ||| code == 0xA0
    ||| code == 0x1680
    ||| 0x2000 <= code <= 0x200A
    ||| code == 0x2028
    ||| code == 0x2029
    ||| code == 0x202F
    ||| code == 0x205F
    ||| code == 0x3000
}

/// A text without its leading white space.
pub open spec fn trimmed_start(text: Seq<char>) -> Seq<char>
    decreases text.len(),
{
    if text.len() > 0 && is_white_space(text[0]) {
        trimmed_start(text.skip(1))
    } else {
        text
    }
}

/// A text without its trailing white space.
pub open spec fn trimmed_end(text: Seq<char>) -> Seq<char>
    decreases text.len(),
{
    if text.len() > 0 && is_white_space(text.last()) {
        trimmed_end(text.drop_last())
    } else {
        text
    }
}

/// A text without its leading and trailing white space.
pub open spec fn trimmed(text: Seq<char>) -> Seq<char> {
    trimmed_end(trimmed_start(text))
}

/// `str::trim` removes leading and trailing Unicode white space.
pub assume_specification[ str::trim ](text: &str) -> (inner: &str)
    ensures
        inner@ == trimmed(text@),
;

/// A text from whose front a prefix has been removed as often as it occurs.
pub open spec fn without_prefixes(text: Seq<char>, prefix: Seq<char>) -> Seq<char>
    decreases text.len(),
{
    if 0 < prefix.len() && prefix.is_prefix_of(text) {
        without_prefixes(text.skip(prefix.len() as int), prefix)
    } else {
        text
    }
}

/// `str::trim_start_matches` with a string slice removes that prefix repeatedly.
#[verifier::external_body]
pub(crate) fn strip_prefixes<'a>(text: &'a str, prefix: &str) -> (rest: &'a str)
    requires
        prefix@.len() > 0,
    ensures
        rest@ == without_prefixes(text@, prefix@),
{
    text.trim_start_matches(prefix)
}

/// The decimal digit of a number below ten.
pub open spec fn decimal_digit(value: nat) -> char {
    (48 + value) as char
}

/// A number in decimal, without leading zeros.
pub open spec fn decimal(value: nat) -> Seq<char>
    decreases value,
{
    if value < 10 {
        seq![decimal_digit(value)]
    } else {
        decimal(value / 10).push(decimal_digit(value % 10))
    }
}

fn digit_text(value: u128) -> (text: &'static str)
    requires
        value < 10,
    ensures
        text@ == seq![decimal_digit(value as nat)],
{
    proof {
        reveal_strlit("0");
        reveal_strlit("1");
        reveal_strlit("2");
        reveal_strlit("3");
        reveal_strlit("4");
        reveal_strlit("5");
        reveal_strlit("6");
        reveal_strlit("7");
        reveal_strlit("8");
        reveal_strlit("9");
    }
    let text: &'static str = if value == 0 {
        "0"
    } else if value == 1 {
        "1"
    } else if value == 2 {
        "2"
    } else if value == 3 {
        "3"
    } else if value == 4 {
        "4"
    } else if value == 5 {
        "5"
    } else if value == 6 {
        "6"
    } else if value == 7 {
        "7"
    } else if value == 8 {
        "8"
    } else {
        "9"
    };
    assert(text@ =~= seq![decimal_digit(value as nat)]);
    text
}

/// Writes a number in decimal.
pub fn decimal_text(value: u128) -> (text: String)
    ensures
        text@ == decimal(value as nat),
    decreases value,
{
    if value < 10 {
        digit_text(value).to_string()
    } else {
        let mut text: String = decimal_text(value / 10);
        let ghost high = text@;
        text.append(digit_text(value % 10));
        assert(text@ =~= high.push(decimal_digit((value % 10) as nat)));
        text
    }
}

/// Two numbers as `left/right`, both in decimal.
pub open spec fn ratio(left: nat, right: nat) -> Seq<char> {
    decimal(left) + "/"@ + decimal(right)
}

/// Writes two numbers as `left/right`.
pub fn ratio_text(left: usize, right: usize) -> (text: String)
    ensures
        text@ == ratio(left as nat, right as nat),
{
    let mut text: String = decimal_text(left as u128);
    text.append("/");
    text.append(decimal_text(right as u128).as_str());
    text
}

/// The text that a byte string holds, with U+FFFD in place of what is not UTF-8.
pub uninterp spec fn lossy_text(bytes: Seq<u8>) -> Seq<char>;

/// `String::from_utf8_lossy`, as an owned string.
#[verifier::external_body]
fn decode_lossy(bytes: &[u8]) -> (text: String)
    ensures
        text@ == lossy_text(bytes@),
{
    String::from_utf8_lossy(bytes).into_owned()
}

/// A text cut to a number of characters, with `...` behind it where it was cut.
pub open spec fn truncated(text: Seq<char>, max_chars: nat) -> Seq<char> {
    if text.len() <= max_chars {
        text
    } else {
        text.take(max_chars as int) + "..."@
    }
}

/// Cuts a text to at most `max_chars` characters and marks the cut.
pub fn truncate_text(text: &str, max_chars: usize) -> (output: String)
    ensures
        output@ == truncated(text@, max_chars as nat),
{
    if text.unicode_len() <= max_chars {
        return text.to_string();
    }
    let mut output: String = text.substring_char(0, max_chars).to_string();
    output.append("...");
    assert(text@.subrange(0, max_chars as int) =~= text@.take(max_chars as int));
    output
}

/// Decodes bytes as UTF-8 as far as that goes, and cuts the text.
pub fn truncate_text_lossy(bytes: &[u8], max_chars: usize) -> (output: String)
    ensures
        output@ == truncated(lossy_text(bytes@), max_chars as nat),
{
    truncate_text(decode_lossy(bytes).as_str(), max_chars)
}

/// Lower case keeps the length of a text and all characters but `A` to `Z`, each of
/// which becomes the letter that lies 32 behind it; what is in lower case stays.
pub proof fn lowercase_changes_capitals_alone(text: Seq<char>)
    ensures
        lowercase(text).len() == text.len(),
        forall|i: int|
            0 <= i < text.len() && 65 <= #[trigger] text[i] as u32 <= 90 ==> lowercase(
                text,
            )[i] as u32 == text[i] as u32 + 32,
        forall|i: int|
            0 <= i < text.len() && !(65 <= #[trigger] text[i] as u32 <= 90) ==> lowercase(
                text,
            )[i] == text[i],
        lowercase(lowercase(text)) == lowercase(text),
{
    assert(lowercase(lowercase(text)) =~= lowercase(text));
}

/// A number that is written in decimal is read back as itself.
pub proof fn decimal_reads_back(value: nat)
    ensures
        decimal(value).len() > 0,
        digits_value(decimal(value), 10) == Some(value),
        value <= u64::MAX ==> parsed_u64(decimal(value), 10) == Some(value as u64),
        forall|i: int|
            0 <= i < decimal(value).len() ==> 48 <= #[trigger] decimal(value)[i] as u32 <= 57,
        value > 0 ==> decimal(value)[0] != '0',
    decreases value,
{
    let text = decimal(value);
    reveal_with_fuel(digits_value, 2);
    assert(digit_value(text.last(), 10) == Some(value % 10));
    if value < 10 {
        assert(text.drop_last() =~= Seq::empty());
    } else {
        decimal_reads_back(value / 10);
        assert(text.drop_last() =~= decimal(value / 10));
        assert(text[0] == decimal(value / 10)[0]);
        assert forall|i: int| 0 <= i < text.len() implies 48 <= #[trigger] text[i] as u32
            <= 57 by {
            if i < text.len() - 1 {
                assert(text[i] == decimal(value / 10)[i]);
            }
        }
    }
    assert(48 <= text[0] as u32 <= 57);
}

/// A number is read from digits alone, each below the radix: one more digit makes
/// the number that many times the radix, plus the digit; anything else makes none.
pub proof fn numbers_are_read_digit_by_digit(digits: Seq<char>, last: char, radix: nat)
    requires
        2 <= radix <= 36,
    ensures
        ({
            let code = last as u32 as int;
            let low = if 48 <= code <= 57 {
                code - 48
            } else if 97 <= code <= 122 {
                code - 87
            } else if 65 <= code <= 90 {
                code - 55
            } else {
                radix as int
            };
            digits_value(digits.push(last), radix) == (match digits_value(digits, radix) {
                Some(high) => if low < radix {
                    Some((high * radix + low) as nat)
                } else {
                    None
                },
                None => None,
            })
        }),
        digits_value(Seq::empty(), radix) == Some(0nat),
{
    assert(digits.push(last).drop_last() =~= digits);
    if let Some(high) = digits_value(digits, radix) {
        assert(high * radix >= 0) by (nonlinear_arith)
            requires
                high >= 0,
                radix >= 0,
        ;
    }
}

/// A plus sign in front of a number changes nothing; nothing is read from a text
/// without digits, nor a number above the largest.
pub proof fn signs_and_bounds_of_numbers(digits: Seq<char>, radix: nat)
    requires
        digits.len() > 0,
        digits[0] != '+',
    ensures
        parsed_u64(seq!['+'] + digits, radix) == parsed_u64(digits, radix),
        digits_value(digits, radix) is None ==> parsed_u64(digits, radix) is None,
        digits_value(digits, radix) matches Some(value) ==> parsed_u64(digits, radix) == (if value
            <= u64::MAX {
            Some(value as u64)
        } else {
            None
        }),
        parsed_u64(Seq::empty(), radix) is None,
        parsed_u64(seq!['+'], radix) is None,
{
    assert((seq!['+'] + digits).skip(1) =~= digits);
    assert(seq!['+'].skip(1) =~= Seq::<char>::empty());
}

/// A ratio is two decimal numbers with a slash between them.
pub proof fn ratio_is_two_numbers(left: nat, right: nat)
    ensures
        ratio(left, right) == decimal(left).push('/') + decimal(right),
{
    reveal_strlit("/");
    assert(ratio(left, right) =~= decimal(left).push('/') + decimal(right));
}

/// Cutting a text keeps its beginning, up to the given number of characters, and
/// marks the cut by three dots; a text that is short enough stays as it is.
pub proof fn cuts_keep_the_beginning(text: Seq<char>, max_chars: nat)
    ensures
        text.len() <= max_chars ==> truncated(text, max_chars) == text,
        text.len() > max_chars ==> {
            &&& truncated(text, max_chars).len() == max_chars + 3
            &&& truncated(text, max_chars).take(max_chars as int) == text.take(max_chars as int)
            &&& truncated(text, max_chars).skip(max_chars as int) == seq!['.', '.', '.']
        },
{
    reveal_strlit("...");
    if text.len() > max_chars {
        let cut = truncated(text, max_chars);
        assert(cut.take(max_chars as int) =~= text.take(max_chars as int));
        assert(cut.skip(max_chars as int) =~= seq!['.', '.', '.']);
    }
}

/// Trimming takes nothing but white space from the two ends of a text, and leaves
/// none there.
pub proof fn trimming_takes_white_space_alone(text: Seq<char>)
    ensures
        exists|from: int, to: int|
            #![trigger text.subrange(from, to)]
            {
                &&& 0 <= from <= to <= text.len()
                &&& trimmed(text) == text.subrange(from, to)
                &&& forall|i: int|
                    0 <= i < from || to <= i < text.len() ==> is_white_space(#[trigger] text[i])
                &&& from < to ==> !is_white_space(text[from]) && !is_white_space(text[to - 1])
            },
{
    let from = lemma_trimmed_start(text);
    let rest = text.skip(from);
    let kept = lemma_trimmed_end(rest);
    let to = from + kept;
    assert(rest.take(kept) =~= text.subrange(from, to));
    assert forall|i: int| 0 <= i < from || to <= i < text.len() implies is_white_space(
        #[trigger] text[i],
    ) by {
        if i >= to {
            assert(rest[i - from] == text[i]);
        }
    }
    if from < to {
        assert(rest[kept - 1] == text[to - 1]);
        assert(rest[0] == text[from]);
    }
}

proof fn lemma_trimmed_start(text: Seq<char>) -> (from: int)
    ensures
        0 <= from <= text.len(),
        trimmed_start(text) == text.skip(from),
        forall|i: int| 0 <= i < from ==> is_white_space(#[trigger] text[i]),
        from < text.len() ==> !is_white_space(text[from]),
    decreases text.len(),
{
    if text.len() > 0 && is_white_space(text[0]) {
        let from = lemma_trimmed_start(text.skip(1));
        assert(text.skip(1).skip(from) =~= text.skip(from + 1));
        assert forall|i: int| 0 <= i < from + 1 implies is_white_space(#[trigger] text[i]) by {
            if i > 0 {
                assert(text.skip(1)[i - 1] == text[i]);
            }
        }
        if from + 1 < text.len() {
            assert(text.skip(1)[from] == text[from + 1]);
        }
        from + 1
    } else {
        assert(text.skip(0) =~= text);
        0
    }
}

proof fn lemma_trimmed_end(text: Seq<char>) -> (kept: int)
    ensures
        0 <= kept <= text.len(),
        trimmed_end(text) == text.take(kept),
        forall|i: int| kept <= i < text.len() ==> is_white_space(#[trigger] text[i]),
        kept > 0 ==> !is_white_space(text[kept - 1]),
    decreases text.len(),
{
    if text.len() > 0 && is_white_space(text.last()) {
        let before = text.drop_last();
        let kept = lemma_trimmed_end(before);
        assert(before.take(kept) =~= text.take(kept));
        assert forall|i: int| kept <= i < text.len() implies is_white_space(
            #[trigger] text[i],
        ) by {
            if i < before.len() {
                assert(before[i] == text[i]);
            }
        }
        if kept > 0 {
            assert(before[kept - 1] == text[kept - 1]);
        }
        kept
    } else {
        assert(text.take(text.len() as int) =~= text);
        text.len() as int
    }
}

} // verus!
