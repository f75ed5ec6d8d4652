//! Text primitives shared by the protocol, the backend and the front end.
//!
//! Text is modelled as a `Seq<char>`. The spec functions say what each operation means; the
//! executable functions compute it.
use vstd::prelude::*;

verus! {

/// Whether a character has the Unicode property White_Space.
pub open spec fn is_white_space(c: char) -> bool {
    ||| '\u{9}' <= c <= '\u{d}'
    ||| c == ' '
    ||| c == '\u{85}'
    ||| c == '\u{a0}'
    ||| c == '\u{1680}'
    ||| '\u{2000}' <= c <= '\u{200a}'
    ||| c == '\u{2028}'
    ||| c == '\u{2029}'
    ||| c == '\u{202f}'
    ||| c == '\u{205f}'
    ||| c == '\u{3000}'
}

/// `char::is_whitespace` of std: true exactly of the characters with the property White_Space,
/// which are listed in [`is_white_space`].
pub assume_specification[ char::is_whitespace ](c: char) -> (white: bool)
    ensures
        white == is_white_space(c),
;

/// `String::push` of std: appends one character.
pub assume_specification[ String::push ](s: &mut String, c: char)
    ensures
        final(s)@ == old(s)@.push(c),
;

/// The characters of a text, in order.
pub fn to_chars(s: &str) -> (chars: Vec<char>)
    ensures
        chars@ == s@,
{
    broadcast use vstd::string::axiom_spec_iter;

    let mut chars: Vec<char> = Vec::new();
    for c in it: s.chars()
        invariant
            it.seq() == s@,
            chars@ == s@.take(it.index() as int),
    {
        proof {
            assert(s@.take(it.index() + 1) == s@.take(it.index() as int).push(c));
        }
        chars.push(c);
    }
    assert(s@.take(s@.len() as int) == s@);
    chars
}

/// A text that is the concatenation of two.
pub fn join(a: &str, b: &str) -> (joined: String)
    ensures
        joined@ == a@ + b@,
{
    a.to_owned().concat(b)
}

/// A text that is the concatenation of three.
pub fn join3(a: &str, b: &str, c: &str) -> (joined: String)
    ensures
        joined@ == a@ + b@ + c@,
{
    a.to_owned().concat(b).concat(c)
}

/// Whether two texts hold the same characters.
pub fn same_text(a: &str, b: &str) -> (same: bool)
    ensures
        same == (a@ == b@),
{
    a.to_owned() == b.to_owned()
}

/// What stands before and after the first occurrence of a character; `None` where the character
/// does not occur.
pub open spec fn split(s: Seq<char>, sep: char) -> Option<(Seq<char>, Seq<char>)> {
    match s.index_of_first(sep) {
        Some(i) => Some((s.subrange(0, i), s.subrange(i + 1, s.len() as int))),
        None => None,
    }
}

/// Splits a text at the first occurrence of a character.
pub fn split_once<'a>(s: &'a str, sep: char) -> (parts: Option<(&'a str, &'a str)>)
    ensures
        match parts {
            Some((before, after)) => split(s@, sep) == Some((before@, after@)),
            None => split(s@, sep) is None,
        },
{
    let chars: Vec<char> = to_chars(s);
    proof {
        s@.index_of_first_ensures(sep);
    }
    let mut i: usize = 0;
    while i < chars.len()
        invariant
            chars@ == s@,
            i <= chars.len(),
            forall|j: int| 0 <= j < i ==> s@[j] != sep,
        decreases chars.len() - i,
    {
        if chars[i] == sep {
            proof {
                s@.index_of_first_ensures(sep);
                assert(s@.contains(sep));
                let first = s@.index_of_first(sep)->0;
                assert(s@[first] == sep);
                assert(first == i);
            }
            return Some((s.substring_char(0, i), s.substring_char(i + 1, chars.len())));
        }
        i = i + 1;
    }
    None
}

/// A text whose first part does not hold the separator splits into that part and the rest.
pub proof fn lemma_split_joined(before: Seq<char>, sep: char, after: Seq<char>)
    requires
        !before.contains(sep),
    ensures
        split(before + seq![sep] + after, sep) == Some((before, after)),
{
    let whole = before + seq![sep] + after;
    whole.index_of_first_ensures(sep);
    assert(whole[before.len() as int] == sep);
    assert(whole.contains(sep));
    let i = whole.index_of_first(sep)->0;
    if i < before.len() {
        assert(before[i] == sep);
        assert(false);
    }
    assert(i == before.len());
    assert(whole.subrange(0, i) =~= before);
    assert(whole.subrange(i + 1, whole.len() as int) =~= after);
}

/// What follows a prefix; `None` where the text does not start with it.
pub open spec fn after_prefix(s: Seq<char>, prefix: Seq<char>) -> Option<Seq<char>> {
    if prefix.is_prefix_of(s) {
        Some(s.skip(prefix.len() as int))
    } else {
        None
    }
}

/// Takes a prefix off a text.
pub fn strip_prefix<'a>(s: &'a str, prefix: &str) -> (rest: Option<&'a str>)
    ensures
        match rest {
            Some(rest) => after_prefix(s@, prefix@) == Some(rest@),
            None => after_prefix(s@, prefix@) is None,
        },
{
    let chars: Vec<char> = to_chars(s);
    let wanted: Vec<char> = to_chars(prefix);
    if chars.len() < wanted.len() {
        return None;
    }
    let mut i: usize = 0;
    while i < wanted.len()
        invariant
            chars@ == s@,
            wanted@ == prefix@,
            wanted.len() <= chars.len(),
            i <= wanted.len(),
            forall|j: int| 0 <= j < i ==> s@[j] == prefix@[j],
        decreases wanted.len() - i,
    {
        if chars[i] != wanted[i] {
            proof {
                if prefix@.is_prefix_of(s@) {
                    assert(s@.subrange(0, prefix@.len() as int)[i as int] == prefix@[i as int]);
                }
            }
            return None;
        }
        i = i + 1;
    }
    assert(s@.subrange(0, prefix@.len() as int) =~= prefix@);
    Some(s.substring_char(wanted.len(), chars.len()))
}

/// A prefix followed by a text leaves that text.
pub proof fn lemma_after_prefix_joined(prefix: Seq<char>, rest: Seq<char>)
    ensures
        after_prefix(prefix + rest, prefix) == Some(rest),
{
    assert((prefix + rest).subrange(0, prefix.len() as int) =~= prefix);
    assert((prefix + rest).skip(prefix.len() as int) =~= rest);
}

/// A text without its leading white space.
pub open spec fn trimmed_start(s: Seq<char>) -> Seq<char>
    decreases s.len(),
{
    if s.len() > 0 && is_white_space(s.first()) {
        trimmed_start(s.drop_first())
    } else {
        s
    }
}

/// A text without its trailing white space.
pub open spec fn trimmed_end(s: Seq<char>) -> Seq<char>
    decreases s.len(),
{
    if s.len() > 0 && is_white_space(s.last()) {
        trimmed_end(s.drop_last())
    } else {
        s
    }
}

/// A text without its leading and trailing white space.
pub open spec fn trimmed(s: Seq<char>) -> Seq<char> {
    trimmed_end(trimmed_start(s))
}

/// Takes leading and trailing white space off a text.
pub fn trim<'a>(s: &'a str) -> (rest: &'a str)
    ensures
        rest@ == trimmed(s@),
{
    let chars: Vec<char> = to_chars(s);
    let mut from: usize = 0;
    assert(s@.skip(0) =~= s@);
    while from < chars.len() && chars[from].is_whitespace()
        invariant
            chars@ == s@,
            from <= chars.len(),
            trimmed_start(s@.skip(from as int)) == trimmed_start(s@),
        decreases chars.len() - from,
    {
        assert(s@.skip(from as int).drop_first() =~= s@.skip(from + 1));
        from = from + 1;
    }
    let ghost rest = s@.skip(from as int);
    assert(rest == trimmed_start(s@));
    let mut to: usize = chars.len();
    assert(s@.subrange(from as int, to as int) =~= rest);
    while from < to && chars[to - 1].is_whitespace()
        invariant
            chars@ == s@,
            from <= to <= chars.len(),
            trimmed_end(s@.subrange(from as int, to as int)) == trimmed_end(rest),
        decreases to,
    {
        assert(s@.subrange(from as int, to as int).drop_last() =~= s@.subrange(
            from as int,
            to - 1,
        ));
        to = to - 1;
    }
    s.substring_char(from, to)
}

/// Whether a character is an ASCII decimal digit.
pub open spec fn is_digit(c: char) -> bool {
    '0' <= c <= '9'
}

/// The number that a row of decimal digits stands for.
pub open spec fn digits_value(s: Seq<char>) -> nat
    decreases s.len(),
{
    if s.len() == 0 {
        0
    } else {
        digits_value(s.drop_last()) * 10 + (s.last() as nat - '0' as nat) as nat
    }
}

/// A text without one leading plus sign.
pub open spec fn unsigned_digits(s: Seq<char>) -> Seq<char> {
    if s.len() > 0 && s[0] == '+' {
        s.skip(1)
    } else {
        s
    }
}

/// The `u32` that a text stands for: an optional plus sign, then one or more decimal digits, with
/// a value that fits. `None` of every other text.
pub open spec fn number(s: Seq<char>) -> Option<u32> {
    let digits = unsigned_digits(s);
    if digits.len() > 0 && (forall|i: int| 0 <= i < digits.len() ==> is_digit(#[trigger] digits[i]))
        && digits_value(digits) <= u32::MAX {
        Some(digits_value(digits) as u32)
    } else {
        None
    }
}

/// More digits never make the value smaller.
proof fn lemma_digits_value_grows(s: Seq<char>, n: int)
    requires
        0 <= n <= s.len(),
    ensures
        digits_value(s.take(n)) <= digits_value(s),
    decreases s.len(),
{
    if n == s.len() {
        assert(s.take(n) =~= s);
    } else {
        lemma_digits_value_grows(s.drop_last(), n);
        assert(s.drop_last().take(n) =~= s.take(n));
    }
}

/// Reads a `u32` in decimal.
pub fn parse_u32(s: &str) -> (value: Option<u32>)
    ensures
        value == number(s@),
{
    let chars: Vec<char> = to_chars(s);
    let start: usize = if chars.len() > 0 && chars[0] == '+' {
        1
    } else {
        0
    };
    let ghost digits = unsigned_digits(s@);
    assert(digits == s@.skip(start as int)) by {
        assert(s@.skip(0) =~= s@);
    }
    if start == chars.len() {
        return None;
    }
    let mut value: u64 = 0;
    let mut i: usize = start;
    while i < chars.len()
        invariant
            chars@ == s@,
            start <= i <= chars.len(),
            start <= 1,
            digits == s@.skip(start as int),
            digits == unsigned_digits(s@),
            forall|j: int| 0 <= j < i - start ==> is_digit(#[trigger] digits[j]),
            value == digits_value(digits.take(i - start)),
            value <= u32::MAX,
        decreases chars.len() - i,
    {
        let c: char = chars[i];
        assert(digits[i - start] == c);
        if c < '0' || c > '9' {
            return None;
        }
        assert(digits.take(i - start + 1).drop_last() =~= digits.take(i - start));
        value = value * 10 + (c as u32 - '0' as u32) as u64;
        assert(value == digits_value(digits.take(i - start + 1)));
        if value > u32::MAX as u64 {
            proof {
                lemma_digits_value_grows(digits, i - start + 1);
            }
            return None;
        }
        i = i + 1;
    }
    assert(digits.take(digits.len() as int) =~= digits);
    Some(value as u32)
}

/// The decimal digit of a value below ten.
pub open spec fn digit_char(d: int) -> char {
    (d + '0' as int) as char
}

/// A number written in decimal, without leading zeros.
pub open spec fn decimal(n: nat) -> Seq<char>
    decreases n,
{
    if n < 10 {
        seq![digit_char(n as int)]
    } else {
        decimal(n / 10).push(digit_char((n % 10) as int))
    }
}

/// Writes a number in decimal.
pub fn format_decimal(n: u64) -> (text: String)
    ensures
        text@ == decimal(n as nat),
    decreases n,
{
    let digit: u8 = (n % 10) as u8 + 48u8;
    let mut text: String = if n < 10 {
        String::new()
    } else {
        format_decimal(n / 10)
    };
    text.push(digit as char);
    proof {
        if n < 10 {
            assert(text@ =~= seq![digit_char(n as int)]);
        }
    }
    text
}

/// A number in decimal is one or more digits, which stand for that number.
pub proof fn lemma_decimal(n: nat)
    ensures
        decimal(n).len() > 0,
        forall|i: int| 0 <= i < decimal(n).len() ==> is_digit(#[trigger] decimal(n)[i]),
        digits_value(decimal(n)) == n,
    decreases n,
{
    if n < 10 {
        assert(decimal(n).drop_last() =~= Seq::<char>::empty());
        assert(digits_value(decimal(n).drop_last()) == 0);
    } else {
        lemma_decimal(n / 10);
        assert(decimal(n).drop_last() =~= decimal(n / 10));
    }
}

/// Reading back what was written in decimal gives the number.
pub proof fn lemma_number_of_decimal(n: u32)
    ensures
        number(decimal(n as nat)) == Some(n),
{
    lemma_decimal(n as nat);
    let s = decimal(n as nat);
    assert(is_digit(s[0]));
    assert(unsigned_digits(s) == s);
}

/// A number in decimal holds no white space, so trimming leaves it as it is.
pub proof fn lemma_decimal_trimmed(n: nat)
    ensures
        trimmed(decimal(n)) == decimal(n),
{
    lemma_decimal(n);
    let s = decimal(n);
    assert(is_digit(s[0]));
    assert(is_digit(s[s.len() - 1]));
}

/// The lower-case hexadecimal digit of a value below sixteen.
pub open spec fn hex_char(d: int) -> char {
    if d < 10 {
        (d + '0' as int) as char
    } else {
        (d - 10 + 'a' as int) as char
    }
}

/// Bytes in hexadecimal: two lower-case digits for each byte, the high half first.
pub open spec fn hex(bytes: Seq<u8>) -> Seq<char> {
    Seq::new(
        2 * bytes.len(),
        |i: int|
            if i % 2 == 0 {
                hex_char(bytes[i / 2] as int / 16)
            } else {
                hex_char(bytes[i / 2] as int % 16)
            },
    )
}

fn hex_digit(d: u8) -> (c: char)
    requires
        d < 16,
    ensures
        c == hex_char(d as int),
{
    if d < 10 {
        (d + 48u8) as char
    } else {
        (d - 10 + 97u8) as char
    }
}

/// Writes bytes in hexadecimal.
pub fn format_hex(bytes: &[u8]) -> (text: String)
    ensures
        text@ == hex(bytes@),
{
    let mut text: String = String::new();
    let mut i: usize = 0;
    while i < bytes.len()
        invariant
            i <= bytes.len(),
            text@ == hex(bytes@.take(i as int)),
        decreases bytes.len() - i,
    {
        text.push(hex_digit(bytes[i] / 16));
        text.push(hex_digit(bytes[i] % 16));
        assert(text@ =~= hex(bytes@.take(i + 1)));
        i = i + 1;
    }
    assert(bytes@.take(bytes@.len() as int) =~= bytes@);
    text
}

/// A text in which every `{}`, found from left to right, is replaced.
pub open spec fn filled(s: Seq<char>, arg: Seq<char>) -> Seq<char>
    decreases s.len(),
{
    if s.len() < 2 {
        s
    } else if s[0] == '{' && s[1] == '}' {
        arg + filled(s.skip(2), arg)
    } else {
        seq![s[0]] + filled(s.skip(1), arg)
    }
}

/// Replaces every `{}` of a text.
pub fn fill_placeholders(s: &str, arg: &str) -> (text: String)
    ensures
        text@ == filled(s@, arg@),
{
    let chars: Vec<char> = to_chars(s);
    let mut text: String = String::new();
    let mut i: usize = 0;
    assert(s@.skip(0) =~= s@);
    while i < chars.len()
        invariant
            chars@ == s@,
            i <= chars.len(),
            text@ + filled(s@.skip(i as int), arg@) == filled(s@, arg@),
        decreases chars.len() - i,
    {
        let ghost before = text@;
        let ghost rest = s@.skip(i as int);
        if chars[i] == '{' && i + 1 < chars.len() && chars[i + 1] == '}' {
            text.append(arg);
            assert(rest.skip(2) =~= s@.skip(i + 2));
            assert(text@ + filled(s@.skip(i + 2), arg@) =~= before + filled(rest, arg@));
            i = i + 2;
        } else {
            text.push(chars[i]);
            proof {
                assert(rest.skip(1) =~= s@.skip(i + 1));
                if rest.len() == 1 {
                    assert(filled(rest.skip(1), arg@) =~= Seq::<char>::empty());
                    assert(rest =~= seq![rest[0]]);
                }
                assert(text@ + filled(s@.skip(i + 1), arg@) =~= before + filled(rest, arg@));
            }
            i = i + 1;
        }
    }
    assert(text@ + filled(s@.skip(i as int), arg@) =~= text@);
    text
}

/// The parts that a text splits into put it together again, around the separator, which the first
/// part does not hold; a text that does not split does not hold the separator.
pub proof fn law_split_parts(s: Seq<char>, sep: char)
    ensures
        match split(s, sep) {
            Some((before, after)) => s == before + seq![sep] + after && !before.contains(sep),
            None => !s.contains(sep),
        },
{
    s.index_of_first_ensures(sep);
    if let Some((before, after)) = split(s, sep) {
        let i = s.index_of_first(sep)->0;
        assert(s =~= before + seq![sep] + after);
        assert forall|j: int| 0 <= j < before.len() implies before[j] != sep by {
            assert(before[j] == s[j]);
        }
    }
}

/// A rest follows a prefix if and only if the two together are the text.
pub proof fn law_prefix_and_rest(s: Seq<char>, prefix: Seq<char>, rest: Seq<char>)
    ensures
        after_prefix(s, prefix) == Some(rest) <==> s == prefix + rest,
{
    if s == prefix + rest {
        lemma_after_prefix_joined(prefix, rest);
    }
    if after_prefix(s, prefix) == Some(rest) {
        assert(s.subrange(0, prefix.len() as int) =~= prefix);
        assert(s =~= prefix + rest);
    }
}

/// Whether a text is white space throughout.
pub open spec fn is_blank(s: Seq<char>) -> bool {
    forall|i: int| 0 <= i < s.len() ==> is_white_space(#[trigger] s[i])
}

proof fn lemma_trimmed_start_blank(blank: Seq<char>, s: Seq<char>)
    requires
        is_blank(blank),
    ensures
        trimmed_start(blank + s) == trimmed_start(s),
    decreases blank.len(),
{
    if blank.len() == 0 {
        assert(blank + s =~= s);
    } else {
        assert(is_white_space(blank[0]));
        assert((blank + s).drop_first() =~= blank.drop_first() + s);
        assert forall|i: int| 0 <= i < blank.drop_first().len() implies is_white_space(
            #[trigger] blank.drop_first()[i],
        ) by {
            assert(blank.drop_first()[i] == blank[i + 1]);
        }
        lemma_trimmed_start_blank(blank.drop_first(), s);
    }
}

proof fn lemma_trimmed_end_blank(s: Seq<char>, blank: Seq<char>)
    requires
        is_blank(blank),
    ensures
        trimmed_end(s + blank) == trimmed_end(s),
    decreases blank.len(),
{
    if blank.len() == 0 {
        assert(s + blank =~= s);
    } else {
        assert(is_white_space(blank[blank.len() - 1]));
        assert((s + blank).drop_last() =~= s + blank.drop_last());
        assert forall|i: int| 0 <= i < blank.drop_last().len() implies is_white_space(
            #[trigger] blank.drop_last()[i],
        ) by {
            assert(blank.drop_last()[i] == blank[i]);
        }
        lemma_trimmed_end_blank(s, blank.drop_last());
    }
}

/// Trimming takes off exactly the white space around a text: what is left is the text between,
/// which is empty or has none at either end.
pub proof fn law_trim_between(before: Seq<char>, kept: Seq<char>, after: Seq<char>)
    requires
        is_blank(before),
        is_blank(after),
        kept.len() == 0 || (!is_white_space(kept[0]) && !is_white_space(kept[kept.len() - 1])),
    ensures
        trimmed(before + kept + after) == kept,
{
    assert(before + kept + after =~= before + (kept + after));
    lemma_trimmed_start_blank(before, kept + after);
    if kept.len() == 0 {
        assert(kept + after =~= after + Seq::<char>::empty());
        lemma_trimmed_start_blank(after, Seq::empty());
        assert(trimmed_start(Seq::<char>::empty()) =~= Seq::<char>::empty());
        assert(kept =~= Seq::<char>::empty());
    } else {
        assert((kept + after)[0] == kept[0]);
        lemma_trimmed_end_blank(kept, after);
    }
}

/// Numbers are read digit by digit: a digit stands for its value, and one more digit makes ten
/// times the number plus its value, as long as that fits; anything else is no number. One leading
/// plus sign makes no difference.
pub proof fn law_number_by_digits(s: Seq<char>, c: char)
    ensures
        number(Seq::empty()) is None,
        number(seq!['+']) is None,
        number(seq![c]) == if '0' <= c <= '9' {
            Some((c as int - '0' as int) as u32)
        } else {
            None
        },
        number(seq!['+', c]) == number(seq![c]),
        s.len() > 0 && s != seq!['+'] ==> number(s.push(c)) == match number(s) {
            Some(value) => if '0' <= c <= '9' && value * 10 + (c as int - '0' as int) <= u32::MAX {
                Some((value * 10 + (c as int - '0' as int)) as u32)
            } else {
                None
            },
            None => None,
        },
{
    let one = seq![c];
    assert(one.drop_last() =~= Seq::<char>::empty());
    assert(digits_value(one.drop_last()) == 0);
    assert(seq!['+', c].skip(1) =~= one);
    assert(seq!['+'].skip(1) =~= Seq::<char>::empty());
    assert(one[0] == c);
    if '0' <= c <= '9' {
        assert(unsigned_digits(one) == one);
    } else if c == '+' {
        assert(one =~= seq!['+']);
    }
    if s.len() > 0 && s != seq!['+'] {
        let digits = unsigned_digits(s);
        let more = unsigned_digits(s.push(c));
        if s[0] == '+' {
            assert(s.push(c).skip(1) =~= s.skip(1).push(c));
            if s.len() == 1 {
                assert(s =~= seq!['+']);
            }
        }
        assert(more =~= digits.push(c));
        assert(digits.len() > 0);
        assert(more.drop_last() =~= digits);
        assert(more[digits.len() as int] == c);
        if number(s) is None {
            if digits_value(digits) <= u32::MAX {
                let i = choose|i: int| 0 <= i < digits.len() && !is_digit(#[trigger] digits[i]);
                assert(more[i] == digits[i]);
            }
        } else {
            assert forall|i: int| 0 <= i < digits.len() implies is_digit(#[trigger] more[i]) by {
                assert(more[i] == digits[i]);
            }
        }
    }
}

/// Numbers are written digit by digit: one below ten as its digit, and any other as what is left
/// without its last digit, followed by that digit.
pub proof fn law_decimal_by_digits(n: nat, digit: nat)
    requires
        digit < 10,
    ensures
        decimal(digit) == seq![('0' as int + digit) as char],
        n > 0 ==> decimal(10 * n + digit) == decimal(n).push(('0' as int + digit) as char),
{
    if n > 0 {
        assert((10 * n + digit) / 10 == n);
        assert((10 * n + digit) % 10 == digit);
    }
}

/// Each byte in hexadecimal is two of the sixteen digits: the one for its high half, and the one
/// for its low half.
pub proof fn law_hex_digits(bytes: Seq<u8>, i: int)
    requires
        0 <= i < bytes.len(),
    ensures
        hex(bytes).len() == 2 * bytes.len(),
        hex(bytes)[2 * i] == "0123456789abcdef"@[bytes[i] as int / 16],
        hex(bytes)[2 * i + 1] == "0123456789abcdef"@[bytes[i] as int % 16],
{
    reveal_strlit("0123456789abcdef");
    assert((2 * i) % 2 == 0 && (2 * i) / 2 == i);
    assert((2 * i + 1) % 2 == 1 && (2 * i + 1) / 2 == i);
    assert(forall|d: int| 0 <= d < 16 ==> hex_char(d) == #[trigger] "0123456789abcdef"@[d]);
}

/// The first `{}` of a text is replaced, what stands before it is kept, and what stands after it
/// is filled in turn; a text without one stays as it is.
pub proof fn law_placeholder_replaced(before: Seq<char>, after: Seq<char>, arg: Seq<char>)
    requires
        forall|i: int|
            0 <= i < before.len() - 1 ==> !(#[trigger] before[i] == '{' && before[i + 1] == '}'),
    ensures
        filled(before, arg) == before,
        filled(before + seq!['{', '}'] + after, arg) == before + arg + filled(after, arg),
    decreases before.len(),
{
    let whole = before + seq!['{', '}'] + after;
    if before.len() == 0 {
        assert(whole.skip(2) =~= after);
        assert(filled(whole, arg) =~= before + arg + filled(after, arg));
    } else {
        let rest = before.skip(1);
        assert forall|i: int| 0 <= i < rest.len() - 1 implies !(#[trigger] rest[i] == '{' && rest[i
            + 1] == '}') by {
            assert(rest[i] == before[i + 1]);
        }
        law_placeholder_replaced(rest, after, arg);
        assert(whole[0] == before[0]);
        if before.len() > 1 {
            assert(whole[1] == before[1]);
        } else {
            assert(whole[1] == '{');
        }
        assert(whole.skip(1) =~= rest + seq!['{', '}'] + after);
        assert(seq![before[0]] + rest =~= before);
        assert(filled(whole, arg) =~= before + arg + filled(after, arg));
    }
}

} // verus!
