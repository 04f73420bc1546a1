//! Text as sequences of characters: trimming, splitting, decimal numbers.

use vstd::arithmetic::div_mod;
use vstd::arithmetic::power;
use vstd::prelude::*;

verus! {

/// `String::push`: appends one character to the end of the string.
pub assume_specification[ String::push ](s: &mut String, ch: char)
    ensures
        final(s)@ == old(s)@.push(ch),
;

/// The characters with the Unicode `White_Space` property.
pub open spec fn is_white(ch: char) -> bool {
    let code = ch as u32;
    ||| 0x09 <= code <= 0x0d
    ||| code == 0x20
    ||| code == 0x85
    ||| code == 0xa0
    ||| code == 0x1680
    ||| 0x2000 <= code <= 0x200a
    ||| code == 0x2028
    ||| code == 0x2029
    ||| code == 0x202f
    ||| code == 0x205f
    ||| code == 0x3000
}

/// The characters of the Unicode general category `Cc`.
pub open spec fn is_control(ch: char) -> bool {
    let code = ch as u32;
    ||| code <= 0x1f
    ||| 0x7f <= code <= 0x9f
}

/// `0` to `9`.
pub open spec fn is_digit(ch: char) -> bool {
    '0' <= ch <= '9'
}

/// ASCII letters and digits.
pub open spec fn is_alphanumeric(ch: char) -> bool {
    ||| is_digit(ch)
    ||| 'a' <= ch <= 'z'
    ||| 'A' <= ch <= 'Z'
}

/// Tells whether the character has the Unicode `White_Space` property.
pub fn white(ch: char) -> (r: bool)
    ensures
        r == is_white(ch),
{
    let code: u32 = ch as u32;
    (0x09 <= code && code <= 0x0d) || code == 0x20 || code == 0x85 || code == 0xa0 || code == 0x1680
        || (0x2000 <= code && code <= 0x200a) || code == 0x2028 || code == 0x2029 || code == 0x202f
        || code == 0x205f || code == 0x3000
}

/// Tells whether the character is a control character.
pub fn control(ch: char) -> (r: bool)
    ensures
        r == is_control(ch),
{
    let code: u32 = ch as u32;
    code <= 0x1f || (0x7f <= code && code <= 0x9f)
}

/// The characters of a text, one by one.
pub fn chars_of(text: &str) -> (r: Vec<char>)
    ensures
        r@ == text@,
{
    let mut out: Vec<char> = Vec::new();
    for ch in it: text.chars()
        invariant
            out@ == it.seq().take(it.index()),
            it.seq() == text@,
    {
        out.push(ch);
    }
    out
}

/// The text that a range of characters spells.
pub fn text_between(chars: &Vec<char>, from: usize, to: usize) -> (r: String)
    requires
        from <= to <= chars.len(),
    ensures
        r@ == chars@.subrange(from as int, to as int),
{
    let mut out: String = String::new();
    let mut at: usize = from;
    while at < to
        invariant
            from <= at <= to <= chars.len(),
            out@ == chars@.subrange(from as int, at as int),
        decreases to - at,
    {
        out.push(chars[at]);
        at += 1;
    }
    out
}

/// Tells whether two texts are the same.
pub fn same_text(left: &str, right: &str) -> (r: bool)
    ensures
        r == (left@ == right@),
{
    left.to_owned() == right.to_owned()
}

/// The text of an optional string.
pub open spec fn optional(text: Option<String>) -> Option<Seq<char>> {
    match text {
        Some(value) => Some(value@),
        None => None,
    }
}

/// Copies texts.
pub fn clone_texts(texts: &Vec<String>) -> (r: Vec<String>)
    ensures
        r.deep_view() == texts.deep_view(),
{
    let mut out: Vec<String> = Vec::new();
    let mut at: usize = 0;
    while at < texts.len()
        invariant
            at <= texts.len(),
            out.deep_view() == texts.deep_view().take(at as int),
        decreases texts.len() - at,
    {
        let ghost before = out.deep_view();
        out.push(texts[at].clone());
        assert(out.deep_view() =~= before.push(texts@[at as int]@));
        assert(out.deep_view() =~= texts.deep_view().take(at + 1));
        at += 1;
    }
    assert(texts.deep_view().take(at as int) =~= texts.deep_view());
    out
}

/// Copies an optional string.
pub fn clone_optional(text: &Option<String>) -> (r: Option<String>)
    ensures
        optional(r) == optional(*text),
{
    match text {
        Some(value) => Some(value.clone()),
        None => None,
    }
}

/// The text of an optional string, or another.
pub open spec fn text_or(content: Option<Seq<char>>, other: Seq<char>) -> Seq<char> {
    match content {
        Some(value) => value,
        None => other,
    }
}

/// The string, or another text where there is none.
pub fn or_text(content: Option<String>, other: &str) -> (r: String)
    ensures
        r@ == text_or(optional(content), other@),
{
    match content {
        Some(value) => value,
        None => other.to_owned(),
    }
}

/// A set of characters that trimming and splitting look for.
#[derive(Clone, Copy)]
pub enum Class<'a> {
    /// Unicode white space.
    White,
    /// The characters that occur in the text.
    OneOf(&'a str),
}

impl<'a> Class<'a> {
    /// Membership of a character in the set.
    pub open spec fn has(self, ch: char) -> bool {
        match self {
            Class::White => is_white(ch),
            Class::OneOf(set) => set@.contains(ch),
        }
    }

    /// Tells whether the character is in the set.
    pub fn holds(&self, ch: char) -> (r: bool)
        ensures
            r == self.has(ch),
    {
        match self {
            Class::White => white(ch),
            Class::OneOf(set) => contains_char(set, ch),
        }
    }
}

/// Tells whether the character occurs in the text.
pub fn contains_char(text: &str, wanted: char) -> (r: bool)
    ensures
        r == text@.contains(wanted),
{
    let chars: Vec<char> = chars_of(text);
    let mut at: usize = 0;
    while at < chars.len()
        invariant
            at <= chars.len(),
            chars@ == text@,
            forall|i: int| 0 <= i < at ==> chars@[i] != wanted,
        decreases chars.len() - at,
    {
        if chars[at] == wanted {
            assert(text@[at as int] == wanted);
            return true;
        }
        at += 1;
    }
    false
}

/// The text without its leading characters of the class.
pub open spec fn trimmed_start(text: Seq<char>, class: Class) -> Seq<char>
    decreases text.len(),
{
    if text.len() > 0 && class.has(text[0]) {
        trimmed_start(text.drop_first(), class)
    } else {
        text
    }
}

/// The text without its trailing characters of the class.
pub open spec fn trimmed_end(text: Seq<char>, class: Class) -> Seq<char>
    decreases text.len(),
{
    if text.len() > 0 && class.has(text.last()) {
        trimmed_end(text.drop_last(), class)
    } else {
        text
    }
}

/// The text without leading and trailing characters of the class.
pub open spec fn trimmed(text: Seq<char>, class: Class) -> Seq<char> {
    trimmed_end(trimmed_start(text, class), class)
}

/// The text without the white space around it.
pub open spec fn stripped(text: Seq<char>) -> Seq<char> {
    trimmed(text, Class::White)
}

/// Where the text starts once its leading characters of the class are gone.
fn start_after(chars: &Vec<char>, class: Class) -> (r: usize)
    ensures
        r <= chars.len(),
        chars@.skip(r as int) == trimmed_start(chars@, class),
{
    let mut at: usize = 0;
    assert(chars@.skip(0) == chars@);
    while at < chars.len() && class.holds(chars[at])
        invariant
            at <= chars.len(),
            trimmed_start(chars@.skip(at as int), class) == trimmed_start(chars@, class),
        decreases chars.len() - at,
    {
        assert(chars@.skip(at as int).drop_first() == chars@.skip(at + 1));
        at += 1;
    }
    at
}

/// Where the text from `from` on ends once its trailing characters of the class are gone.
fn end_before(chars: &Vec<char>, from: usize, class: Class) -> (r: usize)
    requires
        from <= chars.len(),
    ensures
        from <= r <= chars.len(),
        chars@.subrange(from as int, r as int) == trimmed_end(chars@.skip(from as int), class),
{
    let mut end: usize = chars.len();
    assert(chars@.subrange(from as int, end as int) == chars@.skip(from as int));
    while from < end && class.holds(chars[end - 1])
        invariant
            from <= end <= chars.len(),
            trimmed_end(chars@.subrange(from as int, end as int), class) == trimmed_end(
                chars@.skip(from as int),
                class,
            ),
        decreases end,
    {
        assert(chars@.subrange(from as int, end as int).drop_last() == chars@.subrange(
            from as int,
            end - 1,
        ));
        end -= 1;
    }
    end
}

/// Takes the leading characters of the class off.
pub fn trim_start_matches(text: &str, class: Class) -> (r: String)
    ensures
        r@ == trimmed_start(text@, class),
{
    let chars: Vec<char> = chars_of(text);
    let from: usize = start_after(&chars, class);
    assert(chars@.subrange(from as int, chars@.len() as int) == chars@.skip(from as int));
    text_between(&chars, from, chars.len())
}

/// Takes the leading and trailing characters of the class off.
pub fn trim_matches(text: &str, class: Class) -> (r: String)
    ensures
        r@ == trimmed(text@, class),
{
    let chars: Vec<char> = chars_of(text);
    let from: usize = start_after(&chars, class);
    let to: usize = end_before(&chars, from, class);
    text_between(&chars, from, to)
}

/// Takes the white space around the text off.
pub fn trim(text: &str) -> (r: String)
    ensures
        r@ == stripped(text@),
{
    trim_matches(text, Class::White)
}

/// Tells whether nothing but white space is left of the text.
pub fn is_blank(text: &str) -> (r: bool)
    ensures
        r == (stripped(text@).len() == 0),
{
    let rest: String = trim(text);
    rest.as_str().is_empty()
}

/// Tells whether the text begins with the prefix.
pub fn starts_with(text: &str, prefix: &str) -> (r: bool)
    ensures
        r == prefix@.is_prefix_of(text@),
{
    let chars: Vec<char> = chars_of(text);
    let wanted: Vec<char> = chars_of(prefix);
    if wanted.len() > chars.len() {
        return false;
    }
    let mut at: usize = 0;
    while at < wanted.len()
        invariant
            at <= wanted.len() <= chars.len(),
            chars@ == text@,
            wanted@ == prefix@,
            forall|i: int| 0 <= i < at ==> chars@[i] == wanted@[i],
        decreases wanted.len() - at,
    {
        if chars[at] != wanted[at] {
            assert(text@.subrange(0, prefix@.len() as int)[at as int] != prefix@[at as int]);
            return false;
        }
        at += 1;
    }
    assert(prefix@ =~= text@.subrange(0, prefix@.len() as int));
    true
}

/// The needle occurs in the text, at `at`.
pub open spec fn occurs_at(text: Seq<char>, needle: Seq<char>, at: int) -> bool {
    0 <= at && at + needle.len() <= text.len() && text.subrange(at, at + needle.len()) == needle
}

/// The needle occurs in the text.
pub open spec fn occurs(text: Seq<char>, needle: Seq<char>) -> bool {
    exists|at: int| #[trigger] occurs_at(text, needle, at)
}

/// Tells whether the needle occurs in the text at `at`.
fn matches_at(chars: &Vec<char>, wanted: &Vec<char>, at: usize) -> (r: bool)
    requires
        at + wanted.len() <= chars.len(),
    ensures
        r == occurs_at(chars@, wanted@, at as int),
{
    let mut next: usize = 0;
    while next < wanted.len()
        invariant
            next <= wanted.len(),
            at + wanted.len() <= chars.len(),
            forall|i: int| 0 <= i < next ==> chars@[at + i] == wanted@[i],
        decreases wanted.len() - next,
    {
        if chars[at + next] != wanted[next] {
            assert(chars@.subrange(at as int, at + wanted@.len())[next as int] != wanted@[next as int]);
            return false;
        }
        next += 1;
    }
    assert(chars@.subrange(at as int, at + wanted@.len()) =~= wanted@);
    true
}

/// Tells whether the needle occurs in the text.
pub fn contains_text(text: &str, needle: &str) -> (r: bool)
    ensures
        r == occurs(text@, needle@),
{
    let chars: Vec<char> = chars_of(text);
    let wanted: Vec<char> = chars_of(needle);
    if wanted.len() > chars.len() {
        return false;
    }
    let last: usize = chars.len() - wanted.len();
    let mut at: usize = 0;
    while at <= last
        invariant
            last + wanted.len() == chars.len(),
            at <= last + 1,
            chars@ == text@,
            wanted@ == needle@,
            forall|i: int| 0 <= i < at ==> !#[trigger] occurs_at(text@, needle@, i),
        decreases last + 1 - at,
    {
        if matches_at(&chars, &wanted, at) {
            return true;
        }
        if at == last {
            assert forall|i: int| !#[trigger] occurs_at(text@, needle@, i) by {}
            return false;
        }
        at += 1;
    }
    false
}

/// A character with an ASCII letter made small.
pub open spec fn small(ch: char) -> char {
    if 'A' <= ch <= 'Z' {
        (ch as u32 + 32) as char
    } else {
        ch
    }
}

/// A text with its ASCII letters made small.
pub open spec fn lowered(text: Seq<char>) -> Seq<char> {
    text.map_values(|ch: char| small(ch))
}

/// Makes the ASCII letters of a text small.
pub fn to_small(text: &str) -> (r: String)
    ensures
        r@ == lowered(text@),
{
    let chars: Vec<char> = chars_of(text);
    let mut out: String = String::new();
    let mut at: usize = 0;
    while at < chars.len()
        invariant
            at <= chars.len(),
            chars@ == text@,
            out@ == lowered(text@).take(at as int),
        decreases chars.len() - at,
    {
        let ch: char = chars[at];
        if 'A' <= ch && ch <= 'Z' {
            let code: u8 = ch as u8;
            out.push((code + 32u8) as char);
        } else {
            out.push(ch);
        }
        assert(out@ =~= lowered(text@).take(at + 1));
        at += 1;
    }
    assert(lowered(text@).take(at as int) =~= lowered(text@));
    out
}

/// The pieces between the characters of the class, empty pieces among them.
pub open spec fn split_on(text: Seq<char>, class: Class) -> Seq<Seq<char>>
    decreases text.len(),
{
    if text.len() == 0 {
        seq![text]
    } else {
        let pieces = split_on(text.drop_last(), class);
        if class.has(text.last()) {
            pieces.push(Seq::empty())
        } else {
            pieces.drop_last().push(pieces.last().push(text.last()))
        }
    }
}

/// A text has at least one piece.
pub proof fn lemma_split_nonempty(text: Seq<char>, class: Class)
    ensures
        split_on(text, class).len() > 0,
    decreases text.len(),
{
    if text.len() > 0 {
        lemma_split_nonempty(text.drop_last(), class);
    }
}

/// Cuts the text at the characters of the class.
pub fn split(text: &str, class: Class) -> (r: Vec<String>)
    ensures
        r.deep_view() == split_on(text@, class),
{
    let chars: Vec<char> = chars_of(text);
    let mut out: Vec<String> = Vec::new();
    let mut piece: String = String::new();
    let mut at: usize = 0;
    assert(chars@.take(0) == Seq::<char>::empty());
    assert(out.deep_view().push(piece@) == split_on(chars@.take(0), class));
    while at < chars.len()
        invariant
            at <= chars.len(),
            chars@ == text@,
            out.deep_view().push(piece@) == split_on(chars@.take(at as int), class),
        decreases chars.len() - at,
    {
        let ghost before = out.deep_view();
        let ghost kept = piece@;
        assert(chars@.take(at + 1).drop_last() == chars@.take(at as int));
        assert(before.push(kept).drop_last() == before);
        if class.holds(chars[at]) {
            out.push(piece);
            assert(out.deep_view() == before.push(kept));
            piece = String::new();
        } else {
            piece.push(chars[at]);
        }
        at += 1;
    }
    assert(chars@.take(at as int) == text@);
    let ghost before = out.deep_view();
    let ghost kept = piece@;
    out.push(piece);
    assert(out.deep_view() == before.push(kept));
    out
}

/// The digit of a number below ten.
pub open spec fn digit_char(value: nat) -> char {
    ('0' as u32 + value) as char
}

/// The decimal digits of a number, without leading zeros.
pub open spec fn decimal(value: nat) -> Seq<char>
    decreases value,
{
    if value < 10 {
        seq![digit_char(value)]
    } else {
        decimal(value / 10).push(digit_char(value % 10))
    }
}

/// Writes a number in decimal.
pub fn decimal_text(value: u64) -> (r: String)
    ensures
        r@ == decimal(value as nat),
    decreases value,
{
    let last: u8 = (value % 10) as u8;
    let digit: char = (48u8 + last) as char;
    if value < 10 {
        let mut out: String = String::new();
        out.push(digit);
        assert(out@ == decimal(value as nat));
        out
    } else {
        let mut out: String = decimal_text(value / 10);
        out.push(digit);
        out
    }
}

/// The number that decimal digits spell.
pub open spec fn number_of(digits: Seq<char>) -> nat
    decreases digits.len(),
{
    if digits.len() == 0 {
        0
    } else {
        number_of(digits.drop_last()) * 10 + (digits.last() as u32 - '0' as u32) as nat
    }
}

/// Only digits.
pub open spec fn all_digits(text: Seq<char>) -> bool {
    forall|i: int| 0 <= i < text.len() ==> is_digit(#[trigger] text[i])
}

/// The digits of a number that may start with a plus sign.
pub open spec fn unsigned_digits(text: Seq<char>) -> Seq<char> {
    if text.len() > 0 && text[0] == '+' {
        text.drop_first()
    } else {
        text
    }
}

/// The `u64` that a text spells in decimal, if it spells one.
pub open spec fn parsed_u64(text: Seq<char>) -> Option<u64> {
    let digits = unsigned_digits(text);
    if digits.len() > 0 && all_digits(digits) && number_of(digits) <= u64::MAX {
        Some(number_of(digits) as u64)
    } else {
        None
    }
}

/// Cutting digits off the end does not make the number larger.
proof fn lemma_number_monotone(digits: Seq<char>, len: int)
    requires
        0 <= len <= digits.len(),
        all_digits(digits),
    ensures
        number_of(digits.take(len)) <= number_of(digits),
    decreases digits.len(),
{
    if len == digits.len() {
        assert(digits.take(len) == digits);
    } else {
        let shorter = digits.drop_last();
        assert forall|i: int| 0 <= i < shorter.len() implies is_digit(#[trigger] shorter[i]) by {
            assert(shorter[i] == digits[i]);
        }
        lemma_number_monotone(shorter, len);
        assert(shorter.take(len) == digits.take(len));
        assert(is_digit(digits[digits.len() - 1]));
    }
}

/// Reads a `u64` in decimal.
pub fn parse_u64(text: &str) -> (r: Option<u64>)
    ensures
        r == parsed_u64(text@),
{
    let chars: Vec<char> = chars_of(text);
    let ghost digits = unsigned_digits(text@);
    let start: usize = if chars.len() > 0 && chars[0] == '+' { 1 } else { 0 };
    assert(digits == chars@.skip(start as int));
    if start == chars.len() {
        return None;
    }
    let mut value: u64 = 0;
    let mut at: usize = start;
    assert(digits.take(0) == Seq::<char>::empty());
    while at < chars.len()
        invariant
            start <= at <= chars.len(),
            start < chars.len(),
            chars@ == text@,
            digits == unsigned_digits(text@),
            digits == chars@.skip(start as int),
            all_digits(digits.take(at - start)),
            value == number_of(digits.take(at - start)),
        decreases chars.len() - at,
    {
        let ch: char = chars[at];
        assert(ch == digits[at - start]);
        if !('0' <= ch && ch <= '9') {
            return None;
        }
        let digit: u64 = (ch as u32 - '0' as u32) as u64;
        let ghost longer = digits.take(at - start + 1);
        assert(longer.drop_last() == digits.take(at - start));
        assert(longer.last() == ch);
        assert forall|i: int| 0 <= i < longer.len() implies is_digit(#[trigger] longer[i]) by {
            if i < longer.len() - 1 {
                assert(longer[i] == digits.take(at - start)[i]);
            }
        }
        assert(number_of(longer) == value * 10 + digit);
        let shifted: Option<u64> = value.checked_mul(10);
        let grown: Option<u64> = match shifted {
            Some(tens) => tens.checked_add(digit),
            None => None,
        };
        match grown {
            Some(next) => {
                value = next;
            },
            None => {
                proof {
                    if all_digits(digits) {
                        lemma_number_monotone(digits, at - start + 1);
                    }
                }
                return None;
            },
        }
        at += 1;
    }
    assert(digits.take(at - start) == digits);
    Some(value)
}

/// Reading a number back from its decimal digits gives the number.
pub proof fn law_decimal_round_trip(value: u64)
    ensures
        parsed_u64(decimal(value as nat)) == Some(value),
{
    lemma_decimal(value as nat);
    let text = decimal(value as nat);
    assert(is_digit(text[0]));
}

/// Decimal digits spell the number that they were written for.
pub proof fn lemma_decimal(value: nat)
    ensures
        decimal(value).len() > 0,
        all_digits(decimal(value)),
        number_of(decimal(value)) == value,
    decreases value,
{
    if value < 10 {
        assert(decimal(value).drop_last() == Seq::<char>::empty());
        assert(number_of(Seq::<char>::empty()) == 0);
    } else {
        lemma_decimal(value / 10);
        let text = decimal(value);
        assert(text.drop_last() == decimal(value / 10));
        assert forall|i: int| 0 <= i < text.len() implies is_digit(#[trigger] text[i]) by {
            if i < text.len() - 1 {
                assert(text[i] == decimal(value / 10)[i]);
            }
        }
    }
}

/// Texts joined by a separator.
pub open spec fn joined(parts: Seq<Seq<char>>, separator: Seq<char>) -> Seq<char>
    decreases parts.len(),
{
    if parts.len() == 0 {
        Seq::empty()
    } else if parts.len() == 1 {
        parts[0]
    } else {
        joined(parts.drop_last(), separator) + separator + parts.last()
    }
}

/// The class holds exactly this character.
pub open spec fn only(class: Class, separator: char) -> bool {
    forall|ch: char| #[trigger] class.has(ch) <==> ch == separator
}

/// A class of one character holds that character.
pub proof fn lemma_only(set: &str, separator: char)
    requires
        set@ == seq![separator],
    ensures
        only(Class::OneOf(set), separator),
{
    assert(set@[0] == separator);
}

/// Pieces do not hold what they were cut at.
pub proof fn lemma_split_pieces(text: Seq<char>, class: Class, separator: char)
    requires
        only(class, separator),
    ensures
        forall|i: int|
            0 <= i < split_on(text, class).len() ==> !(#[trigger] split_on(text, class)[i]).contains(
                separator,
            ),
    decreases text.len(),
{
    lemma_split_nonempty(text, class);
    if text.len() > 0 {
        let pieces = split_on(text.drop_last(), class);
        lemma_split_nonempty(text.drop_last(), class);
        lemma_split_pieces(text.drop_last(), class, separator);
        let longer = pieces.last().push(text.last());
        assert(!pieces[pieces.len() - 1].contains(separator));
        if text.last() != separator {
            assert forall|i: int| 0 <= i < longer.len() implies longer[i] != separator by {
                if i < longer.len() - 1 {
                    assert(longer[i] == pieces.last()[i]);
                }
            }
        }
    }
}

/// Joining the pieces of a text gives the text.
pub proof fn lemma_join_split(text: Seq<char>, class: Class, separator: char)
    requires
        only(class, separator),
    ensures
        joined(split_on(text, class), seq![separator]) == text,
    decreases text.len(),
{
    if text.len() > 0 {
        let start = text.drop_last();
        let pieces = split_on(start, class);
        lemma_split_nonempty(start, class);
        lemma_join_split(start, class, separator);
        if class.has(text.last()) {
            assert(pieces.push(Seq::empty()).drop_last() =~= pieces);
            assert(start + seq![separator] + Seq::<char>::empty() =~= text);
        } else {
            let longer = pieces.last().push(text.last());
            assert(pieces.drop_last().push(longer).drop_last() =~= pieces.drop_last());
            if pieces.len() > 1 {
                assert(joined(pieces.drop_last(), seq![separator]) + seq![separator] + longer
                    =~= start.push(text.last()));
            }
            assert(start.push(text.last()) =~= text);
        }
    }
}

/// Cutting a text at its last separator leaves what comes after it as the last piece.
proof fn lemma_split_last(start: Seq<char>, end: Seq<char>, class: Class, separator: char)
    requires
        only(class, separator),
        !end.contains(separator),
    ensures
        split_on(start + seq![separator] + end, class) == split_on(start, class).push(end),
    decreases end.len(),
{
    let whole = start + seq![separator] + end;
    if end.len() == 0 {
        assert(whole.drop_last() =~= start);
        assert(whole.last() == separator);
        assert(end =~= Seq::<char>::empty());
    } else {
        let shorter = end.drop_last();
        assert(end[end.len() - 1] != separator);
        assert(!shorter.contains(separator)) by {
            assert forall|i: int| 0 <= i < shorter.len() implies shorter[i] != separator by {
                assert(shorter[i] == end[i]);
            }
        }
        lemma_split_last(start, shorter, class, separator);
        assert(whole.drop_last() =~= start + seq![separator] + shorter);
        let pieces = split_on(start, class).push(shorter);
        assert(pieces.drop_last() =~= split_on(start, class));
        assert(shorter.push(end.last()) =~= end);
    }
}

/// A text without the separator is its only piece.
proof fn lemma_split_whole(text: Seq<char>, class: Class, separator: char)
    requires
        only(class, separator),
        !text.contains(separator),
    ensures
        split_on(text, class) == seq![text],
    decreases text.len(),
{
    if text.len() > 0 {
        let shorter = text.drop_last();
        assert(text[text.len() - 1] != separator);
        assert forall|i: int| 0 <= i < shorter.len() implies shorter[i] != separator by {
            assert(shorter[i] == text[i]);
        }
        lemma_split_whole(shorter, class, separator);
        assert(shorter.push(text.last()) =~= text);
        assert(seq![shorter].drop_last().push(text) =~= seq![text]);
    }
}

/// Cutting joined parts gives the parts.
pub proof fn lemma_split_join(parts: Seq<Seq<char>>, class: Class, separator: char)
    requires
        only(class, separator),
        parts.len() > 0,
        forall|i: int| 0 <= i < parts.len() ==> !(#[trigger] parts[i]).contains(separator),
    ensures
        split_on(joined(parts, seq![separator]), class) == parts,
    decreases parts.len(),
{
    if parts.len() == 1 {
        lemma_split_whole(parts[0], class, separator);
        assert(parts =~= seq![parts[0]]);
    } else {
        let before = parts.drop_last();
        assert forall|i: int| 0 <= i < before.len() implies !(#[trigger] before[i]).contains(separator) by {
            assert(before[i] == parts[i]);
        }
        lemma_split_join(before, class, separator);
        assert(!parts[parts.len() - 1].contains(separator));
        lemma_split_last(joined(before, seq![separator]), parts.last(), class, separator);
        assert(before.push(parts.last()) =~= parts);
    }
}

/// Trimming at the start cuts a part off, and what is left does not start with a
/// character of the class.
pub proof fn lemma_trimmed_start(text: Seq<char>, class: Class)
    ensures
        exists|from: int| 0 <= from <= text.len() && trimmed_start(text, class) == #[trigger] text.skip(from),
        trimmed_start(text, class).len() > 0 ==> !class.has(trimmed_start(text, class)[0]),
    decreases text.len(),
{
    if text.len() > 0 && class.has(text[0]) {
        let rest = text.drop_first();
        lemma_trimmed_start(rest, class);
        let from = choose|from: int|
            0 <= from <= rest.len() && trimmed_start(rest, class) == #[trigger] rest.skip(from);
        assert(rest.skip(from) =~= text.skip(from + 1));
    } else {
        assert(text.skip(0) =~= text);
    }
}

/// Trimming at the end cuts a part off, and what is left does not end with a character of
/// the class.
pub proof fn lemma_trimmed_end(text: Seq<char>, class: Class)
    ensures
        exists|to: int| 0 <= to <= text.len() && trimmed_end(text, class) == #[trigger] text.take(to),
        trimmed_end(text, class).len() > 0 ==> !class.has(trimmed_end(text, class).last()),
    decreases text.len(),
{
    if text.len() > 0 && class.has(text.last()) {
        let rest = text.drop_last();
        lemma_trimmed_end(rest, class);
        let to = choose|to: int|
            0 <= to <= rest.len() && trimmed_end(rest, class) == #[trigger] rest.take(to);
        assert(rest.take(to) =~= text.take(to));
    } else {
        assert(text.take(text.len() as int) =~= text);
    }
}

/// A trimmed text is a part of the text, and neither starts nor ends with a character of
/// the class.
pub proof fn lemma_trimmed(text: Seq<char>, class: Class)
    ensures
        exists|from: int, to: int|
            0 <= from <= to <= text.len() && trimmed(text, class) == #[trigger] text.subrange(from, to),
        trimmed(text, class).len() > 0 ==> !class.has(trimmed(text, class)[0]) && !class.has(
            trimmed(text, class).last(),
        ),
{
    let rest = trimmed_start(text, class);
    lemma_trimmed_start(text, class);
    lemma_trimmed_end(rest, class);
    let from = choose|from: int| 0 <= from <= text.len() && rest == #[trigger] text.skip(from);
    let to = choose|to: int| 0 <= to <= rest.len() && trimmed_end(rest, class) == #[trigger] rest.take(to);
    assert(rest.take(to) =~= text.subrange(from, from + to));
}

/// Trimming the start of a longer text: what follows a character that stays is kept.
pub proof fn lemma_trimmed_start_of_longer(text: Seq<char>, tail: Seq<char>, class: Class)
    requires
        tail.len() > 0,
        !class.has(tail[0]),
    ensures
        trimmed_start(text + tail, class) == trimmed_start(text, class) + tail,
    decreases text.len(),
{
    let whole = text + tail;
    if text.len() == 0 {
        assert(whole =~= tail);
        assert(text + tail =~= tail);
    } else if class.has(text[0]) {
        lemma_trimmed_start_of_longer(text.drop_first(), tail, class);
        assert(whole.drop_first() =~= text.drop_first() + tail);
    }
}

/// A text without white space around it stays as it is.
pub proof fn lemma_stripped_fixed(text: Seq<char>)
    requires
        text.len() > 0 ==> !is_white(text[0]) && !is_white(text.last()),
    ensures
        stripped(text) == text,
{
    assert(trimmed_start(text, Class::White) == text);
    assert(trimmed_end(text, Class::White) == text);
}

/// White space is exactly this: the six ASCII characters for it, the separators of Unicode and
/// the next-line character.
pub proof fn law_what_white_space_is(ch: char)
    ensures
        is_white(ch) <==> "\t\n\u{b}\u{c}\r \u{85}\u{a0}\u{1680}\u{2000}\u{2001}\u{2002}\u{2003}\u{2004}\u{2005}\u{2006}\u{2007}\u{2008}\u{2009}\u{200a}\u{2028}\u{2029}\u{202f}\u{205f}\u{3000}"@.contains(
            ch,
        ),
{
    reveal_strlit(
        "\t\n\u{b}\u{c}\r \u{85}\u{a0}\u{1680}\u{2000}\u{2001}\u{2002}\u{2003}\u{2004}\u{2005}\u{2006}\u{2007}\u{2008}\u{2009}\u{200a}\u{2028}\u{2029}\u{202f}\u{205f}\u{3000}",
    );
    let all =
        "\t\n\u{b}\u{c}\r \u{85}\u{a0}\u{1680}\u{2000}\u{2001}\u{2002}\u{2003}\u{2004}\u{2005}\u{2006}\u{2007}\u{2008}\u{2009}\u{200a}\u{2028}\u{2029}\u{202f}\u{205f}\u{3000}"@;
    if is_white(ch) {
        let code = ch as u32;
        let at: int = if code <= 0x0d {
            code - 0x09
        } else if code == 0x20 {
            5
        } else if code == 0x85 {
            6
        } else if code == 0xa0 {
            7
        } else if code == 0x1680 {
            8
        } else if code <= 0x200a {
            9 + (code - 0x2000)
        } else if code == 0x2028 {
            20
        } else if code == 0x2029 {
            21
        } else if code == 0x202f {
            22
        } else if code == 0x205f {
            23
        } else {
            24
        };
        assert(all[at] == ch);
    }
}

/// The characters that are told apart, by their numbers: control characters, digits, and ASCII
/// letters and digits.
pub proof fn law_what_the_characters_are(ch: char)
    ensures
        is_control(ch) <==> (ch as u32) < 32 || 127 <= (ch as u32) < 160,
        is_digit(ch) <==> 48 <= (ch as u32) < 58,
        is_alphanumeric(ch) <==> 48 <= (ch as u32) < 58 || 65 <= (ch as u32) < 91 || 97 <= (
        ch as u32) < 123,
        Class::White.has(ch) <==> is_white(ch),
{
}

/// Trimming takes off what is of the class at the start, and nothing else.
pub proof fn law_trimming_the_start_takes_off_the_class(text: Seq<char>, class: Class)
    ensures
        ({
            let cut = text.len() - trimmed_start(text, class).len();
            &&& 0 <= cut <= text.len()
            &&& trimmed_start(text, class) == text.skip(cut)
            &&& forall|i: int| 0 <= i < cut ==> class.has(#[trigger] text[i])
            &&& cut < text.len() ==> !class.has(text[cut])
        }),
    decreases text.len(),
{
    if text.len() > 0 && class.has(text[0]) {
        let rest = text.drop_first();
        law_trimming_the_start_takes_off_the_class(rest, class);
        let cut = text.len() - trimmed_start(text, class).len();
        assert(rest.skip(cut - 1) =~= text.skip(cut));
        assert forall|i: int| 0 <= i < cut implies class.has(#[trigger] text[i]) by {
            if i > 0 {
                assert(text[i] == rest[i - 1]);
            }
        }
        if cut < text.len() {
            assert(text[cut] == rest[cut - 1]);
        }
    } else {
        assert(text.skip(0) =~= text);
    }
}

/// Trimming takes off what is of the class at the end, and nothing else.
proof fn lemma_trimming_the_end(text: Seq<char>, class: Class)
    ensures
        ({
            let kept = trimmed_end(text, class).len() as int;
            &&& 0 <= kept <= text.len()
            &&& trimmed_end(text, class) == text.take(kept)
            &&& forall|i: int| kept <= i < text.len() ==> class.has(#[trigger] text[i])
            &&& kept > 0 ==> !class.has(text[kept - 1])
        }),
    decreases text.len(),
{
    if text.len() > 0 && class.has(text.last()) {
        let rest = text.drop_last();
        lemma_trimming_the_end(rest, class);
        let kept = trimmed_end(text, class).len() as int;
        assert(rest.take(kept) =~= text.take(kept));
        assert forall|i: int| kept <= i < text.len() implies class.has(#[trigger] text[i]) by {
            if i < rest.len() {
                assert(text[i] == rest[i]);
            }
        }
        if kept > 0 {
            assert(text[kept - 1] == rest[kept - 1]);
        }
    } else {
        assert(text.take(text.len() as int) =~= text);
    }
}

/// The part of a text from `from` to `to`, around which there is nothing but the class.
pub open spec fn is_core(text: Seq<char>, class: Class, from: int, to: int) -> bool {
    &&& 0 <= from <= to <= text.len()
    &&& forall|i: int| 0 <= i < from ==> class.has(#[trigger] text[i])
    &&& forall|i: int| to <= i < text.len() ==> class.has(#[trigger] text[i])
    &&& from < to ==> !class.has(text[from]) && !class.has(text[to - 1])
}

/// Trimming keeps the part of a text around which there is nothing but the class, whichever way
/// that part is found.
pub proof fn law_trimming_keeps_the_core(text: Seq<char>, class: Class, from: int, to: int)
    requires
        is_core(text, class, from, to),
    ensures
        trimmed(text, class) == text.subrange(from, to),
        class == Class::White ==> stripped(text) == text.subrange(from, to),
{
    let rest = trimmed_start(text, class);
    law_trimming_the_start_takes_off_the_class(text, class);
    lemma_trimming_the_end(rest, class);
    let cut = text.len() - rest.len();
    let kept = trimmed_end(rest, class).len() as int;
    if from < to {
        assert(!class.has(text[from]));
        assert(cut == from);
        assert(rest[to - 1 - cut] == text[to - 1]);
        if kept > to - cut {
            assert(rest[kept - 1] == text[kept - 1 + cut]);
            assert(class.has(text[kept - 1 + cut]));
        }
        if kept < to - cut {
            assert(class.has(rest[to - 1 - cut]));
        }
        assert(rest.take(kept) =~= text.subrange(from, to));
    } else {
        if cut < text.len() {
            assert(class.has(text[cut]));
        }
        assert(trimmed(text, class) =~= text.subrange(from, to));
    }
}

/// Every text has a part around which there is nothing but the class, and that is the trimmed
/// text.
pub proof fn law_every_text_has_a_core(text: Seq<char>, class: Class)
    ensures
        exists|from: int, to: int|
            #[trigger] is_core(text, class, from, to) && trimmed(text, class) == text.subrange(from, to),
{
    let rest = trimmed_start(text, class);
    law_trimming_the_start_takes_off_the_class(text, class);
    lemma_trimming_the_end(rest, class);
    let cut = text.len() - rest.len();
    let kept = trimmed_end(rest, class).len() as int;
    assert forall|i: int| cut + kept <= i < text.len() implies class.has(#[trigger] text[i]) by {
        assert(rest[i - cut] == text[i]);
    }
    if kept > 0 {
        assert(rest[0] == text[cut]);
        assert(rest[kept - 1] == text[cut + kept - 1]);
    }
    assert(rest.take(kept) =~= text.subrange(cut, cut + kept));
    assert(is_core(text, class, cut, cut + kept));
}

/// A text is blank exactly where it holds white space only.
pub proof fn law_blank_texts_hold_white_space_only(text: Seq<char>)
    ensures
        stripped(text).len() == 0 <==> forall|i: int| 0 <= i < text.len() ==> is_white(#[trigger] text[i]),
{
    law_every_text_has_a_core(text, Class::White);
    let (from, to) = choose|from: int, to: int|
        #[trigger] is_core(text, Class::White, from, to) && trimmed(text, Class::White) == text.subrange(
            from,
            to,
        );
    if from < to {
        assert(!is_white(text[from]));
    } else {
        assert forall|i: int| 0 <= i < text.len() implies is_white(#[trigger] text[i]) by {
            assert(Class::White.has(text[i]));
        }
    }
}

/// A needle occurs in a text exactly where the text is something, the needle and something more.
pub proof fn law_what_occurs_is_a_part(before: Seq<char>, needle: Seq<char>, after: Seq<char>, text: Seq<char>)
    ensures
        occurs(before + needle + after, needle),
        occurs(text, needle) ==> exists|at: int|
            0 <= at <= text.len() - needle.len() && text == #[trigger] text.take(at) + needle + text.skip(
                at + needle.len(),
            ),
{
    let whole = before + needle + after;
    let start = before.len() as int;
    assert(whole.subrange(start, start + needle.len()) =~= needle);
    assert(occurs_at(whole, needle, start));
    if occurs(text, needle) {
        let at = choose|at: int| #[trigger] occurs_at(text, needle, at);
        assert(text =~= text.take(at) + needle + text.skip(at + needle.len())) by {
            assert forall|i: int| 0 <= i < needle.len() implies text[at + i] == needle[i] by {
                assert(text.subrange(at, at + needle.len())[i] == needle[i]);
            }
        }
        assert(text == text.take(at) + needle + text.skip(at + needle.len()));
    }
}

/// Making letters small changes ASCII capitals into the letter at the same place of the small
/// alphabet, and nothing else.
pub proof fn law_only_capitals_are_made_small(text: Seq<char>, at: int)
    requires
        0 <= at < text.len(),
    ensures
        lowered(text).len() == text.len(),
        'A' <= text[at] <= 'Z' ==> 'a' <= lowered(text)[at] <= 'z' && lowered(text)[at] as int
            - 'a' as int == text[at] as int - 'A' as int,
        !('A' <= text[at] <= 'Z') ==> lowered(text)[at] == text[at],
        lowered(lowered(text)) == lowered(text),
{
    assert(lowered(lowered(text)) =~= lowered(text)) by {
        assert forall|i: int| 0 <= i < text.len() implies lowered(lowered(text))[i] == #[trigger] lowered(
            text,
        )[i] by {
            let ch = text[i];
            assert(lowered(text)[i] == small(ch));
            assert(small(small(ch)) == small(ch));
        }
    }
}

/// A text without characters of the class is its only piece, and a character of the class
/// behind it begins a new piece, whatever comes before.
pub proof fn law_a_text_is_cut_at_the_class(
    start: Seq<char>,
    separator: char,
    end: Seq<char>,
    class: Class,
)
    requires
        class.has(separator),
        forall|i: int| 0 <= i < end.len() ==> !class.has(#[trigger] end[i]),
    ensures
        split_on(end, class) == seq![end],
        split_on(start + seq![separator] + end, class) == split_on(start, class).push(end),
    decreases end.len(),
{
    let whole = start + seq![separator] + end;
    if end.len() == 0 {
        assert(end =~= Seq::<char>::empty());
        assert(whole.drop_last() =~= start);
        assert(whole.last() == separator);
    } else {
        let shorter = end.drop_last();
        assert forall|i: int| 0 <= i < shorter.len() implies !class.has(#[trigger] shorter[i]) by {
            assert(shorter[i] == end[i]);
        }
        assert(!class.has(end[end.len() - 1]));
        law_a_text_is_cut_at_the_class(start, separator, shorter, class);
        assert(whole.drop_last() =~= start + seq![separator] + shorter);
        assert(whole.last() == end.last());
        let pieces = split_on(start, class).push(shorter);
        assert(pieces.drop_last() =~= split_on(start, class));
        assert(shorter.push(end.last()) =~= end);
        assert(seq![shorter].drop_last().push(end) =~= seq![end]);
    }
}

/// No piece holds a character of the class.
pub proof fn law_pieces_hold_nothing_of_the_class(text: Seq<char>, class: Class, piece: int, at: int)
    requires
        0 <= piece < split_on(text, class).len(),
        0 <= at < split_on(text, class)[piece].len(),
    ensures
        !class.has(split_on(text, class)[piece][at]),
    decreases text.len(),
{
    if text.len() > 0 {
        let shorter = text.drop_last();
        let pieces = split_on(shorter, class);
        lemma_split_nonempty(shorter, class);
        if piece < pieces.len() && at < pieces[piece].len() {
            law_pieces_hold_nothing_of_the_class(shorter, class, piece, at);
        }
    }
}

/// The digit at each place of a number: what is left of the number there, without the tens.
pub proof fn law_every_digit_is_at_its_place(value: nat, place: nat)
    requires
        place < decimal(value).len(),
    ensures
        value < power::pow(10, decimal(value).len()),
        decimal(value).len() > 1 ==> value >= power::pow(10, (decimal(value).len() - 1) as nat),
        decimal(value)[decimal(value).len() - 1 - place] as int - '0' as int == (value as int / power::pow(
            10,
            place,
        )) % 10,
    decreases value,
{
    reveal(power::pow);
    let text = decimal(value);
    if value < 10 {
        assert(power::pow(10, 1) == 10) by {
            reveal_with_fuel(power::pow, 2);
        }
        assert(power::pow(10, 0) == 1);
        assert(place == 0);
    } else {
        let shorter = decimal(value / 10);
        lemma_decimal(value / 10);
        law_every_digit_is_at_its_place(value / 10, 0);
        assert(text.len() == shorter.len() + 1);
        lemma_pow_step(shorter.len());
        lemma_pow_step((shorter.len() - 1) as nat);
        assert(power::pow(10, 0) == 1);
        if shorter.len() == 1 {
            assert(power::pow(10, 1) == 10) by {
                reveal_with_fuel(power::pow, 2);
            }
        }
        if place > 0 {
            law_every_digit_is_at_its_place(value / 10, (place - 1) as nat);
            lemma_pow_step((place - 1) as nat);
            power::lemma_pow_positive(10, (place - 1) as nat);
            assert(text[text.len() - 1 - place] == shorter[shorter.len() - 1 - (place - 1)]);
            div_mod::lemma_div_denominator(value as int, 10, power::pow(10, (place - 1) as nat));
            assert((value / 10) as int == value as int / 10);
        } else {
            assert(text[text.len() - 1] == digit_char(value % 10));
        }
    }
}

/// One more place is ten times as much.
proof fn lemma_pow_step(places: nat)
    ensures
        power::pow(10, places + 1) == 10 * power::pow(10, places),
{
    reveal(power::pow);
}

/// Digits without a zero in front are those of the number that they spell, and zeros in front
/// make no difference to it.
pub proof fn law_digits_are_those_of_their_number(digits: Seq<char>)
    requires
        digits.len() > 0,
        all_digits(digits),
    ensures
        digits[0] != '0' || digits.len() == 1 ==> decimal(number_of(digits)) == digits,
        number_of(seq!['0'] + digits) == number_of(digits),
    decreases digits.len(),
{
    let last = digits.last();
    let shorter = digits.drop_last();
    assert(is_digit(digits[digits.len() - 1]));
    let longer = seq!['0'] + digits;
    assert(longer.drop_last() =~= seq!['0'] + shorter);
    assert(longer.last() == last);
    if shorter.len() > 0 {
        assert forall|i: int| 0 <= i < shorter.len() implies is_digit(#[trigger] shorter[i]) by {
            assert(shorter[i] == digits[i]);
        }
        law_digits_are_those_of_their_number(shorter);
        let value = number_of(digits);
        let rest = number_of(shorter);
        let digit = (last as u32 - '0' as u32) as nat;
        assert(value == rest * 10 + digit);
        assert(value / 10 == rest && value % 10 == digit);
        if digits[0] != '0' {
            assert(shorter[0] == digits[0]);
            assert(rest > 0) by {
                lemma_number_has_value(shorter);
            }
            assert(decimal(value) == decimal(rest).push(digit_char(digit)));
            assert(digit_char(digit) == last);
            assert(decimal(value) =~= digits);
        }
    } else {
        assert(shorter =~= Seq::<char>::empty());
        assert(seq!['0'] + shorter =~= seq!['0']);
        assert(seq!['0'].drop_last() =~= Seq::<char>::empty());
        assert(number_of(Seq::<char>::empty()) == 0);
        assert(number_of(seq!['0']) == 0);
        let digit = (last as u32 - '0' as u32) as nat;
        assert(number_of(digits) == digit);
        assert(decimal(digit) =~= digits);
    }
}

/// Digits that do not start with a zero spell more than zero.
proof fn lemma_number_has_value(digits: Seq<char>)
    requires
        digits.len() > 0,
        all_digits(digits),
        digits[0] != '0',
    ensures
        number_of(digits) > 0,
    decreases digits.len(),
{
    assert(is_digit(digits[0]));
    assert(is_digit(digits[digits.len() - 1]));
    if digits.len() > 1 {
        let shorter = digits.drop_last();
        assert forall|i: int| 0 <= i < shorter.len() implies is_digit(#[trigger] shorter[i]) by {
            assert(shorter[i] == digits[i]);
        }
        lemma_number_has_value(shorter);
    }
}

/// A text is read as a number exactly where it is a row of digits, perhaps behind a plus sign,
/// that spells no more than fits.
pub proof fn law_only_numbers_are_read(text: Seq<char>, at: int)
    ensures
        parsed_u64(seq!['+'] + text) is Some <==> text.len() > 0 && all_digits(text) && number_of(text)
            <= 0xffff_ffff_ffff_ffff,
        text.len() > 0 && text[0] != '+' ==> parsed_u64(text) == parsed_u64(seq!['+'] + text),
        text.len() == 0 ==> parsed_u64(text) is None,
        0 <= at < text.len() && !(48 <= (text[at] as u32) < 58) && (at > 0 || text[0] != '+')
            ==> parsed_u64(text) is None,
        parsed_u64(text) is Some && text[0] != '+' ==> parsed_u64(text)->0 == number_of(text),
{
    let signed = seq!['+'] + text;
    assert(unsigned_digits(signed) =~= text);
    if 0 <= at < text.len() && !(48 <= (text[at] as u32) < 58) && (at > 0 || text[0] != '+') {
        let digits = unsigned_digits(text);
        let place = if text[0] == '+' { at - 1 } else { at };
        assert(digits[place] == text[at]);
        assert(!is_digit(digits[place]));
    }
}

} // verus!
