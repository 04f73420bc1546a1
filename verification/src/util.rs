//! Small helpers: shortened texts, the clock, version numbers, links.

use vstd::prelude::*;

use crate::exec;
use crate::exec::{CommandSpec, CommandView, Platform};
use crate::text;
use crate::text::Class;

verus! {

/// At most `limit` characters of a text, the last of them an ellipsis where
/// something was cut off.
pub open spec fn truncated(value: Seq<char>, limit: nat) -> Seq<char> {
    if value.len() <= limit {
        value
    } else {
        value.take(if limit == 0 { 0 } else { limit - 1 }).push('…')
    }
}

/// Cuts a text down to `limit` characters.
pub fn truncate_chars(value: &str, limit: usize) -> (r: String)
    ensures
        r@ == truncated(value@, limit as nat),
{
    let chars: Vec<char> = text::chars_of(value);
    if chars.len() <= limit {
        return value.to_owned();
    }
    let kept: usize = limit.saturating_sub(1);
    let mut out: String = text::text_between(&chars, 0, kept);
    out.push('…');
    out
}

/// A text that was cut fits the limit (one character is always left), what fits is not
/// touched, and cutting twice is cutting once.
pub proof fn law_truncated_fits(value: Seq<char>, limit: nat)
    ensures
        limit > 0 ==> truncated(value, limit).len() <= limit,
        limit == 0 ==> truncated(value, limit).len() <= 1,
        value.len() <= limit ==> truncated(value, limit) == value,
        truncated(truncated(value, limit), limit) == truncated(value, limit),
{
}

/// `std::time::SystemTime`, carried through without a look inside.
#[verifier::external_type_specification]
#[verifier::external_body]
pub struct ExSystemTime(std::time::SystemTime);

/// How long after the start of 1970 a time is, `None` for a time before that.
pub uninterp spec fn since_epoch(time: std::time::SystemTime) -> Option<core::time::Duration>;

/// The whole seconds of a duration.
pub uninterp spec fn duration_seconds(duration: core::time::Duration) -> u64;

/// `SystemTime::now`: what the clock reads. It is the time, so nothing is said of the
/// answer.
pub assume_specification[ std::time::SystemTime::now ]() -> (r: std::time::SystemTime);

/// `SystemTime::duration_since` with `UNIX_EPOCH`: how long after the start of 1970 the time
/// is, `None` for a time before that.
#[verifier::external_body]
fn after_epoch(time: std::time::SystemTime) -> (r: Option<core::time::Duration>)
    ensures
        r == since_epoch(time),
{
    time.duration_since(std::time::UNIX_EPOCH).ok()
}

/// `Duration::as_secs`: the whole seconds of a duration.
#[verifier::external_body]
fn whole_seconds(duration: core::time::Duration) -> (r: u64)
    ensures
        r == duration_seconds(duration),
{
    duration.as_secs()
}

/// The whole seconds from 1970 to a time, `None` for a time before that.
pub open spec fn seconds_since_epoch(time: std::time::SystemTime) -> Option<u64> {
    match since_epoch(time) {
        Some(duration) => Some(duration_seconds(duration)),
        None => None,
    }
}

/// A clock reading in seconds, zero where it is set before 1970.
pub open spec fn clock_seconds(reading: Option<u64>) -> u64 {
    match reading {
        Some(seconds) => seconds,
        None => 0,
    }
}

/// A clock reading in seconds, zero where there is none.
pub fn seconds_or_zero(reading: Option<u64>) -> (r: u64)
    ensures
        r == clock_seconds(reading),
{
    match reading {
        Some(seconds) => seconds,
        None => 0,
    }
}

/// The seconds since 1970, zero for a clock that is set before that.
pub fn epoch_secs() -> (r: u64)
    ensures
        exists|time: std::time::SystemTime|
            r == clock_seconds(#[trigger] seconds_since_epoch(time)),
{
    let time: std::time::SystemTime = std::time::SystemTime::now();
    let reading: Option<u64> = match after_epoch(time) {
        Some(duration) => Some(whole_seconds(duration)),
        None => None,
    };
    assert(reading == seconds_since_epoch(time));
    seconds_or_zero(reading)
}

/// The digits that a text begins with.
pub open spec fn leading_digits(piece: Seq<char>) -> Seq<char>
    decreases piece.len(),
{
    if piece.len() > 0 && text::is_digit(piece[0]) {
        seq![piece[0]] + leading_digits(piece.drop_first())
    } else {
        Seq::empty()
    }
}

/// The number that a piece of a version begins with; zero where it begins with none
/// or with one that is too large.
pub open spec fn piece_number(piece: Seq<char>) -> u64 {
    match text::parsed_u64(leading_digits(piece)) {
        Some(number) => number,
        None => 0,
    }
}

/// Numbers without the zeros at the end.
pub open spec fn without_trailing_zeros(numbers: Seq<u64>) -> Seq<u64>
    decreases numbers.len(),
{
    if numbers.len() > 0 && numbers.last() == 0 {
        without_trailing_zeros(numbers.drop_last())
    } else {
        numbers
    }
}

/// The numbers of a version that comes without a `v` in front.
pub open spec fn bare_numbers(body: Seq<char>) -> Seq<u64> {
    without_trailing_zeros(
        text::split_on(body, Class::OneOf(".-+")).map_values(|piece: Seq<char>| piece_number(piece)),
    )
}

/// A version without a `v` in front.
pub open spec fn bare_version(value: Seq<char>) -> Seq<char> {
    text::trimmed_start(text::stripped(value), Class::OneOf("vV"))
}

/// The numbers of a version, by which versions are ordered.
pub open spec fn version_numbers(value: Seq<char>) -> Seq<u64> {
    bare_numbers(bare_version(value))
}

/// Reads the number that a piece of a version begins with.
fn leading_number(piece: &str) -> (r: u64)
    ensures
        r == piece_number(piece@),
{
    let chars: Vec<char> = text::chars_of(piece);
    let mut end: usize = 0;
    assert(chars@.skip(0) == chars@);
    assert(chars@.take(0) + leading_digits(chars@) =~= leading_digits(chars@));
    while end < chars.len() && '0' <= chars[end] && chars[end] <= '9'
        invariant
            end <= chars.len(),
            chars@.take(end as int) + leading_digits(chars@.skip(end as int)) == leading_digits(chars@),
        decreases chars.len() - end,
    {
        let ghost rest = chars@.skip(end as int);
        assert(rest.drop_first() == chars@.skip(end + 1));
        assert(chars@.take(end + 1) =~= chars@.take(end as int) + seq![chars@[end as int]]);
        assert(chars@.take(end + 1) + leading_digits(chars@.skip(end + 1)) =~= chars@.take(end as int)
            + (seq![rest[0]] + leading_digits(rest.drop_first())));
        end += 1;
    }
    assert(leading_digits(chars@.skip(end as int)) =~= Seq::<char>::empty());
    assert(chars@.take(end as int) =~= leading_digits(chars@));
    assert(chars@.subrange(0, end as int) =~= chars@.take(end as int));
    let digits: String = text::text_between(&chars, 0, end);
    match text::parse_u64(digits.as_str()) {
        Some(number) => number,
        None => 0,
    }
}

/// Splits a version into the numbers by which versions are ordered; a `v` in front,
/// what is not a number, and zeros at the end make no difference.
pub fn version_key(value: &str) -> (r: Vec<u64>)
    ensures
        r@ == version_numbers(value@),
{
    let stripped: String = text::trim(value);
    let body: String = text::trim_start_matches(stripped.as_str(), Class::OneOf("vV"));
    let pieces: Vec<String> = text::split(body.as_str(), Class::OneOf(".-+"));
    let ghost all = text::split_on(body@, Class::OneOf(".-+"));
    let ghost numbers = all.map_values(|piece: Seq<char>| piece_number(piece));
    let mut out: Vec<u64> = Vec::new();
    let mut at: usize = 0;
    while at < pieces.len()
        invariant
            at <= pieces.len(),
            pieces.deep_view() == all,
            numbers == all.map_values(|piece: Seq<char>| piece_number(piece)),
            out@ == numbers.take(at as int),
        decreases pieces.len() - at,
    {
        assert(all[at as int] == pieces@[at as int]@);
        out.push(leading_number(pieces[at].as_str()));
        assert(numbers.take(at + 1) =~= numbers.take(at as int).push(numbers[at as int]));
        at += 1;
    }
    assert(out@ =~= numbers);
    while out.len() > 0 && out[out.len() - 1] == 0
        invariant
            without_trailing_zeros(out@) == without_trailing_zeros(numbers),
        decreases out.len(),
    {
        let ghost before = out@;
        let _ = out.pop();
        assert(out@ =~= before.drop_last());
    }
    out
}

/// The first numbers are those of a newer version: they are larger where they first
/// differ, or there are more of them.
pub open spec fn newer(left: Seq<u64>, right: Seq<u64>) -> bool
    decreases left.len(),
{
    if left.len() == 0 {
        false
    } else if right.len() == 0 {
        true
    } else if left[0] != right[0] {
        left[0] > right[0]
    } else {
        newer(left.drop_first(), right.drop_first())
    }
}

/// Tells whether the first numbers are those of a newer version.
pub fn is_newer(left: &Vec<u64>, right: &Vec<u64>) -> (r: bool)
    ensures
        r == newer(left@, right@),
{
    let mut at: usize = 0;
    assert(left@.skip(0) =~= left@);
    assert(right@.skip(0) =~= right@);
    while at < left.len() && at < right.len()
        invariant
            at <= left.len(),
            at <= right.len(),
            newer(left@.skip(at as int), right@.skip(at as int)) == newer(left@, right@),
        decreases left.len() - at,
    {
        assert(left@.skip(at as int).drop_first() =~= left@.skip(at + 1));
        assert(right@.skip(at as int).drop_first() =~= right@.skip(at + 1));
        if left[at] != right[at] {
            return left[at] > right[at];
        }
        at += 1;
    }
    at < left.len()
}

/// Of two different versions exactly one is newer, and none is newer than itself.
pub proof fn law_versions_are_ordered(left: Seq<u64>, right: Seq<u64>)
    ensures
        newer(left, right) || newer(right, left) <==> left != right,
        !(newer(left, right) && newer(right, left)),
    decreases left.len(),
{
    if left.len() > 0 && right.len() > 0 && left[0] == right[0] {
        law_versions_are_ordered(left.drop_first(), right.drop_first());
        if left.drop_first() == right.drop_first() {
            assert(left =~= seq![left[0]] + left.drop_first());
            assert(right =~= seq![right[0]] + right.drop_first());
        }
    } else if left.len() == 0 && right.len() == 0 {
        assert(left =~= right);
    }
}

/// What is newer than a newer version is newer.
pub proof fn law_newer_is_transitive(first: Seq<u64>, second: Seq<u64>, third: Seq<u64>)
    requires
        newer(first, second),
        newer(second, third),
    ensures
        newer(first, third),
    decreases first.len(),
{
    if third.len() > 0 && first[0] == second[0] && second[0] == third[0] {
        law_newer_is_transitive(first.drop_first(), second.drop_first(), third.drop_first());
    }
}

/// The numbers of a version do not end with a zero.
pub proof fn law_version_numbers_end_without_zero(value: Seq<char>)
    ensures
        version_numbers(value).len() > 0 ==> version_numbers(value).last() != 0,
{
    lemma_no_trailing_zero(
        text::split_on(bare_version(value), Class::OneOf(".-+")).map_values(
            |piece: Seq<char>| piece_number(piece),
        ),
    );
}

/// Without its trailing zeros a sequence does not end with one.
proof fn lemma_no_trailing_zero(numbers: Seq<u64>)
    ensures
        without_trailing_zeros(numbers).len() > 0 ==> without_trailing_zeros(numbers).last() != 0,
    decreases numbers.len(),
{
    if numbers.len() > 0 && numbers.last() == 0 {
        lemma_no_trailing_zero(numbers.drop_last());
    }
}

/// A `v` or `V` in front of a version makes no difference, once the white space around the
/// version is gone.
pub proof fn law_the_v_makes_no_difference(value: Seq<char>, v: char)
    requires
        v == 'v' || v == 'V',
    ensures
        version_numbers(seq![v] + text::stripped(value)) == version_numbers(value),
{
    let inner = text::stripped(value);
    assert(text::stripped(inner) == inner) by {
        text::lemma_trimmed(value, Class::White);
        text::lemma_stripped_fixed(inner);
    }
    lemma_prefix(inner, v);
    assert(bare_version(inner) == bare_version(value));
    assert(bare_version(seq![v] + inner) == bare_version(value));
}

/// A `v` in front is taken off.
proof fn lemma_prefix(value: Seq<char>, v: char)
    requires
        v == 'v' || v == 'V',
        text::stripped(value) == value,
    ensures
        bare_version(seq![v] + value) == bare_version(value),
{
    let longer = seq![v] + value;
    let class = Class::OneOf("vV");
    assert(text::stripped(longer) == longer) by {
        text::lemma_trimmed(value, Class::White);
        text::lemma_stripped_fixed(longer);
    }
    assert(class.has(v)) by {
        reveal_strlit("vV");
        assert("vV"@[0] == 'v' && "vV"@[1] == 'V');
    }
    assert(longer.drop_first() =~= value);
    assert(text::trimmed_start(longer, class) == text::trimmed_start(longer.drop_first(), class));
}

/// A part more at the end of a version makes no difference where it stands for no number,
/// such as a zero or a word.
pub proof fn law_parts_without_a_number_make_no_difference(
    value: Seq<char>,
    separator: char,
    part: Seq<char>,
)
    requires
        Class::OneOf(".-+").has(separator),
        forall|i: int| 0 <= i < part.len() ==> !Class::OneOf(".-+").has(#[trigger] part[i]),
        piece_number(part) == 0,
    ensures
        version_numbers(value + (seq![separator] + part)) == version_numbers(value),
{
    let tail = seq![separator] + part;
    let prefix = Class::OneOf("vV");
    let rest = text::trimmed_start(value, Class::White);
    let body = text::trimmed_start(rest, prefix);
    lemma_separator(separator);
    text::lemma_trimmed_start_of_longer(value, tail, Class::White);
    text::lemma_trimmed_start_of_longer(rest, tail, prefix);
    lemma_white_end(rest + tail);
    lemma_white_end(rest);
    lemma_split_part(body, separator, part);
    lemma_numbers_with_zero(text::split_on(body, Class::OneOf(".-+")), part);
    assert(bare_numbers(body + tail) == bare_numbers(body));
}

/// White space at the end of a version makes no difference to its numbers.
proof fn lemma_white_end(rest: Seq<char>)
    ensures
        bare_numbers(text::trimmed_start(text::trimmed_end(rest, Class::White), Class::OneOf("vV")))
            == bare_numbers(text::trimmed_start(rest, Class::OneOf("vV"))),
    decreases rest.len(),
{
    if rest.len() > 0 && text::is_white(rest.last()) {
        let shorter = rest.drop_last();
        let prefix = Class::OneOf("vV");
        let white = seq![rest.last()];
        lemma_white_end(shorter);
        assert(!prefix.has(rest.last())) by {
            reveal_strlit("vV");
        }
        text::lemma_trimmed_start_of_longer(shorter, white, prefix);
        assert(shorter + white =~= rest);
        let body = text::trimmed_start(shorter, prefix);
        assert(body + white =~= body.push(rest.last()));
        lemma_numbers_before_white(body, rest.last());
        assert(text::trimmed_end(rest, Class::White) == text::trimmed_end(shorter, Class::White));
    }
}

/// White space behind a version adds no number and changes none.
proof fn lemma_numbers_before_white(body: Seq<char>, white: char)
    requires
        text::is_white(white),
    ensures
        bare_numbers(body.push(white)) == bare_numbers(body),
{
    let class = Class::OneOf(".-+");
    let pieces = text::split_on(body, class);
    let longer = pieces.last().push(white);
    assert(!class.has(white)) by {
        reveal_strlit(".-+");
    }
    text::lemma_split_nonempty(body, class);
    assert(body.push(white).drop_last() =~= body);
    assert(text::split_on(body.push(white), class) == pieces.drop_last().push(longer));
    lemma_digits_before_white(pieces.last(), white);
    assert(pieces.drop_last().push(longer).map_values(|piece: Seq<char>| piece_number(piece))
        =~= pieces.map_values(|piece: Seq<char>| piece_number(piece)));
}

/// White space is no digit.
proof fn lemma_digits_before_white(piece: Seq<char>, white: char)
    requires
        text::is_white(white),
    ensures
        leading_digits(piece.push(white)) == leading_digits(piece),
    decreases piece.len(),
{
    if piece.len() > 0 {
        lemma_digits_before_white(piece.drop_first(), white);
        assert(piece.push(white).drop_first() =~= piece.drop_first().push(white));
    }
}

/// A separator is neither white space nor a `v`.
proof fn lemma_separator(separator: char)
    requires
        Class::OneOf(".-+").has(separator),
    ensures
        !text::is_white(separator),
        !Class::OneOf("vV").has(separator),
{
    reveal_strlit(".-+");
    reveal_strlit("vV");
    assert(separator == '.' || separator == '-' || separator == '+');
}

/// What follows a separator is a piece of its own.
proof fn lemma_split_part(body: Seq<char>, separator: char, part: Seq<char>)
    requires
        Class::OneOf(".-+").has(separator),
        forall|i: int| 0 <= i < part.len() ==> !Class::OneOf(".-+").has(#[trigger] part[i]),
    ensures
        text::split_on(body + (seq![separator] + part), Class::OneOf(".-+")) == text::split_on(
            body,
            Class::OneOf(".-+"),
        ).push(part),
    decreases part.len(),
{
    let class = Class::OneOf(".-+");
    let whole = body + (seq![separator] + part);
    let pieces = text::split_on(body, class);
    if part.len() == 0 {
        assert(whole.drop_last() =~= body);
        assert(whole.last() == separator);
        assert(part =~= Seq::<char>::empty());
    } else {
        let shorter = part.drop_last();
        assert forall|i: int| 0 <= i < shorter.len() implies !class.has(#[trigger] shorter[i]) by {
            assert(shorter[i] == part[i]);
        }
        lemma_split_part(body, separator, shorter);
        assert(whole.drop_last() =~= body + (seq![separator] + shorter));
        assert(whole.last() == part[part.len() - 1]);
        assert(pieces.push(shorter).drop_last() =~= pieces);
        assert(shorter.push(part.last()) =~= part);
    }
}

/// A piece more that stands for zero adds no number.
proof fn lemma_numbers_with_zero(pieces: Seq<Seq<char>>, part: Seq<char>)
    requires
        piece_number(part) == 0,
    ensures
        without_trailing_zeros(pieces.push(part).map_values(|piece: Seq<char>| piece_number(piece)))
            == without_trailing_zeros(pieces.map_values(|piece: Seq<char>| piece_number(piece))),
{
    let numbers = pieces.map_values(|piece: Seq<char>| piece_number(piece));
    let more = pieces.push(part).map_values(|piece: Seq<char>| piece_number(piece));
    assert(more =~= numbers.push(0));
    assert(more.drop_last() =~= numbers);
}

/// A zero stands for no number, and neither does what does not begin with a digit.
pub proof fn law_words_and_zeros_stand_for_no_number(part: Seq<char>)
    requires
        part == seq!['0'] || part.len() == 0 || !text::is_digit(part[0]),
    ensures
        piece_number(part) == 0,
{
    if part == seq!['0'] {
        lemma_zero_piece(part);
    } else {
        assert(leading_digits(part) =~= Seq::<char>::empty());
    }
}

/// The piece `0` stands for zero.
proof fn lemma_zero_piece(piece: Seq<char>)
    requires
        piece == seq!['0'],
    ensures
        piece_number(piece) == 0,
{
    assert(leading_digits(piece.drop_first()) =~= Seq::<char>::empty());
    assert(leading_digits(piece) =~= piece);
    assert(piece.drop_last() =~= Seq::<char>::empty());
    assert(text::number_of(Seq::<char>::empty()) == 0);
    assert(text::number_of(piece) == 0);
}

/// A link to a web page.
pub open spec fn is_web_link(url: Seq<char>) -> bool {
    "https://"@.is_prefix_of(url) || "http://"@.is_prefix_of(url)
}

/// The command that opens a link.
pub open spec fn link_opener(url: Seq<char>, platform: Platform) -> CommandView {
    match platform {
        Platform::Windows => CommandView::bare("explorer.exe"@).without_console(platform),
        Platform::MacOs => CommandView::bare("open"@),
        Platform::Unix => CommandView::bare("xdg-open"@),
    }.with_args(seq![url])
}

/// Makes the command that opens a link outside the launcher. Only links to web pages are
/// opened.
pub fn open_external(url: &str, platform: Platform) -> (r: Result<CommandSpec, String>)
    ensures
        exec::command_or(
            r,
            if is_web_link(url@) {
                Ok(link_opener(url@, platform))
            } else {
                Err("只允许打开 http(s) 链接"@)
            },
        ),
{
    if !text::starts_with(url, "https://") && !text::starts_with(url, "http://") {
        return Err("只允许打开 http(s) 链接".to_string());
    }
    let mut command: CommandSpec = match platform {
        Platform::Windows => CommandSpec::new("explorer.exe"),
        Platform::MacOs => CommandSpec::new("open"),
        Platform::Unix => CommandSpec::new("xdg-open"),
    };
    exec::hide_console(&mut command, platform);
    command.arg(url);
    assert(command@ =~= link_opener(url@, platform));
    Ok(command)
}

/// A text that was cut begins as the text does, with the ellipsis as its last character.
pub proof fn law_a_cut_text_begins_as_it_did(value: Seq<char>, limit: nat, at: int)
    requires
        value.len() > limit,
    ensures
        truncated(value, limit).len() == (if limit == 0 { 1 } else { limit }),
        truncated(value, limit).last() == '…',
        0 <= at < limit - 1 ==> truncated(value, limit)[at] == value[at],
{
}

/// The first numbers outrank the others: up to some place both are the same, and there the
/// others end or have a smaller number.
pub open spec fn outranks(left: Seq<u64>, right: Seq<u64>) -> bool {
    exists|at: int| #[trigger] outranks_at(left, right, at)
}

/// The first numbers outrank the others at this place.
pub open spec fn outranks_at(left: Seq<u64>, right: Seq<u64>, at: int) -> bool {
    &&& 0 <= at < left.len()
    &&& at <= right.len()
    &&& left.take(at) == right.take(at)
    &&& at == right.len() || left[at] > right[at]
}

/// Where two versions first differ, the one with the larger number is newer, and so is one that
/// goes on where the other ends. No other version is newer.
pub proof fn law_the_first_difference_decides(left: Seq<u64>, right: Seq<u64>)
    ensures
        newer(left, right) <==> outranks(left, right),
    decreases left.len(),
{
    if newer(left, right) {
        if right.len() == 0 || left[0] != right[0] {
            assert(left.take(0) =~= right.take(0));
            assert(outranks_at(left, right, 0));
        } else {
            law_the_first_difference_decides(left.drop_first(), right.drop_first());
            let at = choose|at: int| #[trigger]
                outranks_at(left.drop_first(), right.drop_first(), at);
            assert(left.take(at + 1) =~= right.take(at + 1)) by {
                assert forall|i: int| 0 <= i < at + 1 implies #[trigger] left[i] == right[i] by {
                    if i > 0 {
                        assert(left.drop_first().take(at)[i - 1] == right.drop_first().take(at)[i - 1]);
                    }
                }
            }
            assert(outranks_at(left, right, at + 1));
        }
    }
    if outranks(left, right) {
        let at = choose|at: int| #[trigger] outranks_at(left, right, at);
        if at > 0 {
            assert(left[0] == left.take(at)[0] && right[0] == right.take(at)[0]);
            assert(left.drop_first().take(at - 1) =~= right.drop_first().take(at - 1)) by {
                assert forall|i: int| 0 <= i < at - 1 implies #[trigger] left.drop_first()[i]
                    == right.drop_first()[i] by {
                    assert(left.take(at)[i + 1] == right.take(at)[i + 1]);
                }
            }
            assert(outranks_at(left.drop_first(), right.drop_first(), at - 1));
            law_the_first_difference_decides(left.drop_first(), right.drop_first());
        }
    }
}

/// A version that goes on where another ends is newer than it.
pub proof fn law_a_longer_version_is_newer(version: Seq<u64>, more: Seq<u64>)
    requires
        more.len() > 0,
    ensures
        newer(version + more, version),
        !newer(version, version + more),
{
    let longer = version + more;
    assert(longer.take(version.len() as int) =~= version.take(version.len() as int));
    assert(outranks_at(longer, version, version.len() as int));
    law_the_first_difference_decides(longer, version);
    law_versions_are_ordered(longer, version);
}

/// The number at the start of a piece is read, whatever follows it; one that does not fit reads
/// as zero.
pub proof fn law_the_number_of_a_piece_is_read(number: nat, rest: Seq<char>)
    requires
        rest.len() == 0 || !(48 <= (rest[0] as u32) < 58),
    ensures
        number <= 0xffff_ffff_ffff_ffff ==> piece_number(text::decimal(number) + rest) == number,
        number > 0xffff_ffff_ffff_ffff ==> piece_number(text::decimal(number) + rest) == 0,
{
    let digits = text::decimal(number);
    text::lemma_decimal(number);
    lemma_leading_digits(digits, rest);
    assert(text::is_digit(digits[0]));
}

/// The digits that a text begins with end where something else begins.
proof fn lemma_leading_digits(digits: Seq<char>, rest: Seq<char>)
    requires
        text::all_digits(digits),
        rest.len() == 0 || !text::is_digit(rest[0]),
    ensures
        leading_digits(digits + rest) == digits,
    decreases digits.len(),
{
    let whole = digits + rest;
    if digits.len() == 0 {
        assert(whole =~= rest);
        assert(leading_digits(whole) =~= digits);
    } else {
        let shorter = digits.drop_first();
        assert(text::is_digit(digits[0]));
        assert forall|i: int| 0 <= i < shorter.len() implies text::is_digit(#[trigger] shorter[i]) by {
            assert(shorter[i] == digits[i + 1]);
        }
        lemma_leading_digits(shorter, rest);
        assert(whole.drop_first() =~= shorter + rest);
        assert(seq![digits[0]] + shorter =~= digits);
    }
}

/// The decimal digits of numbers.
pub open spec fn decimals(numbers: Seq<u64>) -> Seq<Seq<char>> {
    numbers.map_values(|number: u64| text::decimal(number as nat))
}

/// The numbers of a version are those that are written in it with dots between them.
pub proof fn law_the_numbers_of_a_version_are_read(numbers: Seq<u64>)
    requires
        numbers.len() > 0,
        numbers.last() != 0,
    ensures
        version_numbers(text::joined(decimals(numbers), "."@)) == numbers,
{
    let value = text::joined(decimals(numbers), "."@);
    lemma_dotted(numbers);
    let first = value[0];
    assert(text::trimmed_start(value, Class::White) == value);
    lemma_white_end(value);
    assert(!Class::OneOf("vV").has(first)) by {
        reveal_strlit("vV");
    }
    assert(text::trimmed_start(value, Class::OneOf("vV")) == value);
    let read = decimals(numbers).map_values(|piece: Seq<char>| piece_number(piece));
    assert forall|i: int| 0 <= i < numbers.len() implies read[i] == numbers[i] by {
        law_the_number_of_a_piece_is_read(numbers[i] as nat, Seq::empty());
        assert(text::decimal(numbers[i] as nat) + Seq::<char>::empty() =~= text::decimal(
            numbers[i] as nat,
        ));
    }
    assert(read =~= numbers);
}

/// Numbers with dots between them are cut at the dots.
proof fn lemma_dotted(numbers: Seq<u64>)
    requires
        numbers.len() > 0,
    ensures
        ({
            let value = text::joined(decimals(numbers), "."@);
            &&& text::split_on(value, Class::OneOf(".-+")) == decimals(numbers)
            &&& value.len() > 0
            &&& text::is_digit(value[0])
        }),
    decreases numbers.len(),
{
    let parts = decimals(numbers);
    let value = text::joined(parts, "."@);
    let class = Class::OneOf(".-+");
    let last = parts.last();
    reveal_strlit(".");
    reveal_strlit(".-+");
    assert("."@ =~= seq!['.']);
    assert(".-+"@[0] == '.');
    assert(class.has('.'));
    text::lemma_decimal(numbers.last() as nat);
    assert(last == text::decimal(numbers.last() as nat));
    assert forall|i: int| 0 <= i < last.len() implies !class.has(#[trigger] last[i]) by {
        assert(text::is_digit(last[i]));
    }
    if numbers.len() == 1 {
        text::law_a_text_is_cut_at_the_class(Seq::empty(), '.', last, class);
        assert(value == last);
        assert(parts =~= seq![last]);
        assert(text::is_digit(last[0]));
    } else {
        let before = numbers.drop_last();
        lemma_dotted(before);
        assert(parts.drop_last() =~= decimals(before));
        let start = text::joined(decimals(before), "."@);
        text::law_a_text_is_cut_at_the_class(start, '.', last, class);
        assert(value == start + "."@ + last);
        assert(decimals(before).push(last) =~= parts);
        assert(value[0] == start[0]);
    }
}

/// Dots, hyphens and plus signs separate the numbers of a version alike.
pub proof fn law_separators_are_alike(start: Seq<char>, one: char, other: char, end: Seq<char>)
    requires
        one == '.' || one == '-' || one == '+',
        other == '.' || other == '-' || other == '+',
    ensures
        version_numbers(start + seq![one] + end) == version_numbers(start + seq![other] + end),
{
    lemma_with_separator(start, one, end);
    lemma_with_separator(start, other, end);
    let rest = text::trimmed_start(text::trimmed_start(start, Class::White), Class::OneOf("vV"));
    lemma_pieces_alike(rest, one, other, end);
}

/// What stands before a separator is all that is trimmed at the start of a version.
proof fn lemma_with_separator(start: Seq<char>, separator: char, end: Seq<char>)
    requires
        separator == '.' || separator == '-' || separator == '+',
    ensures
        version_numbers(start + seq![separator] + end) == bare_numbers(
            text::trimmed_start(text::trimmed_start(start, Class::White), Class::OneOf("vV")) + seq![
                separator,
            ] + end,
        ),
{
    let tail = seq![separator] + end;
    let prefix = Class::OneOf("vV");
    let rest = text::trimmed_start(start, Class::White);
    assert(!prefix.has(separator)) by {
        reveal_strlit("vV");
    }
    text::lemma_trimmed_start_of_longer(start, tail, Class::White);
    text::lemma_trimmed_start_of_longer(rest, tail, prefix);
    lemma_white_end(rest + tail);
    let body = text::trimmed_start(rest, prefix);
    assert(start + seq![separator] + end =~= start + tail);
    assert(body + seq![separator] + end =~= body + tail);
}

/// The pieces around a separator do not depend on which it is.
proof fn lemma_pieces_alike(body: Seq<char>, one: char, other: char, end: Seq<char>)
    requires
        one == '.' || one == '-' || one == '+',
        other == '.' || other == '-' || other == '+',
    ensures
        text::split_on(body + seq![one] + end, Class::OneOf(".-+")) == text::split_on(
            body + seq![other] + end,
            Class::OneOf(".-+"),
        ),
    decreases end.len(),
{
    let class = Class::OneOf(".-+");
    let left = body + seq![one] + end;
    let right = body + seq![other] + end;
    reveal_strlit(".-+");
    assert(".-+"@[0] == '.' && ".-+"@[1] == '-' && ".-+"@[2] == '+');
    assert(class.has(one) && class.has(other));
    if end.len() == 0 {
        assert(left.drop_last() =~= body && right.drop_last() =~= body);
    } else {
        lemma_pieces_alike(body, one, other, end.drop_last());
        assert(left.drop_last() =~= body + seq![one] + end.drop_last());
        assert(right.drop_last() =~= body + seq![other] + end.drop_last());
    }
}

/// A number behind a separator is the last of the version, whatever word follows it.
pub proof fn law_the_last_number_is_read(start: Seq<char>, separator: char, number: u64, word: Seq<char>)
    requires
        separator == '.' || separator == '-' || separator == '+',
        number > 0,
        word.len() == 0 || !(48 <= (word[0] as u32) < 58),
        forall|i: int| 0 <= i < word.len() ==> !".-+"@.contains(#[trigger] word[i]),
    ensures
        version_numbers(start + seq![separator] + (text::decimal(number as nat) + word)).len() > 0,
        version_numbers(start + seq![separator] + (text::decimal(number as nat) + word)).last()
            == number,
        without_trailing_zeros(
            version_numbers(
                start + seq![separator] + (text::decimal(number as nat) + word),
            ).drop_last(),
        ) == version_numbers(start),
{
    let class = Class::OneOf(".-+");
    let part = text::decimal(number as nat) + word;
    let body = text::trimmed_start(text::trimmed_start(start, Class::White), Class::OneOf("vV"));
    lemma_with_separator(start, separator, part);
    lemma_white_end(text::trimmed_start(start, Class::White));
    text::lemma_decimal(number as nat);
    reveal_strlit(".-+");
    assert(".-+"@[0] == '.' && ".-+"@[1] == '-' && ".-+"@[2] == '+');
    assert forall|i: int| 0 <= i < part.len() implies !class.has(#[trigger] part[i]) by {
        if i < text::decimal(number as nat).len() {
            assert(text::is_digit(part[i]));
        } else {
            assert(part[i] == word[i - text::decimal(number as nat).len()]);
        }
    }
    text::law_a_text_is_cut_at_the_class(body, separator, part, class);
    law_the_number_of_a_piece_is_read(number as nat, word);
    let before = text::split_on(body, class).map_values(|piece: Seq<char>| piece_number(piece));
    let all = text::split_on(body, class).push(part).map_values(
        |piece: Seq<char>| piece_number(piece),
    );
    assert(all =~= before.push(number));
    assert(all.drop_last() =~= before);
}

/// A link is opened exactly where it begins with one of the two schemes of the web, by the
/// program of the platform, with the link as its only argument.
pub proof fn law_only_web_links_are_opened(url: Seq<char>, rest: Seq<char>, platform: Platform)
    ensures
        is_web_link("https://"@ + rest),
        is_web_link("http://"@ + rest),
        is_web_link(url) ==> exists|tail: Seq<char>|
            url == "https://"@ + tail || url == #[trigger] ("http://"@ + tail),
        link_opener(url, platform).args == seq![url],
        link_opener(url, platform).env.len() == 0,
        link_opener(url, platform).program == (match platform {
            Platform::Windows => "explorer.exe"@,
            Platform::MacOs => "open"@,
            Platform::Unix => "xdg-open"@,
        }),
{
    let secure = "https://"@;
    let plain = "http://"@;
    assert((secure + rest).subrange(0, secure.len() as int) =~= secure);
    assert((plain + rest).subrange(0, plain.len() as int) =~= plain);
    if is_web_link(url) {
        if secure.is_prefix_of(url) {
            assert(url =~= secure + url.skip(secure.len() as int));
            let tail = url.skip(secure.len() as int);
            let unused = plain + tail;
            assert(url == secure + tail);
        } else {
            assert(url =~= plain + url.skip(plain.len() as int));
        }
    }
    assert(link_opener(url, platform).args =~= seq![url]);
}

/// A clock is read as it stands, and one that is set before 1970 reads zero.
pub proof fn law_how_the_clock_is_read(seconds: u64)
    ensures
        clock_seconds(Some(seconds)) == seconds,
        clock_seconds(None) == 0,
{
}

} // verus!
