//! Text as sequences of characters.

use vstd::prelude::*;

verus! {

/// `String::push` appends one character to the end of the string.
pub assume_specification[ String::push ](text: &mut String, c: char)
    ensures
        final(text)@ == old(text)@.push(c),
;

/// The characters of a text.
pub fn chars_of(text: &str) -> (chars: Vec<char>)
    ensures
        chars@ == text@,
{
    let mut chars: Vec<char> = Vec::new();
    for c in iter: text.chars()
        invariant
            iter.seq() == text@,
            chars@ == iter.seq().take(iter.index() as int),
    {
        chars.push(c);
        assert(chars@ =~= iter.seq().take(iter.index() + 1));
    }
    assert(chars@ =~= text@);
    chars
}

/// The text that some characters make.
pub fn text_of(chars: &Vec<char>) -> (text: String)
    ensures
        text@ == chars@,
{
    let mut text: String = String::new();
    let mut at: usize = 0;
    while at < chars.len()
        invariant
            at <= chars.len(),
            text@ == chars@.take(at as int),
        decreases chars.len() - at,
    {
        text.push(chars[at]);
        at = at + 1;
        assert(text@ =~= chars@.take(at as int));
    }
    assert(text@ =~= chars@);
    text
}

/// Whether a character is white space: a blank, a tab, a line break or one
/// of the other characters that Unicode lists as white space.
pub open spec fn is_space(c: char) -> bool {
    let code = c as u32;
    ||| 0x09 <= code <= 0x0d
    ||| code == 0x20
    ||| code == 0x85
    ||| code == 0xa0
    ||| code == 0x1680
    ||| 0x2000 <= code <= 0x200a
    ||| code == 0x2028
    ||| code == 0x2029
    ||| code == 0x202f
    ||| code == 0x205f
    ||| code == 0x3000
}

/// The position of the first character, from `from` on, that is no white
/// space, or the length of the text if only white space follows.
pub open spec fn skip_spaces(text: Seq<char>, from: int) -> int
    decreases text.len() - from,
{
    if 0 <= from < text.len() && is_space(text[from]) {
        skip_spaces(text, from + 1)
    } else {
        from
    }
}

/// The position behind the last character, in front of `to`, that is no
/// white space, or zero if only white space comes before.
pub open spec fn drop_spaces(text: Seq<char>, to: int) -> int
    decreases to,
{
    if 0 < to <= text.len() && is_space(text[to - 1]) {
        drop_spaces(text, to - 1)
    } else {
        to
    }
}

/// A text without the white space at its start and at its end.
pub open spec fn trimmed(text: Seq<char>) -> Seq<char> {
    let from = skip_spaces(text, 0);
    if from >= text.len() {
        Seq::empty()
    } else {
        text.subrange(from, drop_spaces(text, text.len() as int))
    }
}

/// Whether a character is white space.
pub fn is_whitespace(c: char) -> (space: bool)
    ensures
        space == is_space(c),
{
    let code: u32 = c as u32;
    (0x09 <= code && code <= 0x0d) || code == 0x20 || code == 0x85 || code == 0xa0 || code
        == 0x1680 || (0x2000 <= code && code <= 0x200a) || code == 0x2028 || code == 0x2029 || code
        == 0x202f || code == 0x205f || code == 0x3000
}

/// The characters of `chars` from `from` up to, not including, `to`.
pub fn slice_of(chars: &Vec<char>, from: usize, to: usize) -> (part: Vec<char>)
    requires
        from <= to <= chars.len(),
    ensures
        part@ == chars@.subrange(from as int, to as int),
{
    let mut part: Vec<char> = Vec::new();
    let mut at: usize = from;
    while at < to
        invariant
            from <= at <= to <= chars.len(),
            part@ == chars@.subrange(from as int, at as int),
        decreases to - at,
    {
        part.push(chars[at]);
        at = at + 1;
        assert(part@ =~= chars@.subrange(from as int, at as int));
    }
    part
}

/// The text without the white space at its start and at its end.
pub fn trim(chars: &Vec<char>) -> (kept: Vec<char>)
    ensures
        kept@ == trimmed(chars@),
{
    let len: usize = chars.len();
    let mut from: usize = 0;
    while from < len && is_whitespace(chars[from])
        invariant
            from <= len == chars.len(),
            skip_spaces(chars@, 0) == skip_spaces(chars@, from as int),
        decreases len - from,
    {
        from = from + 1;
    }
    if from >= len {
        return Vec::new();
    }
    let mut to: usize = len;
    while to > from + 1 && is_whitespace(chars[to - 1])
        invariant
            from < to <= len == chars.len(),
            !is_space(chars@[from as int]),
            drop_spaces(chars@, len as int) == drop_spaces(chars@, to as int),
        decreases to,
    {
        to = to - 1;
    }
    slice_of(chars, from, to)
}

/// The position of the first line feed at or after `from`, or the length of
/// the text if there is none.
pub open spec fn line_end(text: Seq<char>, from: int) -> int
    decreases text.len() - from,
{
    if 0 <= from < text.len() && text[from] != '\n' {
        line_end(text, from + 1)
    } else {
        from
    }
}

/// The line that starts at `from`, without the line feed that ends it and
/// without a carriage return in front of that line feed.
pub open spec fn line_at(text: Seq<char>, from: int) -> Seq<char> {
    let end = line_end(text, from);
    if from < end < text.len() && text[end - 1] == '\r' {
        text.subrange(from, end - 1)
    } else {
        text.subrange(from, end)
    }
}

/// The lines of a text from `from` on.
pub open spec fn lines_from(text: Seq<char>, from: int) -> Seq<Seq<char>>
    decreases text.len() - from,
    via lines_from_ends
{
    if from < 0 || from >= text.len() {
        Seq::empty()
    } else if line_end(text, from) >= text.len() {
        seq![line_at(text, from)]
    } else {
        seq![line_at(text, from)] + lines_from(text, line_end(text, from) + 1)
    }
}

#[via_fn]
proof fn lines_from_ends(text: Seq<char>, from: int) {
    if 0 <= from < text.len() {
        lemma_line_end_bounds(text, from);
    }
}

/// The lines of a text. A line ends with a line feed, or with a carriage
/// return and a line feed; neither belongs to the line. The last line need
/// not be ended.
pub open spec fn lines_of(text: Seq<char>) -> Seq<Seq<char>> {
    lines_from(text, 0)
}

/// A line ends at or behind its start, and no later than the text.
pub proof fn lemma_line_end_bounds(text: Seq<char>, from: int)
    requires
        0 <= from <= text.len(),
    ensures
        from <= line_end(text, from) <= text.len(),
    decreases text.len() - from,
{
    if from < text.len() && text[from] != '\n' {
        lemma_line_end_bounds(text, from + 1);
    }
}

/// The lines of a text.
pub fn split_lines(chars: &Vec<char>) -> (lines: Vec<Vec<char>>)
    ensures
        lines.len() == lines_of(chars@).len(),
        forall|i: int| 0 <= i < lines.len() ==> (#[trigger] lines[i])@ == lines_of(chars@)[i],
{
    let len: usize = chars.len();
    let mut lines: Vec<Vec<char>> = Vec::new();
    let ghost mut done: Seq<Seq<char>> = Seq::empty();
    let mut from: usize = 0;
    while from < len
        invariant
            from <= len == chars.len(),
            lines.len() == done.len(),
            forall|i: int| 0 <= i < lines.len() ==> (#[trigger] lines[i])@ == done[i],
            lines_of(chars@) == done + lines_from(chars@, from as int),
        decreases len - from,
    {
        let mut end: usize = from;
        while end < len && chars[end] != '\n'
            invariant
                from <= end <= len == chars.len(),
                line_end(chars@, from as int) == line_end(chars@, end as int),
            decreases len - end,
        {
            end = end + 1;
        }
        let stop: usize = if from < end && end < len && chars[end - 1] == '\r' {
            end - 1
        } else {
            end
        };
        let line: Vec<char> = slice_of(chars, from, stop);
        proof {
            let rest = lines_from(chars@, if end < len {
                end + 1
            } else {
                len as int
            });
            assert(lines_from(chars@, from as int) =~= seq![line@] + rest);
            assert(done + (seq![line@] + rest) =~= done.push(line@) + rest);
            done = done.push(line@);
        }
        lines.push(line);
        if end < len {
            from = end + 1;
        } else {
            from = len;
        }
    }
    proof {
        assert(done + Seq::<Seq<char>>::empty() =~= done);
    }
    lines
}

/// Whether a character is one of the digits `0` to `9`.
pub open spec fn is_digit(c: char) -> bool {
    '0' <= c <= '9'
}

/// The number that a digit stands for.
pub open spec fn digit_value(c: char) -> int {
    c as u32 - '0' as u32
}

/// The number that a run of digits stands for, read as a decimal numeral.
pub open spec fn digits_value(digits: Seq<char>) -> int
    decreases digits.len(),
{
    if digits.len() == 0 {
        0
    } else {
        digits_value(digits.drop_last()) * 10 + digit_value(digits.last())
    }
}

/// Whether a text holds digits only.
pub open spec fn all_digits(text: Seq<char>) -> bool {
    forall|i: int| 0 <= i < text.len() ==> is_digit(#[trigger] text[i])
}

/// The digits of a numeral: the text without a plus sign in front.
pub open spec fn unsigned_digits(text: Seq<char>) -> Seq<char> {
    if text.len() > 0 && text[0] == '+' {
        text.drop_first()
    } else {
        text
    }
}

/// The number that a text states, if it is a decimal numeral of a number up
/// to `max`: one digit or more, with or without a plus sign in front, and
/// nothing else. Zeros in front are allowed.
pub open spec fn parse_decimal(text: Seq<char>, max: int) -> Option<int> {
    let digits = unsigned_digits(text);
    if digits.len() > 0 && all_digits(digits) && digits_value(digits) <= max {
        Some(digits_value(digits))
    } else {
        None
    }
}

/// A numeral stands for no less than any of its beginnings.
pub proof fn lemma_digits_value_grows(digits: Seq<char>, count: int)
    requires
        all_digits(digits),
        0 <= count <= digits.len(),
    ensures
        0 <= digits_value(digits.take(count)) <= digits_value(digits),
    decreases digits.len() - count,
{
    if count == digits.len() {
        assert(digits.take(count) =~= digits);
        lemma_digits_value_positive(digits);
    } else {
        lemma_digits_value_grows(digits, count + 1);
        assert(digits.take(count + 1).drop_last() =~= digits.take(count));
        assert(is_digit(digits[count]));
        lemma_digits_value_positive(digits.take(count));
    }
}

proof fn lemma_digits_value_positive(digits: Seq<char>)
    requires
        all_digits(digits),
    ensures
        0 <= digits_value(digits),
    decreases digits.len(),
{
    if digits.len() > 0 {
        assert(is_digit(digits.last()));
        lemma_digits_value_positive(digits.drop_last());
    }
}

/// Reads a decimal numeral of a number up to `max`.
pub fn parse_number(chars: &Vec<char>, max: u64) -> (number: Option<u64>)
    ensures
        number is Some <==> parse_decimal(chars@, max as int) is Some,
        number matches Some(value) ==> parse_decimal(chars@, max as int) == Some(value as int),
{
    let len: usize = chars.len();
    let start: usize = if len > 0 && chars[0] == '+' {
        1
    } else {
        0
    };
    let ghost digits = unsigned_digits(chars@);
    assert(digits =~= chars@.skip(start as int));
    if start >= len {
        return None;
    }
    let mut value: u64 = 0;
    let mut at: usize = start;
    while at < len
        invariant
            start <= at <= len == chars.len(),
            digits == chars@.skip(start as int),
            digits == unsigned_digits(chars@),
            all_digits(digits.take(at - start)),
            value == digits_value(digits.take(at - start)),
            value <= max,
        decreases len - at,
    {
        let c: char = chars[at];
        let ghost next = digits.take(at - start + 1);
        proof {
            assert(next.drop_last() =~= digits.take(at - start));
            assert(next.last() == c);
        }
        if c < '0' || c > '9' {
            assert(!is_digit(digits[at - start]));
            return None;
        }
        let digit: u64 = (c as u32 - '0' as u32) as u64;
        proof {
            assert(all_digits(next)) by {
                assert forall|i: int| 0 <= i < next.len() implies is_digit(#[trigger] next[i]) by {
                    if i < at - start {
                        assert(next[i] == digits.take(at - start)[i]);
                    }
                }
            }
            if value > (max - digit) / 10 {
                assert(digits_value(next) > max) by (nonlinear_arith)
                    requires
                        digits_value(next) == value * 10 + digit,
                        value > (max - digit) / 10,
                        0 <= digit <= 9,
                        max >= 0,
                        value <= max,
                ;
                if all_digits(digits) {
                    lemma_digits_value_grows(digits, at - start + 1);
                }
            }
        }
        if digit > max || value > (max - digit) / 10 {
            proof {
                if digit > max {
                    assert(digits_value(next) > max) by (nonlinear_arith)
                        requires
                            digits_value(next) == value * 10 + digit,
                            digit > max,
                            value >= 0,
                    ;
                    if all_digits(digits) {
                        lemma_digits_value_grows(digits, at - start + 1);
                    }
                }
            }
            return None;
        }
        assert(value * 10 + digit <= max) by (nonlinear_arith)
            requires
                value <= (max - digit) / 10,
                digit <= max,
        ;
        value = value * 10 + digit;
        at = at + 1;
    }
    proof {
        assert(digits.take(len - start) =~= digits);
    }
    Some(value)
}

/// Whether `pattern` stands in `text` at the position `at`.
pub open spec fn occurs_at(text: Seq<char>, pattern: Seq<char>, at: int) -> bool {
    &&& 0 <= at
    &&& at + pattern.len() <= text.len()
    &&& text.subrange(at, at + pattern.len()) == pattern
}

/// The first position at or after `from` at which `pattern` stands in
/// `text`, if it stands there anywhere.
pub open spec fn find_from(text: Seq<char>, pattern: Seq<char>, from: int) -> Option<int>
    decreases text.len() - from,
{
    if from < 0 || from + pattern.len() > text.len() {
        None
    } else if occurs_at(text, pattern, from) {
        Some(from)
    } else if from < text.len() {
        find_from(text, pattern, from + 1)
    } else {
        None
    }
}

/// Whether `pattern` stands anywhere in `text`.
pub open spec fn contains_text(text: Seq<char>, pattern: Seq<char>) -> bool {
    find_from(text, pattern, 0) is Some
}

/// Whether `text` begins with `pattern`.
pub open spec fn begins_with(text: Seq<char>, pattern: Seq<char>) -> bool {
    occurs_at(text, pattern, 0)
}

/// What stands in front of and what behind the first `pattern` in `text`,
/// if there is one.
pub open spec fn split_at_first(text: Seq<char>, pattern: Seq<char>) -> Option<
    (Seq<char>, Seq<char>),
> {
    match find_from(text, pattern, 0) {
        Some(at) => Some((text.take(at), text.skip(at + pattern.len()))),
        None => None,
    }
}

/// Some texts in a row, with `between` between each two of them.
pub open spec fn joined(parts: Seq<Seq<char>>, between: Seq<char>) -> Seq<char>
    decreases parts.len(),
{
    if parts.len() == 0 {
        Seq::empty()
    } else if parts.len() == 1 {
        parts[0]
    } else {
        joined(parts.drop_last(), between) + between + parts.last()
    }
}

/// What `find_from` finds is a place where the pattern stands, and the
/// first such place from `from` on.
pub proof fn lemma_find_is_first(text: Seq<char>, pattern: Seq<char>, from: int)
    requires
        0 <= from,
    ensures
        find_from(text, pattern, from) matches Some(at) ==> from <= at && occurs_at(
            text,
            pattern,
            at,
        ) && forall|i: int| from <= i < at ==> !occurs_at(text, pattern, i),
        find_from(text, pattern, from) is None ==> forall|i: int|
            from <= i ==> !occurs_at(text, pattern, i),
    decreases text.len() - from,
{
    if from + pattern.len() <= text.len() && !occurs_at(text, pattern, from) && from
        < text.len() {
        lemma_find_is_first(text, pattern, from + 1);
    }
}

/// Whether `pattern` stands in `chars` at the position `at`.
pub fn matches_at(chars: &Vec<char>, pattern: &Vec<char>, at: usize) -> (found: bool)
    ensures
        found == occurs_at(chars@, pattern@, at as int),
{
    let len: usize = chars.len();
    let size: usize = pattern.len();
    if size > len || at > len - size {
        return false;
    }
    let mut same: usize = 0;
    while same < size
        invariant
            size == pattern.len(),
            len == chars.len(),
            at + size <= len,
            same <= size,
            chars@.subrange(at as int, at + same) == pattern@.take(same as int),
        decreases size - same,
    {
        if chars[at + same] != pattern[same] {
            proof {
                let part = chars@.subrange(at as int, at + size);
                assert(part[same as int] != pattern@[same as int]);
            }
            return false;
        }
        same = same + 1;
        assert(chars@.subrange(at as int, at + same) =~= pattern@.take(same as int));
    }
    assert(pattern@.take(size as int) =~= pattern@);
    true
}

/// The first position at or after `from` at which `pattern` stands in
/// `chars`.
pub fn find_after(chars: &Vec<char>, pattern: &Vec<char>, from: usize) -> (place: Option<usize>)
    ensures
        place is Some <==> find_from(chars@, pattern@, from as int) is Some,
        place matches Some(at) ==> find_from(chars@, pattern@, from as int) == Some(at as int),
{
    let len: usize = chars.len();
    let size: usize = pattern.len();
    if size > len || from > len - size {
        return None;
    }
    let last: usize = len - size;
    let mut at: usize = from;
    loop
        invariant
            len == chars.len(),
            size == pattern.len(),
            size <= len,
            last == len - size,
            from <= at <= last,
            find_from(chars@, pattern@, from as int) == find_from(chars@, pattern@, at as int),
        decreases last - at,
    {
        if matches_at(chars, pattern, at) {
            return Some(at);
        }
        if at >= last {
            assert(find_from(chars@, pattern@, at + 1) is None);
            return None;
        }
        at = at + 1;
    }
}

/// The first position at which `pattern` stands in `chars`.
pub fn find(chars: &Vec<char>, pattern: &Vec<char>) -> (place: Option<usize>)
    ensures
        place is Some <==> find_from(chars@, pattern@, 0) is Some,
        place matches Some(at) ==> find_from(chars@, pattern@, 0) == Some(at as int),
{
    find_after(chars, pattern, 0)
}

/// Whether `pattern` stands anywhere in `chars`.
pub fn contains(chars: &Vec<char>, pattern: &Vec<char>) -> (found: bool)
    ensures
        found == contains_text(chars@, pattern@),
{
    find(chars, pattern).is_some()
}

/// Whether `chars` begins with `pattern`.
pub fn starts_with(chars: &Vec<char>, pattern: &Vec<char>) -> (found: bool)
    ensures
        found == begins_with(chars@, pattern@),
{
    matches_at(chars, pattern, 0)
}

/// What stands in front of and what behind the first `pattern` in `chars`.
pub fn split_once(chars: &Vec<char>, pattern: &Vec<char>) -> (halves: Option<
    (Vec<char>, Vec<char>),
>)
    ensures
        halves is Some <==> split_at_first(chars@, pattern@) is Some,
        halves matches Some((front, back)) ==> split_at_first(chars@, pattern@) == Some(
            (front@, back@),
        ),
{
    match find(chars, pattern) {
        Some(at) => {
            proof {
                lemma_find_is_first(chars@, pattern@, 0);
                assert(occurs_at(chars@, pattern@, at as int));
            }
            let len: usize = chars.len();
            let size: usize = pattern.len();
            let front: Vec<char> = slice_of(chars, 0, at);
            let back: Vec<char> = slice_of(chars, at + size, len);
            Some((front, back))
        },
        None => None,
    }
}

/// The views of some texts.
pub open spec fn views_of(parts: Seq<Vec<char>>) -> Seq<Seq<char>> {
    parts.map_values(|part: Vec<char>| part@)
}

/// Puts some texts in a row, with `between` between each two of them.
pub fn join(parts: &Vec<Vec<char>>, between: &Vec<char>) -> (whole: Vec<char>)
    ensures
        whole@ == joined(views_of(parts@), between@),
{
    let ghost all = views_of(parts@);
    let mut whole: Vec<char> = Vec::new();
    let mut at: usize = 0;
    while at < parts.len()
        invariant
            at <= parts.len(),
            all == views_of(parts@),
            whole@ == joined(all.take(at as int), between@),
        decreases parts.len() - at,
    {
        let ghost before = whole@;
        if at > 0 {
            append_all(&mut whole, between);
        }
        append_all(&mut whole, &parts[at]);
        proof {
            assert(all.take(at + 1).drop_last() =~= all.take(at as int));
            assert(all.take(at + 1).last() == parts@[at as int]@);
            if at == 0 {
                assert(all.take(1)[0] == parts@[0]@);
                assert(whole@ =~= parts@[0]@);
            }
        }
        at = at + 1;
    }
    assert(all.take(at as int) =~= all);
    whole
}

/// Appends the characters of `more` to `chars`.
pub fn append_all(chars: &mut Vec<char>, more: &Vec<char>)
    ensures
        final(chars)@ == old(chars)@ + more@,
{
    let mut at: usize = 0;
    while at < more.len()
        invariant
            at <= more.len(),
            chars@ == old(chars)@ + more@.take(at as int),
        decreases more.len() - at,
    {
        chars.push(more[at]);
        at = at + 1;
        assert(chars@ =~= old(chars)@ + more@.take(at as int));
    }
    assert(more@.take(at as int) =~= more@);
}

/// Whether two runs of characters are the same.
pub fn same_chars(first: &Vec<char>, second: &Vec<char>) -> (same: bool)
    ensures
        same == (first@ == second@),
{
    if first.len() != second.len() {
        return false;
    }
    let same: bool = matches_at(first, second, 0);
    proof {
        assert(first@.subrange(0, first@.len() as int) =~= first@);
    }
    same
}

/// Whether two texts are the same.
pub fn same_text(left: &str, right: &str) -> (same: bool)
    ensures
        same == (left@ == right@),
{
    let first: Vec<char> = chars_of(left);
    let second: Vec<char> = chars_of(right);
    same_chars(&first, &second)
}

/// The parts of a text from `from` on that stand between the places at
/// which `pattern` stands, taken from left to right.
pub open spec fn parts_from(text: Seq<char>, pattern: Seq<char>, from: int) -> Seq<Seq<char>>
    decreases text.len() - from,
    via parts_from_ends
{
    if from < 0 || from > text.len() || pattern.len() == 0 {
        Seq::empty()
    } else {
        match find_from(text, pattern, from) {
            Some(at) => seq![text.subrange(from, at)] + parts_from(
                text,
                pattern,
                at + pattern.len(),
            ),
            None => seq![text.subrange(from, text.len() as int)],
        }
    }
}

#[via_fn]
proof fn parts_from_ends(text: Seq<char>, pattern: Seq<char>, from: int) {
    if 0 <= from <= text.len() {
        lemma_find_is_first(text, pattern, from);
    }
}

/// The parts of a text that stand between the places at which `pattern`, a
/// text of one character or more, stands in it. A text in which it stands
/// `n` times has `n + 1` parts, some of which may be empty.
pub open spec fn parts_of(text: Seq<char>, pattern: Seq<char>) -> Seq<Seq<char>> {
    parts_from(text, pattern, 0)
}

/// The parts of `chars` between the places at which `pattern` stands.
pub fn split_all(chars: &Vec<char>, pattern: &Vec<char>) -> (parts: Vec<Vec<char>>)
    requires
        pattern.len() > 0,
    ensures
        views_of(parts@) == parts_of(chars@, pattern@),
{
    let len: usize = chars.len();
    let size: usize = pattern.len();
    let mut parts: Vec<Vec<char>> = Vec::new();
    let mut from: usize = 0;
    loop
        invariant
            from <= len == chars.len(),
            0 < size == pattern.len(),
            parts_of(chars@, pattern@) == views_of(parts@) + parts_from(
                chars@,
                pattern@,
                from as int,
            ),
        decreases len - from,
    {
        let ghost before = views_of(parts@);
        match find_after(chars, pattern, from) {
            Some(at) => {
                proof {
                    lemma_find_is_first(chars@, pattern@, from as int);
                    assert(occurs_at(chars@, pattern@, at as int));
                }
                let part: Vec<char> = slice_of(chars, from, at);
                parts.push(part);
                proof {
                    let rest = parts_from(chars@, pattern@, at + size);
                    assert(views_of(parts@) =~= before.push(part@));
                    assert(before + (seq![part@] + rest) =~= before.push(part@) + rest);
                }
                from = at + size;
            },
            None => {
                let part: Vec<char> = slice_of(chars, from, len);
                parts.push(part);
                proof {
                    assert(views_of(parts@) =~= before.push(part@));
                    assert(before + seq![part@] =~= before.push(part@));
                }
                return parts;
            },
        }
    }
}

} // verus!
