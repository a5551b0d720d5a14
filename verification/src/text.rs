//! Searching, slicing and trimming of text, stated over its UTF-8 bytes or over
//! its characters.

use vstd::prelude::*;
use vstd::string::*;
use vstd::utf8::*;

verus! {

/// `pattern` stands in `bytes` at `at`.
pub open spec fn occurs_at(bytes: Seq<u8>, pattern: Seq<u8>, at: int) -> bool {
    0 <= at && at + pattern.len() <= bytes.len() && bytes.subrange(at, at + pattern.len())
        == pattern
}

/// Where `pattern` first stands in `bytes` at or after `from`.
pub open spec fn first_occurrence(bytes: Seq<u8>, pattern: Seq<u8>, from: int) -> Option<int>
    decreases bytes.len() + 1 - from,
{
    if from < 0 || from + pattern.len() > bytes.len() {
        None
    } else if occurs_at(bytes, pattern, from) {
        Some(from)
    } else {
        first_occurrence(bytes, pattern, from + 1)
    }
}

/// `first_occurrence` is the least position at or after `from` at which the
/// pattern stands, and `None` where there is no such position.
pub proof fn first_occurrence_is_least(bytes: Seq<u8>, pattern: Seq<u8>, from: int)
    requires
        0 <= from,
    ensures
        match first_occurrence(bytes, pattern, from) {
            Some(at) => {
                &&& from <= at
                &&& occurs_at(bytes, pattern, at)
                &&& forall|i: int| from <= i < at ==> !occurs_at(bytes, pattern, i)
            },
            None => forall|i: int| from <= i ==> !occurs_at(bytes, pattern, i),
        },
    decreases bytes.len() + 1 - from,
{
    if from + pattern.len() > bytes.len() {
    } else if occurs_at(bytes, pattern, from) {
    } else {
        first_occurrence_is_least(bytes, pattern, from + 1);
    }
}

/// A pattern that stands at `at` and nowhere between `from` and `at` is found
/// at `at`.
pub proof fn found_where_it_first_stands(bytes: Seq<u8>, pattern: Seq<u8>, from: int, at: int)
    requires
        0 <= from <= at,
        occurs_at(bytes, pattern, at),
        forall|i: int| from <= i < at ==> !occurs_at(bytes, pattern, i),
    ensures
        first_occurrence(bytes, pattern, from) == Some(at),
{
    first_occurrence_is_least(bytes, pattern, from);
}

/// What is put before a text moves what is found in it.
pub proof fn found_behind_a_prefix(prefix: Seq<u8>, bytes: Seq<u8>, pattern: Seq<u8>, from: int)
    requires
        0 <= from,
    ensures
        first_occurrence(prefix + bytes, pattern, prefix.len() + from) == (match first_occurrence(
            bytes,
            pattern,
            from,
        ) {
            Some(at) => Some(prefix.len() + at),
            None => None,
        }),
    decreases bytes.len() + 1 - from,
{
    let whole = prefix + bytes;
    if from + pattern.len() > bytes.len() {
    } else {
        assert(whole.subrange(prefix.len() + from, prefix.len() + from + pattern.len())
            =~= bytes.subrange(from, from + pattern.len()));
        if !occurs_at(bytes, pattern, from) {
            found_behind_a_prefix(prefix, bytes, pattern, from + 1);
        }
    }
}

/// `bytes` ends with `suffix`.
pub open spec fn ends_with(bytes: Seq<u8>, suffix: Seq<u8>) -> bool {
    suffix.len() <= bytes.len() && bytes.subrange(
        bytes.len() - suffix.len(),
        bytes.len() as int,
    ) == suffix
}

/// Whether `pattern` stands in `bytes` at `at`.
pub fn occurs(bytes: &[u8], pattern: &[u8], at: usize) -> (found: bool)
    ensures
        found == occurs_at(bytes@, pattern@, at as int),
{
    if at > bytes.len() || bytes.len() - at < pattern.len() {
        return false;
    }
    let end: usize = at + pattern.len();
    let mut i: usize = 0;
    while i < pattern.len()
        invariant
            i <= pattern@.len(),
            end == at + pattern@.len(),
            end <= bytes@.len(),
            forall|j: int| 0 <= j < i ==> bytes@[at + j] == #[trigger] pattern@[j],
        decreases pattern@.len() - i,
    {
        if bytes[at + i] != pattern[i] {
            assert(bytes@.subrange(at as int, at + pattern@.len())[i as int] != pattern@[i as int]);
            return false;
        }
        i += 1;
    }
    assert(bytes@.subrange(at as int, at + pattern@.len()) =~= pattern@);
    true
}

/// Finds `pattern` in `bytes` at or after `from`.
pub fn find_from(bytes: &[u8], pattern: &[u8], from: usize) -> (at: Option<usize>)
    ensures
        match at {
            Some(i) => first_occurrence(bytes@, pattern@, from as int) == Some(i as int),
            None => first_occurrence(bytes@, pattern@, from as int) is None,
        },
{
    if from > bytes.len() || bytes.len() - from < pattern.len() {
        return None;
    }
    let last: usize = bytes.len() - pattern.len();
    let mut i: usize = from;
    while i <= last
        invariant
            from <= i <= last + 1,
            last == bytes@.len() - pattern@.len(),
            last < usize::MAX || pattern@.len() == 0,
            first_occurrence(bytes@, pattern@, from as int) == first_occurrence(
                bytes@,
                pattern@,
                i as int,
            ),
        decreases last + 1 - i,
    {
        if occurs(bytes, pattern, i) {
            return Some(i);
        }
        if i == last {
            assert(first_occurrence(bytes@, pattern@, last + 1) is None);
            return None;
        }
        i += 1;
    }
    None
}

/// Whether `bytes` ends with `suffix`.
pub fn has_suffix(bytes: &[u8], suffix: &[u8]) -> (found: bool)
    ensures
        found == ends_with(bytes@, suffix@),
{
    suffix.len() <= bytes.len() && occurs(bytes, suffix, bytes.len() - suffix.len())
}

/// A text is determined by its UTF-8 bytes.
pub proof fn utf8_is_injective(a: Seq<char>, b: Seq<char>)
    requires
        encode_utf8(a) == encode_utf8(b),
    ensures
        a == b,
{
    encode_utf8_decode_utf8(a);
    encode_utf8_decode_utf8(b);
}

/// The bytes of two texts joined are their bytes joined.
pub proof fn utf8_of_concatenation(a: Seq<char>, b: Seq<char>)
    ensures
        encode_utf8(a + b) == encode_utf8(a) + encode_utf8(b),
    decreases a.len(),
{
    if a.len() == 0 {
        assert(a + b =~= b);
        assert(encode_utf8(a) + encode_utf8(b) =~= encode_utf8(b));
    } else {
        utf8_of_concatenation(a.drop_first(), b);
        assert((a + b).drop_first() =~= a.drop_first() + b);
        assert(encode_utf8(a + b) =~= encode_utf8(a) + encode_utf8(b));
    }
}

/// Text may be cut before and after an ASCII byte.
pub proof fn ascii_byte_borders(bytes: Seq<u8>, at: int)
    requires
        valid_utf8(bytes),
        0 <= at < bytes.len(),
        bytes[at] < 0x80,
    ensures
        is_char_boundary(bytes, at),
        is_char_boundary(bytes, at + 1),
{
    is_char_boundary_iff_not_is_continuation_byte(bytes, at);
    is_char_boundary_start_end_of_seq(bytes);
    if at + 1 < bytes.len() {
        valid_utf8_split(bytes, at);
        let tail = bytes.subrange(at, bytes.len() as int);
        reveal_with_fuel(is_char_boundary, 2);
        assert(is_char_boundary(tail, 1));
        is_char_boundary_iff_not_is_continuation_byte(tail, 1);
        is_char_boundary_iff_not_is_continuation_byte(bytes, at + 1);
    }
}

/// A border within the part of a text that follows another border is a border
/// of the text.
pub proof fn border_of_a_tail(bytes: Seq<u8>, from: int, at: int)
    requires
        valid_utf8(bytes),
        is_char_boundary(bytes, from),
        0 <= from <= at <= bytes.len(),
        is_char_boundary(bytes, at),
    ensures
        valid_utf8(bytes.subrange(from, bytes.len() as int)),
        is_char_boundary(bytes.subrange(from, bytes.len() as int), at - from),
{
    valid_utf8_split(bytes, from);
    let tail = bytes.subrange(from, bytes.len() as int);
    is_char_boundary_start_end_of_seq(tail);
    if at < bytes.len() {
        is_char_boundary_iff_not_is_continuation_byte(bytes, at);
        is_char_boundary_iff_not_is_continuation_byte(tail, at - from);
    }
}

/// The part of `text` from byte `from` to byte `to`, both of them borders
/// between characters.
pub fn cut(text: &str, from: usize, to: usize) -> (part: String)
    requires
        from <= to <= encode_utf8(text@).len(),
        is_char_boundary(encode_utf8(text@), from as int),
        is_char_boundary(encode_utf8(text@), to as int),
    ensures
        encode_utf8(part@) == encode_utf8(text@).subrange(from as int, to as int),
{
    proof {
        encode_utf8_valid_utf8(text@);
        border_of_a_tail(encode_utf8(text@), from as int, to as int);
    }
    let tail = text.split_at(from).1;
    let part = tail.split_at(to - from).0;
    assert(encode_utf8(text@).subrange(
        from as int,
        encode_utf8(text@).len() as int,
    ).subrange(0, to - from) =~= encode_utf8(text@).subrange(from as int, to as int));
    part.to_owned()
}

/// Whether two texts are the same.
pub fn same_text(a: &str, b: &str) -> (same: bool)
    ensures
        same == (a@ == b@),
{
    let left = a.as_bytes();
    let right = b.as_bytes();
    let same = left.len() == right.len() && occurs(left, right, 0);
    proof {
        if same {
            assert(left@.subrange(0, right@.len() as int) =~= left@);
            utf8_is_injective(a@, b@);
        } else if a@ == b@ {
            assert(left@.subrange(0, right@.len() as int) =~= right@);
        }
    }
    same
}

/// The characters of a text.
pub fn characters(text: &str) -> (chars: Vec<char>)
    ensures
        chars@ == text@,
{
    let mut chars: Vec<char> = Vec::new();
    for c in it: text.chars()
        invariant
            it.seq() == text@,
            chars@ == text@.take(it.index() as int),
    {
        chars.push(c);
    }
    assert(text@.take(text@.len() as int) =~= text@);
    chars
}

/// The characters with the Unicode property `White_Space`.
pub open spec fn is_white_space(c: char) -> bool {
    ||| '\u{9}' <= c <= '\u{d}'
    ||| c == ' '
    ||| c == '\u{85}'
    ||| c == '\u{a0}'
    ||| c == '\u{1680}'
    ||| '\u{2000}' <= c <= '\u{200a}'
    ||| c == '\u{2028}'
    ||| c == '\u{2029}'
    ||| c == '\u{202f}'
    ||| c == '\u{205f}'
    ||| c == '\u{3000}'
}

/// Whether `c` is white space.
pub fn white_space(c: char) -> (yes: bool)
    ensures
        yes == is_white_space(c),
{
    ('\u{9}' <= c && c <= '\u{d}') || c == ' ' || c == '\u{85}' || c == '\u{a0}' || c == '\u{1680}'
        || ('\u{2000}' <= c && c <= '\u{200a}') || c == '\u{2028}' || c == '\u{2029}' || c
        == '\u{202f}' || c == '\u{205f}' || c == '\u{3000}'
}

/// `text` without the white space before it.
pub open spec fn trimmed_start(text: Seq<char>) -> Seq<char>
    decreases text.len(),
{
    if text.len() > 0 && is_white_space(text[0]) {
        trimmed_start(text.drop_first())
    } else {
        text
    }
}

/// `text` without the white space after it.
pub open spec fn trimmed_end(text: Seq<char>) -> Seq<char>
    decreases text.len(),
{
    if text.len() > 0 && is_white_space(text.last()) {
        trimmed_end(text.drop_last())
    } else {
        text
    }
}

/// `text` without the white space around it.
pub open spec fn trimmed(text: Seq<char>) -> Seq<char> {
    trimmed_end(trimmed_start(text))
}

/// `text` without the run of `c` at its start.
pub open spec fn without_leading(text: Seq<char>, c: char) -> Seq<char>
    decreases text.len(),
{
    if text.len() > 0 && text[0] == c {
        without_leading(text.drop_first(), c)
    } else {
        text
    }
}

/// What follows `prefix` in a text that starts with it.
pub open spec fn behind(text: Seq<char>, prefix: Seq<char>) -> Option<Seq<char>> {
    if prefix.len() <= text.len() && text.take(prefix.len() as int) == prefix {
        Some(text.skip(prefix.len() as int))
    } else {
        None
    }
}

/// Cuts `prefix` off a text that starts with it.
pub fn strip_prefix<'a>(text: &'a str, prefix: &str) -> (rest: Option<&'a str>)
    ensures
        match rest {
            Some(part) => behind(text@, prefix@) == Some(part@),
            None => behind(text@, prefix@) is None,
        },
{
    let length: usize = characters(prefix).len();
    let end: usize = characters(text).len();
    if end < length {
        return None;
    }
    let head = text.substring_char(0, length);
    assert(head@ =~= text@.take(length as int));
    if !same_text(head, prefix) {
        return None;
    }
    let tail = text.substring_char(length, end);
    assert(tail@ =~= text@.skip(length as int));
    Some(tail)
}

/// Cuts the white space around `text` off.
pub fn trim(text: &str) -> (part: &str)
    ensures
        part@ == trimmed(text@),
{
    let chars = characters(text);
    let mut from: usize = 0;
    assert(chars@.skip(0) =~= chars@);
    while from < chars.len() && white_space(chars[from])
        invariant
            from <= chars@.len(),
            trimmed_start(chars@) == trimmed_start(chars@.skip(from as int)),
        decreases chars@.len() - from,
    {
        assert(chars@.skip(from as int).drop_first() =~= chars@.skip(from + 1));
        from += 1;
    }
    let mut to: usize = chars.len();
    assert(chars@.subrange(from as int, to as int) =~= chars@.skip(from as int));
    while from < to && white_space(chars[to - 1])
        invariant
            from <= to <= chars@.len(),
            trimmed(chars@) == trimmed_end(chars@.subrange(from as int, to as int)),
        decreases to,
    {
        assert(chars@.subrange(from as int, to as int).drop_last() =~= chars@.subrange(
            from as int,
            to - 1,
        ));
        to -= 1;
    }
    text.substring_char(from, to)
}

/// Cuts the run of `c` at the start of `text` off.
pub fn cut_leading(text: &str, c: char) -> (part: &str)
    ensures
        part@ == without_leading(text@, c),
{
    let chars = characters(text);
    let mut from: usize = 0;
    assert(chars@.skip(0) =~= chars@);
    while from < chars.len() && chars[from] == c
        invariant
            from <= chars@.len(),
            without_leading(chars@, c) == without_leading(chars@.skip(from as int), c),
        decreases chars@.len() - from,
    {
        assert(chars@.skip(from as int).drop_first() =~= chars@.skip(from + 1));
        from += 1;
    }
    let to: usize = chars.len();
    assert(chars@.subrange(from as int, to as int) =~= chars@.skip(from as int));
    text.substring_char(from, to)
}

/// A pattern stands somewhere exactly where its bytes are found there one by
/// one.
pub proof fn occurrences_are_bytewise(bytes: Seq<u8>, pattern: Seq<u8>, at: int)
    ensures
        occurs_at(bytes, pattern, at) <==> {
            &&& 0 <= at
            &&& at + pattern.len() <= bytes.len()
            &&& forall|j: int| 0 <= j < pattern.len() ==> bytes[at + j] == #[trigger] pattern[j]
        },
{
    if 0 <= at && at + pattern.len() <= bytes.len() {
        let part = bytes.subrange(at, at + pattern.len());
        assert(forall|j: int| 0 <= j < pattern.len() ==> part[j] == bytes[at + j]);
        if forall|j: int| 0 <= j < pattern.len() ==> bytes[at + j] == #[trigger] pattern[j] {
            assert(part =~= pattern);
        }
    }
}

/// A text ends with another one exactly where it is some text with the other one
/// behind it.
pub proof fn endings_stand_behind_something(bytes: Seq<u8>, suffix: Seq<u8>)
    ensures
        ends_with(bytes, suffix) <==> exists|head: Seq<u8>| bytes == #[trigger] (head + suffix),
{
    if ends_with(bytes, suffix) {
        let head = bytes.take(bytes.len() - suffix.len());
        assert forall|i: int| head.len() <= i < bytes.len() implies bytes[i] == suffix[i
            - head.len()] by {
            assert(bytes.subrange(head.len() as int, bytes.len() as int)[i - head.len()]
                == bytes[i]);
        }
        assert(bytes =~= head + suffix);
    }
    if exists|head: Seq<u8>| bytes == #[trigger] (head + suffix) {
        let head = choose|head: Seq<u8>| bytes == #[trigger] (head + suffix);
        assert(bytes.subrange(bytes.len() - suffix.len(), bytes.len() as int) =~= suffix);
    }
}

/// White space is what Unicode calls so: twenty-five characters.
pub proof fn white_space_is_unicodes(c: char)
    ensures
        is_white_space(c) <==> set![
            0x9u32,
            0xa,
            0xb,
            0xc,
            0xd,
            0x20,
            0x85,
            0xa0,
            0x1680,
            0x2000,
            0x2001,
            0x2002,
            0x2003,
            0x2004,
            0x2005,
            0x2006,
            0x2007,
            0x2008,
            0x2009,
            0x200a,
            0x2028,
            0x2029,
            0x202f,
            0x205f,
            0x3000,
        ].contains(c as u32),
{
}

proof fn trimmed_start_of(before: Seq<char>, rest: Seq<char>)
    requires
        forall|i: int| 0 <= i < before.len() ==> is_white_space(#[trigger] before[i]),
        rest.len() == 0 || !is_white_space(rest[0]),
    ensures
        trimmed_start(before + rest) == rest,
    decreases before.len(),
{
    let text = before + rest;
    if before.len() == 0 {
        assert(text =~= rest);
    } else {
        assert(is_white_space(before[0]));
        assert(text.drop_first() =~= before.drop_first() + rest);
        trimmed_start_of(before.drop_first(), rest);
    }
}

proof fn trimmed_end_of(rest: Seq<char>, after: Seq<char>)
    requires
        forall|i: int| 0 <= i < after.len() ==> is_white_space(#[trigger] after[i]),
        rest.len() == 0 || !is_white_space(rest.last()),
    ensures
        trimmed_end(rest + after) == rest,
    decreases after.len(),
{
    let text = rest + after;
    if after.len() == 0 {
        assert(text =~= rest);
    } else {
        assert(is_white_space(after[after.len() - 1]));
        assert(text.drop_last() =~= rest + after.drop_last());
        trimmed_end_of(rest, after.drop_last());
    }
}

/// White space around a text that neither starts nor ends with any is taken off,
/// whatever it is and however much there is of it, and the text is left whole.
pub proof fn space_around_a_text_is_taken_off(
    before: Seq<char>,
    text: Seq<char>,
    after: Seq<char>,
)
    requires
        forall|i: int| 0 <= i < before.len() ==> is_white_space(#[trigger] before[i]),
        forall|i: int| 0 <= i < after.len() ==> is_white_space(#[trigger] after[i]),
        text.len() > 0 ==> !is_white_space(text[0]) && !is_white_space(text.last()),
    ensures
        trimmed(before + text + after) == text,
{
    let whole = before + text + after;
    if text.len() == 0 {
        let space = before + after;
        assert(whole =~= space + text);
        trimmed_start_of(space, text);
        trimmed_end_of(text, seq![]);
        assert(text + seq![] =~= text);
    } else {
        assert(whole =~= before + (text + after));
        trimmed_start_of(before, text + after);
        trimmed_end_of(text, after);
    }
}

/// Every text is what is left of it between white space, and that neither starts
/// nor ends with any.
pub proof fn only_space_is_taken_off(text: Seq<char>) -> (around: (Seq<char>, Seq<char>))
    ensures
        text == around.0 + trimmed(text) + around.1,
        forall|i: int| 0 <= i < around.0.len() ==> is_white_space(#[trigger] around.0[i]),
        forall|i: int| 0 <= i < around.1.len() ==> is_white_space(#[trigger] around.1[i]),
        trimmed(text).len() > 0 ==> !is_white_space(trimmed(text)[0]) && !is_white_space(
            trimmed(text).last(),
        ),
    decreases text.len(),
{
    if text.len() > 0 && is_white_space(text[0]) {
        let around = only_space_is_taken_off(text.drop_first());
        let first = seq![text[0]];
        let before = first + around.0;
        let core = trimmed(text);
        assert(core == trimmed(text.drop_first()));
        assert(text =~= first + text.drop_first());
        assert(first + (around.0 + core + around.1) =~= before + core + around.1);
        (before, around.1)
    } else if text.len() > 0 && is_white_space(text.last()) {
        let start = text.drop_last();
        let around = only_space_is_taken_off(start);
        let after = around.1.push(text.last());
        assert(start[0] == text[0]);
        assert(trimmed_start(text) == text);
        assert(trimmed_start(start) == start);
        let core = trimmed(text);
        assert(core == trimmed(start));
        assert(text =~= start.push(text.last()));
        assert((around.0 + core + around.1).push(text.last()) =~= around.0 + core + after);
        (around.0, after)
    } else {
        assert(text =~= seq![] + text + seq![]);
        (seq![], seq![])
    }
}

/// What stands behind a run of `c`, and does not start with `c`, is left whole.
pub proof fn leading_runs_are_taken_off(run: Seq<char>, rest: Seq<char>, c: char)
    requires
        forall|i: int| 0 <= i < run.len() ==> #[trigger] run[i] == c,
        rest.len() > 0 ==> rest[0] != c,
    ensures
        without_leading(run + rest, c) == rest,
    decreases run.len(),
{
    let text = run + rest;
    if run.len() == 0 {
        assert(text =~= rest);
    } else {
        assert(run[0] == c);
        assert(text.drop_first() =~= run.drop_first() + rest);
        leading_runs_are_taken_off(run.drop_first(), rest, c);
    }
}

/// What follows a prefix is the rest of the text, and only a text that starts
/// with the prefix has such a rest.
pub proof fn a_text_is_its_prefix_and_the_rest(text: Seq<char>, prefix: Seq<char>, rest: Seq<char>)
    ensures
        behind(text, prefix) == Some(rest) <==> text == prefix + rest,
        behind(text, prefix) is None <==> forall|tail: Seq<char>|
            text != #[trigger] (prefix + tail),
{
    if behind(text, prefix) is Some {
        let tail = text.skip(prefix.len() as int);
        assert(text =~= prefix + tail);
    }
    assert forall|tail: Seq<char>| text == #[trigger] (prefix + tail) implies behind(text, prefix)
        == Some(tail) by {
        assert(text.take(prefix.len() as int) =~= prefix);
        assert(text.skip(prefix.len() as int) =~= tail);
    }
}

} // verus!
