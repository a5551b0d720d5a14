//! The markup of the game's log: text in coloured `<font>` elements.

use vstd::prelude::*;
use vstd::string::*;
use vstd::utf8::*;

use crate::text::{
    ascii_byte_borders, cut, find_from, first_occurrence, first_occurrence_is_least,
    found_behind_a_prefix, found_where_it_first_stands, occurs_at, utf8_is_injective,
    utf8_of_concatenation,
};

verus! {

/// A stretch of log text and its colour.
#[derive(Debug, Clone, PartialEq, Eq)]
pub struct LogFragment {
    pub text: String,
    pub color: Option<[u8; 3]>,
}

/// What a fragment holds: the bytes of its text and the bytes of its colour.
pub struct Fragment {
    pub text: Seq<u8>,
    pub color: Option<Seq<u8>>,
}

impl View for LogFragment {
    type V = Fragment;

    open spec fn view(&self) -> Fragment {
        Fragment {
            text: encode_utf8(self.text@),
            color: match self.color {
                Some(rgb) => Some(rgb@),
                None => None,
            },
        }
    }
}

/// What each of `fragments` holds.
pub open spec fn contents(fragments: Seq<LogFragment>) -> Seq<Fragment> {
    fragments.map_values(|fragment: LogFragment| fragment@)
}

/// The value of a hexadecimal digit.
pub open spec fn hex_digit(byte: u8) -> Option<u8> {
    if 0x30 <= byte <= 0x39 {
        Some((byte - 0x30) as u8)
    } else if 0x41 <= byte <= 0x46 {
        Some((byte - 0x41 + 10) as u8)
    } else if 0x61 <= byte <= 0x66 {
        Some((byte - 0x61 + 10) as u8)
    } else {
        None
    }
}

/// The value of two characters read as a hexadecimal number, whose first may be
/// a plus sign.
pub open spec fn hex_pair(high: u8, low: u8) -> Option<u8> {
    match (hex_digit(high), hex_digit(low)) {
        (Some(h), Some(l)) => Some((16 * h + l) as u8),
        (None, Some(l)) if high == 0x2b => Some(l),
        _ => None,
    }
}

/// `bytes` without the number signs at its start.
pub open spec fn without_signs(bytes: Seq<u8>) -> Seq<u8>
    decreases bytes.len(),
{
    if bytes.len() > 0 && bytes[0] == 0x23 {
        without_signs(bytes.drop_first())
    } else {
        bytes
    }
}

/// No character goes on from before `at` to behind it.
pub open spec fn splits_at(bytes: Seq<u8>, at: int) -> bool {
    0 <= at < bytes.len() && !is_continuation_byte(bytes[at])
}

/// A colour can be read from `bytes`, or it can be told that there is none:
/// six bytes must fall into three pairs without a character being torn apart,
/// as far as the pairs are read.
pub open spec fn color_is_readable(bytes: Seq<u8>) -> bool {
    let hex = without_signs(bytes);
    hex.len() == 6 ==> {
        &&& splits_at(hex, 2)
        &&& hex_pair(hex[0], hex[1]) is Some ==> splits_at(hex, 4)
    }
}

/// The colour that `bytes` writes in hexadecimal, with or without number signs
/// before it.
pub open spec fn hex_color(bytes: Seq<u8>) -> Option<Seq<u8>> {
    let hex = without_signs(bytes);
    if hex.len() != 6 {
        None
    } else {
        match (hex_pair(hex[0], hex[1]), hex_pair(hex[2], hex[3]), hex_pair(hex[4], hex[5])) {
            (Some(r), Some(g), Some(b)) => Some(seq![r, g, b]),
            _ => None,
        }
    }
}

fn read_hex_digit(byte: u8) -> (value: Option<u8>)
    ensures
        value == hex_digit(byte),
{
    if 0x30 <= byte && byte <= 0x39 {
        Some(byte - 0x30)
    } else if 0x41 <= byte && byte <= 0x46 {
        Some(byte - 0x41 + 10)
    } else if 0x61 <= byte && byte <= 0x66 {
        Some(byte - 0x61 + 10)
    } else {
        None
    }
}

fn read_hex_pair(high: u8, low: u8) -> (value: Option<u8>)
    ensures
        value == hex_pair(high, low),
{
    match (read_hex_digit(high), read_hex_digit(low)) {
        (Some(h), Some(l)) => Some(16 * h + l),
        (None, Some(l)) => if high == 0x2b {
            Some(l)
        } else {
            None
        },
        _ => None,
    }
}

fn continues(byte: u8) -> (yes: bool)
    ensures
        yes == is_continuation_byte(byte),
{
    0x80 <= byte && byte <= 0xbf
}

/// Reads the colour in the bytes from `from` to `to`. `None` stands for bytes
/// from which no answer can be had.
fn read_color(bytes: &[u8], from: usize, to: usize) -> (color: Option<Option<[u8; 3]>>)
    requires
        from <= to <= bytes@.len(),
    ensures
        ({
            let part = bytes@.subrange(from as int, to as int);
            match color {
                None => !color_is_readable(part),
                Some(None) => color_is_readable(part) && hex_color(part) is None,
                Some(Some(rgb)) => color_is_readable(part) && hex_color(part) == Some(rgb@),
            }
        }),
{
    let ghost part = bytes@.subrange(from as int, to as int);
    let mut at: usize = from;
    while at < to && bytes[at] == 0x23
        invariant
            from <= at <= to <= bytes@.len(),
            without_signs(part) == without_signs(bytes@.subrange(at as int, to as int)),
        decreases to - at,
    {
        assert(bytes@.subrange(at as int, to as int).drop_first() =~= bytes@.subrange(
            at + 1,
            to as int,
        ));
        at += 1;
    }
    let ghost hex = bytes@.subrange(at as int, to as int);
    assert(without_signs(part) == hex);
    if to - at != 6 {
        return Some(None);
    }
    if continues(bytes[at + 2]) {
        return None;
    }
    let red = read_hex_pair(bytes[at], bytes[at + 1]);
    if red.is_none() {
        return Some(None);
    }
    if continues(bytes[at + 4]) {
        return None;
    }
    let green = read_hex_pair(bytes[at + 2], bytes[at + 3]);
    let blue = read_hex_pair(bytes[at + 4], bytes[at + 5]);
    match (red, green, blue) {
        (Some(r), Some(g), Some(b)) => {
            let rgb: [u8; 3] = [r, g, b];
            assert(rgb@ =~= seq![r, g, b]);
            Some(Some(rgb))
        },
        _ => Some(None),
    }
}

/// Parses a hex color string (with or without #) into RGB bytes.
pub fn parse_hex_color(hex: &str) -> (color: Option<[u8; 3]>)
    requires
        color_is_readable(encode_utf8(hex@)),
    ensures
        match color {
            Some(rgb) => hex_color(encode_utf8(hex@)) == Some(rgb@),
            None => hex_color(encode_utf8(hex@)) is None,
        },
{
    let bytes = hex.as_bytes();
    assert(bytes@.subrange(0, bytes@.len() as int) =~= bytes@);
    match read_color(bytes, 0, bytes.len()) {
        Some(color) => color,
        None => None,
    }
}

/// The bytes of `<font`, which opens a coloured stretch.
pub open spec fn font_open() -> Seq<u8> {
    encode_utf8("<font"@)
}

/// The bytes of `</font>`, which closes a coloured stretch.
pub open spec fn font_close() -> Seq<u8> {
    encode_utf8("</font>"@)
}

/// The bytes of `color=`, which stand before a colour.
pub open spec fn color_attribute() -> Seq<u8> {
    encode_utf8("color="@)
}

/// The bytes of `>`, which ends a tag.
pub open spec fn tag_end() -> Seq<u8> {
    encode_utf8(">"@)
}

/// `bytes` without the line breaks at its end.
pub open spec fn without_final_breaks(bytes: Seq<u8>) -> Seq<u8>
    decreases bytes.len(),
{
    if bytes.len() > 0 && bytes.last() == 0x0a {
        without_final_breaks(bytes.drop_last())
    } else {
        bytes
    }
}

/// The text from `from` to `to` as a fragment without a colour, where there is
/// any text.
pub open spec fn plain(bytes: Seq<u8>, from: int, to: int) -> Seq<Fragment> {
    if from < to {
        seq![Fragment { text: bytes.subrange(from, to), color: None }]
    } else {
        seq![]
    }
}

/// `head` put before the fragments that were read behind it.
pub open spec fn then_fragments(head: Seq<Fragment>, rest: Option<Seq<Fragment>>) -> Option<
    Seq<Fragment>,
> {
    match rest {
        Some(tail) => Some(head + tail),
        None => None,
    }
}

/// What stands at a `<font` tag: how the tag at `open` is read.
pub enum FontTag {
    /// The tag has no quoted colour: reading stops here.
    Bare,
    /// The content breaks off where the colour should begin, or the colour
    /// tears a character apart: there is nothing to be read.
    Unreadable,
    /// The colour or the tag has no end: reading goes on behind the `<`.
    Open,
    /// A tag with its colour, and where the text behind it begins.
    Tag { color: Option<Seq<u8>>, body: int },
}

/// Reads the `<font` tag at `open`.
pub open spec fn font_tag(bytes: Seq<u8>, open: int) -> FontTag {
    match first_occurrence(bytes, color_attribute(), open) {
        None => FontTag::Bare,
        Some(attribute) => {
            let quote = attribute + 6;
            if quote >= bytes.len() {
                FontTag::Unreadable
            } else if bytes[quote] != 0x27 && bytes[quote] != 0x22 {
                FontTag::Bare
            } else {
                match first_occurrence(bytes, seq![bytes[quote]], quote + 1) {
                    None => FontTag::Open,
                    Some(end) => {
                        let value = bytes.subrange(quote + 1, end);
                        if !color_is_readable(value) {
                            FontTag::Unreadable
                        } else {
                            match first_occurrence(bytes, tag_end(), open) {
                                None => FontTag::Open,
                                Some(at) => FontTag::Tag { color: hex_color(value), body: at + 1 },
                            }
                        }
                    },
                }
            }
        },
    }
}

/// The bytes of the marks that the markup is made of.
pub proof fn marks()
    ensures
        font_open() == seq![0x3cu8, 0x66, 0x6f, 0x6e, 0x74],
        font_close() == seq![0x3cu8, 0x2f, 0x66, 0x6f, 0x6e, 0x74, 0x3e],
        color_attribute() == seq![0x63u8, 0x6f, 0x6c, 0x6f, 0x72, 0x3d],
        tag_end() == seq![0x3eu8],
{
    reveal_strlit("<font");
    reveal_strlit("</font>");
    reveal_strlit("color=");
    reveal_strlit(">");
    is_ascii_chars_encode_utf8("<font"@);
    is_ascii_chars_encode_utf8("</font>"@);
    is_ascii_chars_encode_utf8("color="@);
    is_ascii_chars_encode_utf8(">"@);
    assert(font_open() =~= seq![0x3cu8, 0x66, 0x6f, 0x6e, 0x74]);
    assert(font_close() =~= seq![0x3cu8, 0x2f, 0x66, 0x6f, 0x6e, 0x74, 0x3e]);
    assert(color_attribute() =~= seq![0x63u8, 0x6f, 0x6c, 0x6f, 0x72, 0x3d]);
    assert(tag_end() =~= seq![0x3eu8]);
}

/// A `<font` tag found behind `from` lies within the content, its text begins
/// behind it, and the end of its element lies behind that.
pub proof fn tags_lie_ahead(bytes: Seq<u8>, from: int)
    requires
        0 <= from <= bytes.len(),
    ensures
        first_occurrence(bytes, font_open(), from) matches Some(open) ==> {
            &&& from <= open < bytes.len()
            &&& bytes[open] == 0x3c
            &&& font_tag(bytes, open) matches FontTag::Tag { color, body } ==> {
                &&& open < body <= bytes.len()
                &&& bytes[body - 1] == 0x3e
                &&& first_occurrence(bytes, font_close(), body) matches Some(close) ==> {
                    &&& body <= close
                    &&& close + 7 <= bytes.len()
                    &&& bytes[close] == 0x3c
                    &&& bytes[close + 6] == 0x3e
                }
            }
        },
{
    marks();
    first_occurrence_is_least(bytes, font_open(), from);
    if let Some(open) = first_occurrence(bytes, font_open(), from) {
        assert(bytes[open] == bytes.subrange(open, open + 5)[0]);
        if let FontTag::Tag { color, body } = font_tag(bytes, open) {
            first_occurrence_is_least(bytes, tag_end(), open);
            assert(bytes[body - 1] == bytes.subrange(body - 1, body)[0]);
            first_occurrence_is_least(bytes, font_close(), body);
            if let Some(close) = first_occurrence(bytes, font_close(), body) {
                assert(bytes[close] == bytes.subrange(close, close + 7)[0]);
                assert(bytes[close + 6] == bytes.subrange(close, close + 7)[6]);
            }
        }
    }
}

/// The fragments of the content from `from` on. `None` where the content cannot
/// be read.
///
/// Text outside of `<font>` elements has no colour. An element's text loses the
/// line breaks at its end, and an element without text is left out. An element
/// that is never closed holds all that follows. From a tag without a quoted
/// colour on, the content stands there twice, without a colour.
pub open spec fn fragments_from(bytes: Seq<u8>, from: int) -> Option<Seq<Fragment>>
    recommends
        0 <= from <= bytes.len(),
    decreases bytes.len() - from,
    when 0 <= from <= bytes.len()
{
    proof {
        tags_lie_ahead(bytes, from);
    }
    let end = bytes.len() as int;
    match first_occurrence(bytes, font_open(), from) {
        None => Some(plain(bytes, from, end)),
        Some(open) => {
            let before = plain(bytes, from, open);
            match font_tag(bytes, open) {
                FontTag::Bare => Some(before + plain(bytes, open, end) + plain(bytes, open, end)),
                FontTag::Unreadable => None,
                FontTag::Open => then_fragments(before, fragments_from(bytes, open + 1)),
                FontTag::Tag { color, body } => match first_occurrence(
                    bytes,
                    font_close(),
                    body,
                ) {
                    Some(close) => {
                        let text = without_final_breaks(bytes.subrange(body, close));
                        let element = if text.len() > 0 {
                            seq![Fragment { text, color }]
                        } else {
                            seq![]
                        };
                        then_fragments(before + element, fragments_from(bytes, close + 7))
                    },
                    None => Some(
                        before + seq![Fragment { text: bytes.subrange(body, end), color }],
                    ),
                },
            }
        },
    }
}

/// The fragments of a log content. `None` where the content cannot be read.
pub open spec fn log_fragments(content: Seq<char>) -> Option<Seq<Fragment>> {
    fragments_from(encode_utf8(content), 0)
}

/// A `<font` tag as it was read from a content.
enum TagRead {
    Bare,
    Unreadable,
    Open,
    Tag { color: Option<[u8; 3]>, body: usize },
}

impl View for TagRead {
    type V = FontTag;

    closed spec fn view(&self) -> FontTag {
        match self {
            TagRead::Bare => FontTag::Bare,
            TagRead::Unreadable => FontTag::Unreadable,
            TagRead::Open => FontTag::Open,
            TagRead::Tag { color, body } => FontTag::Tag {
                color: match color {
                    Some(rgb) => Some(rgb@),
                    None => None,
                },
                body: *body as int,
            },
        }
    }
}

fn read_tag(bytes: &[u8], open: usize) -> (tag: TagRead)
    requires
        open < bytes@.len(),
    ensures
        tag@ == font_tag(bytes@, open as int),
{
    proof {
        marks();
        first_occurrence_is_least(bytes@, color_attribute(), open as int);
        first_occurrence_is_least(bytes@, tag_end(), open as int);
    }
    let end: usize = bytes.len();
    match find_from(bytes, "color=".as_bytes(), open) {
        None => TagRead::Bare,
        Some(attribute) => {
            let quote: usize = attribute + 6;
            if quote >= end {
                return TagRead::Unreadable;
            }
            let mark: u8 = bytes[quote];
            if mark != 0x27 && mark != 0x22 {
                return TagRead::Bare;
            }
            let marks: [u8; 1] = [mark];
            assert(marks@ =~= seq![mark]);
            proof {
                first_occurrence_is_least(bytes@, seq![mark], quote + 1);
            }
            match find_from(bytes, &marks, quote + 1) {
                None => TagRead::Open,
                Some(close) => match read_color(bytes, quote + 1, close) {
                    None => TagRead::Unreadable,
                    Some(color) => match find_from(bytes, ">".as_bytes(), open) {
                        None => TagRead::Open,
                        Some(at) => TagRead::Tag { color, body: at + 1 },
                    },
                },
            }
        },
    }
}

/// Cuts the text of an element out of `content`, without the line breaks at its
/// end.
fn element_text(content: &str, from: usize, to: usize) -> (text: String)
    requires
        from <= to <= encode_utf8(content@).len(),
        is_char_boundary(encode_utf8(content@), from as int),
        is_char_boundary(encode_utf8(content@), to as int),
    ensures
        encode_utf8(text@) == without_final_breaks(
            encode_utf8(content@).subrange(from as int, to as int),
        ),
{
    let bytes = content.as_bytes();
    proof {
        encode_utf8_valid_utf8(content@);
    }
    let mut end: usize = to;
    while from < end && bytes[end - 1] == 0x0a
        invariant
            from <= end <= to <= bytes@.len(),
            bytes@ == encode_utf8(content@),
            valid_utf8(bytes@),
            is_char_boundary(bytes@, end as int),
            without_final_breaks(bytes@.subrange(from as int, to as int)) == without_final_breaks(
                bytes@.subrange(from as int, end as int),
            ),
        decreases end,
    {
        proof {
            ascii_byte_borders(bytes@, end - 1);
        }
        assert(bytes@.subrange(from as int, end as int).drop_last() =~= bytes@.subrange(
            from as int,
            end - 1,
        ));
        end -= 1;
    }
    cut(content, from, end)
}

/// Puts the text from `from` to `to`, where there is any, behind `fragments`.
fn push_plain(fragments: &mut Vec<LogFragment>, content: &str, from: usize, to: usize)
    requires
        from <= to <= encode_utf8(content@).len(),
        is_char_boundary(encode_utf8(content@), from as int),
        is_char_boundary(encode_utf8(content@), to as int),
    ensures
        contents(final(fragments)@) == contents(old(fragments)@) + plain(
            encode_utf8(content@),
            from as int,
            to as int,
        ),
{
    if from < to {
        let fragment = LogFragment { text: cut(content, from, to), color: None };
        fragments.push(fragment);
    }
    assert(contents(fragments@) =~= contents(old(fragments)@) + plain(
        encode_utf8(content@),
        from as int,
        to as int,
    ));
}

/// Puts a coloured fragment behind `fragments`.
fn push_colored(fragments: &mut Vec<LogFragment>, text: String, color: Option<[u8; 3]>)
    ensures
        contents(final(fragments)@) == contents(old(fragments)@).push(
            LogFragment { text, color }@,
        ),
{
    let fragment = LogFragment { text, color };
    fragments.push(fragment);
    assert(contents(fragments@) =~= contents(old(fragments)@).push(fragment@));
}

/// Reads log content into fragments in the colours that the game wrote; `None`
/// where it cannot be read.
pub fn read_fragments(content: &str) -> (fragments: Option<Vec<LogFragment>>)
    ensures
        match fragments {
            Some(read) => log_fragments(content@) == Some(contents(read@)),
            None => log_fragments(content@) is None,
        },
{
    let bytes = content.as_bytes();
    let end: usize = bytes.len();
    let mut fragments: Vec<LogFragment> = Vec::new();
    let mut from: usize = 0;
    proof {
        encode_utf8_valid_utf8(content@);
        is_char_boundary_start_end_of_seq(bytes@);
    }
    assert(contents(fragments@) =~= seq![]);
    assert(log_fragments(content@) == then_fragments(
        contents(fragments@),
        fragments_from(bytes@, 0),
    )) by {
        if let Some(tail) = fragments_from(bytes@, 0) {
            assert(contents(fragments@) + tail =~= tail);
        }
    }
    loop
        invariant
            from <= end,
            end == bytes@.len(),
            bytes@ == encode_utf8(content@),
            valid_utf8(bytes@),
            is_char_boundary(bytes@, from as int),
            is_char_boundary(bytes@, end as int),
            log_fragments(content@) == then_fragments(
                contents(fragments@),
                fragments_from(bytes@, from as int),
            ),
        decreases end - from,
    {
        proof {
            tags_lie_ahead(bytes@, from as int);
        }
        let ghost read = contents(fragments@);
        match find_from(bytes, "<font".as_bytes(), from) {
            None => {
                push_plain(&mut fragments, content, from, end);
                return Some(fragments);
            },
            Some(open) => {
                proof {
                    ascii_byte_borders(bytes@, open as int);
                }
                push_plain(&mut fragments, content, from, open);
                let ghost before = plain(bytes@, from as int, open as int);
                match read_tag(bytes, open) {
                    TagRead::Bare => {
                        push_plain(&mut fragments, content, open, end);
                        push_plain(&mut fragments, content, open, end);
                        let ghost rest = plain(bytes@, open as int, end as int);
                        assert(read + before + rest + rest =~= read + (before + rest + rest));
                        return Some(fragments);
                    },
                    TagRead::Unreadable => {
                        return None;
                    },
                    TagRead::Open => {
                        proof {
                            if let Some(tail) = fragments_from(bytes@, open + 1) {
                                assert(read + before + tail =~= read + (before + tail));
                            }
                        }
                        from = open + 1;
                    },
                    TagRead::Tag { color, body } => {
                        proof {
                            ascii_byte_borders(bytes@, body - 1);
                        }
                        match find_from(bytes, "</font>".as_bytes(), body) {
                            Some(close) => {
                                proof {
                                    ascii_byte_borders(bytes@, close as int);
                                    ascii_byte_borders(bytes@, close + 6);
                                }
                                let text = element_text(content, body, close);
                                let ghost stripped = without_final_breaks(
                                    bytes@.subrange(body as int, close as int),
                                );
                                let ghost element = if stripped.len() > 0 {
                                    seq![LogFragment { text, color }@]
                                } else {
                                    seq![]
                                };
                                if !text.as_str().as_bytes().is_empty() {
                                    push_colored(&mut fragments, text, color);
                                }
                                assert(contents(fragments@) =~= read + before + element);
                                proof {
                                    if let Some(tail) = fragments_from(bytes@, close + 7) {
                                        assert(read + before + element + tail =~= read + (before
                                            + element + tail));
                                    }
                                }
                                from = close + 7;
                            },
                            None => {
                                let text = cut(content, body, end);
                                let ghost element = LogFragment { text, color }@;
                                push_colored(&mut fragments, text, color);
                                assert(contents(fragments@) =~= read + (before + seq![element]));
                                return Some(fragments);
                            },
                        }
                    },
                }
            },
        }
    }
}

/// `color` is what `remap` makes of the colour `rgb`.
pub open spec fn is_remapped<F: Fn([u8; 3]) -> [u8; 3]>(
    rgb: Seq<u8>,
    color: [u8; 3],
    remap: F,
) -> bool {
    exists|written: [u8; 3]|
        #![trigger call_ensures(remap, (written,), color)]
        written@ == rgb && call_ensures(remap, (written,), color)
}

/// A fragment that was read, with its colour changed by `remap`.
pub open spec fn is_recolored<F: Fn([u8; 3]) -> [u8; 3]>(
    read: Fragment,
    fragment: LogFragment,
    remap: F,
) -> bool {
    &&& encode_utf8(fragment.text@) == read.text
    &&& match read.color {
        None => fragment.color is None,
        Some(rgb) => fragment.color matches Some(color) && is_remapped(rgb, color, remap),
    }
}

/// Fragments that were read, each with its colour changed by `remap`.
pub open spec fn recolored<F: Fn([u8; 3]) -> [u8; 3]>(
    read: Seq<Fragment>,
    fragments: Seq<LogFragment>,
    remap: F,
) -> bool {
    &&& fragments.len() == read.len()
    &&& forall|i: int|
        0 <= i < read.len() ==> is_recolored(read[i], #[trigger] fragments[i], remap)
}

/// Changes the colour of each fragment that has one.
pub fn recolor<F: Fn([u8; 3]) -> [u8; 3]>(read: &Vec<LogFragment>, remap: F) -> (fragments: Vec<
    LogFragment,
>)
    requires
        forall|rgb: [u8; 3]| call_requires(remap, (rgb,)),
    ensures
        recolored(contents(read@), fragments@, remap),
{
    let mut fragments: Vec<LogFragment> = Vec::new();
    let mut i: usize = 0;
    while i < read.len()
        invariant
            i <= read@.len(),
            forall|rgb: [u8; 3]| call_requires(remap, (rgb,)),
            fragments@.len() == i,
            forall|j: int|
                0 <= j < i ==> is_recolored(contents(read@)[j], #[trigger] fragments@[j], remap),
        decreases read@.len() - i,
    {
        let text = read[i].text.clone();
        let color = match read[i].color {
            Some(written) => {
                let shown = remap(written);
                assert(is_remapped(written@, shown, remap));
                Some(shown)
            },
            None => None,
        };
        let fragment = LogFragment { text, color };
        assert(contents(read@)[i as int] == read@[i as int]@);
        assert(is_recolored(contents(read@)[i as int], fragment, remap));
        fragments.push(fragment);
        i += 1;
    }
    fragments
}

/// Parses log content as [`parse_log_content`] does, and tells content that
/// cannot be read by `None`.
pub fn read_log_content<F: Fn([u8; 3]) -> [u8; 3]>(content: &str, remap: F) -> (fragments: Option<
    Vec<LogFragment>,
>)
    requires
        forall|rgb: [u8; 3]| call_requires(remap, (rgb,)),
    ensures
        match fragments {
            Some(shown) => log_fragments(content@) matches Some(read) && recolored(
                read,
                shown@,
                remap,
            ),
            None => log_fragments(content@) is None,
        },
{
    match read_fragments(content) {
        Some(read) => Some(recolor(&read, remap)),
        None => None,
    }
}

/// Parses log content containing HTML font tags into fragments with colors.
/// Input format: `<font color='#RRGGBB'>text</font>` or plain text. Each colour
/// that the game wrote is made readable by `remap`.
///
/// Content that cannot be read has no fragments: see [`read_log_content`].
pub fn parse_log_content<F: Fn([u8; 3]) -> [u8; 3]>(content: &str, remap: F) -> (fragments: Vec<
    LogFragment,
>)
    requires
        log_fragments(content@) is Some,
        forall|rgb: [u8; 3]| call_requires(remap, (rgb,)),
    ensures
        log_fragments(content@) matches Some(read) && recolored(read, fragments@, remap),
{
    match read_log_content(content, remap) {
        Some(fragments) => fragments,
        None => Vec::new(),
    }
}

/// A `<font>` element as the game writes it: its colour between two quotation
/// marks, then its text.
#[verifier::opaque]
pub open spec fn font_element(quote: u8, color: Seq<u8>, text: Seq<u8>) -> Seq<u8> {
    font_open() + seq![0x20u8] + color_attribute() + seq![quote] + color + seq![quote] + tag_end()
        + text + font_close()
}

/// `byte` stands nowhere in `bytes`.
pub open spec fn lacks(bytes: Seq<u8>, byte: u8) -> bool {
    forall|i: int| 0 <= i < bytes.len() ==> bytes[i] != byte
}

proof fn tag_behind_a_prefix(prefix: Seq<u8>, bytes: Seq<u8>, open: int)
    requires
        0 <= open <= bytes.len(),
    ensures
        font_tag(prefix + bytes, prefix.len() + open) == (match font_tag(bytes, open) {
            FontTag::Tag { color, body } => FontTag::Tag { color, body: prefix.len() + body },
            other => other,
        }),
{
    let whole = prefix + bytes;
    found_behind_a_prefix(prefix, bytes, color_attribute(), open);
    found_behind_a_prefix(prefix, bytes, tag_end(), open);
    marks();
    first_occurrence_is_least(bytes, color_attribute(), open);
    if let Some(attribute) = first_occurrence(bytes, color_attribute(), open) {
        let quote = attribute + 6;
        if quote < bytes.len() {
            assert(whole[prefix.len() + quote] == bytes[quote]);
            found_behind_a_prefix(prefix, bytes, seq![bytes[quote]], quote + 1);
            first_occurrence_is_least(bytes, seq![bytes[quote]], quote + 1);
            if let Some(end) = first_occurrence(bytes, seq![bytes[quote]], quote + 1) {
                assert(whole.subrange(prefix.len() + quote + 1, prefix.len() + end)
                    =~= bytes.subrange(quote + 1, end));
            }
        }
    }
}

proof fn plain_behind_a_prefix(prefix: Seq<u8>, bytes: Seq<u8>, from: int, to: int)
    requires
        0 <= from <= to <= bytes.len(),
    ensures
        plain(prefix + bytes, prefix.len() + from, prefix.len() + to) == plain(bytes, from, to),
{
    assert((prefix + bytes).subrange(prefix.len() + from, prefix.len() + to) =~= bytes.subrange(
        from,
        to,
    ));
}

/// What stands before a position of the content does not change what is read
/// from that position on.
pub proof fn fragments_behind_a_prefix(prefix: Seq<u8>, bytes: Seq<u8>, from: int)
    requires
        0 <= from <= bytes.len(),
    ensures
        fragments_from(prefix + bytes, prefix.len() + from) == fragments_from(bytes, from),
    decreases bytes.len() - from,
{
    let whole = prefix + bytes;
    let shift = prefix.len() as int;
    let end = bytes.len() as int;
    assert(whole.len() == shift + end);
    tags_lie_ahead(bytes, from);
    found_behind_a_prefix(prefix, bytes, font_open(), from);
    match first_occurrence(bytes, font_open(), from) {
        None => {
            plain_behind_a_prefix(prefix, bytes, from, end);
        },
        Some(open) => {
            plain_behind_a_prefix(prefix, bytes, from, open);
            plain_behind_a_prefix(prefix, bytes, open, end);
            tag_behind_a_prefix(prefix, bytes, open);
            match font_tag(bytes, open) {
                FontTag::Open => {
                    fragments_behind_a_prefix(prefix, bytes, open + 1);
                },
                FontTag::Tag { color, body } => {
                    found_behind_a_prefix(prefix, bytes, font_close(), body);
                    match first_occurrence(bytes, font_close(), body) {
                        Some(close) => {
                            fragments_behind_a_prefix(prefix, bytes, close + 7);
                            assert(whole.subrange(shift + body, shift + close) =~= bytes.subrange(
                                body,
                                close,
                            ));
                        },
                        None => {
                            assert(whole.subrange(shift + body, shift + end) =~= bytes.subrange(
                                body,
                                end,
                            ));
                        },
                    }
                },
                _ => {},
            }
        },
    }
}

/// Content without a `<font` tag is one fragment without a colour, or none
/// where it is empty.
pub proof fn plain_content_is_one_fragment(content: Seq<char>)
    requires
        forall|i: int| !occurs_at(encode_utf8(content), font_open(), i),
    ensures
        log_fragments(content) == Some(
            plain(encode_utf8(content), 0, encode_utf8(content).len() as int),
        ),
{
    first_occurrence_is_least(encode_utf8(content), font_open(), 0);
}

/// Where the parts of a `<font>` element stand.
proof fn font_element_parts(quote: u8, color: Seq<u8>, text: Seq<u8>, rest: Seq<u8>)
    requires
        quote == 0x27 || quote == 0x22,
    ensures
        ({
            let bytes = font_element(quote, color, text) + rest;
            let body = 15 + color.len();
            let close = body + text.len();
            &&& bytes.len() == close + 7 + rest.len()
            &&& bytes.subrange(0, 5) == font_open()
            &&& bytes.subrange(6, 12) == color_attribute()
            &&& bytes[12] == quote
            &&& bytes.subrange(13, body - 2) == color
            &&& bytes[body - 2] == quote
            &&& bytes[body - 1] == 0x3e
            &&& forall|i: int| 0 <= i < 6 ==> bytes[i] != 0x63
            &&& forall|i: int| 0 <= i < 13 ==> bytes[i] != 0x3e
            &&& bytes.subrange(body as int, close as int) == text
            &&& bytes.subrange(close as int, close as int + 7) == font_close()
        }),
{
    reveal(font_element);
    marks();
    let tag = font_open() + seq![0x20u8] + color_attribute() + seq![quote] + color + seq![quote]
        + tag_end();
    let bytes = font_element(quote, color, text) + rest;
    let body = 15 + color.len();
    assert(tag.len() == body);
    assert(tag.subrange(0, 5) =~= font_open());
    assert(tag.subrange(6, 12) =~= color_attribute());
    assert(tag.subrange(13, body - 2) =~= color);
    assert(forall|i: int| 0 <= i < 6 ==> tag[i] != 0x63);
    assert(forall|i: int| 0 <= i < 13 ==> tag[i] != 0x3e);
    assert(bytes.subrange(0, body as int) =~= tag);
    assert(forall|i: int| 0 <= i < body ==> bytes[i] == tag[i]);
    assert(bytes.subrange(0, 5) =~= tag.subrange(0, 5));
    assert(bytes.subrange(6, 12) =~= tag.subrange(6, 12));
    assert(bytes.subrange(13, body - 2) =~= tag.subrange(13, body - 2));
    assert(bytes.subrange(body as int, (body + text.len()) as int) =~= text);
    assert(bytes.subrange((body + text.len()) as int, (body + text.len()) as int + 7)
        =~= font_close());
}

proof fn font_element_tag(quote: u8, color: Seq<u8>, text: Seq<u8>, rest: Seq<u8>)
    requires
        quote == 0x27 || quote == 0x22,
        lacks(color, quote),
        lacks(color, 0x3e),
        color_is_readable(color),
    ensures
        font_tag(font_element(quote, color, text) + rest, 0) == (FontTag::Tag {
            color: hex_color(color),
            body: 15 + color.len() as int,
        }),
{
    let bytes = font_element(quote, color, text) + rest;
    let n = color.len() as int;
    font_element_parts(quote, color, text, rest);
    marks();
    assert forall|i: int| 13 <= i < 13 + n implies bytes[i] == color[i - 13] by {
        assert(bytes.subrange(13, 13 + n)[i - 13] == bytes[i]);
    }
    assert forall|i: int| 0 <= i < 6 implies !occurs_at(bytes, color_attribute(), i) by {
        assert(bytes.subrange(i, i + 6)[0] == bytes[i]);
    }
    found_where_it_first_stands(bytes, color_attribute(), 0, 6);
    assert(bytes.subrange(13 + n, 14 + n) =~= seq![quote]);
    assert forall|i: int| 13 <= i < 13 + n implies !occurs_at(bytes, seq![quote], i) by {
        assert(bytes.subrange(i, i + 1)[0] == bytes[i]);
    }
    found_where_it_first_stands(bytes, seq![quote], 13, 13 + n);
    assert(bytes.subrange(14 + n, 15 + n) =~= tag_end());
    assert forall|i: int| 0 <= i < 14 + n implies !occurs_at(bytes, tag_end(), i) by {
        assert(bytes.subrange(i, i + 1)[0] == bytes[i]);
    }
    found_where_it_first_stands(bytes, tag_end(), 0, 14 + n);
}

/// Where a `<font>` element ends.
proof fn font_element_end(quote: u8, color: Seq<u8>, text: Seq<u8>, rest: Seq<u8>)
    requires
        quote == 0x27 || quote == 0x22,
        forall|i: int| !occurs_at(text, font_close(), i),
    ensures
        first_occurrence(
            font_element(quote, color, text) + rest,
            font_close(),
            15 + color.len() as int,
        ) == Some(15 + color.len() + text.len() as int),
{
    let bytes = font_element(quote, color, text) + rest;
    let body = 15 + color.len() as int;
    let close = body + text.len();
    font_element_parts(quote, color, text, rest);
    marks();
    assert forall|i: int| body <= i < close implies !occurs_at(bytes, font_close(), i) by {
        let part = bytes.subrange(i, i + 7);
        if i + 7 <= close {
            assert(part =~= bytes.subrange(body, close).subrange(i - body, i - body + 7));
            assert(!occurs_at(text, font_close(), i - body));
        } else if occurs_at(bytes, font_close(), i) {
            assert(bytes.subrange(close, close + 7)[0] == bytes[close]);
            assert(part[close - i] == bytes[close]);
        }
    }
    found_where_it_first_stands(bytes, font_close(), body, close);
}

/// How content is read that starts with a closed element.
proof fn closed_element_first(bytes: Seq<u8>, color: Option<Seq<u8>>, body: int, close: int)
    requires
        first_occurrence(bytes, font_open(), 0) == Some(0int),
        font_tag(bytes, 0) == (FontTag::Tag { color, body }),
        first_occurrence(bytes, font_close(), body) == Some(close),
    ensures
        ({
            let stripped = without_final_breaks(bytes.subrange(body, close));
            fragments_from(bytes, 0) == then_fragments(
                if stripped.len() > 0 {
                    seq![Fragment { text: stripped, color }]
                } else {
                    seq![]
                },
                fragments_from(bytes, close + 7),
            )
        }),
{
    let stripped = without_final_breaks(bytes.subrange(body, close));
    let head = if stripped.len() > 0 {
        seq![Fragment { text: stripped, color }]
    } else {
        seq![]
    };
    assert(plain(bytes, 0, 0) + head =~= head);
    tags_lie_ahead(bytes, 0);
}

/// A closed `<font>` element is read as its text, without the line breaks at
/// its end, in its colour; what follows it is read as if it stood alone.
pub proof fn font_element_is_one_fragment(
    quote: u8,
    color: Seq<u8>,
    text: Seq<u8>,
    rest: Seq<u8>,
)
    requires
        quote == 0x27 || quote == 0x22,
        lacks(color, quote),
        lacks(color, 0x3e),
        color_is_readable(color),
        forall|i: int| !occurs_at(text, font_close(), i),
    ensures
        fragments_from(font_element(quote, color, text) + rest, 0) == then_fragments(
            if without_final_breaks(text).len() > 0 {
                seq![Fragment { text: without_final_breaks(text), color: hex_color(color) }]
            } else {
                seq![]
            },
            fragments_from(rest, 0),
        ),
{
    let element = font_element(quote, color, text);
    let bytes = element + rest;
    let body = 15 + color.len() as int;
    let close = body + text.len();
    assert(first_occurrence(bytes, font_open(), 0) == Some(0int)) by {
        font_element_parts(quote, color, text, rest);
        marks();
        found_where_it_first_stands(bytes, font_open(), 0, 0);
    }
    font_element_tag(quote, color, text, rest);
    font_element_end(quote, color, text, rest);
    assert(bytes.subrange(body, close) == text && element.len() == close + 7) by {
        font_element_parts(quote, color, text, rest);
    }
    closed_element_first(bytes, hex_color(color), body, close);
    fragments_behind_a_prefix(element, rest, 0);
}

/// Plain text, then a closed `<font>` element, then the rest of the content are
/// read one after the other.
pub proof fn text_then_element_then_rest(
    before: Seq<u8>,
    quote: u8,
    color: Seq<u8>,
    text: Seq<u8>,
    rest: Seq<u8>,
)
    requires
        forall|i: int| !occurs_at(before, font_open(), i),
        quote == 0x27 || quote == 0x22,
        lacks(color, quote),
        lacks(color, 0x3e),
        color_is_readable(color),
        forall|i: int| !occurs_at(text, font_close(), i),
    ensures
        fragments_from(before + (font_element(quote, color, text) + rest), 0) == then_fragments(
            plain(before, 0, before.len() as int) + if without_final_breaks(text).len() > 0 {
                seq![Fragment { text: without_final_breaks(text), color: hex_color(color) }]
            } else {
                seq![]
            },
            fragments_from(rest, 0),
        ),
{
    let tail = font_element(quote, color, text) + rest;
    let bytes = before + tail;
    let n = before.len() as int;
    let stripped = without_final_breaks(text);
    let element = if stripped.len() > 0 {
        seq![Fragment { text: stripped, color: hex_color(color) }]
    } else {
        seq![]
    };
    font_element_is_one_fragment(quote, color, text, rest);
    fragments_behind_a_prefix(before, tail, 0);
    assert(first_occurrence(tail, font_open(), 0) == Some(0int)) by {
        font_element_parts(quote, color, text, rest);
        marks();
        found_where_it_first_stands(tail, font_open(), 0, 0);
    }
    element_is_first_tag(before, tail);
    found_behind_a_prefix(before, tail, font_open(), 0);
    plain_then_tag(bytes, n);
    assert(bytes.subrange(0, n) =~= before);
    assert(before.subrange(0, n) =~= before);
    if let Some(later) = fragments_from(rest, 0) {
        assert(plain(before, 0, n) + (element + later) =~= plain(before, 0, n) + element + later);
    }
}

/// A log's content is plain text up to its first `<font>` element, then that
/// element's text in its colour, then what the rest of the content is.
pub proof fn content_is_read_in_order(
    before: Seq<char>,
    color: Seq<char>,
    text: Seq<char>,
    rest: Seq<char>,
)
    requires
        forall|i: int| !occurs_at(encode_utf8(before), font_open(), i),
        lacks(encode_utf8(color), 0x27),
        lacks(encode_utf8(color), 0x3e),
        color_is_readable(encode_utf8(color)),
        forall|i: int| !occurs_at(encode_utf8(text), font_close(), i),
    ensures
        log_fragments(
            before + ("<font color='"@ + color + "'>"@ + text + "</font>"@ + rest),
        ) == then_fragments(
            plain(encode_utf8(before), 0, encode_utf8(before).len() as int) + ({
                let stripped = without_final_breaks(encode_utf8(text));
                if stripped.len() > 0 {
                    seq![Fragment { text: stripped, color: hex_color(encode_utf8(color)) }]
                } else {
                    seq![]
                }
            }),
            log_fragments(rest),
        ),
{
    let head = "<font color='"@ + color;
    utf8_of_concatenation("<font color='"@, color);
    utf8_of_concatenation(head, "'>"@);
    utf8_of_concatenation(head + "'>"@, text);
    utf8_of_concatenation(head + "'>"@ + text, "</font>"@);
    let element = head + "'>"@ + text + "</font>"@;
    utf8_of_concatenation(element, rest);
    utf8_of_concatenation(before, element + rest);
    let color = encode_utf8(color);
    let text = encode_utf8(text);
    assert(encode_utf8(element) == font_element(0x27, color, text)) by {
        reveal(font_element);
        marks();
        reveal_strlit("<font color='");
        reveal_strlit("'>");
        is_ascii_chars_encode_utf8("<font color='"@);
        is_ascii_chars_encode_utf8("'>"@);
        assert(encode_utf8("<font color='"@) =~= font_open() + seq![0x20u8] + color_attribute()
            + seq![0x27u8]);
        assert(encode_utf8("'>"@) =~= seq![0x27u8] + tag_end());
        assert(encode_utf8(element) =~= font_element(0x27, color, text));
    }
    text_then_element_then_rest(encode_utf8(before), 0x27, color, text, encode_utf8(rest));
}

/// A tag that starts a text is the first one behind a text that holds none.
proof fn element_is_first_tag(before: Seq<u8>, tail: Seq<u8>)
    requires
        forall|i: int| !occurs_at(before, font_open(), i),
        first_occurrence(tail, font_open(), 0) == Some(0int),
    ensures
        first_occurrence(before + tail, font_open(), 0) == Some(before.len() as int),
{
    marks();
    let bytes = before + tail;
    let n = before.len() as int;
    first_occurrence_is_least(tail, font_open(), 0);
    assert(tail.subrange(0, 5)[0] == tail[0]);
    assert(bytes.subrange(n, n + 5) =~= tail.subrange(0, 5));
    assert forall|i: int| 0 <= i < n implies !occurs_at(bytes, font_open(), i) by {
        let part = bytes.subrange(i, i + 5);
        if i + 5 <= n {
            assert(part =~= before.subrange(i, i + 5));
            assert(!occurs_at(before, font_open(), i));
        } else if occurs_at(bytes, font_open(), i) {
            assert(part[n - i] == bytes[n]);
            assert(bytes[n] == tail[0]);
        }
    }
    found_where_it_first_stands(bytes, font_open(), 0, n);
}

/// Content whose first tag stands at `n` is the text before it, then what is
/// read from the tag on.
proof fn plain_then_tag(bytes: Seq<u8>, n: int)
    requires
        0 <= n <= bytes.len(),
        first_occurrence(bytes, font_open(), 0) == Some(n),
        first_occurrence(bytes, font_open(), n) == Some(n),
    ensures
        fragments_from(bytes, 0) == then_fragments(plain(bytes, 0, n), fragments_from(bytes, n)),
{
    let end = bytes.len() as int;
    let before = plain(bytes, 0, n);
    tags_lie_ahead(bytes, 0);
    tags_lie_ahead(bytes, n);
    assert(plain(bytes, n, n) =~= seq![]);
    match font_tag(bytes, n) {
        FontTag::Bare => {
            let rest = plain(bytes, n, end);
            assert(before + rest + rest =~= before + (seq![] + rest + rest));
        },
        FontTag::Unreadable => {},
        FontTag::Open => {
            if let Some(later) = fragments_from(bytes, n + 1) {
                assert(before + later =~= before + (seq![] + later));
            }
        },
        FontTag::Tag { color, body } => match first_occurrence(bytes, font_close(), body) {
            Some(close) => {
                let text = without_final_breaks(bytes.subrange(body, close));
                let element = if text.len() > 0 {
                    seq![Fragment { text, color }]
                } else {
                    seq![]
                };
                if let Some(later) = fragments_from(bytes, close + 7) {
                    assert(before + element + later =~= before + (seq![] + element + later));
                }
            },
            None => {
                let element = seq![Fragment { text: bytes.subrange(body, end), color }];
                assert(before + element =~= before + (seq![] + element));
            },
        },
    }
}

/// An entry of a log: its text in its colour.
pub struct Entry {
    pub quote: u8,
    pub color: Seq<u8>,
    pub text: Seq<u8>,
}

/// An entry that can be told from what stands around it.
pub open spec fn is_plain_entry(entry: Entry) -> bool {
    &&& entry.quote == 0x27 || entry.quote == 0x22
    &&& lacks(entry.color, entry.quote)
    &&& lacks(entry.color, 0x3e)
    &&& color_is_readable(entry.color)
    &&& forall|i: int| !occurs_at(entry.text, font_close(), i)
}

/// A log as the game writes it: one `<font>` element for each entry.
pub open spec fn written(entries: Seq<Entry>) -> Seq<u8>
    decreases entries.len(),
{
    if entries.len() == 0 {
        seq![]
    } else {
        font_element(entries[0].quote, entries[0].color, entries[0].text) + written(
            entries.drop_first(),
        )
    }
}

/// What is shown of a log's entries: the text of each, without the line breaks
/// at its end, in its colour.
pub open spec fn shown(entries: Seq<Entry>) -> Seq<Fragment>
    decreases entries.len(),
{
    if entries.len() == 0 {
        seq![]
    } else {
        let text = without_final_breaks(entries[0].text);
        (if text.len() > 0 {
            seq![Fragment { text, color: hex_color(entries[0].color) }]
        } else {
            seq![]
        }) + shown(entries.drop_first())
    }
}

/// A log is read as the entries that it was written from.
pub proof fn written_logs_are_shown(entries: Seq<Entry>)
    requires
        forall|i: int| 0 <= i < entries.len() ==> is_plain_entry(#[trigger] entries[i]),
    ensures
        fragments_from(written(entries), 0) == Some(shown(entries)),
    decreases entries.len(),
{
    if entries.len() == 0 {
        first_occurrence_is_least(written(entries), font_open(), 0);
        marks();
        assert(first_occurrence(written(entries), font_open(), 0) is None);
        assert(plain(written(entries), 0, 0) =~= shown(entries));
    } else {
        let rest = entries.drop_first();
        assert forall|i: int| 0 <= i < rest.len() implies is_plain_entry(#[trigger] rest[i]) by {
            assert(rest[i] == entries[i + 1]);
        }
        written_logs_are_shown(rest);
        let first = entries[0];
        assert(is_plain_entry(first));
        font_element_is_one_fragment(first.quote, first.color, first.text, written(rest));
    }
}

/// ASCII content that does not break off behind a `color=` can be read.
pub proof fn ascii_content_is_readable(bytes: Seq<u8>, from: int)
    requires
        0 <= from <= bytes.len(),
        forall|i: int| 0 <= i < bytes.len() ==> bytes[i] < 0x80,
        !occurs_at(bytes, color_attribute(), bytes.len() - 6),
    ensures
        fragments_from(bytes, from) is Some,
    decreases bytes.len() - from,
{
    marks();
    tags_lie_ahead(bytes, from);
    if let Some(open) = first_occurrence(bytes, font_open(), from) {
        first_occurrence_is_least(bytes, color_attribute(), open);
        if let Some(attribute) = first_occurrence(bytes, color_attribute(), open) {
            let quote = attribute + 6;
            if quote < bytes.len() {
                first_occurrence_is_least(bytes, seq![bytes[quote]], quote + 1);
                if let Some(end) = first_occurrence(bytes, seq![bytes[quote]], quote + 1) {
                    ascii_colors_are_readable(bytes.subrange(quote + 1, end));
                }
            }
        }
        match font_tag(bytes, open) {
            FontTag::Open => {
                ascii_content_is_readable(bytes, open + 1);
            },
            FontTag::Tag { color, body } => {
                if let Some(close) = first_occurrence(bytes, font_close(), body) {
                    ascii_content_is_readable(bytes, close + 7);
                }
            },
            _ => {},
        }
    }
}

/// It can be told of every ASCII text whether it is a colour.
pub proof fn ascii_colors_are_readable(bytes: Seq<u8>)
    requires
        forall|i: int| 0 <= i < bytes.len() ==> bytes[i] < 0x80,
    ensures
        color_is_readable(bytes),
    decreases bytes.len(),
{
    if bytes.len() > 0 && bytes[0] == 0x23 {
        ascii_colors_are_readable(bytes.drop_first());
    }
}

/// What is taken off an element's text is the line breaks at its end and nothing
/// else: every text is what is left of it with line breaks behind it, and what is
/// left does not end in one.
pub proof fn only_final_breaks_are_taken_off(text: Seq<u8>) -> (breaks: Seq<u8>)
    ensures
        text == without_final_breaks(text) + breaks,
        forall|i: int| 0 <= i < breaks.len() ==> #[trigger] breaks[i] == 0x0a,
        without_final_breaks(text).len() > 0 ==> without_final_breaks(text).last() != 0x0a,
        text.len() > 0 && text.last() != 0x0a ==> without_final_breaks(text) == text,
    decreases text.len(),
{
    if text.len() > 0 && text.last() == 0x0a {
        let start = text.drop_last();
        let breaks = only_final_breaks_are_taken_off(start);
        let left = without_final_breaks(text);
        assert(text =~= start.push(0x0a));
        assert((left + breaks).push(0x0a) =~= left + breaks.push(0x0a));
        breaks.push(0x0a)
    } else {
        assert(text =~= text + seq![]);
        seq![]
    }
}

/// A byte is the hexadecimal digit of a value below sixteen exactly where that
/// value is written so, in small or in capital letters.
pub proof fn digits_stand_for_their_values(byte: u8, value: u8)
    ensures
        hex_digit(byte) == Some(value) <==> {
            ||| value < 10 && byte == 48 + value
            ||| 10 <= value < 16 && byte == 87 + value
            ||| 10 <= value < 16 && byte == 55 + value
        },
{
}

/// Two digits stand for sixteen times the first and the second; a plus sign may
/// stand in the place of the first, and nothing else is a number.
pub proof fn pairs_of_digits_are_numbers(high: u8, low: u8)
    ensures
        hex_pair(high, low) is Some <==> hex_digit(low) is Some && (hex_digit(high) is Some || high
            == 0x2b),
        hex_digit(high) matches Some(h) ==> hex_digit(low) matches Some(l) ==> hex_pair(high, low)
            matches Some(n) && n == 16 * h + l,
        high == 0x2b ==> hex_pair(high, low) == hex_digit(low),
{
}

/// A colour is three pairs of digits, for red, green and blue, behind any number
/// of number signs.
pub proof fn colors_are_three_pairs(signs: Seq<u8>, hex: Seq<u8>)
    requires
        forall|i: int| 0 <= i < signs.len() ==> #[trigger] signs[i] == 0x23,
        hex.len() > 0 ==> hex[0] != 0x23,
    ensures
        hex.len() != 6 ==> hex_color(signs + hex) is None && color_is_readable(signs + hex),
        hex.len() == 6 ==> {
            &&& hex_color(signs + hex) is Some <==> hex_pair(hex[0], hex[1]) is Some && hex_pair(
                hex[2],
                hex[3],
            ) is Some && hex_pair(hex[4], hex[5]) is Some
            &&& hex_color(signs + hex) matches Some(rgb) ==> rgb.len() == 3 && hex_pair(
                hex[0],
                hex[1],
            ) == Some(rgb[0]) && hex_pair(hex[2], hex[3]) == Some(rgb[1]) && hex_pair(
                hex[4],
                hex[5],
            ) == Some(rgb[2])
            &&& color_is_readable(signs + hex) <==> !(0x80 <= hex[2] <= 0xbf) && (hex_pair(
                hex[0],
                hex[1],
            ) is Some ==> !(0x80 <= hex[4] <= 0xbf))
        },
    decreases signs.len(),
{
    let bytes = signs + hex;
    if signs.len() == 0 {
        assert(bytes =~= hex);
    } else {
        assert(signs[0] == 0x23);
        assert(bytes.drop_first() =~= signs.drop_first() + hex);
        colors_are_three_pairs(signs.drop_first(), hex);
    }
}

/// `at` is the first place from `from` on at which `pattern` stands.
pub open spec fn stands_first(bytes: Seq<u8>, pattern: Seq<u8>, from: int, at: int) -> bool {
    &&& 0 <= from <= at
    &&& occurs_at(bytes, pattern, at)
    &&& forall|i: int| from <= i < at ==> !occurs_at(bytes, pattern, i)
}

/// `pattern` stands nowhere from `from` on.
pub open spec fn stands_nowhere(bytes: Seq<u8>, pattern: Seq<u8>, from: int) -> bool {
    forall|i: int| from <= i ==> !occurs_at(bytes, pattern, i)
}

proof fn found_nowhere(bytes: Seq<u8>, pattern: Seq<u8>, from: int)
    requires
        0 <= from,
        stands_nowhere(bytes, pattern, from),
    ensures
        first_occurrence(bytes, pattern, from) is None,
{
    first_occurrence_is_least(bytes, pattern, from);
}

proof fn found_first(bytes: Seq<u8>, pattern: Seq<u8>, from: int, at: int)
    requires
        stands_first(bytes, pattern, from, at),
    ensures
        first_occurrence(bytes, pattern, from) == Some(at),
{
    found_where_it_first_stands(bytes, pattern, from, at);
}

/// Content without a tag is one fragment without a colour, and holds all of the
/// text; no text is no fragment.
pub proof fn text_without_tags_is_kept(bytes: Seq<u8>, from: int)
    requires
        0 <= from <= bytes.len(),
        stands_nowhere(bytes, font_open(), from),
    ensures
        fragments_from(bytes, from) == Some(
            if from < bytes.len() {
                seq![
                    Fragment { text: bytes.subrange(from, bytes.len() as int), color: None },
                ]
            } else {
                Seq::<Fragment>::empty()
            },
        ),
{
    found_nowhere(bytes, font_open(), from);
}

/// A tag without a colour between quotation marks ends the reading: the text
/// before it is a fragment, and all from the tag on is one twice.
pub proof fn bare_tags_end_the_reading(bytes: Seq<u8>, from: int, open: int, attribute: int)
    requires
        from <= bytes.len(),
        stands_first(bytes, font_open(), from, open),
        stands_nowhere(bytes, color_attribute(), open) || (stands_first(
            bytes,
            color_attribute(),
            open,
            attribute,
        ) && attribute + 6 < bytes.len() && bytes[attribute + 6] != 0x27 && bytes[attribute + 6]
            != 0x22),
    ensures
        ({
            let rest = Fragment { text: bytes.subrange(open, bytes.len() as int), color: None };
            fragments_from(bytes, from) == Some(
                if from < open {
                    seq![Fragment { text: bytes.subrange(from, open), color: None }, rest, rest]
                } else {
                    seq![rest, rest]
                },
            )
        }),
{
    marks();
    found_first(bytes, font_open(), from, open);
    if stands_nowhere(bytes, color_attribute(), open) {
        found_nowhere(bytes, color_attribute(), open);
    } else {
        found_first(bytes, color_attribute(), open, attribute);
    }
    let end = bytes.len() as int;
    let rest = Fragment { text: bytes.subrange(open, end), color: None };
    assert(font_tag(bytes, open) == FontTag::Bare);
    assert(plain(bytes, from, open) + plain(bytes, open, end) + plain(bytes, open, end) =~= if from
        < open {
        seq![Fragment { text: bytes.subrange(from, open), color: None }, rest, rest]
    } else {
        seq![rest, rest]
    });
}

/// Content that breaks off where a colour should begin cannot be read, nor can
/// content whose colour tears a character apart.
pub proof fn torn_colors_cannot_be_read(
    bytes: Seq<u8>,
    from: int,
    open: int,
    attribute: int,
    quoted: int,
)
    requires
        from <= bytes.len(),
        stands_first(bytes, font_open(), from, open),
        stands_first(bytes, color_attribute(), open, attribute),
        attribute + 6 == bytes.len() || ((bytes[attribute + 6] == 0x27 || bytes[attribute + 6]
            == 0x22) && stands_first(bytes, seq![bytes[attribute + 6]], attribute + 7, quoted)
            && !color_is_readable(bytes.subrange(attribute + 7, quoted))),
    ensures
        fragments_from(bytes, from) is None,
{
    marks();
    found_first(bytes, font_open(), from, open);
    found_first(bytes, color_attribute(), open, attribute);
    if attribute + 6 < bytes.len() {
        found_first(bytes, seq![bytes[attribute + 6]], attribute + 7, quoted);
    }
    assert(font_tag(bytes, open) == FontTag::Unreadable);
}

/// A tag that has no end, or whose colour has none, is text: reading goes on
/// behind its first character, which is left out.
pub proof fn tags_without_an_end_are_text(
    bytes: Seq<u8>,
    from: int,
    open: int,
    attribute: int,
    quoted: int,
)
    requires
        from <= bytes.len(),
        stands_first(bytes, font_open(), from, open),
        stands_first(bytes, color_attribute(), open, attribute),
        attribute + 6 < bytes.len(),
        bytes[attribute + 6] == 0x27 || bytes[attribute + 6] == 0x22,
        stands_nowhere(bytes, seq![bytes[attribute + 6]], attribute + 7) || (stands_first(
            bytes,
            seq![bytes[attribute + 6]],
            attribute + 7,
            quoted,
        ) && color_is_readable(bytes.subrange(attribute + 7, quoted)) && stands_nowhere(
            bytes,
            tag_end(),
            open,
        )),
    ensures
        fragments_from(bytes, from) == (match fragments_from(bytes, open + 1) {
            Some(later) => Some(
                if from < open {
                    seq![Fragment { text: bytes.subrange(from, open), color: None }] + later
                } else {
                    later
                },
            ),
            None => None,
        }),
{
    marks();
    found_first(bytes, font_open(), from, open);
    found_first(bytes, color_attribute(), open, attribute);
    let quote = seq![bytes[attribute + 6]];
    if stands_nowhere(bytes, quote, attribute + 7) {
        found_nowhere(bytes, quote, attribute + 7);
    } else {
        found_first(bytes, quote, attribute + 7, quoted);
        found_nowhere(bytes, tag_end(), open);
    }
    assert(font_tag(bytes, open) == FontTag::Open);
    tags_lie_ahead(bytes, from);
    if let Some(later) = fragments_from(bytes, open + 1) {
        assert(Seq::<Fragment>::empty() + later =~= later);
    }
}

proof fn tag_with_a_color(bytes: Seq<u8>, open: int, attribute: int, quoted: int, end: int)
    requires
        stands_first(bytes, color_attribute(), open, attribute),
        attribute + 6 < bytes.len(),
        bytes[attribute + 6] == 0x27 || bytes[attribute + 6] == 0x22,
        stands_first(bytes, seq![bytes[attribute + 6]], attribute + 7, quoted),
        color_is_readable(bytes.subrange(attribute + 7, quoted)),
        stands_first(bytes, tag_end(), open, end),
    ensures
        font_tag(bytes, open) == (FontTag::Tag {
            color: hex_color(bytes.subrange(attribute + 7, quoted)),
            body: end + 1,
        }),
{
    marks();
    found_first(bytes, color_attribute(), open, attribute);
    found_first(bytes, seq![bytes[attribute + 6]], attribute + 7, quoted);
    found_first(bytes, tag_end(), open, end);
}

/// An element is read wherever it stands and whatever else its tag holds: the
/// text before it is a fragment without a colour, the text between its tags is
/// one in its colour, without the line breaks at its end, and reading goes on
/// behind it. Where either text is empty there is no fragment for it.
pub proof fn elements_are_read_in_their_colors(
    bytes: Seq<u8>,
    from: int,
    open: int,
    attribute: int,
    quoted: int,
    end: int,
    close: int,
)
    requires
        from <= bytes.len(),
        stands_first(bytes, font_open(), from, open),
        stands_first(bytes, color_attribute(), open, attribute),
        attribute + 6 < bytes.len(),
        bytes[attribute + 6] == 0x27 || bytes[attribute + 6] == 0x22,
        stands_first(bytes, seq![bytes[attribute + 6]], attribute + 7, quoted),
        color_is_readable(bytes.subrange(attribute + 7, quoted)),
        stands_first(bytes, tag_end(), open, end),
        stands_first(bytes, font_close(), end + 1, close),
    ensures
        ({
            let text = without_final_breaks(bytes.subrange(end + 1, close));
            let color = hex_color(bytes.subrange(attribute + 7, quoted));
            let before = if from < open {
                seq![Fragment { text: bytes.subrange(from, open), color: None }]
            } else {
                Seq::<Fragment>::empty()
            };
            let element = if text.len() > 0 {
                seq![Fragment { text, color }]
            } else {
                Seq::<Fragment>::empty()
            };
            fragments_from(bytes, from) == (match fragments_from(bytes, close + 7) {
                Some(later) => Some(before + element + later),
                None => None,
            })
        }),
{
    found_first(bytes, font_open(), from, open);
    tag_with_a_color(bytes, open, attribute, quoted, end);
    found_first(bytes, font_close(), end + 1, close);
    tags_lie_ahead(bytes, from);
}

/// An element that is never closed holds all that follows its tag, with every
/// line break.
pub proof fn unclosed_elements_hold_the_rest(
    bytes: Seq<u8>,
    from: int,
    open: int,
    attribute: int,
    quoted: int,
    end: int,
)
    requires
        from <= bytes.len(),
        stands_first(bytes, font_open(), from, open),
        stands_first(bytes, color_attribute(), open, attribute),
        attribute + 6 < bytes.len(),
        bytes[attribute + 6] == 0x27 || bytes[attribute + 6] == 0x22,
        stands_first(bytes, seq![bytes[attribute + 6]], attribute + 7, quoted),
        color_is_readable(bytes.subrange(attribute + 7, quoted)),
        stands_first(bytes, tag_end(), open, end),
        stands_nowhere(bytes, font_close(), end + 1),
    ensures
        ({
            let rest = Fragment {
                text: bytes.subrange(end + 1, bytes.len() as int),
                color: hex_color(bytes.subrange(attribute + 7, quoted)),
            };
            fragments_from(bytes, from) == Some(
                if from < open {
                    seq![Fragment { text: bytes.subrange(from, open), color: None }, rest]
                } else {
                    seq![rest]
                },
            )
        }),
{
    found_first(bytes, font_open(), from, open);
    tag_with_a_color(bytes, open, attribute, quoted, end);
    found_nowhere(bytes, font_close(), end + 1);
    tags_lie_ahead(bytes, from);
    let rest = Fragment {
        text: bytes.subrange(end + 1, bytes.len() as int),
        color: hex_color(bytes.subrange(attribute + 7, quoted)),
    };
    assert(plain(bytes, from, open) + seq![rest] =~= if from < open {
        seq![Fragment { text: bytes.subrange(from, open), color: None }, rest]
    } else {
        seq![rest]
    });
}

/// The fragments of a text are those of all its bytes.
pub proof fn contents_are_read_from_their_start(content: Seq<char>)
    ensures
        log_fragments(content) == fragments_from(encode_utf8(content), 0),
{
}

/// What a fragment holds is its text and its colour.
pub proof fn fragments_hold_their_text_and_color(fragments: Seq<LogFragment>, i: int)
    requires
        0 <= i < fragments.len(),
    ensures
        contents(fragments).len() == fragments.len(),
        contents(fragments)[i].text == encode_utf8(fragments[i].text@),
        contents(fragments)[i].color is Some <==> fragments[i].color is Some,
        fragments[i].color matches Some(rgb) ==> contents(fragments)[i].color == Some(rgb@),
{
}

/// Fragments whose colours are changed keep their number, their order and their
/// texts; what has no colour gets none, and each colour becomes what is made of
/// it and nothing else.
pub proof fn only_colors_are_changed<F: Fn([u8; 3]) -> [u8; 3]>(
    read: Seq<Fragment>,
    fragments: Seq<LogFragment>,
    remap: F,
    made: spec_fn(Seq<u8>) -> Seq<u8>,
    i: int,
)
    requires
        recolored(read, fragments, remap),
        forall|from: [u8; 3], to: [u8; 3]| #[trigger]
            call_ensures(remap, (from,), to) ==> to@ == made(from@),
    ensures
        fragments.len() == read.len(),
        0 <= i < read.len() ==> {
            &&& encode_utf8(fragments[i].text@) == read[i].text
            &&& read[i].color is None ==> fragments[i].color is None
            &&& read[i].color matches Some(rgb) ==> fragments[i].color matches Some(color)
                && color@ == made(rgb)
        },
{
    if 0 <= i < read.len() {
        assert(is_recolored(read[i], fragments[i], remap));
    }
}

/// Content is shown as it was read, fragment by fragment, with each colour made
/// into what is asked for; and it is shown wherever it can be read.
pub proof fn contents_are_shown_as_they_are_read<F: Fn([u8; 3]) -> [u8; 3]>(
    content: &str,
    remap: F,
    made: spec_fn(Seq<u8>) -> Seq<u8>,
    read: Option<Vec<LogFragment>>,
    shown: Option<Vec<LogFragment>>,
    i: int,
)
    requires
        call_ensures(read_fragments, (content,), read),
        call_ensures(read_log_content::<F>, (content, remap), shown),
        forall|from: [u8; 3], to: [u8; 3]| #[trigger]
            call_ensures(remap, (from,), to) ==> to@ == made(from@),
    ensures
        read is Some <==> shown is Some,
        read is Some <==> fragments_from(encode_utf8(content@), 0) is Some,
        read is Some && shown is Some ==> {
            let before = read->0@;
            let after = shown->0@;
            &&& after.len() == before.len()
            &&& 0 <= i < before.len() ==> {
                &&& after[i].text@ == before[i].text@
                &&& before[i].color is None ==> after[i].color is None
                &&& before[i].color is Some ==> after[i].color is Some && after[i].color->0@
                    == made(before[i].color->0@)
            }
        },
{
    if read is Some && shown is Some {
        let before = read->0@;
        let after = shown->0@;
        only_colors_are_changed(contents(before), after, remap, made, i);
        if 0 <= i < before.len() {
            fragments_hold_their_text_and_color(before, i);
            utf8_is_injective(after[i].text@, before[i].text@);
        }
    }
}

/// Parsing shows what reading shows, wherever the content can be read.
pub proof fn parsing_is_reading<F: Fn([u8; 3]) -> [u8; 3]>(
    content: &str,
    remap: F,
    made: spec_fn(Seq<u8>) -> Seq<u8>,
    read: Vec<LogFragment>,
    parsed: Vec<LogFragment>,
    i: int,
)
    requires
        call_ensures(read_fragments, (content,), Some(read)),
        call_ensures(parse_log_content::<F>, (content, remap), parsed),
        forall|from: [u8; 3], to: [u8; 3]| #[trigger]
            call_ensures(remap, (from,), to) ==> to@ == made(from@),
    ensures
        parsed@.len() == read@.len(),
        0 <= i < read@.len() ==> {
            &&& parsed@[i].text@ == read@[i].text@
            &&& read@[i].color is None ==> parsed@[i].color is None
            &&& read@[i].color is Some ==> parsed@[i].color is Some && parsed@[i].color->0@
                == made(read@[i].color->0@)
        },
{
    only_colors_are_changed(contents(read@), parsed@, remap, made, i);
    if 0 <= i < read@.len() {
        fragments_hold_their_text_and_color(read@, i);
        utf8_is_injective(parsed@[i].text@, read@[i].text@);
    }
}

/// A colour that is written in six digits, behind any number of number signs, is
/// read as the three numbers that it is written with.
pub proof fn hex_colors_are_read_as_written(
    text: &str,
    signs: Seq<u8>,
    hex: Seq<u8>,
    color: Option<[u8; 3]>,
)
    requires
        call_ensures(parse_hex_color, (text,), color),
        encode_utf8(text@) == signs + hex,
        forall|i: int| 0 <= i < signs.len() ==> #[trigger] signs[i] == 0x23,
        hex.len() > 0 ==> hex[0] != 0x23,
    ensures
        hex.len() != 6 ==> color is None,
        hex.len() == 6 ==> {
            &&& color is Some <==> hex_pair(hex[0], hex[1]) is Some && hex_pair(hex[2], hex[3])
                is Some && hex_pair(hex[4], hex[5]) is Some
            &&& color is Some ==> hex_pair(hex[0], hex[1]) == Some(color->0@[0]) && hex_pair(
                hex[2],
                hex[3],
            ) == Some(color->0@[1]) && hex_pair(hex[4], hex[5]) == Some(color->0@[2])
        },
{
    colors_are_three_pairs(signs, hex);
}

} // verus!
