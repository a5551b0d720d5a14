//! Clicking cutscenes away: finding a visible prompt to continue, and the
//! clicks that answer it.

use vstd::prelude::*;
use vstd::string::*;
use vstd::utf8::*;

use crate::text::{find_from, first_occurrence, first_occurrence_is_least, occurs_at};

verus! {

/// What the prompt says.
pub const CUTSCENE_CONTINUE_TEXT: &'static str = "click anywhere to continue";

/// `str::to_lowercase` of a text.
pub uninterp spec fn lowercase(text: Seq<char>) -> Seq<char>;

/// `str::to_lowercase`: the text in lower case.
#[verifier::external_body]
fn to_lowercase(text: &str) -> (lower: String)
    ensures
        lower@ == lowercase(text@),
{
    text.to_lowercase()
}

/// A text in lower case holds the prompt.
pub open spec fn holds_prompt(lower: Seq<char>) -> bool {
    first_occurrence(encode_utf8(lower), encode_utf8(CUTSCENE_CONTINUE_TEXT@), 0) is Some
}

/// Whether a text in lower case holds the prompt.
pub fn contains_prompt(lower: &str) -> (yes: bool)
    ensures
        yes == holds_prompt(lower@),
{
    find_from(lower.as_bytes(), CUTSCENE_CONTINUE_TEXT.as_bytes(), 0).is_some()
}

/// Whether a text holds the prompt, in whatever case.
pub fn matches_continue_text(text: &str) -> (yes: bool)
    ensures
        yes == holds_prompt(lowercase(text@)),
{
    let lower = to_lowercase(text);
    contains_prompt(lower.as_str())
}

/// An object on the stage: whether it is visible, the text that it shows as a
/// static or an editable text, and the objects within it.
pub struct DisplayObject {
    pub visible: bool,
    pub text: Option<String>,
    pub edit_text: Option<String>,
    pub children: Vec<DisplayObject>,
}

/// The object shows the prompt.
pub open spec fn says_prompt(text: Option<String>) -> bool {
    text matches Some(t) && holds_prompt(lowercase(t@))
}

/// The object is visible, and it or a visible object within it shows the
/// prompt.
pub open spec fn shows_prompt(object: DisplayObject) -> bool
    decreases object,
{
    object.visible && (says_prompt(object.text) || says_prompt(object.edit_text) || exists|i: int|
        0 <= i < object.children@.len() && shows_prompt(#[trigger] object.children@[i]))
}

/// One of the objects shows the prompt.
pub open spec fn any_shows_prompt(objects: Seq<DisplayObject>) -> bool {
    exists|i: int| 0 <= i < objects.len() && shows_prompt(#[trigger] objects[i])
}

fn text_matches(text: &Option<String>) -> (yes: bool)
    ensures
        yes == says_prompt(*text),
{
    match text {
        Some(t) => matches_continue_text(t.as_str()),
        None => false,
    }
}

/// Looks for the prompt, depth first. What lies within an invisible object is
/// not looked at.
pub fn contains_continue_text(objects: &Vec<DisplayObject>) -> (yes: bool)
    ensures
        yes == any_shows_prompt(objects@),
    decreases objects,
{
    let mut i: usize = 0;
    while i < objects.len()
        invariant
            i <= objects@.len(),
            forall|j: int| 0 <= j < i ==> !shows_prompt(#[trigger] objects@[j]),
        decreases objects@.len() - i,
    {
        let object = &objects[i];
        if object.visible && (text_matches(&object.text) || text_matches(&object.edit_text)
            || contains_continue_text(&object.children)) {
            assert(shows_prompt(objects@[i as int]));
            return true;
        }
        i += 1;
    }
    false
}

/// Nothing that is hidden is found: a prompt within an invisible object does
/// not count.
pub proof fn invisible_prompts_do_not_count(object: DisplayObject)
    requires
        !object.visible,
    ensures
        !shows_prompt(object),
{
}

/// An event of the mouse that the player is given.
#[derive(Debug, Clone, Copy, PartialEq, Eq, Structural)]
pub enum Click {
    /// The left button goes down on the middle of the stage.
    Down,
    /// It goes up there.
    Up,
    /// The pointer is put back where the user's own is.
    MoveBack,
}

/// The events that answer the prompt.
pub open spec fn clicks(enabled: bool, prompt: bool, cursor_known: bool) -> Seq<Click> {
    if enabled && prompt {
        if cursor_known {
            seq![Click::Down, Click::Up, Click::MoveBack]
        } else {
            seq![Click::Down, Click::Up]
        }
    } else {
        seq![]
    }
}

/// Decides on the events that the player is given in a frame: a click where the
/// prompt is seen, and then the user's own pointer again where it is known.
pub fn auto_click_if_needed(enabled: bool, prompt: bool, cursor_known: bool) -> (events: Vec<Click>)
    ensures
        events@ == clicks(enabled, prompt, cursor_known),
{
    let mut events: Vec<Click> = Vec::new();
    if enabled && prompt {
        events.push(Click::Down);
        events.push(Click::Up);
        if cursor_known {
            events.push(Click::MoveBack);
        }
    }
    assert(events@ =~= clicks(enabled, prompt, cursor_known));
    events
}

/// A button that goes down goes up again, and the pointer is left where the
/// user has it.
pub proof fn clicks_are_complete(enabled: bool, prompt: bool, cursor_known: bool)
    ensures
        ({
            let events = clicks(enabled, prompt, cursor_known);
            &&& events.contains(Click::Down) <==> enabled && prompt
            &&& forall|i: int|
                0 <= i < events.len() && #[trigger] events[i] == Click::Down ==> i + 1
                    < events.len() && events[i + 1] == Click::Up
            &&& events.len() > 0 && cursor_known ==> events.last() == Click::MoveBack
        }),
{
    let events = clicks(enabled, prompt, cursor_known);
    if enabled && prompt {
        assert(events[0] == Click::Down);
    }
}

/// A text holds the prompt exactly where the prompt's bytes stand somewhere
/// between others.
pub proof fn prompts_stand_within_texts(lower: Seq<char>)
    ensures
        holds_prompt(lower) <==> exists|before: Seq<u8>, after: Seq<u8>|
            encode_utf8(lower) == #[trigger] (before + encode_utf8("click anywhere to continue"@)
                + after),
{
    let bytes = encode_utf8(lower);
    let prompt = encode_utf8("click anywhere to continue"@);
    first_occurrence_is_least(bytes, prompt, 0);
    if let Some(at) = first_occurrence(bytes, prompt, 0) {
        let before = bytes.take(at);
        let after = bytes.skip(at + prompt.len());
        assert(bytes =~= before + bytes.subrange(at, at + prompt.len()) + after);
        assert(bytes == before + prompt + after);
    }
    if exists|before: Seq<u8>, after: Seq<u8>| bytes == #[trigger] (before + prompt + after) {
        let (before, after) = choose|before: Seq<u8>, after: Seq<u8>|
            bytes == #[trigger] (before + prompt + after);
        let at = before.len() as int;
        assert(bytes.subrange(at, at + prompt.len()) =~= prompt);
        assert(occurs_at(bytes, prompt, at));
    }
}

/// The prompt is seen on a visible object that says it in either of its texts,
/// and through any number of visible objects around one on which it is seen; an
/// object that neither says it nor holds one on which it is seen does not show
/// it.
pub proof fn prompts_are_seen_through_visible_objects(object: DisplayObject, i: int)
    ensures
        object.visible && (object.text matches Some(text) && holds_prompt(lowercase(text@)))
            ==> shows_prompt(object),
        object.visible && (object.edit_text matches Some(text) && holds_prompt(lowercase(text@)))
            ==> shows_prompt(object),
        object.visible && 0 <= i < object.children@.len() && shows_prompt(object.children@[i])
            ==> shows_prompt(object),
        !(object.text matches Some(text) && holds_prompt(lowercase(text@))) && !(
        object.edit_text matches Some(text) && holds_prompt(lowercase(text@))) && (forall|j: int|
            0 <= j < object.children@.len() ==> !shows_prompt(#[trigger] object.children@[j]))
            ==> !shows_prompt(object),
{
}

/// The prompt is seen among objects exactly where it is seen on one of them.
pub proof fn prompts_are_seen_on_any_object(objects: Seq<DisplayObject>, i: int)
    ensures
        0 <= i < objects.len() && shows_prompt(objects[i]) ==> any_shows_prompt(objects),
        (forall|j: int| 0 <= j < objects.len() ==> !shows_prompt(#[trigger] objects[j]))
            ==> !any_shows_prompt(objects),
{
}

/// The prompt is answered by one click, once, and by nothing else.
pub proof fn prompts_are_answered_once(enabled: bool, prompt: bool, cursor_known: bool)
    ensures
        ({
            let events = clicks(enabled, prompt, cursor_known);
            &&& !enabled || !prompt ==> events.len() == 0
            &&& enabled && prompt ==> {
                &&& events.len() == 2 + if cursor_known {
                    1int
                } else {
                    0
                }
                &&& events[0] == Click::Down
                &&& events[1] == Click::Up
                &&& cursor_known ==> events[2] == Click::MoveBack
            }
        }),
{
}

/// A frame is answered with one click where the prompt is seen and clicking is
/// switched on, after which the user's own pointer is put back where it is known.
pub proof fn frames_are_answered_with_one_click(
    enabled: bool,
    prompt: bool,
    known: bool,
    events: Vec<Click>,
)
    requires
        call_ensures(auto_click_if_needed, (enabled, prompt, known), events),
    ensures
        !(enabled && prompt) ==> events@.len() == 0,
        enabled && prompt && known ==> events@ == seq![Click::Down, Click::Up, Click::MoveBack],
        enabled && prompt && !known ==> events@ == seq![Click::Down, Click::Up],
{
}

/// The prompt is found in whatever case it is written.
pub proof fn prompts_are_found_in_any_case(a: &str, b: &str, in_a: bool, in_b: bool)
    requires
        call_ensures(matches_continue_text, (a,), in_a),
        call_ensures(matches_continue_text, (b,), in_b),
        lowercase(a@) == lowercase(b@),
    ensures
        in_a == in_b,
        in_a <==> exists|before: Seq<u8>, after: Seq<u8>|
            encode_utf8(lowercase(a@)) == #[trigger] (before + encode_utf8(
                "click anywhere to continue"@,
            ) + after),
{
    prompts_stand_within_texts(lowercase(a@));
}

} // verus!
