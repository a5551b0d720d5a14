//! The screens that lie over the game, and what the game asks of the desktop.

use vstd::prelude::*;

use crate::config::State;
use crate::migration::MigrationSource;
use crate::text::same_text;

verus! {

/// A launcher whose data was found.
#[derive(Debug, PartialEq, Eq)]
pub struct MigratedSource {
    pub id: String,
    pub name: String,
}

impl Clone for MigratedSource {
    fn clone(&self) -> (source: Self)
        ensures
            source == *self,
    {
        MigratedSource { id: self.id.clone(), name: self.name.clone() }
    }
}

impl MigratedSource {
    /// A launcher as it is offered to the user.
    pub fn of(source: &MigrationSource) -> (migrated: Self)
        ensures
            migrated.id@ == source.id@,
            migrated.name@ == source.name@,
    {
        MigratedSource { id: source.id.to_owned(), name: source.name.to_owned() }
    }
}

/// The screen that is shown.
#[derive(Debug, PartialEq, Eq)]
pub enum Screen {
    Disclaimer,
    Setup { sources: Vec<MigratedSource> },
    Playing,
    Error { message: String },
}

/// A screen without what is written on it.
pub enum ScreenKind {
    Disclaimer,
    Setup,
    Playing,
    Error,
}

impl Screen {
    /// Which screen it is.
    pub open spec fn kind(&self) -> ScreenKind {
        match self {
            Screen::Disclaimer => ScreenKind::Disclaimer,
            Screen::Setup { .. } => ScreenKind::Setup,
            Screen::Playing => ScreenKind::Playing,
            Screen::Error { .. } => ScreenKind::Error,
        }
    }

    /// The launchers that are offered.
    pub open spec fn offered(&self) -> Seq<MigratedSource> {
        match self {
            Screen::Setup { sources } => sources@,
            _ => seq![],
        }
    }
}

/// The screen that comes first: the disclaimer until it is accepted, then the
/// offer of data that was found, until the user has chosen, then the game.
pub open spec fn first_screen(state: State, detected: Seq<MigratedSource>) -> ScreenKind {
    if !state.disclaimer_accepted {
        ScreenKind::Disclaimer
    } else if state.migration is None && detected.len() > 0 {
        ScreenKind::Setup
    } else {
        ScreenKind::Playing
    }
}

/// A copy of a list of launchers.
pub fn copy_sources(sources: &[MigratedSource]) -> (copy: Vec<MigratedSource>)
    ensures
        copy@ == sources@,
{
    let mut copy: Vec<MigratedSource> = Vec::new();
    let mut i: usize = 0;
    while i < sources.len()
        invariant
            i <= sources@.len(),
            copy@ == sources@.take(i as int),
        decreases sources@.len() - i,
    {
        copy.push(sources[i].clone());
        assert(sources@.take(i + 1) =~= sources@.take(i as int).push(sources@[i as int]));
        i += 1;
    }
    assert(sources@.take(sources@.len() as int) =~= sources@);
    copy
}

/// Decides which screen comes first.
pub fn initial_screen(state: &State, detected: &[MigratedSource]) -> (screen: Screen)
    ensures
        screen.kind() == first_screen(*state, detected@),
        screen.kind() == ScreenKind::Setup ==> screen.offered() == detected@,
{
    if !state.disclaimer_accepted {
        Screen::Disclaimer
    } else if state.migration.is_none() && detected.len() > 0 {
        Screen::Setup { sources: copy_sources(detected) }
    } else {
        Screen::Playing
    }
}

/// Nothing is offered and nothing is played before the disclaimer is accepted;
/// once it is and a choice has been kept, every later run starts with the game.
pub proof fn first_screens_follow_the_state(state: State, detected: Seq<MigratedSource>)
    ensures
        first_screen(state, detected) == ScreenKind::Disclaimer <==> !state.disclaimer_accepted,
        first_screen(state, detected) == ScreenKind::Setup ==> detected.len() > 0
            && state.migration is None,
        state.disclaimer_accepted && state.migration is Some ==> first_screen(state, detected)
            == ScreenKind::Playing,
        first_screen(state, detected) != ScreenKind::Error,
{
}

/// A pointer that the game asks for.
#[derive(Debug, Clone, Copy, PartialEq, Eq, Structural)]
pub enum MouseCursor {
    Arrow,
    Hand,
    IBeam,
    Grab,
}

/// A pointer of the desktop.
#[derive(Debug, Clone, Copy, PartialEq, Eq, Structural)]
pub enum CursorIcon {
    Default,
    Pointer,
    Text,
    Grab,
}

/// The desktop's pointer for one that the game asks for.
pub fn cursor_icon(cursor: MouseCursor) -> (icon: CursorIcon)
    ensures
        icon == (match cursor {
            MouseCursor::Arrow => CursorIcon::Default,
            MouseCursor::Hand => CursorIcon::Pointer,
            MouseCursor::IBeam => CursorIcon::Text,
            MouseCursor::Grab => CursorIcon::Grab,
        }),
{
    match cursor {
        MouseCursor::Arrow => CursorIcon::Default,
        MouseCursor::Hand => CursorIcon::Pointer,
        MouseCursor::IBeam => CursorIcon::Text,
        MouseCursor::Grab => CursorIcon::Grab,
    }
}

/// Whether the address of a video that cannot be played is opened in a browser:
/// not where its scheme would run a script.
pub fn unsupported_video_opens(scheme: &str) -> (opens: bool)
    ensures
        opens == (scheme@ != "javascript"@),
{
    !same_text(scheme, "javascript")
}

/// How a font leans.
#[derive(Debug, Clone, Copy, PartialEq, Eq, Structural)]
pub enum FontStyle {
    Normal,
    Italic,
    Oblique,
}

/// The weight of a font that is neither light nor bold.
pub const NORMAL_WEIGHT: u16 = 400;

/// The weight of a bold font.
pub const BOLD_WEIGHT: u16 = 700;

/// The weight and style that are looked for.
pub fn font_query(is_bold: bool, is_italic: bool) -> (query: (u16, FontStyle))
    ensures
        query.0 == (if is_bold {
            700u16
        } else {
            400
        }),
        query.1 == (if is_italic {
            FontStyle::Italic
        } else {
            FontStyle::Normal
        }),
{
    (
        if is_bold {
            BOLD_WEIGHT
        } else {
            NORMAL_WEIGHT
        },
        if is_italic {
            FontStyle::Italic
        } else {
            FontStyle::Normal
        },
    )
}

/// Whether a font that was found is bold, and whether it leans.
pub fn face_attributes(weight: u16, style: FontStyle) -> (attributes: (bool, bool))
    ensures
        attributes.0 == (weight > 400),
        attributes.1 == (style != FontStyle::Normal),
{
    (weight > NORMAL_WEIGHT, style != FontStyle::Normal)
}

/// The first screen is the offer exactly where there is something to offer that
/// the user has not chosen about, and the game exactly where nothing is left to
/// be asked.
pub proof fn first_screens_ask_what_is_left(state: State, detected: Seq<MigratedSource>)
    ensures
        first_screen(state, detected) == ScreenKind::Setup <==> state.disclaimer_accepted
            && state.migration is None && detected.len() > 0,
        first_screen(state, detected) == ScreenKind::Playing <==> state.disclaimer_accepted && (
        state.migration is Some || detected.len() == 0),
{
}

/// A screen is of its own kind, and only the offer offers launchers.
pub proof fn screens_are_of_their_kind(screen: Screen)
    ensures
        screen is Disclaimer <==> screen.kind() == ScreenKind::Disclaimer,
        screen is Setup <==> screen.kind() == ScreenKind::Setup,
        screen is Playing <==> screen.kind() == ScreenKind::Playing,
        screen is Error <==> screen.kind() == ScreenKind::Error,
        screen matches Screen::Setup { sources } ==> screen.offered() == sources@,
        !(screen is Setup) ==> screen.offered().len() == 0,
{
}

/// What the first screen offers is what was found, and it offers it exactly where
/// the disclaimer is accepted and no choice is kept.
pub proof fn first_screens_offer_what_was_found(
    state: &State,
    detected: &[MigratedSource],
    screen: Screen,
)
    requires
        call_ensures(initial_screen, (state, detected), screen),
    ensures
        screen is Disclaimer <==> !state.disclaimer_accepted,
        screen is Setup <==> state.disclaimer_accepted && state.migration is None && detected@.len()
            > 0,
        !(screen is Error),
        screen matches Screen::Setup { sources } ==> sources@ == detected@,
{
}

/// Each pointer that the game asks for has one of its own on the desktop.
pub proof fn pointers_are_told_apart(
    a: MouseCursor,
    b: MouseCursor,
    first: CursorIcon,
    second: CursorIcon,
)
    requires
        call_ensures(cursor_icon, (a,), first),
        call_ensures(cursor_icon, (b,), second),
    ensures
        first == second <==> a == b,
        a == MouseCursor::Arrow ==> first == CursorIcon::Default,
        a == MouseCursor::Hand ==> first == CursorIcon::Pointer,
        a == MouseCursor::IBeam ==> first == CursorIcon::Text,
        a == MouseCursor::Grab ==> first == CursorIcon::Grab,
{
}

/// No video's address runs a script; every other one is opened.
pub proof fn scripts_are_not_opened(scheme: &str, opens: bool)
    requires
        call_ensures(unsupported_video_opens, (scheme,), opens),
    ensures
        !opens <==> scheme@ == "javascript"@,
{
}

/// A font that is just what was looked for is seen to be bold or to lean exactly
/// where that was looked for.
pub proof fn fonts_are_what_was_looked_for(
    bold: bool,
    italic: bool,
    query: (u16, FontStyle),
    found: (bool, bool),
)
    requires
        call_ensures(font_query, (bold, italic), query),
        call_ensures(face_attributes, (query.0, query.1), found),
    ensures
        found.0 == bold,
        found.1 == italic,
        query.0 == if bold {
            700int
        } else {
            400
        },
        italic ==> query.1 == FontStyle::Italic,
{
}

/// A font is bold above the normal weight, and leans unless it is upright.
pub proof fn faces_are_bold_above_the_normal_weight(
    weight: u16,
    style: FontStyle,
    found: (bool, bool),
)
    requires
        call_ensures(face_attributes, (weight, style), found),
    ensures
        found.0 <==> weight > 400,
        found.1 <==> style == FontStyle::Italic || style == FontStyle::Oblique,
{
}

} // verus!
