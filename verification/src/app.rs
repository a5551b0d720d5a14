//! The launcher: which screen is shown, what input reaches the game, and what
//! the program around this library is to do next.

use vstd::prelude::*;
use vstd::string::*;

use crate::config::{MigrationChoice, State};
use crate::log_window::{PresentMode, SurfaceConfiguration, SurfaceFormat};
use crate::migration::MigrationSource;
use crate::text::same_text;
use crate::ui::{first_screen, initial_screen, MigratedSource, Screen, ScreenKind};

verus! {

/// For how many nanoseconds a toast is shown.
pub const TOAST_DURATION: u64 = 3_000_000_000;

/// In how many nanoseconds at the end of that a toast fades.
pub const TOAST_FADE_DURATION: u64 = 450_000_000;

/// After how many nanoseconds a toast is drawn again.
pub const TOAST_REDRAW_INTERVAL: u64 = 16_000_000;

/// The width of a new window, in pixels.
pub const WINDOW_WIDTH: u32 = 1280;

/// The height of a new window, in pixels.
pub const WINDOW_HEIGHT: u32 = 800;

/// A short message that lies over the screen for a while. Times are counted in
/// nanoseconds from some fixed moment.
#[derive(Debug)]
pub struct Toast {
    pub message: String,
    pub shown_at: u64,
}

/// How long after `start` it is at `now`; nothing where `now` is earlier.
pub open spec fn elapsed(start: u64, now: u64) -> int {
    if now >= start {
        now - start
    } else {
        0
    }
}

fn time_since(start: u64, now: u64) -> (time: u64)
    ensures
        time == elapsed(start, now),
{
    if now >= start {
        now - start
    } else {
        0
    }
}

/// How much of its fading a toast has behind it that has been shown for so long.
pub open spec fn fading(shown: int) -> int {
    if shown <= TOAST_DURATION - TOAST_FADE_DURATION {
        0
    } else if shown >= TOAST_DURATION {
        TOAST_FADE_DURATION as int
    } else {
        shown - (TOAST_DURATION - TOAST_FADE_DURATION)
    }
}

/// A toast fades steadily once it has begun to, and has faded when its time is
/// over and no earlier.
pub proof fn toasts_fade_until_they_expire(shown: int, later: int)
    requires
        0 <= shown <= later,
    ensures
        0 <= fading(shown) <= fading(later) <= TOAST_FADE_DURATION,
        fading(shown) == TOAST_FADE_DURATION <==> shown >= TOAST_DURATION,
        fading(shown) == 0 <==> shown <= TOAST_DURATION - TOAST_FADE_DURATION,
{
}

impl Toast {
    /// Whether the toast has been shown for long enough.
    pub fn expired(&self, now: u64) -> (yes: bool)
        ensures
            yes == (elapsed(self.shown_at, now) >= TOAST_DURATION),
    {
        time_since(self.shown_at, now) >= TOAST_DURATION
    }

    /// How much of its fading the toast has behind it, of
    /// `TOAST_FADE_DURATION`.
    pub fn faded(&self, now: u64) -> (time: u64)
        ensures
            time == fading(elapsed(self.shown_at, now)),
    {
        let shown: u64 = time_since(self.shown_at, now);
        let fade_start: u64 = TOAST_DURATION - TOAST_FADE_DURATION;
        if shown <= fade_start {
            0
        } else if shown >= TOAST_DURATION {
            TOAST_FADE_DURATION
        } else {
            shown - fade_start
        }
    }
}

/// What can be chosen in the launcher's menu.
#[derive(Debug, Clone, Copy, PartialEq, Eq, Structural)]
pub enum LauncherAction {
    ToggleFullscreen,
    ClearCache,
}

/// What can be chosen on the error screen.
#[derive(Debug, Clone, Copy, PartialEq, Eq, Structural)]
pub enum ErrorAction {
    Retry,
    Quit,
}

/// What the user has done to the launcher's menu in a frame.
#[derive(Debug, Clone, Copy, PartialEq, Eq, Structural)]
pub struct LauncherClicks {
    /// The button that opens the menu was clicked.
    pub trigger: bool,
    /// The menu's entry for the full screen was clicked.
    pub fullscreen: bool,
    /// The menu's entry for the cache was clicked.
    pub clear_cache: bool,
    /// A button of the mouse went down outside both the menu and its button.
    pub pressed_outside: bool,
}

/// What the launcher's menu asks for.
#[derive(Debug, Clone, Copy, PartialEq, Eq, Structural)]
pub struct LauncherResponse {
    pub action: Option<LauncherAction>,
    pub set_open: Option<bool>,
}

/// What the menu asks for. Its entries count only while it is open; choosing
/// one closes it, and so does a click beside it.
pub open spec fn launcher_answer(open: bool, clicks: LauncherClicks) -> LauncherResponse {
    let action = if open && clicks.fullscreen {
        Some(LauncherAction::ToggleFullscreen)
    } else if open && clicks.clear_cache {
        Some(LauncherAction::ClearCache)
    } else {
        None
    };
    LauncherResponse {
        action,
        set_open: if action is Some || (open && clicks.pressed_outside) {
            Some(false)
        } else if clicks.trigger {
            Some(!open)
        } else {
            None
        },
    }
}

/// Decides what the launcher's menu asks for.
pub fn launcher_ui(open: bool, clicks: LauncherClicks) -> (response: LauncherResponse)
    ensures
        response == launcher_answer(open, clicks),
{
    let mut response = LauncherResponse { action: None, set_open: None };
    if clicks.trigger {
        response.set_open = Some(!open);
    }
    if open {
        if clicks.fullscreen {
            response.action = Some(LauncherAction::ToggleFullscreen);
            response.set_open = Some(false);
        } else if clicks.clear_cache {
            response.action = Some(LauncherAction::ClearCache);
            response.set_open = Some(false);
        }
        if clicks.pressed_outside {
            response.set_open = Some(false);
        }
    }
    response
}

/// What the menu's entry for the full screen says.
pub fn fullscreen_label(fullscreen: bool) -> (label: &'static str)
    ensures
        label@ == (if fullscreen {
            "Exit fullscreen"@
        } else {
            "Fullscreen"@
        }),
{
    if fullscreen {
        "Exit fullscreen"
    } else {
        "Fullscreen"
    }
}

/// The last launcher whose button was clicked, of the first `n`.
pub open spec fn last_clicked(clicked: Seq<bool>, n: int) -> Option<int>
    decreases n,
{
    if n <= 0 {
        None
    } else if clicked[n - 1] {
        Some(n - 1)
    } else {
        last_clicked(clicked, n - 1)
    }
}

/// What the user has chosen on the setup screen: `Some(None)` where nothing is
/// to be copied, `None` where nothing was chosen yet.
pub fn setup_ui(clicked: &Vec<bool>, declined: bool) -> (choice: Option<Option<usize>>)
    ensures
        match choice {
            Some(None) => declined,
            Some(Some(index)) => !declined && last_clicked(clicked@, clicked@.len() as int) == Some(
                index as int,
            ),
            None => !declined && last_clicked(clicked@, clicked@.len() as int) is None,
        },
{
    if declined {
        return Some(None);
    }
    let mut n: usize = clicked.len();
    while n > 0
        invariant
            n <= clicked@.len(),
            !declined,
            last_clicked(clicked@, clicked@.len() as int) == last_clicked(clicked@, n as int),
        decreases n,
    {
        if clicked[n - 1] {
            return Some(Some(n - 1));
        }
        n -= 1;
    }
    None
}

/// What the user has chosen on the error screen. Trying again is offered only
/// where there is a player to try it with.
pub fn error_ui(can_retry: bool, retry_clicked: bool, quit_clicked: bool) -> (action: Option<
    ErrorAction,
>)
    ensures
        action == (if quit_clicked {
            Some(ErrorAction::Quit)
        } else if can_retry && retry_clicked {
            Some(ErrorAction::Retry)
        } else {
            None
        }),
{
    if quit_clicked {
        Some(ErrorAction::Quit)
    } else if can_retry && retry_clicked {
        Some(ErrorAction::Retry)
    } else {
        None
    }
}

/// Whether the movie's viewport has to be set anew: it has no texture yet, or
/// its size or scale is not that of the one that is shown.
pub fn viewport_needs_update(
    has_texture: bool,
    movie_target_size: Option<(u32, u32)>,
    same_scale_factor: bool,
    size: (u32, u32),
) -> (yes: bool)
    ensures
        yes == (!has_texture || movie_target_size != Some(size) || !same_scale_factor),
{
    let same_size = match movie_target_size {
        Some(target) => target.0 == size.0 && target.1 == size.1,
        None => false,
    };
    !has_texture || !same_size || !same_scale_factor
}

/// Whether the user's choice about other launchers' data is kept: not where the
/// copying has failed, so that it is offered again.
pub fn should_persist_migration(result: &Option<Result<usize, ()>>) -> (yes: bool)
    ensures
        yes == !(result matches Some(Err(_))),
{
    match result {
        Some(Err(_)) => false,
        _ => true,
    }
}

/// The configuration of the game window's surface, where it has a size.
pub fn reconfigure_surface(format: SurfaceFormat, width: u32, height: u32) -> (config: Option<
    SurfaceConfiguration,
>)
    ensures
        config == (if width == 0 || height == 0 {
            None
        } else {
            Some(
                SurfaceConfiguration {
                    format,
                    width,
                    height,
                    present_mode: PresentMode::AutoVsync,
                    desired_maximum_frame_latency: 2,
                },
            )
        }),
{
    if width == 0 || height == 0 {
        return None;
    }
    Some(
        SurfaceConfiguration {
            format,
            width,
            height,
            present_mode: PresentMode::AutoVsync,
            desired_maximum_frame_latency: 2,
        },
    )
}

/// What became of the attempt to get a frame.
#[derive(Debug, Clone, Copy, PartialEq, Eq, Structural)]
pub enum CurrentSurface {
    Success,
    Suboptimal,
    Lost,
    Outdated,
    Timeout,
    Occluded,
    Validation,
}

/// What is done about a frame.
#[derive(Debug, Clone, Copy, PartialEq, Eq, Structural)]
pub enum SurfaceStep {
    Draw,
    /// Configure the surface anew and ask for another frame, since nothing else
    /// will.
    ReconfigureAndRedraw,
    Skip,
}

/// Decides what is done about a frame.
pub fn surface_step(surface: CurrentSurface) -> (step: SurfaceStep)
    ensures
        step == (match surface {
            CurrentSurface::Success => SurfaceStep::Draw,
            CurrentSurface::Suboptimal => SurfaceStep::Draw,
            CurrentSurface::Lost => SurfaceStep::ReconfigureAndRedraw,
            CurrentSurface::Outdated => SurfaceStep::ReconfigureAndRedraw,
            CurrentSurface::Timeout => SurfaceStep::Skip,
            CurrentSurface::Occluded => SurfaceStep::Skip,
            CurrentSurface::Validation => SurfaceStep::Skip,
        }),
{
    match surface {
        CurrentSurface::Success => SurfaceStep::Draw,
        CurrentSurface::Suboptimal => SurfaceStep::Draw,
        CurrentSurface::Lost => SurfaceStep::ReconfigureAndRedraw,
        CurrentSurface::Outdated => SurfaceStep::ReconfigureAndRedraw,
        CurrentSurface::Timeout => SurfaceStep::Skip,
        CurrentSurface::Occluded => SurfaceStep::Skip,
        CurrentSurface::Validation => SurfaceStep::Skip,
    }
}

/// What the program holds, in the order in which it lets go of it.
#[derive(Debug, Clone, Copy, PartialEq, Eq, Structural)]
pub enum Resource {
    Player,
    Runtime,
    EguiRenderer,
    MovieTarget,
    EguiWinit,
    Surface,
    Descriptors,
    Window,
}

/// The order in which the program lets go of what it holds.
pub open spec fn shutdown_order() -> Seq<Resource> {
    seq![
        Resource::Player,
        Resource::Runtime,
        Resource::EguiRenderer,
        Resource::MovieTarget,
        Resource::EguiWinit,
        Resource::Surface,
        Resource::Descriptors,
        Resource::Window,
    ]
}

/// The order in which the program lets go of what it holds: the player while
/// its runtime is still there, and the window after the surface that was made
/// from it.
pub fn shutdown() -> (order: Vec<Resource>)
    ensures
        order@ == shutdown_order(),
{
    let mut order: Vec<Resource> = Vec::new();
    order.push(Resource::Player);
    order.push(Resource::Runtime);
    order.push(Resource::EguiRenderer);
    order.push(Resource::MovieTarget);
    order.push(Resource::EguiWinit);
    order.push(Resource::Surface);
    order.push(Resource::Descriptors);
    order.push(Resource::Window);
    assert(order@ =~= shutdown_order());
    order
}

/// The player goes before its runtime, the window goes last, and nothing goes
/// twice.
pub proof fn shutdown_respects_owners()
    ensures
        shutdown_order()[0] == Resource::Player,
        shutdown_order()[1] == Resource::Runtime,
        shutdown_order().last() == Resource::Window,
        shutdown_order().no_duplicates(),
{
}

/// The launchers whose data was found, of those from `k` on.
pub open spec fn offered_from(sources: Seq<MigrationSource>, has_data: Seq<bool>, k: int) -> Seq<
    (Seq<char>, Seq<char>),
>
    decreases sources.len() - k,
{
    if k < 0 || k >= sources.len() {
        seq![]
    } else if k < has_data.len() && has_data[k] {
        seq![(sources[k].id@, sources[k].name@)] + offered_from(sources, has_data, k + 1)
    } else {
        offered_from(sources, has_data, k + 1)
    }
}

/// The names under which launchers are offered.
pub open spec fn names_of(sources: Seq<MigratedSource>) -> Seq<(Seq<char>, Seq<char>)> {
    sources.map_values(|source: MigratedSource| (source.id@, source.name@))
}

/// The launchers that are offered: those of which data was found.
pub fn detected_sources(sources: &Vec<MigrationSource>, has_data: &Vec<bool>) -> (detected: Vec<
    MigratedSource,
>)
    ensures
        names_of(detected@) == offered_from(sources@, has_data@, 0),
{
    let mut detected: Vec<MigratedSource> = Vec::new();
    let mut k: usize = 0;
    assert(names_of(detected@) + offered_from(sources@, has_data@, 0) =~= offered_from(
        sources@,
        has_data@,
        0,
    ));
    while k < sources.len()
        invariant
            k <= sources@.len(),
            offered_from(sources@, has_data@, 0) == names_of(detected@) + offered_from(
                sources@,
                has_data@,
                k as int,
            ),
        decreases sources@.len() - k,
    {
        let ghost before = names_of(detected@);
        if k < has_data.len() && has_data[k] {
            let next = MigratedSource::of(&sources[k]);
            let ghost name = (next.id@, next.name@);
            detected.push(next);
            proof {
                let rest = offered_from(sources@, has_data@, k + 1);
                assert(names_of(detected@) =~= before.push(name));
                assert(before + (seq![name] + rest) =~= names_of(detected@) + rest);
            }
        }
        k += 1;
    }
    assert(names_of(detected@) + offered_from(sources@, has_data@, k as int) =~= names_of(
        detected@,
    ));
    detected
}

/// The first launcher of the given id, from `k` on.
pub open spec fn source_from(sources: Seq<MigrationSource>, id: Seq<char>, k: int) -> Option<int>
    decreases sources.len() - k,
{
    if k < 0 || k >= sources.len() {
        None
    } else if sources[k].id@ == id {
        Some(k)
    } else {
        source_from(sources, id, k + 1)
    }
}

/// Finds the launcher of the given id.
pub fn source_index(sources: &Vec<MigrationSource>, id: &str) -> (index: Option<usize>)
    ensures
        match index {
            Some(k) => source_from(sources@, id@, 0) == Some(k as int) && k < sources@.len(),
            None => source_from(sources@, id@, 0) is None,
        },
{
    let mut k: usize = 0;
    while k < sources.len()
        invariant
            k <= sources@.len(),
            source_from(sources@, id@, 0) == source_from(sources@, id@, k as int),
        decreases sources@.len() - k,
    {
        if same_text(sources[k].id, id) {
            return Some(k);
        }
        k += 1;
    }
    None
}

/// A button of the mouse.
#[derive(Debug, Clone, Copy, PartialEq, Eq, Structural)]
pub enum MouseButton {
    Left,
    Right,
    Middle,
    Other,
}

/// What an input method does.
#[derive(Debug, Clone, Copy, PartialEq, Eq, Structural)]
pub enum ImeKind {
    Enabled,
    Preedit,
    Commit,
    Disabled,
}

/// What happens to the game window.
#[derive(Debug)]
pub enum AppEvent {
    RedrawRequested,
    CloseRequested,
    Resized { width: u32, height: u32 },
    ScaleFactorChanged,
    ModifiersChanged,
    /// A key: whether it is F11, whether it goes down, whether it is held, and
    /// what it types: a control code, or a text.
    Key { f11: bool, pressed: bool, repeat: bool, control: bool, text: Option<String> },
    /// The pointer has moved, and lies over the launcher's menu or its button
    /// or does not.
    CursorMoved { over_launcher: bool },
    MouseInput { pressed: bool, button: MouseButton },
    MouseWheel,
    CursorEntered,
    CursorLeft,
    Focused(bool),
    Ime(ImeKind),
    Other,
}

/// What the player is told.
#[derive(Debug, Clone, Copy, PartialEq, Eq, Structural)]
pub enum PlayerInput {
    MouseMove,
    MouseDown(MouseButton),
    MouseUp(MouseButton),
    MouseWheel,
    /// The pointer is on the stage, or is not.
    MouseInStage(bool),
    MouseLeave,
    FocusGained,
    FocusLost,
    KeyDown,
    KeyUp,
    TextControl,
    /// A character is typed, by its code point.
    TextInput(u32),
    ImePreedit,
    ImeCommit,
}

/// What the player is told of an event.
pub open spec fn inputs_of(event: AppEvent) -> Seq<PlayerInput> {
    match event {
        AppEvent::CursorMoved { .. } => seq![PlayerInput::MouseMove],
        AppEvent::MouseInput { pressed, button } => if pressed {
            seq![PlayerInput::MouseDown(button)]
        } else {
            seq![PlayerInput::MouseUp(button)]
        },
        AppEvent::MouseWheel => seq![PlayerInput::MouseWheel],
        AppEvent::CursorEntered => seq![PlayerInput::MouseInStage(true)],
        AppEvent::CursorLeft => seq![PlayerInput::MouseInStage(false), PlayerInput::MouseLeave],
        AppEvent::Focused(focused) => if focused {
            seq![PlayerInput::FocusGained]
        } else {
            seq![PlayerInput::FocusLost]
        },
        AppEvent::Key { pressed, control, text, .. } => if !pressed {
            seq![PlayerInput::KeyUp]
        } else if control {
            seq![PlayerInput::KeyDown, PlayerInput::TextControl]
        } else {
            seq![PlayerInput::KeyDown] + (match text {
                Some(typed) => typed@.map_values(|c: char| PlayerInput::TextInput(c as u32)),
                None => seq![],
            })
        },
        AppEvent::Ime(ImeKind::Preedit) => seq![PlayerInput::ImePreedit],
        AppEvent::Ime(ImeKind::Commit) => seq![PlayerInput::ImeCommit],
        _ => seq![],
    }
}

fn typed_inputs(typed: &str) -> (inputs: Vec<PlayerInput>)
    ensures
        inputs@ == typed@.map_values(|c: char| PlayerInput::TextInput(c as u32)),
{
    let mut inputs: Vec<PlayerInput> = Vec::new();
    for c in it: typed.chars()
        invariant
            it.seq() == typed@,
            inputs@ == typed@.take(it.index() as int).map_values(
                |c: char| PlayerInput::TextInput(c as u32),
            ),
    {
        inputs.push(PlayerInput::TextInput(c as u32));
    }
    assert(typed@.take(typed@.len() as int) =~= typed@);
    inputs
}

/// Decides what the player is told of an event.
pub fn player_inputs(event: &AppEvent) -> (inputs: Vec<PlayerInput>)
    ensures
        inputs@ == inputs_of(*event),
{
    let mut inputs: Vec<PlayerInput> = Vec::new();
    match event {
        AppEvent::CursorMoved { .. } => {
            inputs.push(PlayerInput::MouseMove);
        },
        AppEvent::MouseInput { pressed, button } => {
            if *pressed {
                inputs.push(PlayerInput::MouseDown(*button));
            } else {
                inputs.push(PlayerInput::MouseUp(*button));
            }
        },
        AppEvent::MouseWheel => {
            inputs.push(PlayerInput::MouseWheel);
        },
        AppEvent::CursorEntered => {
            inputs.push(PlayerInput::MouseInStage(true));
        },
        AppEvent::CursorLeft => {
            inputs.push(PlayerInput::MouseInStage(false));
            inputs.push(PlayerInput::MouseLeave);
        },
        AppEvent::Focused(focused) => {
            if *focused {
                inputs.push(PlayerInput::FocusGained);
            } else {
                inputs.push(PlayerInput::FocusLost);
            }
        },
        AppEvent::Key { pressed, control, text, .. } => {
            if !*pressed {
                inputs.push(PlayerInput::KeyUp);
            } else {
                inputs.push(PlayerInput::KeyDown);
                if *control {
                    inputs.push(PlayerInput::TextControl);
                } else if let Some(typed) = text {
                    let mut letters = typed_inputs(typed.as_str());
                    inputs.append(&mut letters);
                }
            }
        },
        AppEvent::Ime(kind) => {
            match kind {
                ImeKind::Preedit => {
                    inputs.push(PlayerInput::ImePreedit);
                },
                ImeKind::Commit => {
                    inputs.push(PlayerInput::ImeCommit);
                },
                _ => {},
            }
        },
        _ => {},
    }
    assert(inputs@ =~= inputs_of(*event));
    inputs
}

/// What the program does about an event.
#[derive(Debug, Clone, Copy, PartialEq, Eq, Structural)]
pub struct EventStep {
    /// Draw the window now; nothing else is done.
    pub render: bool,
    /// Give the event to the user interface first.
    pub to_interface: bool,
    /// Switch the full screen on or off.
    pub toggle_fullscreen: bool,
    /// Tell the player of the event.
    pub to_player: bool,
    pub exit: bool,
    pub reconfigure: bool,
    /// Take the new modifiers over.
    pub take_modifiers: bool,
    pub redraw: bool,
}

/// How retrying goes on.
#[derive(Debug, Clone, Copy, PartialEq, Eq, Structural)]
pub enum RetryStep {
    /// The player that there is fetches the movie again.
    Refetch,
    /// A player is built.
    Build,
}

/// How the full screen is switched: on or off, and by whom.
#[derive(Debug, Clone, Copy, PartialEq, Eq, Structural)]
pub struct FullscreenStep {
    pub entering: bool,
    pub by_player: bool,
}

/// How the cache is cleared.
#[derive(Debug, Clone, Copy, PartialEq, Eq, Structural)]
pub enum ClearStep {
    /// By the player's navigator, which holds it.
    ByHandle,
    /// As a directory that nothing holds.
    ByDirectory,
}

/// What is done about an entry of the launcher's menu.
#[derive(Debug, Clone, Copy, PartialEq, Eq, Structural)]
pub enum LauncherStep {
    Fullscreen(FullscreenStep),
    Clear(ClearStep),
}

/// What is done once the user has chosen about other launchers' data.
#[derive(Debug, Clone, Copy, PartialEq, Eq, Structural)]
pub struct MigrationStep {
    /// Write the state down.
    pub save: bool,
    /// Build the player.
    pub build: bool,
}

/// What fills the window.
#[derive(Debug, Clone, Copy, PartialEq, Eq, Structural)]
pub enum FrameContent {
    Disclaimer,
    Setup,
    Error { can_retry: bool },
    Movie,
    Loading,
}

/// What a frame is made of.
#[derive(Debug, Clone, Copy, PartialEq, Eq, Structural)]
pub struct FramePlan {
    pub content: FrameContent,
    /// The player draws its own frame first.
    pub player_draws: bool,
    /// The launcher's button, and its menu where it is open.
    pub launcher: bool,
    pub toast: bool,
}

/// What is done after a frame.
#[derive(Debug, Clone, Copy, PartialEq, Eq, Structural)]
pub struct AfterFrame {
    pub redraw: bool,
    pub action: Option<LauncherAction>,
}

/// For what the program waits.
#[derive(Debug, Clone, Copy, PartialEq, Eq, Structural)]
pub enum WaitUntil {
    /// For the next event.
    Event,
    /// For the player's next frame.
    NextFrame,
    /// For what it last waited for.
    Unchanged,
    /// For this moment.
    Time(u64),
}

/// What is done before the program waits.
#[derive(Debug, Clone, Copy, PartialEq, Eq, Structural)]
pub struct WaitStep {
    /// Let the player run on for so long.
    pub tick: Option<u64>,
    /// Ask the player whether it has to be drawn.
    pub ask_player: bool,
    pub redraw: bool,
    pub wait: WaitUntil,
}

/// The launcher.
#[derive(Debug)]
pub struct App {
    pub state: State,
    pub screen: Screen,
    /// The launchers of which data was found at the start.
    pub detected_sources: Vec<MigratedSource>,
    pub minimized: bool,
    pub has_player: bool,
    pub launcher_open: bool,
    pub launcher_pointer_over: bool,
    pub launcher_pointer_captured: bool,
    pub toast: Option<Toast>,
    /// When the player last ran.
    pub time: u64,
}

/// The launcher uses the pointer's events for its menu.
pub open spec fn consumes(app: App, event: AppEvent) -> bool {
    match event {
        AppEvent::CursorMoved { over_launcher } => over_launcher || app.launcher_pointer_captured,
        AppEvent::MouseInput { pressed, .. } => app.launcher_open || app.launcher_pointer_over || (
        !pressed && app.launcher_pointer_captured),
        AppEvent::MouseWheel => app.launcher_open || app.launcher_pointer_over,
        AppEvent::CursorLeft => app.launcher_pointer_captured,
        _ => false,
    }
}

/// The launcher once it has seen the pointer's event. A press that it uses is
/// captured until the button goes up.
pub open spec fn pointed(app: App, event: AppEvent) -> App {
    match event {
        AppEvent::CursorMoved { over_launcher } => App {
            launcher_pointer_over: over_launcher,
            ..app
        },
        AppEvent::MouseInput { pressed, .. } => App {
            launcher_pointer_captured: pressed && (app.launcher_open || app.launcher_pointer_over),
            ..app
        },
        AppEvent::CursorLeft => App { launcher_pointer_over: false, ..app },
        _ => app,
    }
}

/// The event is a stroke of the key that switches the full screen.
pub open spec fn is_f11(event: AppEvent) -> bool {
    event matches AppEvent::Key { f11, .. } && f11
}

/// The launcher after an event.
pub open spec fn after_event(app: App, event: AppEvent) -> App {
    if event is RedrawRequested || is_f11(event) {
        app
    } else {
        match event {
            AppEvent::Resized { width, height } => App {
                minimized: width == 0 && height == 0,
                ..app
            },
            _ => pointed(app, event),
        }
    }
}

/// What is done about an event. Drawing is asked for by an event of its own; of
/// the key for the full screen only a fresh press counts, and the game does not
/// see it; the game sees what the launcher does not use, while it is shown.
pub open spec fn event_step(app: App, event: AppEvent) -> EventStep {
    let nothing = EventStep {
        render: false,
        to_interface: false,
        toggle_fullscreen: false,
        to_player: false,
        exit: false,
        reconfigure: false,
        take_modifiers: false,
        redraw: false,
    };
    if event is RedrawRequested {
        EventStep { render: !app.minimized, ..nothing }
    } else if is_f11(event) {
        EventStep {
            to_interface: true,
            toggle_fullscreen: event matches AppEvent::Key { pressed, repeat, .. } && pressed
                && !repeat,
            redraw: true,
            ..nothing
        }
    } else {
        EventStep {
            to_interface: true,
            to_player: app.screen.kind() == ScreenKind::Playing && app.has_player && !consumes(
                app,
                event,
            ),
            exit: event is CloseRequested,
            reconfigure: event is Resized || event is ScaleFactorChanged,
            take_modifiers: event is ModifiersChanged,
            redraw: true,
            ..nothing
        }
    }
}

impl App {
    /// The toast is shown at `now`.
    pub open spec fn toast_lives(&self, now: u64) -> bool {
        self.toast matches Some(toast) && elapsed(toast.shown_at, now) < TOAST_DURATION
    }

    /// The game is shown only where there is a player.
    pub open spec fn wf(&self) -> bool {
        self.screen.kind() == ScreenKind::Playing ==> self.has_player
    }

    /// The launcher at the start of the program, on its first screen. Returns
    /// whether a player has to be built.
    pub fn new(state: State, detected_sources: Vec<MigratedSource>, now: u64) -> (start: (
        Self,
        bool,
    ))
        ensures
            start.0.wf(),
            start.0.state == state,
            start.0.detected_sources@ == detected_sources@,
            start.0.screen.kind() == first_screen(state, detected_sources@),
            start.0.screen.kind() == ScreenKind::Setup ==> start.0.screen.offered()
                == detected_sources@,
            start.0.has_player == (start.0.screen.kind() == ScreenKind::Playing),
            start.1 == start.0.has_player,
            !start.0.minimized,
            !start.0.launcher_open,
            !start.0.launcher_pointer_over,
            !start.0.launcher_pointer_captured,
            start.0.toast is None,
            start.0.time == now,
    {
        let screen = initial_screen(&state, detected_sources.as_slice());
        let mut app = App {
            state,
            screen,
            detected_sources,
            minimized: false,
            has_player: false,
            launcher_open: false,
            launcher_pointer_over: false,
            launcher_pointer_captured: false,
            toast: None,
            time: now,
        };
        let build = if app.playing() {
            app.start_game()
        } else {
            false
        };
        (app, build)
    }

    /// Whether the game is shown.
    pub fn playing(&self) -> (yes: bool)
        ensures
            yes == (self.screen.kind() == ScreenKind::Playing),
    {
        match &self.screen {
            Screen::Playing => true,
            _ => false,
        }
    }

    /// Starts the game unless it is started. Returns whether a player has to be
    /// built.
    pub fn start_game(&mut self) -> (build: bool)
        ensures
            old(self).wf() ==> final(self).wf(),
            build == !old(self).has_player,
            *final(self) == (if old(self).has_player {
                *old(self)
            } else {
                App { has_player: true, screen: Screen::Playing, ..*old(self) }
            }),
    {
        if self.has_player {
            return false;
        }
        self.has_player = true;
        self.screen = Screen::Playing;
        true
    }

    /// Tries to load the game again.
    pub fn retry_play(&mut self) -> (step: RetryStep)
        ensures
            final(self).wf(),
            *final(self) == (App { has_player: true, screen: Screen::Playing, ..*old(self) }),
            step == (if old(self).has_player {
                RetryStep::Refetch
            } else {
                RetryStep::Build
            }),
    {
        self.screen = Screen::Playing;
        if self.has_player {
            RetryStep::Refetch
        } else {
            let _ = self.start_game();
            RetryStep::Build
        }
    }

    /// Shows a message for a while, in the place of one that is shown.
    pub fn show_toast(&mut self, message: String, now: u64)
        ensures
            *final(self) == (App { toast: Some(Toast { message, shown_at: now }), ..*old(self) }),
    {
        self.toast = Some(Toast { message, shown_at: now });
    }

    /// Switches the full screen on or off: the player does, where there is one.
    /// The menu closes, and a message says what was done.
    pub fn toggle_fullscreen(&mut self, fullscreen: bool, now: u64) -> (step: FullscreenStep)
        ensures
            step == (FullscreenStep { entering: !fullscreen, by_player: old(self).has_player }),
            final(self).toast matches Some(toast) && toast.shown_at == now && toast.message@ == (
            if fullscreen {
                "Exited fullscreen"@
            } else {
                "Fullscreen — press F11 to exit"@
            }),
            *final(self) == (App {
                launcher_open: false,
                toast: final(self).toast,
                ..*old(self)
            }),
    {
        self.launcher_open = false;
        let message = if fullscreen {
            "Exited fullscreen"
        } else {
            "Fullscreen — press F11 to exit"
        };
        self.show_toast(message.to_owned(), now);
        FullscreenStep { entering: !fullscreen, by_player: self.has_player }
    }

    /// How the cache is cleared: by the player's navigator, where there is one.
    pub fn clear_game_cache(&self) -> (step: ClearStep)
        ensures
            step == (if self.has_player {
                ClearStep::ByHandle
            } else {
                ClearStep::ByDirectory
            }),
    {
        if self.has_player {
            ClearStep::ByHandle
        } else {
            ClearStep::ByDirectory
        }
    }

    /// Says what became of the clearing of the cache.
    pub fn cache_cleared(&mut self, result: Result<(), &str>, now: u64)
        ensures
            final(self).toast matches Some(toast) && toast.shown_at == now && toast.message@ == (
            match result {
                Ok(_) => "Cache cleared"@,
                Err(error) => "Could not clear cache: "@ + error@,
            }),
            *final(self) == (App { toast: final(self).toast, ..*old(self) }),
    {
        let message = match result {
            Ok(_) => "Cache cleared".to_owned(),
            Err(error) => {
                let mut text = "Could not clear cache: ".to_owned();
                text.append(error);
                text
            },
        };
        self.show_toast(message, now);
    }

    /// Does what was chosen in the launcher's menu, and closes it.
    pub fn apply_launcher_action(&mut self, action: LauncherAction, fullscreen: bool, now: u64) -> (
        step: LauncherStep)
        ensures
            !final(self).launcher_open,
            *final(self) == (App {
                launcher_open: false,
                toast: final(self).toast,
                ..*old(self)
            }),
            match action {
                LauncherAction::ToggleFullscreen => {
                    &&& step == LauncherStep::Fullscreen(
                        FullscreenStep { entering: !fullscreen, by_player: old(self).has_player },
                    )
                    &&& final(self).toast matches Some(toast) && toast.shown_at == now
                        && toast.message@ == (if fullscreen {
                        "Exited fullscreen"@
                    } else {
                        "Fullscreen — press F11 to exit"@
                    })
                },
                LauncherAction::ClearCache => {
                    &&& step == LauncherStep::Clear(
                        if old(self).has_player {
                            ClearStep::ByHandle
                        } else {
                            ClearStep::ByDirectory
                        },
                    )
                    &&& final(self).toast == old(self).toast
                },
            },
    {
        let step = match action {
            LauncherAction::ToggleFullscreen => LauncherStep::Fullscreen(
                self.toggle_fullscreen(fullscreen, now),
            ),
            LauncherAction::ClearCache => LauncherStep::Clear(self.clear_game_cache()),
        };
        self.launcher_open = false;
        step
    }

    /// Lets the launcher see an event of the pointer. Returns whether it uses
    /// it.
    pub fn launcher_consumes_pointer_event(&mut self, event: &AppEvent) -> (consumed: bool)
        ensures
            consumed == consumes(*old(self), *event),
            *final(self) == pointed(*old(self), *event),
    {
        match event {
            AppEvent::CursorMoved { over_launcher } => {
                self.launcher_pointer_over = *over_launcher;
                self.launcher_pointer_over || self.launcher_pointer_captured
            },
            AppEvent::MouseInput { pressed, .. } => {
                if *pressed {
                    let consumed = self.launcher_open || self.launcher_pointer_over;
                    self.launcher_pointer_captured = consumed;
                    consumed
                } else {
                    let consumed = self.launcher_pointer_captured || self.launcher_open
                        || self.launcher_pointer_over;
                    self.launcher_pointer_captured = false;
                    consumed
                }
            },
            AppEvent::MouseWheel => self.launcher_open || self.launcher_pointer_over,
            AppEvent::CursorLeft => {
                self.launcher_pointer_over = false;
                self.launcher_pointer_captured
            },
            _ => false,
        }
    }

    /// Decides what is done about an event.
    pub fn window_event(&mut self, event: &AppEvent) -> (step: EventStep)
        ensures
            old(self).wf() ==> final(self).wf(),
            step == event_step(*old(self), *event),
            *final(self) == after_event(*old(self), *event),
    {
        let mut step = EventStep {
            render: false,
            to_interface: false,
            toggle_fullscreen: false,
            to_player: false,
            exit: false,
            reconfigure: false,
            take_modifiers: false,
            redraw: false,
        };
        if let AppEvent::RedrawRequested = event {
            step.render = !self.minimized;
            return step;
        }
        step.to_interface = true;
        step.redraw = true;
        if let AppEvent::Key { f11, pressed, repeat, .. } = event {
            if *f11 {
                step.toggle_fullscreen = *pressed && !*repeat;
                return step;
            }
        }
        let consumed = self.launcher_consumes_pointer_event(event);
        step.to_player = self.playing() && self.has_player && !consumed;
        match event {
            AppEvent::CloseRequested => {
                step.exit = true;
            },
            AppEvent::Resized { width, height } => {
                self.minimized = *width == 0 && *height == 0;
                step.reconfigure = true;
            },
            AppEvent::ScaleFactorChanged => {
                step.reconfigure = true;
            },
            AppEvent::ModifiersChanged => {
                step.take_modifiers = true;
            },
            _ => {},
        }
        step
    }

    /// Begins a frame: shows the error where the game could not be loaded, and
    /// takes a toast away whose time is over.
    pub fn begin_frame(&mut self, root_error: Option<String>, now: u64)
        ensures
            old(self).wf() ==> final(self).wf(),
            *final(self) == (App {
                screen: match root_error {
                    Some(message) => Screen::Error { message },
                    None => old(self).screen,
                },
                toast: if old(self).toast_lives(now) {
                    old(self).toast
                } else {
                    None
                },
                ..*old(self)
            }),
    {
        if let Some(message) = root_error {
            self.screen = Screen::Error { message };
        }
        let _ = self.drop_expired_toast(now);
    }

    fn drop_expired_toast(&mut self, now: u64) -> (dropped: bool)
        ensures
            dropped == (old(self).toast is Some && !old(self).toast_lives(now)),
            *final(self) == (App {
                toast: if old(self).toast_lives(now) {
                    old(self).toast
                } else {
                    None
                },
                ..*old(self)
            }),
    {
        let expired = match &self.toast {
            Some(toast) => toast.expired(now),
            None => false,
        };
        if expired {
            self.toast = None;
        }
        expired
    }

    /// Decides what a frame is made of.
    pub fn frame_plan(&self, has_texture: bool) -> (plan: FramePlan)
        ensures
            plan.content == (match self.screen.kind() {
                ScreenKind::Disclaimer => FrameContent::Disclaimer,
                ScreenKind::Setup => FrameContent::Setup,
                ScreenKind::Error => FrameContent::Error { can_retry: self.has_player },
                ScreenKind::Playing => if has_texture {
                    FrameContent::Movie
                } else {
                    FrameContent::Loading
                },
            }),
            plan.player_draws == (self.screen.kind() == ScreenKind::Playing && self.has_player),
            plan.launcher == (self.screen.kind() == ScreenKind::Playing),
            plan.toast == self.toast is Some,
    {
        let content = match &self.screen {
            Screen::Disclaimer => FrameContent::Disclaimer,
            Screen::Setup { .. } => FrameContent::Setup,
            Screen::Error { .. } => FrameContent::Error { can_retry: self.has_player },
            Screen::Playing => {
                if has_texture {
                    FrameContent::Movie
                } else {
                    FrameContent::Loading
                }
            },
        };
        FramePlan {
            content,
            player_draws: self.playing() && self.has_player,
            launcher: self.playing(),
            toast: self.toast.is_some(),
        }
    }

    /// The user accepts the disclaimer, and the next screen is shown. Returns
    /// whether a player has to be built. The state is to be written down.
    pub fn accept_disclaimer(&mut self) -> (build: bool)
        ensures
            final(self).wf(),
            final(self).state == (State { disclaimer_accepted: true, ..old(self).state }),
            final(self).screen.kind() == first_screen(
                final(self).state,
                old(self).detected_sources@,
            ),
            final(self).screen.kind() == ScreenKind::Setup ==> final(self).screen.offered()
                == old(self).detected_sources@,
            build == (final(self).screen.kind() == ScreenKind::Playing && !old(self).has_player),
            *final(self) == (App {
                state: final(self).state,
                screen: final(self).screen,
                has_player: old(self).has_player || build,
                ..*old(self)
            }),
    {
        self.state.accept_disclaimer();
        self.screen = initial_screen(&self.state, self.detected_sources.as_slice());
        if self.playing() {
            self.start_game()
        } else {
            false
        }
    }

    /// The id of the launcher that the user has chosen to copy from.
    pub fn chosen_source(&self, choice: Option<usize>) -> (id: Option<String>)
        requires
            choice matches Some(index) ==> index < self.screen.offered().len(),
        ensures
            match choice {
                Some(index) => id matches Some(text) && text@
                    == self.screen.offered()[index as int].id@,
                None => id is None,
            },
    {
        match choice {
            None => None,
            Some(index) => match &self.screen {
                Screen::Setup { sources } => Some(sources[index].id.clone()),
                _ => None,
            },
        }
    }

    /// Ends the setup: keeps the user's choice unless the copying has failed,
    /// and starts the game.
    pub fn apply_migration_choice(
        &mut self,
        source: Option<String>,
        result: Option<Result<usize, ()>>,
        copied_at_unix: i64,
    ) -> (step: MigrationStep)
        ensures
            final(self).wf(),
            step.save == !(result matches Some(Err(_))),
            step.build == !old(self).has_player,
            *final(self) == (App {
                screen: Screen::Playing,
                has_player: true,
                state: if step.save {
                    State {
                        migration: Some(MigrationChoice { source, copied_at_unix }),
                        ..old(self).state
                    }
                } else {
                    old(self).state
                },
                ..*old(self)
            }),
    {
        let save = should_persist_migration(&result);
        if save {
            self.persist_migration_choice(source, copied_at_unix);
        }
        self.screen = Screen::Playing;
        let build = self.start_game();
        MigrationStep { save, build }
    }

    fn persist_migration_choice(&mut self, source: Option<String>, copied_at_unix: i64)
        ensures
            *final(self) == (App {
                state: State {
                    migration: Some(MigrationChoice { source, copied_at_unix }),
                    ..old(self).state
                },
                ..*old(self)
            }),
    {
        self.state.record_migration(source, copied_at_unix);
    }

    /// Ends a frame: opens or closes the menu as it was asked, and sees whether
    /// the pointer lies over it now.
    pub fn end_frame(&mut self, response: LauncherResponse, pointer_over: bool) -> (after:
        AfterFrame)
        ensures
            *final(self) == (App {
                launcher_open: match response.set_open {
                    Some(open) => open,
                    None => old(self).launcher_open,
                },
                launcher_pointer_over: pointer_over,
                ..*old(self)
            }),
            after.redraw == (final(self).launcher_open != old(self).launcher_open),
            after.action == response.action,
    {
        let mut redraw = false;
        if let Some(open) = response.set_open {
            redraw = self.launcher_open != open;
            self.launcher_open = open;
        }
        self.launcher_pointer_over = pointer_over;
        AfterFrame { redraw, action: response.action }
    }

    /// Decides what is done before the program waits: the player runs on where
    /// the game is shown, and while a toast is shown the window is drawn again
    /// and again.
    pub fn about_to_wait(&mut self, now: u64) -> (step: WaitStep)
        ensures
            ({
                let runs = old(self).screen.kind() == ScreenKind::Playing && old(self).has_player;
                let passed = elapsed(old(self).time, now);
                &&& *final(self) == (App {
                    toast: if old(self).toast_lives(now) {
                        old(self).toast
                    } else {
                        None
                    },
                    time: if runs && passed > 0 {
                        now
                    } else {
                        old(self).time
                    },
                    ..*old(self)
                })
                &&& step.tick == (if runs && passed > 0 {
                    Some(passed as u64)
                } else {
                    None
                })
                &&& step.ask_player == runs
                &&& step.redraw == old(self).toast is Some
                &&& step.wait == (if old(self).toast_lives(now) {
                    WaitUntil::Time(
                        (if now + TOAST_REDRAW_INTERVAL <= u64::MAX {
                            now + TOAST_REDRAW_INTERVAL
                        } else {
                            u64::MAX as int
                        }) as u64,
                    )
                } else if !runs {
                    WaitUntil::Event
                } else if passed > 0 {
                    WaitUntil::NextFrame
                } else {
                    WaitUntil::Unchanged
                })
            }),
    {
        let dropped = self.drop_expired_toast(now);
        let runs = self.playing() && self.has_player;
        let passed: u64 = time_since(self.time, now);
        let mut step = WaitStep {
            tick: None,
            ask_player: runs,
            redraw: dropped,
            wait: WaitUntil::Event,
        };
        if runs {
            if passed > 0 {
                self.time = now;
                step.tick = Some(passed);
                step.wait = WaitUntil::NextFrame;
            } else {
                step.wait = WaitUntil::Unchanged;
            }
        }
        if self.toast.is_some() {
            step.redraw = true;
            let soon: u64 = if now <= u64::MAX - TOAST_REDRAW_INTERVAL {
                now + TOAST_REDRAW_INTERVAL
            } else {
                u64::MAX
            };
            step.wait = WaitUntil::Time(soon);
        }
        step
    }
}

/// While a screen lies over the game, or there is no player, no input reaches
/// the game.
pub proof fn overlays_keep_input_from_the_game(app: App, event: AppEvent)
    requires
        app.screen.kind() != ScreenKind::Playing || !app.has_player,
    ensures
        !event_step(app, event).to_player,
{
}

/// The key that switches the full screen never reaches the game.
pub proof fn f11_never_reaches_the_game(app: App, event: AppEvent)
    requires
        is_f11(event),
    ensures
        !event_step(app, event).to_player,
        after_event(app, event) == app,
{
}

/// A press that the launcher uses is not seen by the game, and neither is what
/// follows until the button goes up, wherever the pointer goes.
pub proof fn captured_presses_stay_captured(
    app: App,
    button: MouseButton,
    moves: Seq<bool>,
    released: MouseButton,
)
    requires
        app.launcher_open || app.launcher_pointer_over,
    ensures
        ({
            let press = AppEvent::MouseInput { pressed: true, button };
            let release = AppEvent::MouseInput { pressed: false, button: released };
            let held = moved(after_event(app, press), moves);
            &&& !event_step(app, press).to_player
            &&& held.launcher_pointer_captured
            &&& !event_step(held, release).to_player
            &&& forall|over: bool|
                !(#[trigger] event_step(held, AppEvent::CursorMoved { over_launcher: over }))
                    .to_player
            &&& !event_step(held, AppEvent::CursorLeft).to_player
            &&& !after_event(held, release).launcher_pointer_captured
        }),
{
    let press = AppEvent::MouseInput { pressed: true, button };
    moves_keep_captures(after_event(app, press), moves);
}

/// The launcher after the pointer has moved a number of times.
pub open spec fn moved(app: App, moves: Seq<bool>) -> App
    decreases moves.len(),
{
    if moves.len() == 0 {
        app
    } else {
        after_event(
            moved(app, moves.drop_last()),
            AppEvent::CursorMoved { over_launcher: moves.last() },
        )
    }
}

proof fn moves_keep_captures(app: App, moves: Seq<bool>)
    ensures
        moved(app, moves).launcher_pointer_captured == app.launcher_pointer_captured,
        moved(app, moves).launcher_open == app.launcher_open,
    decreases moves.len(),
{
    if moves.len() > 0 {
        moves_keep_captures(app, moves.drop_last());
    }
}

/// A press that the game sees is not captured, so that the game sees the button
/// go up again, while the menu stays closed and the pointer off it.
pub proof fn seen_presses_are_released(app: App, button: MouseButton)
    requires
        event_step(app, AppEvent::MouseInput { pressed: true, button }).to_player,
    ensures
        ({
            let after = after_event(app, AppEvent::MouseInput { pressed: true, button });
            &&& !after.launcher_pointer_captured
            &&& event_step(after, AppEvent::MouseInput { pressed: false, button }).to_player
        }),
{
}

/// A minimized window is not drawn, and a window is drawn only when that is
/// asked for.
pub proof fn minimized_windows_are_not_drawn(app: App, event: AppEvent)
    ensures
        event_step(app, event).render ==> !app.minimized && event is RedrawRequested,
        after_event(app, AppEvent::Resized { width: 0, height: 0 }).minimized,
{
}

/// A choice that is left open is offered again by the next run, where there is
/// still data; one that was kept is not.
pub proof fn open_choices_are_offered_again(
    state: State,
    detected: Seq<MigratedSource>,
    choice: MigrationChoice,
)
    requires
        state.disclaimer_accepted,
        detected.len() > 0,
    ensures
        state.migration is None ==> first_screen(state, detected) == ScreenKind::Setup,
        first_screen(State { migration: Some(choice), ..state }, detected) == ScreenKind::Playing,
{
}

/// The launcher's menu acts only while it is open, and closes when it does.
pub proof fn closed_menus_do_nothing(open: bool, clicks: LauncherClicks)
    ensures
        launcher_answer(open, clicks).action is Some ==> open && launcher_answer(
            open,
            clicks,
        ).set_open == Some(false),
        !open ==> launcher_answer(open, clicks).set_open == (if clicks.trigger {
            Some(true)
        } else {
            None
        }),
        open && clicks.pressed_outside ==> launcher_answer(open, clicks).set_open == Some(false),
{
}

/// Time that has passed leads from its start to now; where now is earlier, none
/// has.
pub proof fn elapsed_time_leads_to_now(start: u64, now: u64)
    ensures
        now >= start ==> start + elapsed(start, now) == now,
        now <= start ==> elapsed(start, now) == 0,
{
}

/// While a toast fades, it fades by as much as time passes, for the last 450
/// milliseconds of its three seconds.
pub proof fn toasts_fade_as_time_passes(shown: int, later: int)
    requires
        2_550_000_000 <= shown <= later <= 3_000_000_000,
    ensures
        fading(later) - fading(shown) == later - shown,
        fading(2_550_000_000) == 0,
        fading(3_000_000_000) == 450_000_000,
{
}

/// A toast lives for three seconds from when it was shown.
pub proof fn toasts_live_three_seconds(app: App, now: u64)
    ensures
        app.toast is None ==> !app.toast_lives(now),
        app.toast matches Some(toast) ==> (app.toast_lives(now) <==> now < toast.shown_at
            + 3_000_000_000),
{
}

/// An open menu does what its entry says, the full screen before the cache, and
/// is closed by that and by a press beside it; its button turns it over. Nothing
/// else opens or closes it.
pub proof fn menus_answer_what_was_clicked(open: bool, clicks: LauncherClicks)
    ensures
        ({
            let answer = launcher_answer(open, clicks);
            &&& open && clicks.fullscreen ==> answer.action == Some(
                LauncherAction::ToggleFullscreen,
            )
            &&& open && clicks.clear_cache && !clicks.fullscreen ==> answer.action == Some(
                LauncherAction::ClearCache,
            )
            &&& !clicks.fullscreen && !clicks.clear_cache ==> answer.action is None
            &&& !clicks.fullscreen && !clicks.clear_cache && !clicks.pressed_outside
                && clicks.trigger ==> answer.set_open == Some(!open)
            &&& answer.set_open is None <==> !clicks.trigger && !(open && (clicks.fullscreen
                || clicks.clear_cache || clicks.pressed_outside))
        }),
{
}

/// Of the launchers whose buttons were clicked, the last one counts; where none
/// was, none does.
pub proof fn the_last_click_counts(clicked: Seq<bool>, n: int)
    requires
        0 <= n <= clicked.len(),
    ensures
        match last_clicked(clicked, n) {
            Some(k) => 0 <= k < n && clicked[k] && forall|j: int|
                k < j < n ==> !#[trigger] clicked[j],
            None => forall|j: int| 0 <= j < n ==> !#[trigger] clicked[j],
        },
    decreases n,
{
    if n > 0 && !clicked[n - 1] {
        the_last_click_counts(clicked, n - 1);
    }
}

/// Each thing goes before what it was made from: the player before its runtime,
/// what draws before the surface, and the surface before the window.
pub proof fn everything_is_let_go_of_in_order()
    ensures
        shutdown_order().len() == 8,
        shutdown_order()[2] == Resource::EguiRenderer,
        shutdown_order()[3] == Resource::MovieTarget,
        shutdown_order()[4] == Resource::EguiWinit,
        shutdown_order()[5] == Resource::Surface,
        shutdown_order()[6] == Resource::Descriptors,
{
}

/// Where the offered launchers stand among those that are looked for: each that
/// is offered has left data of its own, each that has left data is offered, and
/// the order is kept.
pub proof fn launchers_with_data_are_offered(
    sources: Seq<MigrationSource>,
    has_data: Seq<bool>,
    from: int,
) -> (places: Seq<int>)
    requires
        0 <= from,
    ensures
        ({
            let offered = offered_from(sources, has_data, from);
            &&& places.len() == offered.len()
            &&& forall|i: int|
                0 <= i < places.len() ==> {
                    let k = #[trigger] places[i];
                    &&& from <= k < sources.len()
                    &&& k < has_data.len()
                    &&& has_data[k]
                    &&& offered[i].0 == sources[k].id@
                    &&& offered[i].1 == sources[k].name@
                }
            &&& forall|i: int, j: int| 0 <= i < j < places.len() ==> places[i] < places[j]
            &&& forall|k: int|
                from <= k < sources.len() && k < has_data.len() && #[trigger] has_data[k]
                    ==> places.contains(k)
        }),
    decreases sources.len() - from,
{
    if from >= sources.len() {
        seq![]
    } else {
        let later = launchers_with_data_are_offered(sources, has_data, from + 1);
        if from < has_data.len() && has_data[from] {
            let places = seq![from] + later;
            assert forall|i: int| 0 <= i < places.len() implies {
                let k = #[trigger] places[i];
                &&& from <= k < sources.len()
                &&& k < has_data.len()
                &&& has_data[k]
                &&& offered_from(sources, has_data, from)[i].0 == sources[k].id@
                &&& offered_from(sources, has_data, from)[i].1 == sources[k].name@
            } by {
                if i > 0 {
                    assert(places[i] == later[i - 1]);
                }
            }
            assert forall|k: int|
                from <= k < sources.len() && k < has_data.len() && #[trigger] has_data[k] implies places.contains(
                k,
            ) by {
                if k == from {
                    assert(places[0] == k);
                } else {
                    let i = choose|i: int| 0 <= i < later.len() && later[i] == k;
                    assert(places[i + 1] == k);
                }
            }
            places
        } else {
            later
        }
    }
}

/// Of launchers with different ids, each is offered exactly where its own data
/// was found.
pub proof fn launchers_are_offered_for_their_own_data(
    sources: Seq<MigrationSource>,
    has_data: Seq<bool>,
    k: int,
)
    requires
        0 <= k < sources.len(),
        sources.len() == has_data.len(),
        forall|i: int, j: int|
            0 <= i < j < sources.len() ==> (#[trigger] sources[i]).id@ != (#[trigger] sources[j]).id@,
    ensures
        offered_from(sources, has_data, 0).contains((sources[k].id@, sources[k].name@))
            <==> has_data[k],
{
    let places = launchers_with_data_are_offered(sources, has_data, 0);
    let offered = offered_from(sources, has_data, 0);
    let own = (sources[k].id@, sources[k].name@);
    if has_data[k] {
        let i = choose|i: int| 0 <= i < places.len() && places[i] == k;
        assert(offered[i] == own);
    }
    if offered.contains(own) {
        let i = choose|i: int| 0 <= i < offered.len() && offered[i] == own;
        let j = places[i];
        assert(sources[j].id@ == sources[k].id@);
        assert(j == k) by {
            if j < k {
                assert(sources[j].id@ != sources[k].id@);
            } else if k < j {
                assert(sources[k].id@ != sources[j].id@);
            }
        }
    }
}

/// Launchers are offered under their own ids and names.
pub proof fn offers_are_named(sources: Seq<MigratedSource>, i: int)
    requires
        0 <= i < sources.len(),
    ensures
        names_of(sources).len() == sources.len(),
        names_of(sources)[i].0 == sources[i].id@,
        names_of(sources)[i].1 == sources[i].name@,
{
}

/// The launcher that is found by an id has it and is the first that has; where
/// none is found, none has it.
pub proof fn launchers_are_found_by_their_id(
    sources: Seq<MigrationSource>,
    id: Seq<char>,
    from: int,
)
    requires
        0 <= from,
    ensures
        match source_from(sources, id, from) {
            Some(k) => {
                &&& from <= k < sources.len()
                &&& sources[k].id@ == id
                &&& forall|j: int| from <= j < k ==> (#[trigger] sources[j]).id@ != id
            },
            None => forall|j: int| from <= j < sources.len() ==> (#[trigger] sources[j]).id@ != id,
        },
    decreases sources.len() - from,
{
    if from < sources.len() && sources[from].id@ != id {
        launchers_are_found_by_their_id(sources, id, from + 1);
    }
}

/// The game is told of a key that goes down that it does, and then of what it
/// types: of a control code, or of each character in turn; of a key that goes up
/// only that.
pub proof fn keys_are_told_to_the_game(event: AppEvent)
    requires
        event is Key,
    ensures
        event matches AppEvent::Key { pressed, control, text, .. } && {
            let inputs = inputs_of(event);
            &&& !pressed ==> inputs.len() == 1 && inputs[0] == PlayerInput::KeyUp
            &&& pressed ==> inputs.len() > 0 && inputs[0] == PlayerInput::KeyDown
            &&& pressed && control ==> inputs.len() == 2 && inputs[1] == PlayerInput::TextControl
            &&& pressed && !control ==> (match text {
                None => inputs.len() == 1,
                Some(typed) => inputs.len() == 1 + typed@.len() && forall|i: int|
                    0 <= i < typed@.len() ==> #[trigger] inputs[i + 1] == PlayerInput::TextInput(
                        typed@[i] as u32,
                    ),
            })
        },
{
    if let AppEvent::Key { pressed, control, text, .. } = event {
        if let Some(typed) = text {
            let inputs = inputs_of(event);
            if pressed && !control {
                assert forall|i: int| 0 <= i < typed@.len() implies #[trigger] inputs[i + 1]
                    == PlayerInput::TextInput(typed@[i] as u32) by {
                    let letters = typed@.map_values(|c: char| PlayerInput::TextInput(c as u32));
                    assert(inputs[i + 1] == letters[i]);
                }
            }
        }
    }
}

/// The game is told of the pointer what it does: of a button that it goes down
/// or up, of the pointer that it moves, comes or leaves, and of the wheel.
pub proof fn pointers_are_told_to_the_game(event: AppEvent)
    ensures
        ({
            let inputs = inputs_of(event);
            &&& event matches AppEvent::MouseInput { pressed, button } ==> inputs.len() == 1
                && inputs[0] == (if pressed {
                PlayerInput::MouseDown(button)
            } else {
                PlayerInput::MouseUp(button)
            })
            &&& event is CursorMoved ==> inputs.len() == 1 && inputs[0] == PlayerInput::MouseMove
            &&& event is MouseWheel ==> inputs.len() == 1 && inputs[0] == PlayerInput::MouseWheel
            &&& event is CursorEntered ==> inputs.len() == 1 && inputs[0]
                == PlayerInput::MouseInStage(true)
            &&& event is CursorLeft ==> inputs.len() == 2 && inputs[0]
                == PlayerInput::MouseInStage(false) && inputs[1] == PlayerInput::MouseLeave
        }),
{
}

/// The game is told when it gains or loses the keyboard, and what an input
/// method writes; of anything else it is told nothing.
pub proof fn the_rest_is_told_to_the_game(event: AppEvent)
    ensures
        ({
            let inputs = inputs_of(event);
            &&& event matches AppEvent::Focused(focused) ==> inputs.len() == 1 && inputs[0] == (
            if focused {
                PlayerInput::FocusGained
            } else {
                PlayerInput::FocusLost
            })
            &&& event matches AppEvent::Ime(kind) ==> {
                &&& kind == ImeKind::Preedit ==> inputs.len() == 1 && inputs[0]
                    == PlayerInput::ImePreedit
                &&& kind == ImeKind::Commit ==> inputs.len() == 1 && inputs[0]
                    == PlayerInput::ImeCommit
                &&& kind == ImeKind::Enabled || kind == ImeKind::Disabled ==> inputs.len() == 0
            }
            &&& event is RedrawRequested || event is CloseRequested || event is Resized
                || event is ScaleFactorChanged || event is ModifiersChanged || event is Other
                ==> inputs.len() == 0
        }),
{
}

/// While the game is shown, it sees everything but the request to draw, the key
/// for the full screen and what the pointer does to the launcher's menu. So a
/// key's release reaches it wherever its press does.
pub proof fn the_game_sees_what_is_not_the_launchers(app: App, event: AppEvent)
    requires
        app.screen is Playing,
        app.has_player,
        !(event is RedrawRequested),
        !(event matches AppEvent::Key { f11, .. } && f11),
        !(event is CursorMoved),
        !(event is MouseInput),
        !(event is MouseWheel),
        !(event is CursorLeft),
    ensures
        event_step(app, event).to_player,
        event matches AppEvent::Key { f11, repeat, control, text, .. } ==> forall|pressed: bool|
            (#[trigger] event_step(app, AppEvent::Key { f11, pressed, repeat, control, text }))
                .to_player,
{
}

/// While the game is shown, it sees of the pointer what the launcher does not
/// use: moves that are not over the menu while no press is held there, buttons
/// and the wheel while the menu is closed and the pointer is off it, a button
/// that goes up unless its press was the menu's, and that the pointer leaves
/// unless a press is held.
pub proof fn the_game_sees_the_pointer_off_the_menu(app: App, event: AppEvent)
    requires
        app.screen is Playing,
        app.has_player,
    ensures
        ({
            let seen = event_step(app, event).to_player;
            let off = !app.launcher_open && !app.launcher_pointer_over;
            &&& event matches AppEvent::CursorMoved { over_launcher } ==> (seen <==> !over_launcher
                && !app.launcher_pointer_captured)
            &&& event matches AppEvent::MouseInput { pressed, .. } ==> (seen <==> off && (pressed
                || !app.launcher_pointer_captured))
            &&& event is MouseWheel ==> (seen <==> off)
            &&& event is CursorLeft ==> (seen <==> !app.launcher_pointer_captured)
        }),
{
}

/// An event changes nothing of the launcher but what it is about: a move and
/// leaving whether the pointer is over the menu, a button whether a press is
/// held, and a new size whether the window is minimized.
pub proof fn events_change_what_they_are_about(app: App, event: AppEvent)
    ensures
        ({
            let after = after_event(app, event);
            &&& after == (App {
                minimized: after.minimized,
                launcher_pointer_over: after.launcher_pointer_over,
                launcher_pointer_captured: after.launcher_pointer_captured,
                ..app
            })
            &&& after.minimized == (match event {
                AppEvent::Resized { width, height } => width == 0 && height == 0,
                _ => app.minimized,
            })
            &&& after.launcher_pointer_over == (match event {
                AppEvent::CursorMoved { over_launcher } => over_launcher,
                AppEvent::CursorLeft => false,
                _ => app.launcher_pointer_over,
            })
            &&& after.launcher_pointer_captured == (match event {
                AppEvent::MouseInput { pressed, .. } => pressed && (app.launcher_open
                    || app.launcher_pointer_over),
                _ => app.launcher_pointer_captured,
            })
        }),
{
}

/// The window is closed when that is asked for, its surface follows its size and
/// scale, and every event but the request to draw goes to the user interface and
/// has the window drawn again. Only a fresh press of F11 switches the full
/// screen, and no stroke of that key reaches the game.
pub proof fn events_lead_to_their_steps(app: App, event: AppEvent)
    ensures
        ({
            let step = event_step(app, event);
            let draws = event is RedrawRequested;
            &&& draws || (event matches AppEvent::Key { f11, .. } && f11) ==> !step.to_player
            &&& !(app.screen is Playing) || !app.has_player ==> !step.to_player
            &&& step.render <==> draws && !app.minimized
            &&& step.to_interface <==> !draws
            &&& step.redraw <==> !draws
            &&& step.exit <==> event is CloseRequested
            &&& step.reconfigure <==> event is Resized || event is ScaleFactorChanged
            &&& step.take_modifiers <==> event is ModifiersChanged
            &&& step.toggle_fullscreen <==> (event matches AppEvent::Key {
                f11,
                pressed,
                repeat,
                ..
            } && f11 && pressed && !repeat)
        }),
{
}

/// What the setup screen gives is what was clicked: nothing to copy where that
/// was declined, else the last launcher that was clicked, else nothing yet.
pub proof fn setups_follow_the_last_click(
    clicked: &Vec<bool>,
    declined: bool,
    choice: Option<Option<usize>>,
)
    requires
        call_ensures(setup_ui, (clicked, declined), choice),
    ensures
        choice == Some(None::<usize>) <==> declined,
        choice matches Some(Some(index)) ==> {
            &&& index < clicked@.len()
            &&& clicked@[index as int]
            &&& forall|j: int| index < j < clicked@.len() ==> !#[trigger] clicked@[j]
        },
        choice is None ==> forall|j: int| 0 <= j < clicked@.len() ==> !#[trigger] clicked@[j],
{
    the_last_click_counts(clicked@, clicked@.len() as int);
}

/// On the error screen quitting goes before trying again, which needs a player;
/// where neither was clicked nothing is done.
pub proof fn error_screens_do_what_was_clicked(
    can_retry: bool,
    retry: bool,
    quit: bool,
    action: Option<ErrorAction>,
)
    requires
        call_ensures(error_ui, (can_retry, retry, quit), action),
    ensures
        action == Some(ErrorAction::Quit) <==> quit,
        action == Some(ErrorAction::Retry) <==> !quit && can_retry && retry,
{
}

/// The viewport is left alone only where it has a texture of the size and scale
/// that are shown.
pub proof fn viewports_follow_the_window(
    has_texture: bool,
    target: Option<(u32, u32)>,
    same_scale: bool,
    size: (u32, u32),
    yes: bool,
)
    requires
        call_ensures(viewport_needs_update, (has_texture, target, same_scale, size), yes),
    ensures
        !yes <==> has_texture && same_scale && (target matches Some(shown) && shown.0 == size.0
            && shown.1 == size.1),
{
}

/// A window without an area has no surface; any other has one of its own size
/// and format, which waits for the screen.
pub proof fn surfaces_fit_their_window(
    format: SurfaceFormat,
    width: u32,
    height: u32,
    config: Option<SurfaceConfiguration>,
)
    requires
        call_ensures(reconfigure_surface, (format, width, height), config),
    ensures
        config is None <==> width == 0 || height == 0,
        config matches Some(c) ==> c.format == format && c.width == width && c.height == height
            && c.present_mode == PresentMode::AutoVsync && c.desired_maximum_frame_latency == 2,
{
}

/// A frame is drawn where there is one; a surface that is gone or no longer fits
/// is configured anew; on any other failure the frame is left out.
pub proof fn frames_are_drawn_where_they_can_be(surface: CurrentSurface, step: SurfaceStep)
    requires
        call_ensures(surface_step, (surface,), step),
    ensures
        step == SurfaceStep::Draw <==> surface == CurrentSurface::Success || surface
            == CurrentSurface::Suboptimal,
        step == SurfaceStep::ReconfigureAndRedraw <==> surface == CurrentSurface::Lost || surface
            == CurrentSurface::Outdated,
{
}

/// The launchers that are offered are those whose own data was found, under
/// their own names and in their order.
pub proof fn detected_launchers_have_data(
    sources: &Vec<MigrationSource>,
    has_data: &Vec<bool>,
    detected: Vec<MigratedSource>,
) -> (places: Seq<int>)
    requires
        call_ensures(detected_sources, (sources, has_data), detected),
    ensures
        places.len() == detected@.len(),
        forall|i: int|
            0 <= i < places.len() ==> {
                let k = #[trigger] places[i];
                &&& 0 <= k < sources@.len()
                &&& k < has_data@.len()
                &&& has_data@[k]
                &&& detected@[i].id@ == sources@[k].id@
                &&& detected@[i].name@ == sources@[k].name@
            },
        forall|i: int, j: int| 0 <= i < j < places.len() ==> places[i] < places[j],
        forall|k: int|
            0 <= k < sources@.len() && k < has_data@.len() && #[trigger] has_data@[k]
                ==> places.contains(k),
{
    let places = launchers_with_data_are_offered(sources@, has_data@, 0);
    assert forall|i: int| 0 <= i < places.len() implies {
        let k = #[trigger] places[i];
        &&& detected@[i].id@ == sources@[k].id@
        &&& detected@[i].name@ == sources@[k].name@
    } by {
        offers_are_named(detected@, i);
    }
    places
}

/// The launcher that is looked up by an id is the first that has it, and one is
/// found wherever any has it.
pub proof fn lookups_find_their_launcher(
    sources: &Vec<MigrationSource>,
    id: &str,
    index: Option<usize>,
)
    requires
        call_ensures(source_index, (sources, id), index),
    ensures
        index matches Some(k) ==> k < sources@.len() && sources@[k as int].id@ == id@ && forall|
            j: int,
        |
            0 <= j < k ==> (#[trigger] sources@[j]).id@ != id@,
        index is None ==> forall|j: int|
            0 <= j < sources@.len() ==> (#[trigger] sources@[j]).id@ != id@,
{
    launchers_are_found_by_their_id(sources@, id@, 0);
}

/// A toast has expired three seconds after it was shown and not before, and by
/// then it has faded.
pub proof fn toasts_expire_after_three_seconds(toast: &Toast, now: u64, yes: bool, faded: u64)
    requires
        call_ensures(Toast::expired, (toast, now), yes),
        call_ensures(Toast::faded, (toast, now), faded),
    ensures
        yes <==> now >= toast.shown_at + 3_000_000_000,
        yes <==> faded == 450_000_000,
        faded == 0 <==> now <= toast.shown_at + 2_550_000_000,
        !yes && faded > 0 ==> toast.shown_at + 2_550_000_000 + faded == now,
{
}

/// The program starts on the disclaimer until it is accepted, then with the
/// offer until a choice is kept, then with the game, for which alone a player is
/// built.
pub proof fn programs_start_where_they_were_left(
    state: State,
    detected: Vec<MigratedSource>,
    now: u64,
    start: (App, bool),
)
    requires
        call_ensures(App::new, (state, detected, now), start),
    ensures
        start.0.state == state,
        start.0.screen is Disclaimer <==> !state.disclaimer_accepted,
        start.0.screen is Setup <==> state.disclaimer_accepted && state.migration is None
            && detected@.len() > 0,
        start.0.screen is Playing <==> state.disclaimer_accepted && (state.migration is Some
            || detected@.len() == 0),
        start.0.screen matches Screen::Setup { sources } ==> sources@ == detected@,
        start.0.detected_sources@ == detected@,
        start.1 <==> start.0.screen is Playing,
        start.0.has_player == start.1,
        start.0.time == now,
        start.0.toast is None,
        !start.0.minimized && !start.0.launcher_open && !start.0.launcher_pointer_over
            && !start.0.launcher_pointer_captured,
{
}

/// A player is built where there is none, and only once; then the game is shown.
pub proof fn players_are_built_once()
    ensures
        forall|a: &mut App, b: &mut App, first: bool, second: bool| #[trigger]
            call_ensures(App::start_game, (a,), first) && #[trigger] call_ensures(
                App::start_game,
                (b,),
                second,
            ) && *b == *final(a) ==> {
                &&& first == !a.has_player
                &&& final(a).has_player
                &&& first ==> final(a).screen is Playing
                &&& !first ==> *final(a) == *a
                &&& final(a).state == a.state && final(a).toast == a.toast && final(a).time
                    == a.time
                &&& !second
                &&& *final(b) == *final(a)
            },
{
}

/// Trying again shows the game, with the player that there is or with one that is
/// built, and changes nothing else.
pub proof fn retries_show_the_game()
    ensures
        forall|app: &mut App, step: RetryStep| #[trigger]
            call_ensures(App::retry_play, (app,), step) ==> {
                &&& final(app).screen is Playing
                &&& final(app).has_player
                &&& step == RetryStep::Refetch <==> app.has_player
                &&& *final(app) == (App { screen: Screen::Playing, has_player: true, ..*app })
            },
{
}

/// A toast that was shown stays for three seconds from frame to frame and is
/// then taken away.
pub proof fn shown_toasts_stay_for_their_time()
    ensures
        forall|a: &mut App, b: &mut App, message: String, shown: u64, now: u64| #[trigger]
            call_ensures(App::show_toast, (a, message, shown), ()) && #[trigger] call_ensures(
                App::begin_frame,
                (b, None::<String>, now),
                (),
            ) && *b == *final(a) ==> {
                &&& final(a).toast is Some && final(a).toast->0.message == message && final(a).toast->0.shown_at == shown
                &&& now < shown + 3_000_000_000 ==> final(b).toast == final(a).toast
                &&& now >= shown + 3_000_000_000 ==> final(b).toast is None
                &&& final(b).screen == a.screen && final(b).state == a.state && final(b).has_player
                    == a.has_player
            },
{
}

/// A game that could not be loaded is reported on the error screen with the
/// error's own words, from which it can be tried again with the player that there
/// is.
pub proof fn errors_are_shown_until_a_retry()
    ensures
        forall|a: &mut App, b: &mut App, message: String, now: u64, step: RetryStep| #[trigger]
            call_ensures(App::begin_frame, (a, Some(message), now), ()) && #[trigger] call_ensures(
                App::retry_play,
                (b,),
                step,
            ) && *b == *final(a) ==> {
                &&& final(a).screen == (Screen::Error { message })
                &&& final(a).has_player == a.has_player
                &&& final(a).state == a.state
                &&& final(b).screen is Playing
                &&& step == RetryStep::Refetch <==> a.has_player
            },
{
}

/// Each screen fills the window with its own content, the game with its movie
/// once there is one; the menu is there while the game is, and the player draws
/// while it is and the game is shown.
pub proof fn frames_show_their_screen(app: &App, has_texture: bool, plan: FramePlan)
    requires
        call_ensures(App::frame_plan, (app, has_texture), plan),
    ensures
        plan.content == FrameContent::Disclaimer <==> app.screen is Disclaimer,
        plan.content == FrameContent::Setup <==> app.screen is Setup,
        plan.content is Error <==> app.screen is Error,
        app.screen is Error ==> plan.content == (FrameContent::Error {
            can_retry: app.has_player,
        }),
        plan.content == FrameContent::Movie <==> app.screen is Playing && has_texture,
        plan.content == FrameContent::Loading <==> app.screen is Playing && !has_texture,
        plan.launcher <==> app.screen is Playing,
        plan.player_draws <==> app.screen is Playing && app.has_player,
        plan.toast <==> app.toast is Some,
{
}

/// Accepting the disclaimer is kept, and leads to the offer of what was found
/// where there is anything to choose, else to the game.
pub proof fn accepting_leads_on()
    ensures
        forall|app: &mut App, build: bool| #[trigger]
            call_ensures(App::accept_disclaimer, (app,), build) ==> {
                let asks = app.state.migration is None && app.detected_sources@.len() > 0;
                &&& final(app).state.disclaimer_accepted
                &&& final(app).state.migration == app.state.migration
                &&& final(app).screen is Setup <==> asks
                &&& final(app).screen is Playing <==> !asks
                &&& final(app).screen is Setup ==> final(app).screen->sources@
                    == app.detected_sources@
                &&& build <==> !asks && !app.has_player
                &&& final(app).has_player <==> app.has_player || !asks
                &&& final(app).detected_sources == app.detected_sources
                &&& final(app).toast == app.toast && final(app).time == app.time
            },
{
}

/// What the user chooses on the setup screen is the launcher that is offered
/// there at that place.
pub proof fn choices_name_what_is_offered(app: &App, choice: Option<usize>, id: Option<String>)
    requires
        call_ensures(App::chosen_source, (app, choice), id),
    ensures
        choice is None ==> id is None,
        choice matches Some(index) ==> (app.screen matches Screen::Setup { sources } ==> index
            < sources@.len() ==> id is Some && id->0@ == sources@[index as int].id@),
{
}

/// After the setup the game is shown. The choice is kept, with where it was
/// copied from and when, unless the copying has failed; then it is as open as it
/// was before.
pub proof fn choices_are_kept_unless_copying_fails()
    ensures
        forall|
            app: &mut App,
            source: Option<String>,
            result: Option<Result<usize, ()>>,
            at: i64,
            step: MigrationStep,
        | #[trigger]
            call_ensures(App::apply_migration_choice, (app, source, result, at), step) ==> {
                let failed = result is Some && result->0 is Err;
                &&& final(app).screen is Playing
                &&& final(app).has_player
                &&& step.build == !app.has_player
                &&& step.save == !failed
                &&& failed ==> final(app).state == app.state
                &&& !failed ==> final(app).state.migration is Some && final(app).state.migration->0.source == source && final(app).state.migration->0.copied_at_unix == at
                &&& final(app).state.disclaimer_accepted == app.state.disclaimer_accepted
            },
{
}

/// A choice that was kept is not asked for again by the next run; one that could
/// not be is, where there is still data.
pub proof fn kept_choices_last(
    detected: Vec<MigratedSource>,
    now: u64,
    start: (App, bool),
    state: State,
)
    requires
        call_ensures(App::new, (state, detected, now), start),
    ensures
        forall|
            app: &mut App,
            source: Option<String>,
            result: Option<Result<usize, ()>>,
            at: i64,
            step: MigrationStep,
        | #[trigger]
            call_ensures(App::apply_migration_choice, (app, source, result, at), step) && final(app).state == state && app.state.disclaimer_accepted && app.state.migration is None ==> {
                &&& !(result is Some && result->0 is Err) ==> start.0.screen is Playing
                &&& result is Some && result->0 is Err && detected@.len() > 0
                    ==> start.0.screen is Setup
            },
{
}

/// The menu opens and closes as it was asked to, which is drawn; the action that
/// was chosen is handed on.
pub proof fn frames_end_with_what_was_asked()
    ensures
        forall|app: &mut App, response: LauncherResponse, over: bool, after: AfterFrame| #[trigger]
            call_ensures(App::end_frame, (app, response, over), after) ==> {
                &&& response.set_open is Some ==> final(app).launcher_open == response.set_open->0
                &&& response.set_open is None ==> final(app).launcher_open == app.launcher_open
                &&& final(app).launcher_pointer_over == over
                &&& final(app).launcher_pointer_captured == app.launcher_pointer_captured
                &&& final(app).screen == app.screen && final(app).state == app.state && final(app).toast == app.toast
                &&& after.redraw <==> final(app).launcher_open != app.launcher_open
                &&& after.action == response.action
            },
{
}

/// Switching the full screen turns it over, closes the menu and says so; the
/// player does it where there is one.
pub proof fn fullscreen_is_turned_over()
    ensures
        forall|app: &mut App, fullscreen: bool, now: u64, step: FullscreenStep| #[trigger]
            call_ensures(App::toggle_fullscreen, (app, fullscreen, now), step) ==> {
                &&& step.entering != fullscreen
                &&& step.by_player == app.has_player
                &&& !final(app).launcher_open
                &&& final(app).toast is Some && final(app).toast->0.shown_at == now
                &&& fullscreen ==> final(app).toast->0.message@ == "Exited fullscreen"@
                &&& !fullscreen ==> final(app).toast->0.message@
                    == "Fullscreen — press F11 to exit"@
                &&& final(app).screen == app.screen && final(app).state == app.state && final(app).has_player == app.has_player
            },
{
}

/// What is chosen in the menu is done and closes it: the full screen is turned
/// over with a word about it, or the cache is cleared by whoever holds it.
pub proof fn menu_actions_are_carried_out()
    ensures
        forall|
            app: &mut App,
            action: LauncherAction,
            fullscreen: bool,
            now: u64,
            step: LauncherStep,
        | #[trigger]
            call_ensures(App::apply_launcher_action, (app, action, fullscreen, now), step) ==> {
                &&& !final(app).launcher_open
                &&& action == LauncherAction::ToggleFullscreen ==> step is Fullscreen
                    && step->Fullscreen_0.entering != fullscreen && step->Fullscreen_0.by_player
                    == app.has_player && final(app).toast is Some && final(app).toast->0.shown_at
                    == now
                &&& action == LauncherAction::ClearCache ==> step is Clear && (step->Clear_0
                    == ClearStep::ByHandle <==> app.has_player) && final(app).toast == app.toast
                &&& final(app).screen == app.screen && final(app).state == app.state && final(app).has_player == app.has_player
            },
{
}

/// What became of the cache is said: that it is cleared, or why it is not.
pub proof fn clearing_is_reported()
    ensures
        forall|app: &mut App, result: Result<(), &str>, now: u64| #[trigger]
            call_ensures(App::cache_cleared, (app, result, now), ()) ==> {
                &&& final(app).toast is Some && final(app).toast->0.shown_at == now
                &&& result is Ok ==> final(app).toast->0.message@ == "Cache cleared"@
                &&& result is Err ==> final(app).toast->0.message@ == "Could not clear cache: "@
                    + result->Err_0@
                &&& *final(app) == (App { toast: final(app).toast, ..*app })
            },
{
}

/// The player runs on for exactly the time that passes while the game is shown,
/// however often the program waits in between: what one wait leaves over the
/// next one takes.
pub proof fn players_run_as_time_passes()
    ensures
        forall|a: &mut App, b: &mut App, now: u64, later: u64, first: WaitStep, second: WaitStep|
            #[trigger]
            call_ensures(App::about_to_wait, (a, now), first) && #[trigger] call_ensures(
                App::about_to_wait,
                (b, later),
                second,
            ) && *b == *final(a) && a.time <= now <= later && a.screen is Playing && a.has_player
                ==> {
                let ran = |step: WaitStep|
                    if step.tick is Some {
                        step.tick->0 as int
                    } else {
                        0
                    };
                &&& ran(first) == now - a.time
                &&& ran(first) + ran(second) == later - a.time
                &&& final(b).time == later
            },
{
}

/// Where the game is not shown the player does not run, and the program waits for
/// an event; where it is, the program waits for the next frame. While a toast is
/// shown the window is drawn again after 16 milliseconds, and once more when the
/// toast is gone.
pub proof fn waits_follow_what_is_shown()
    ensures
        forall|app: &mut App, now: u64, step: WaitStep| #[trigger]
            call_ensures(App::about_to_wait, (app, now), step) ==> {
                let runs = app.screen is Playing && app.has_player;
                let lives = app.toast is Some && now < app.toast->0.shown_at + 3_000_000_000;
                &&& step.ask_player <==> runs
                &&& step.tick is Some <==> runs && now > app.time
                &&& step.tick is Some ==> app.time + step.tick->0 == now && final(app).time == now
                &&& step.tick is None ==> final(app).time == app.time
                &&& step.redraw <==> app.toast is Some
                &&& lives ==> final(app).toast == app.toast
                &&& !lives ==> final(app).toast is None
                &&& lives && now + 16_000_000 <= u64::MAX ==> step.wait == WaitUntil::Time(
                    (now + 16_000_000) as u64,
                )
                &&& !lives ==> (step.wait == WaitUntil::Event <==> !runs) && (step.wait
                    == WaitUntil::NextFrame <==> step.tick is Some)
                &&& final(app).screen == app.screen && final(app).state == app.state && final(app).has_player == app.has_player
            },
{
}

/// What the launcher makes of an event is what is handed to the game: an event
/// of which the game is told is one that the launcher has not used.
pub proof fn used_events_are_not_handed_on()
    ensures
        forall|a: &mut App, b: &mut App, event: &AppEvent, used: bool, step: EventStep|
            #[trigger]
            call_ensures(App::launcher_consumes_pointer_event, (a, event), used) && #[trigger]
                call_ensures(App::window_event, (b, event), step) && *a == *b ==> {
                &&& step.to_player ==> !used
                &&& used ==> event is CursorMoved || event is MouseInput || event is MouseWheel
                    || event is CursorLeft
                &&& event is Key && !event->f11 && b.screen is Playing && b.has_player
                    ==> step.to_player
            },
{
}

/// The menu's entry says what it will do: leave the full screen where it is on,
/// enter it where it is not.
pub proof fn labels_say_what_will_be_done(on: &'static str, off: &'static str)
    requires
        call_ensures(fullscreen_label, (true,), on),
        call_ensures(fullscreen_label, (false,), off),
    ensures
        on@ == "Exit fullscreen"@,
        off@ == "Fullscreen"@,
{
}

/// The menu that is drawn opens by its button and closes by it, and an entry of
/// it is carried out only while it is open.
pub proof fn menus_open_and_close_by_their_button(
    open: bool,
    clicks: LauncherClicks,
    response: LauncherResponse,
)
    requires
        call_ensures(launcher_ui, (open, clicks), response),
    ensures
        clicks.trigger && !clicks.fullscreen && !clicks.clear_cache && !clicks.pressed_outside
            ==> response.set_open == Some(!open) && response.action is None,
        !open ==> response.action is None && response.set_open == (if clicks.trigger {
            Some(true)
        } else {
            None
        }),
        open && clicks.fullscreen ==> response.action == Some(LauncherAction::ToggleFullscreen)
            && response.set_open == Some(false),
        open && clicks.clear_cache && !clicks.fullscreen ==> response.action == Some(
            LauncherAction::ClearCache,
        ) && response.set_open == Some(false),
        open && clicks.pressed_outside ==> response.set_open == Some(false),
        open && !clicks.trigger && !clicks.fullscreen && !clicks.clear_cache
            && !clicks.pressed_outside ==> response.set_open is None,
{
}

} // verus!
