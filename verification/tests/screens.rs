use itmr_dragonfable_launcher::app::{
    detected_sources, error_ui, fullscreen_label, launcher_ui, player_inputs, reconfigure_surface,
    setup_ui, should_persist_migration, shutdown, source_index, surface_step,
    viewport_needs_update, App, AppEvent, ClearStep, CurrentSurface, ErrorAction, FrameContent,
    FullscreenStep, ImeKind, LauncherAction, LauncherClicks, LauncherResponse, LauncherStep,
    MouseButton, PlayerInput, Resource, RetryStep, SurfaceStep, Toast, WaitUntil, TOAST_DURATION,
    TOAST_FADE_DURATION,
};
use itmr_dragonfable_launcher::config::{
    cache_dir, config_dir, log_dir, save_dir, MigrationChoice, PlatformDirectory, State,
};
use itmr_dragonfable_launcher::log_window::{PresentMode, SurfaceFormat};
use itmr_dragonfable_launcher::migration::sources;
use itmr_dragonfable_launcher::panic_report::{format_panic, PanicSite};
use itmr_dragonfable_launcher::ui::{
    cursor_icon, face_attributes, font_query, initial_screen, unsupported_video_opens, CursorIcon,
    FontStyle, MigratedSource, MouseCursor, Screen,
};

fn source(id: &str) -> MigratedSource {
    MigratedSource { id: id.into(), name: id.into() }
}

#[test]
fn disclaimer_shows_first_even_with_data_available() {
    let state = State::default();
    let detected = vec![source("flash-player")];
    assert_eq!(initial_screen(&state, &detected), Screen::Disclaimer);
}

#[test]
fn setup_shows_only_when_data_detected() {
    let state = State { disclaimer_accepted: true, ..State::default() };
    let detected = vec![source("flash-player"), source("evolved-dragonfable-launcher")];
    assert_eq!(initial_screen(&state, &detected), Screen::Setup { sources: detected.clone() });
}

#[test]
fn setup_skipped_when_no_data() {
    let state = State { disclaimer_accepted: true, ..State::default() };
    assert_eq!(initial_screen(&state, &[]), Screen::Playing);
}

#[test]
fn setup_skipped_after_migration_choice() {
    let state = State {
        disclaimer_accepted: true,
        migration: Some(MigrationChoice { source: None, copied_at_unix: 0 }),
        ..State::default()
    };
    assert_eq!(initial_screen(&state, &[source("flash-player")]), Screen::Playing);
}

#[test]
fn migration_choice_persists_only_on_success_or_decline() {
    assert!(should_persist_migration(&None));
    assert!(should_persist_migration(&Some(Ok(3))));
    assert!(!should_persist_migration(&Some(Err(()))));
}

#[test]
fn viewport_needs_update_when_no_texture_registered_even_if_sizes_match() {
    assert!(viewport_needs_update(false, Some((800, 600)), Some(1.0) == Some(1.0), (800, 600)));
    assert!(viewport_needs_update(false, None, None == Some(1.0), (800, 600)));
}

#[test]
fn viewport_needs_update_when_the_movie_size_changed() {
    assert!(viewport_needs_update(true, Some((800, 600)), Some(1.0) == Some(1.0), (750, 550)));
}

#[test]
fn viewport_needs_update_when_the_scale_factor_changed() {
    assert!(viewport_needs_update(true, Some((800, 600)), Some(1.0) == Some(1.5), (800, 600)));
}

#[test]
fn viewport_does_not_need_update_when_texture_registered_and_sizes_match() {
    assert!(!viewport_needs_update(true, Some((800, 600)), Some(1.5) == Some(1.5), (800, 600)));
}

fn opacity(toast: &Toast, now: u64) -> f32 {
    1.0 - toast.faded(now) as f32 / TOAST_FADE_DURATION as f32
}

#[test]
fn toast_stays_visible_then_fades_and_expires() {
    let now: u64 = 5_000_000_000;
    let toast = Toast { message: "Done".into(), shown_at: now };
    assert_eq!(opacity(&toast, now), 1.0);
    let fading = now + TOAST_DURATION - 100_000_000;
    assert!(opacity(&toast, fading) > 0.0 && opacity(&toast, fading) < 1.0);
    assert!(toast.expired(now + TOAST_DURATION));
}

#[test]
fn toasts_fade_only_at_their_end() {
    let toast = Toast { message: "Done".into(), shown_at: 10 };
    assert_eq!(toast.faded(0), 0);
    assert_eq!(toast.faded(10 + 2_550_000_000), 0);
    assert_eq!(toast.faded(10 + 2_550_000_001), 1);
    assert_eq!(toast.faded(u64::MAX), 450_000_000);
    assert!(!toast.expired(9));
    assert!(!toast.expired(10 + TOAST_DURATION - 1));
}

#[test]
fn format_panic_includes_message_and_location() {
    let site = PanicSite { file: "src/main.rs", line: 190, column: 7 };
    let formatted = format_panic(Some("boom"), Some(site));
    assert!(formatted.starts_with("PANIC: boom"));
    assert!(formatted.contains("at src/main.rs:"), "got: {formatted}");
    assert_eq!(formatted, "PANIC: boom\n  at src/main.rs:190:7");
}

#[test]
fn format_panic_falls_back_without_payload_or_location() {
    let formatted = format_panic(None, None);
    assert_eq!(formatted, "PANIC: panic occurred");
}

#[test]
fn panic_sites_are_written_in_decimal() {
    let site = PanicSite { file: "f", line: 0, column: u32::MAX };
    assert_eq!(format_panic(None, Some(site)), "PANIC: panic occurred\n  at f:0:4294967295");
}

fn playing() -> App {
    let state = State { disclaimer_accepted: true, ..State::default() };
    let (app, build) = App::new(state, vec![], 0);
    assert!(app.playing() && build && app.has_player);
    app
}

fn launcher(state: State, detected: Vec<MigratedSource>) -> App {
    App::new(state, detected, 0).0
}

fn press(button: MouseButton) -> AppEvent {
    AppEvent::MouseInput { pressed: true, button }
}

fn release(button: MouseButton) -> AppEvent {
    AppEvent::MouseInput { pressed: false, button }
}

#[test]
fn the_game_is_started_once() {
    let mut app = playing();
    assert!(!app.start_game());
    assert_eq!(app.retry_play(), RetryStep::Refetch);
    let mut app = launcher(State::default(), vec![]);
    assert_eq!(app.retry_play(), RetryStep::Build);
    assert!(app.has_player);
}

#[test]
fn accepting_the_disclaimer_leads_on() {
    let mut app = launcher(State::default(), vec![source("a")]);
    assert_eq!(app.screen, Screen::Disclaimer);
    assert!(!app.accept_disclaimer());
    assert!(app.state.disclaimer_accepted);
    assert_eq!(app.screen, Screen::Setup { sources: vec![source("a")] });
    assert_eq!(app.chosen_source(Some(0)).as_deref(), Some("a"));
    assert_eq!(app.chosen_source(None), None);
    let mut app = launcher(State::default(), vec![]);
    assert!(app.accept_disclaimer());
    assert_eq!(app.screen, Screen::Playing);
}

#[test]
fn failed_copies_leave_the_choice_open() {
    let state = State { disclaimer_accepted: true, ..State::default() };
    let mut app = launcher(state.clone(), vec![source("a")]);
    let step = app.apply_migration_choice(Some("a".to_string()), Some(Err(())), 12);
    assert!(!step.save && step.build);
    assert_eq!(app.state, state);
    assert_eq!(initial_screen(&app.state, &[source("a")]), Screen::Setup { sources: vec![source("a")] });
    let mut app = launcher(state, vec![source("a")]);
    let step = app.apply_migration_choice(Some("a".to_string()), Some(Ok(3)), 12);
    assert!(step.save && step.build);
    assert_eq!(
        app.state.migration,
        Some(MigrationChoice { source: Some("a".to_string()), copied_at_unix: 12 })
    );
    assert_eq!(app.screen, Screen::Playing);
}

#[test]
fn overlay_screens_keep_input() {
    let mut app = launcher(State::default(), vec![]);
    let step = app.window_event(&press(MouseButton::Left));
    assert!(step.to_interface && step.redraw && !step.to_player);
}

#[test]
fn f11_switches_the_full_screen_and_never_reaches_the_game() {
    let mut app = playing();
    let key = |pressed: bool, repeat: bool, f11: bool| AppEvent::Key {
        f11,
        pressed,
        repeat,
        control: false,
        text: None,
    };
    let step = app.window_event(&key(true, false, true));
    assert!(step.toggle_fullscreen && !step.to_player && step.redraw && step.to_interface);
    let step = app.window_event(&key(true, true, true));
    assert!(!step.toggle_fullscreen && !step.to_player);
    let step = app.window_event(&key(false, false, true));
    assert!(!step.toggle_fullscreen && !step.to_player);
    let step = app.window_event(&key(true, false, false));
    assert!(!step.toggle_fullscreen && step.to_player);
}

#[test]
fn captured_presses_are_released_to_the_launcher() {
    let mut app = playing();
    assert!(!app.window_event(&AppEvent::CursorMoved { over_launcher: true }).to_player);
    assert!(!app.window_event(&press(MouseButton::Left)).to_player);
    assert!(!app.window_event(&AppEvent::CursorMoved { over_launcher: false }).to_player);
    assert!(!app.window_event(&AppEvent::CursorLeft).to_player);
    assert!(!app.window_event(&release(MouseButton::Left)).to_player);
    assert!(app.window_event(&AppEvent::CursorMoved { over_launcher: false }).to_player);
    assert!(app.window_event(&press(MouseButton::Left)).to_player);
    assert!(app.window_event(&release(MouseButton::Left)).to_player);
    assert!(app.window_event(&AppEvent::MouseWheel).to_player);
    app.launcher_open = true;
    assert!(!app.window_event(&AppEvent::MouseWheel).to_player);
}

#[test]
fn minimized_windows_are_not_rendered() {
    let mut app = playing();
    assert!(app.window_event(&AppEvent::RedrawRequested).render);
    let step = app.window_event(&AppEvent::Resized { width: 0, height: 0 });
    assert!(step.reconfigure && step.redraw);
    assert!(!app.window_event(&AppEvent::RedrawRequested).render);
    app.window_event(&AppEvent::Resized { width: 0, height: 1 });
    assert!(app.window_event(&AppEvent::RedrawRequested).render);
    assert!(app.window_event(&AppEvent::ScaleFactorChanged).reconfigure);
    assert!(app.window_event(&AppEvent::ModifiersChanged).take_modifiers);
    assert!(app.window_event(&AppEvent::CloseRequested).exit);
}

#[test]
fn the_player_is_told_what_was_typed() {
    let key = |pressed: bool, control: bool, text: Option<&str>| AppEvent::Key {
        f11: false,
        pressed,
        repeat: false,
        control,
        text: text.map(str::to_string),
    };
    assert_eq!(
        player_inputs(&key(true, false, Some("aé"))),
        vec![PlayerInput::KeyDown, PlayerInput::TextInput(0x61), PlayerInput::TextInput(0xe9)]
    );
    assert_eq!(
        player_inputs(&key(true, true, Some("a"))),
        vec![PlayerInput::KeyDown, PlayerInput::TextControl]
    );
    assert_eq!(player_inputs(&key(false, true, Some("a"))), vec![PlayerInput::KeyUp]);
    assert_eq!(
        player_inputs(&AppEvent::CursorLeft),
        vec![PlayerInput::MouseInStage(false), PlayerInput::MouseLeave]
    );
    assert_eq!(player_inputs(&AppEvent::CursorEntered), vec![PlayerInput::MouseInStage(true)]);
    assert_eq!(
        player_inputs(&press(MouseButton::Right)),
        vec![PlayerInput::MouseDown(MouseButton::Right)]
    );
    assert_eq!(
        player_inputs(&release(MouseButton::Other)),
        vec![PlayerInput::MouseUp(MouseButton::Other)]
    );
    assert_eq!(player_inputs(&AppEvent::Focused(false)), vec![PlayerInput::FocusLost]);
    assert_eq!(player_inputs(&AppEvent::Ime(ImeKind::Commit)), vec![PlayerInput::ImeCommit]);
    assert_eq!(player_inputs(&AppEvent::Ime(ImeKind::Enabled)), vec![]);
    assert_eq!(player_inputs(&AppEvent::CloseRequested), vec![]);
}

#[test]
fn the_full_screen_is_announced() {
    let mut app = playing();
    app.launcher_open = true;
    assert_eq!(
        app.toggle_fullscreen(false, 7),
        FullscreenStep { entering: true, by_player: true }
    );
    assert!(!app.launcher_open);
    let toast = app.toast.as_ref().unwrap();
    assert_eq!((toast.message.as_str(), toast.shown_at), ("Fullscreen — press F11 to exit", 7));
    app.toggle_fullscreen(true, 8);
    assert_eq!(app.toast.as_ref().unwrap().message, "Exited fullscreen");
    assert_eq!(fullscreen_label(true), "Exit fullscreen");
    assert_eq!(fullscreen_label(false), "Fullscreen");
}

#[test]
fn clearing_the_cache_is_announced() {
    let mut app = launcher(State::default(), vec![]);
    assert_eq!(
        app.apply_launcher_action(LauncherAction::ClearCache, false, 1),
        LauncherStep::Clear(ClearStep::ByDirectory)
    );
    app.cache_cleared(Ok(()), 2);
    assert_eq!(app.toast.as_ref().unwrap().message, "Cache cleared");
    app.cache_cleared(Err("denied"), 3);
    assert_eq!(app.toast.as_ref().unwrap().message, "Could not clear cache: denied");
    assert_eq!(playing().clear_game_cache(), ClearStep::ByHandle);
}

#[test]
fn the_menu_acts_only_while_it_is_open() {
    let clicks = LauncherClicks {
        trigger: false,
        fullscreen: true,
        clear_cache: true,
        pressed_outside: false,
    };
    assert_eq!(launcher_ui(false, clicks), LauncherResponse { action: None, set_open: None });
    assert_eq!(
        launcher_ui(true, clicks),
        LauncherResponse {
            action: Some(LauncherAction::ToggleFullscreen),
            set_open: Some(false)
        }
    );
    let trigger = LauncherClicks {
        trigger: true,
        fullscreen: false,
        clear_cache: false,
        pressed_outside: false,
    };
    assert_eq!(launcher_ui(false, trigger).set_open, Some(true));
    assert_eq!(launcher_ui(true, trigger).set_open, Some(false));
    let outside = LauncherClicks { trigger: false, pressed_outside: true, ..trigger };
    assert_eq!(launcher_ui(true, outside).set_open, Some(false));
    assert_eq!(launcher_ui(false, outside).set_open, None);
    let clear = LauncherClicks { trigger: false, clear_cache: true, ..trigger };
    assert_eq!(launcher_ui(true, clear).action, Some(LauncherAction::ClearCache));
}

#[test]
fn a_frame_ends_with_what_the_menu_asked_for() {
    let mut app = playing();
    let after = app.end_frame(LauncherResponse { action: None, set_open: Some(true) }, true);
    assert!(after.redraw && after.action.is_none());
    assert!(app.launcher_open && app.launcher_pointer_over);
    let after = app.end_frame(LauncherResponse { action: None, set_open: Some(true) }, false);
    assert!(!after.redraw);
    assert!(!app.launcher_pointer_over);
}

#[test]
fn error_ui_without_a_click_returns_no_action() {
    assert_eq!(error_ui(true, false, false), None);
}

#[test]
fn error_ui_retry_click_returns_retry() {
    assert_eq!(error_ui(true, true, false), Some(ErrorAction::Retry));
}

#[test]
fn error_ui_quit_click_returns_quit() {
    assert_eq!(error_ui(true, false, true), Some(ErrorAction::Quit));
}

#[test]
fn error_ui_without_retry_offers_only_quit() {
    assert_eq!(error_ui(false, false, false), None);
    assert_eq!(error_ui(false, true, false), None);
    assert_eq!(error_ui(false, false, true), Some(ErrorAction::Quit));
}

#[test]
fn error_ui_ignores_clicks_off_the_buttons() {
    let (retry_clicked, quit_clicked) = (false, false);
    assert_eq!(error_ui(true, retry_clicked, quit_clicked), None);
}

#[test]
fn choices_on_the_overlay_screens() {
    assert_eq!(setup_ui(&vec![false, false], false), None);
    assert_eq!(setup_ui(&vec![true, true, false], false), Some(Some(1)));
    assert_eq!(setup_ui(&vec![true], true), Some(None));
    assert_eq!(error_ui(true, true, false), Some(ErrorAction::Retry));
    assert_eq!(error_ui(false, true, false), None);
    assert_eq!(error_ui(true, true, true), Some(ErrorAction::Quit));
    assert_eq!(error_ui(true, false, false), None);
}

#[test]
fn frames_show_the_current_screen() {
    let mut app = playing();
    let plan = app.frame_plan(false);
    assert_eq!(plan.content, FrameContent::Loading);
    assert!(plan.player_draws && plan.launcher && !plan.toast);
    assert_eq!(app.frame_plan(true).content, FrameContent::Movie);
    app.show_toast("hi".to_string(), 0);
    app.begin_frame(Some("no network".to_string()), 1);
    assert_eq!(app.screen, Screen::Error { message: "no network".to_string() });
    let plan = app.frame_plan(true);
    assert_eq!(plan.content, FrameContent::Error { can_retry: true });
    assert!(plan.toast && !plan.launcher && !plan.player_draws);
    app.begin_frame(None, TOAST_DURATION);
    assert!(app.toast.is_none());
}

#[test]
fn waiting_follows_the_game_and_the_toast() {
    let mut app = playing();
    let step = app.about_to_wait(100);
    assert_eq!(step.tick, Some(100));
    assert!(step.ask_player && !step.redraw);
    assert_eq!(step.wait, WaitUntil::NextFrame);
    let step = app.about_to_wait(100);
    assert_eq!((step.tick, step.wait), (None, WaitUntil::Unchanged));
    app.show_toast("hi".to_string(), 100);
    let step = app.about_to_wait(150);
    assert!(step.redraw);
    assert_eq!(step.wait, WaitUntil::Time(16_000_150));
    let step = app.about_to_wait(100 + TOAST_DURATION);
    assert!(step.redraw && app.toast.is_none());
    assert_eq!(step.wait, WaitUntil::NextFrame);
    let mut app = launcher(State::default(), vec![]);
    assert_eq!(app.about_to_wait(5).wait, WaitUntil::Event);
}

#[test]
fn surfaces_that_are_gone_are_configured_anew() {
    assert_eq!(surface_step(CurrentSurface::Success), SurfaceStep::Draw);
    assert_eq!(surface_step(CurrentSurface::Suboptimal), SurfaceStep::Draw);
    assert_eq!(surface_step(CurrentSurface::Lost), SurfaceStep::ReconfigureAndRedraw);
    assert_eq!(surface_step(CurrentSurface::Outdated), SurfaceStep::ReconfigureAndRedraw);
    assert_eq!(surface_step(CurrentSurface::Timeout), SurfaceStep::Skip);
    assert_eq!(surface_step(CurrentSurface::Occluded), SurfaceStep::Skip);
    assert_eq!(surface_step(CurrentSurface::Validation), SurfaceStep::Skip);
    assert_eq!(reconfigure_surface(SurfaceFormat::Rgba8Unorm, 0, 10), None);
    let config = reconfigure_surface(SurfaceFormat::Rgba8Unorm, 3, 10).unwrap();
    assert_eq!((config.width, config.height), (3, 10));
    assert_eq!(config.present_mode, PresentMode::AutoVsync);
}

#[test]
fn the_window_goes_last() {
    let order = shutdown();
    assert_eq!(order.len(), 8);
    assert_eq!(order[0], Resource::Player);
    assert_eq!(order[7], Resource::Window);
}

#[test]
fn only_launchers_with_data_are_offered() {
    let known = sources(true, true, true);
    let detected = detected_sources(&known, &vec![true, false, true]);
    assert_eq!(
        detected,
        vec![
            MigratedSource { id: "flash-player".into(), name: "Adobe Flash Player".into() },
            MigratedSource {
                id: "evolved-dragonfable-launcher".into(),
                name: "Evolved DragonFable Launcher".into()
            },
        ]
    );
    assert_eq!(source_index(&known, "artix-game-launcher"), Some(1));
    assert_eq!(source_index(&known, "other"), None);
}

#[test]
fn the_desktop_follows_the_game() {
    assert_eq!(cursor_icon(MouseCursor::Arrow), CursorIcon::Default);
    assert_eq!(cursor_icon(MouseCursor::Hand), CursorIcon::Pointer);
    assert_eq!(cursor_icon(MouseCursor::IBeam), CursorIcon::Text);
    assert_eq!(cursor_icon(MouseCursor::Grab), CursorIcon::Grab);
    assert!(unsupported_video_opens("https"));
    assert!(!unsupported_video_opens("javascript"));
    assert_eq!(font_query(true, false), (700, FontStyle::Normal));
    assert_eq!(font_query(false, true), (400, FontStyle::Italic));
    assert_eq!(face_attributes(401, FontStyle::Oblique), (true, true));
    assert_eq!(face_attributes(400, FontStyle::Normal), (false, false));
}

#[test]
fn missing_state_file_loads_as_default() {
    assert_eq!(State::load(None), State::default());
}

#[test]
fn directories_lie_below_those_of_the_platform() {
    assert_eq!((cache_dir().base, cache_dir().path), (PlatformDirectory::Cache, "itmr-dragonfable-launcher"));
    assert_eq!(
        (save_dir().base, save_dir().path),
        (PlatformDirectory::DataLocal, "itmr-dragonfable-launcher/SharedObjects")
    );
    assert_eq!(
        (config_dir().base, config_dir().path),
        (PlatformDirectory::ConfigLocal, "itmr-dragonfable-launcher")
    );
    assert_eq!((log_dir().base, log_dir().path), (PlatformDirectory::DataLocal, "itmr-dragonfable-launcher/log"));
}
