use itmr_dragonfable_launcher::log::{
    handle_javascript_url, new_shared_log_state, LogDisplay, LogSnapshot, LogTab,
};
use itmr_dragonfable_launcher::log_ui::{side_panel_shown, tab_label, LogUiResponse};
use itmr_dragonfable_launcher::log_window::{
    preferred_surface_format, surface_configuration, FrameStep, LogSurface, LogWindow,
    LogWindowAction, LogWindowEvent, LogWindowStep, PresentMode, SurfaceFormat,
};

#[test]
fn selecting_a_tab_updates_the_log_model() {
    let mut logs = new_shared_log_state();

    LogUiResponse { selected_tab: Some(LogTab::Battle), close_requested: false }.apply(&mut logs);

    assert_eq!(logs.snapshot().tab, LogTab::Battle);
}

#[test]
fn closing_the_panel_hides_the_log() {
    let mut logs = new_shared_log_state();
    handle_javascript_url("javascript:toggleSbS();", &mut logs);

    LogUiResponse { selected_tab: None, close_requested: true }.apply(&mut logs);

    assert_eq!(logs.display(), LogDisplay::Hidden);
}

#[test]
fn selecting_and_closing_are_two_changes() {
    let mut logs = new_shared_log_state();
    handle_javascript_url("javascript:toggleSbS();", &mut logs);
    assert_eq!(logs.take_changes(), 1);
    let both = LogUiResponse { selected_tab: Some(LogTab::Battle), close_requested: true };

    both.apply(&mut logs);
    assert_eq!(logs.snapshot().tab, LogTab::Battle);
    assert_eq!(logs.display(), LogDisplay::Hidden);
    assert_eq!(logs.take_changes(), 2);

    both.apply(&mut logs);
    assert_eq!(logs.take_changes(), 0);

    logs.replace(LogSnapshot { tab: LogTab::Game, content: "x".to_string() });
    assert_eq!(logs.take_changes(), 1);
}

// Formats other than the two preferred ones stand for themselves by number.
const BGRA8_UNORM_SRGB: SurfaceFormat = SurfaceFormat::Other(1);
const RGBA16_FLOAT: SurfaceFormat = SurfaceFormat::Other(2);

#[test]
fn preferred_surface_format_uses_a_non_srgb_egui_format() {
    assert_eq!(
        preferred_surface_format(&[BGRA8_UNORM_SRGB, SurfaceFormat::Bgra8Unorm]),
        Some(SurfaceFormat::Bgra8Unorm)
    );
}

#[test]
fn preferred_surface_format_falls_back_to_the_first_supported_format() {
    assert_eq!(preferred_surface_format(&[RGBA16_FLOAT]), Some(RGBA16_FLOAT));
}

#[test]
fn surface_configuration_is_non_blocking_and_never_has_a_zero_extent() {
    let config = surface_configuration(SurfaceFormat::Rgba8Unorm, 0, 0);
    assert_eq!((config.width, config.height), (1, 1));
    assert_eq!(config.present_mode, PresentMode::AutoNoVsync);
}

#[test]
fn the_first_preferred_format_wins() {
    assert_eq!(
        preferred_surface_format(&[SurfaceFormat::Bgra8Unorm, SurfaceFormat::Rgba8Unorm]),
        Some(SurfaceFormat::Rgba8Unorm)
    );
    assert_eq!(preferred_surface_format(&[]), None);
}

#[test]
fn a_log_window_without_a_size_is_minimized() {
    let mut window = LogWindow::new(SurfaceFormat::Rgba8Unorm, 360, 600);
    assert_eq!(window.handle_event(LogWindowEvent::RedrawRequested), LogWindowStep::Render);
    assert_eq!(
        window.handle_event(LogWindowEvent::Resized { width: 0, height: 5 }),
        LogWindowStep::Nothing
    );
    assert!(window.minimized);
    assert_eq!((window.config.width, window.config.height), (360, 600));
    assert_eq!(window.handle_event(LogWindowEvent::RedrawRequested), LogWindowStep::Nothing);
    assert_eq!(
        window.handle_event(LogWindowEvent::ScaleFactorChanged { width: 10, height: 20 }),
        LogWindowStep::Configure
    );
    assert!(!window.minimized);
    assert_eq!((window.config.width, window.config.height), (10, 20));
    assert_eq!(window.handle_event(LogWindowEvent::CloseRequested), LogWindowStep::Close);
    assert_eq!(window.handle_event(LogWindowEvent::Other), LogWindowStep::Nothing);
}

#[test]
fn frames_that_cannot_be_drawn_are_given_up() {
    assert_eq!(LogWindow::frame_step(LogSurface::Ready), FrameStep::Draw);
    assert_eq!(LogWindow::frame_step(LogSurface::Lost), FrameStep::Refit);
    assert_eq!(LogWindow::frame_step(LogSurface::Outdated), FrameStep::Refit);
    assert_eq!(LogWindow::frame_step(LogSurface::Timeout), FrameStep::Skip);
    assert_eq!(LogWindow::frame_step(LogSurface::OutOfMemory), FrameStep::Fail);
    assert_eq!(LogWindow::frame_step(LogSurface::Other), FrameStep::Fail);
}

#[test]
fn a_drawn_frame_reports_the_selected_tab() {
    let mut logs = new_shared_log_state();
    let mut response = LogUiResponse::default();
    response.tab_button(LogTab::Game, false);
    response.tab_button(LogTab::Battle, true);
    response.close_button(false);
    assert_eq!(response.selected_tab(), Some(LogTab::Battle));
    assert_eq!(
        LogWindow::drawn(response, &mut logs),
        Some(LogWindowAction::TabSelected(LogTab::Battle))
    );
    assert_eq!(logs.snapshot().tab, LogTab::Battle);
    assert_eq!(LogWindow::drawn(LogUiResponse::default(), &mut logs), None);
    assert_eq!(tab_label(LogTab::Game, LogTab::Battle), ("Game Log", false));
    assert_eq!(tab_label(LogTab::Battle, LogTab::Battle), ("Battle Log", true));
    assert!(!side_panel_shown(&logs));
    handle_javascript_url("javascript:toggleSbS();", &mut logs);
    assert!(side_panel_shown(&logs));
}
