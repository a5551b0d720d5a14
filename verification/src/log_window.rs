//! The log window: how its surface is set up, and what it does about what
//! happens to it.

use vstd::prelude::*;

use crate::log::{LogTab, SharedLogState};
use crate::log_ui::{answers, LogUiResponse};

verus! {

/// The width of a new log window, in pixels.
pub const DEFAULT_WIDTH: u32 = 360;

/// The height of a new log window, in pixels.
pub const DEFAULT_HEIGHT: u32 = 600;

/// What the user has done in the log window.
#[derive(Debug, Clone, Copy, PartialEq, Eq, Structural)]
pub enum LogWindowAction {
    Close,
    TabSelected(LogTab),
}

/// A format of a surface: one of the two that the user interface is drawn in
/// best, or another one, by its number.
#[derive(Debug, Clone, Copy, PartialEq, Eq, Structural)]
pub enum SurfaceFormat {
    Rgba8Unorm,
    Bgra8Unorm,
    Other(u32),
}

/// Whether a frame waits for the screen.
#[derive(Debug, Clone, Copy, PartialEq, Eq, Structural)]
pub enum PresentMode {
    AutoVsync,
    AutoNoVsync,
}

/// How a surface is configured.
#[derive(Debug, Clone, Copy, PartialEq, Eq, Structural)]
pub struct SurfaceConfiguration {
    pub format: SurfaceFormat,
    pub width: u32,
    pub height: u32,
    pub present_mode: PresentMode,
    pub desired_maximum_frame_latency: u32,
}

/// The format that is used of those that a surface supports.
pub open spec fn preferred(formats: Seq<SurfaceFormat>) -> Option<SurfaceFormat> {
    if formats.contains(SurfaceFormat::Rgba8Unorm) {
        Some(SurfaceFormat::Rgba8Unorm)
    } else if formats.contains(SurfaceFormat::Bgra8Unorm) {
        Some(SurfaceFormat::Bgra8Unorm)
    } else if formats.len() > 0 {
        Some(formats[0])
    } else {
        None
    }
}

fn supports(formats: &[SurfaceFormat], format: SurfaceFormat) -> (yes: bool)
    ensures
        yes == formats@.contains(format),
{
    let mut i: usize = 0;
    while i < formats.len()
        invariant
            i <= formats@.len(),
            forall|j: int| 0 <= j < i ==> formats@[j] != format,
        decreases formats@.len() - i,
    {
        if formats[i] == format {
            assert(formats@[i as int] == format);
            return true;
        }
        i += 1;
    }
    false
}

/// Chooses a format of those that a surface supports: one whose colours are not
/// converted where there is one, else the first.
pub fn preferred_surface_format(formats: &[SurfaceFormat]) -> (format: Option<SurfaceFormat>)
    ensures
        format == preferred(formats@),
{
    if supports(formats, SurfaceFormat::Rgba8Unorm) {
        Some(SurfaceFormat::Rgba8Unorm)
    } else if supports(formats, SurfaceFormat::Bgra8Unorm) {
        Some(SurfaceFormat::Bgra8Unorm)
    } else if formats.len() > 0 {
        Some(formats[0])
    } else {
        None
    }
}

/// A format that is chosen is supported, and one is chosen wherever any is.
pub proof fn preferred_formats_are_supported(formats: Seq<SurfaceFormat>)
    ensures
        preferred(formats) matches Some(format) ==> formats.contains(format),
        preferred(formats) is Some <==> formats.len() > 0,
{
    if formats.len() > 0 {
        assert(formats.contains(formats[0]));
    }
}

fn at_least_one(n: u32) -> (m: u32)
    ensures
        m == (if n == 0 {
            1
        } else {
            n
        }),
{
    if n == 0 {
        1
    } else {
        n
    }
}

/// The configuration of the log window's surface: it never waits for the
/// screen, and has no side of length zero.
pub fn surface_configuration(format: SurfaceFormat, width: u32, height: u32) -> (config:
    SurfaceConfiguration)
    ensures
        config == (SurfaceConfiguration {
            format,
            width: if width == 0 {
                1
            } else {
                width
            },
            height: if height == 0 {
                1
            } else {
                height
            },
            present_mode: PresentMode::AutoNoVsync,
            desired_maximum_frame_latency: 2,
        }),
{
    SurfaceConfiguration {
        format,
        width: at_least_one(width),
        height: at_least_one(height),
        present_mode: PresentMode::AutoNoVsync,
        desired_maximum_frame_latency: 2,
    }
}

/// What happens to the log window.
#[derive(Debug, Clone, Copy, PartialEq, Eq, Structural)]
pub enum LogWindowEvent {
    CloseRequested,
    RedrawRequested,
    Resized { width: u32, height: u32 },
    /// The screen's scale has changed; the window's size is now this.
    ScaleFactorChanged { width: u32, height: u32 },
    Other,
}

/// What is done about it.
#[derive(Debug, Clone, Copy, PartialEq, Eq, Structural)]
pub enum LogWindowStep {
    Nothing,
    Close,
    Render,
    /// Configure the surface anew and draw the window again.
    Configure,
}

/// What became of the attempt to get a frame.
#[derive(Debug, Clone, Copy, PartialEq, Eq, Structural)]
pub enum LogSurface {
    Ready,
    Lost,
    Outdated,
    Timeout,
    OutOfMemory,
    Other,
}

/// What is done about a frame.
#[derive(Debug, Clone, Copy, PartialEq, Eq, Structural)]
pub enum FrameStep {
    Draw,
    /// Fit the surface to the window's size and give the frame up.
    Refit,
    Skip,
    /// The surface cannot be used any more.
    Fail,
}

/// The log window.
#[derive(Debug)]
pub struct LogWindow {
    pub config: SurfaceConfiguration,
    pub minimized: bool,
}

/// The window once it has been resized. A side of length zero means that it is
/// minimized, and its surface is left alone.
pub open spec fn resized(window: LogWindow, width: u32, height: u32) -> LogWindow {
    if width == 0 || height == 0 {
        LogWindow { minimized: true, ..window }
    } else {
        LogWindow {
            minimized: false,
            config: SurfaceConfiguration { width, height, ..window.config },
        }
    }
}

impl LogWindow {
    /// No side of the surface has length zero.
    pub open spec fn wf(&self) -> bool {
        self.config.width > 0 && self.config.height > 0
    }

    /// A window of the given size.
    pub fn new(format: SurfaceFormat, width: u32, height: u32) -> (window: Self)
        ensures
            window.wf(),
            !window.minimized,
            window.config.format == format,
            window.config.present_mode == PresentMode::AutoNoVsync,
            window.config.desired_maximum_frame_latency == 2,
            window.config.width == (if width == 0 {
                1
            } else {
                width
            }),
            window.config.height == (if height == 0 {
                1
            } else {
                height
            }),
    {
        LogWindow { config: surface_configuration(format, width, height), minimized: false }
    }

    /// Follows the window's size.
    pub fn resize(&mut self, width: u32, height: u32) -> (step: LogWindowStep)
        ensures
            *final(self) == resized(*old(self), width, height),
            step == (if width == 0 || height == 0 {
                LogWindowStep::Nothing
            } else {
                LogWindowStep::Configure
            }),
            old(self).wf() ==> final(self).wf(),
    {
        self.minimized = width == 0 || height == 0;
        if self.minimized {
            return LogWindowStep::Nothing;
        }
        self.config.width = width;
        self.config.height = height;
        LogWindowStep::Configure
    }

    /// Decides what is done about what happens to the window.
    pub fn handle_event(&mut self, event: LogWindowEvent) -> (step: LogWindowStep)
        ensures
            old(self).wf() ==> final(self).wf(),
            match event {
                LogWindowEvent::CloseRequested => step == LogWindowStep::Close && *final(self)
                    == *old(self),
                LogWindowEvent::RedrawRequested => *final(self) == *old(self) && step == (
                if old(self).minimized {
                    LogWindowStep::Nothing
                } else {
                    LogWindowStep::Render
                }),
                LogWindowEvent::Resized { width, height }
                | LogWindowEvent::ScaleFactorChanged { width, height } => *final(self) == resized(
                    *old(self),
                    width,
                    height,
                ) && step == (if width == 0 || height == 0 {
                    LogWindowStep::Nothing
                } else {
                    LogWindowStep::Configure
                }),
                LogWindowEvent::Other => step == LogWindowStep::Nothing && *final(self)
                    == *old(self),
            },
    {
        match event {
            LogWindowEvent::CloseRequested => LogWindowStep::Close,
            LogWindowEvent::RedrawRequested => {
                if self.minimized {
                    LogWindowStep::Nothing
                } else {
                    LogWindowStep::Render
                }
            },
            LogWindowEvent::Resized { width, height } => self.resize(width, height),
            LogWindowEvent::ScaleFactorChanged { width, height } => self.resize(width, height),
            LogWindowEvent::Other => LogWindowStep::Nothing,
        }
    }

    /// Decides what is done about a frame.
    pub fn frame_step(surface: LogSurface) -> (step: FrameStep)
        ensures
            step == (match surface {
                LogSurface::Ready => FrameStep::Draw,
                LogSurface::Lost => FrameStep::Refit,
                LogSurface::Outdated => FrameStep::Refit,
                LogSurface::Timeout => FrameStep::Skip,
                LogSurface::OutOfMemory => FrameStep::Fail,
                LogSurface::Other => FrameStep::Fail,
            }),
    {
        match surface {
            LogSurface::Ready => FrameStep::Draw,
            LogSurface::Lost => FrameStep::Refit,
            LogSurface::Outdated => FrameStep::Refit,
            LogSurface::Timeout => FrameStep::Skip,
            LogSurface::OutOfMemory => FrameStep::Fail,
            LogSurface::Other => FrameStep::Fail,
        }
    }

    /// Lets the logs follow what the user has done in the frame that was drawn.
    /// Returns the action to be reported.
    pub fn drawn(response: LogUiResponse, logs: &mut SharedLogState) -> (action: Option<
        LogWindowAction,
    >)
        ensures
            action == (match response.selected_tab {
                Some(tab) => Some(LogWindowAction::TabSelected(tab)),
                None => None,
            }),
            answers(final(logs), old(logs), response),
    {
        let selected = response.selected_tab();
        response.apply(logs);
        match selected {
            Some(tab) => Some(LogWindowAction::TabSelected(tab)),
            None => None,
        }
    }
}

/// A format whose colours are not converted is chosen wherever one is supported,
/// and of the two the one that keeps red first; else it is the first that there
/// is.
pub proof fn unconverted_formats_are_preferred(formats: Seq<SurfaceFormat>, i: int)
    requires
        0 <= i < formats.len(),
    ensures
        formats[i] == SurfaceFormat::Rgba8Unorm ==> preferred(formats) == Some(formats[i]),
        formats[i] == SurfaceFormat::Bgra8Unorm ==> preferred(formats) == Some(formats[i])
            || preferred(formats) == Some(SurfaceFormat::Rgba8Unorm),
        (forall|k: int|
            0 <= k < formats.len() ==> (#[trigger] formats[k]) != SurfaceFormat::Rgba8Unorm
                && formats[k] != SurfaceFormat::Bgra8Unorm) ==> preferred(formats) == Some(
            formats[0],
        ),
        preferred(formats) matches Some(format) && formats.contains(format),
{
    preferred_formats_are_supported(formats);
    assert(formats.contains(formats[i]));
}

/// A window that is given a size has that size and is shown; one that is given a
/// side of length zero is minimized and keeps its size. Nothing else of its
/// surface changes.
pub proof fn windows_follow_their_size(window: LogWindow, width: u32, height: u32)
    ensures
        ({
            let after = resized(window, width, height);
            &&& after.minimized <==> width == 0 || height == 0
            &&& width > 0 && height > 0 ==> after.config.width == width && after.config.height
                == height
            &&& width == 0 || height == 0 ==> after.config == window.config
            &&& after.config.format == window.config.format
            &&& after.config.present_mode == window.config.present_mode
            &&& after.config.desired_maximum_frame_latency
                == window.config.desired_maximum_frame_latency
        }),
{
}

/// A new window is shown, has the size that it was given, with no side shorter
/// than one pixel, and does not wait for the screen.
pub proof fn new_windows_have_their_size(
    format: SurfaceFormat,
    width: u32,
    height: u32,
    window: LogWindow,
)
    requires
        call_ensures(LogWindow::new, (format, width, height), window),
    ensures
        !window.minimized,
        width > 0 ==> window.config.width == width,
        height > 0 ==> window.config.height == height,
        width == 0 ==> window.config.width == 1,
        height == 0 ==> window.config.height == 1,
        window.config.format == format,
        window.config.present_mode == PresentMode::AutoNoVsync,
        window.config.desired_maximum_frame_latency == 2,
{
}

/// The window is drawn when that is asked for, unless it is minimized; it closes
/// when that is asked for, and only then; and each new size, or a new scale's, is
/// taken over where it has an area.
pub proof fn log_windows_do_what_happens_to_them()
    ensures
        forall|window: &mut LogWindow, event: LogWindowEvent, step: LogWindowStep| #[trigger]
            call_ensures(LogWindow::handle_event, (window, event), step) ==> {
                let fits = |width: u32, height: u32|
                    {
                        &&& width > 0 && height > 0 ==> step == LogWindowStep::Configure && final(window).config.width == width && final(window).config.height == height && !final(window).minimized
                        &&& width == 0 || height == 0 ==> step == LogWindowStep::Nothing && final(window).config == window.config && final(window).minimized
                    };
                &&& step == LogWindowStep::Close <==> event is CloseRequested
                &&& step == LogWindowStep::Render <==> event is RedrawRequested
                    && !window.minimized
                &&& event is Resized ==> fits(event->Resized_width, event->Resized_height)
                &&& event is ScaleFactorChanged ==> fits(
                    event->ScaleFactorChanged_width,
                    event->ScaleFactorChanged_height,
                )
                &&& !(event is Resized) && !(event is ScaleFactorChanged) ==> *final(window)
                    == *window
                &&& final(window).config.format == window.config.format
                &&& final(window).config.present_mode == window.config.present_mode
            },
{
}

/// A frame of the log window is drawn where there is one; a surface that is gone
/// or no longer fits is fitted; waiting too long leaves the frame out; any other
/// failure ends the drawing.
pub proof fn log_frames_are_drawn_where_they_can_be(surface: LogSurface, step: FrameStep)
    requires
        call_ensures(LogWindow::frame_step, (surface,), step),
    ensures
        step == FrameStep::Draw <==> surface == LogSurface::Ready,
        step == FrameStep::Refit <==> surface == LogSurface::Lost || surface
            == LogSurface::Outdated,
        step == FrameStep::Skip <==> surface == LogSurface::Timeout,
{
}

/// The log that the user has selected in the window is reported, and selected;
/// where they have selected none, nothing is reported.
pub proof fn selections_are_reported()
    ensures
        forall|
            response: LogUiResponse,
            logs: &mut SharedLogState,
            action: Option<LogWindowAction>,
        | #[trigger]
            call_ensures(LogWindow::drawn, (response, logs), action) ==> {
                &&& response.selected_tab is Some ==> action == Some(
                    LogWindowAction::TabSelected(response.selected_tab->0),
                ) && final(logs)@.tab == response.selected_tab->0
                &&& response.selected_tab is None ==> action is None && final(logs)@.tab
                    == logs@.tab
                &&& final(logs)@.visible <==> logs@.visible && !response.close_requested
            },
{
}

} // verus!
