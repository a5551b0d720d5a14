//! What the user does in the log's panel or window.

use vstd::prelude::*;

use crate::log::{noted_after, LogDisplay, LogTab, Logs, SharedLogState};

verus! {

/// What the user has asked for: a log, or that the panel is closed.
#[derive(Debug, Clone, Copy, PartialEq, Eq, Structural)]
pub struct LogUiResponse {
    pub selected_tab: Option<LogTab>,
    pub close_requested: bool,
}

impl Default for LogUiResponse {
    fn default() -> (response: Self)
        ensures
            response == (LogUiResponse { selected_tab: None, close_requested: false }),
    {
        LogUiResponse { selected_tab: None, close_requested: false }
    }
}

/// The logs once they follow what the user has asked for.
pub open spec fn answered(logs: Logs, response: LogUiResponse) -> Logs {
    Logs {
        tab: match response.selected_tab {
            Some(tab) => tab,
            None => logs.tab,
        },
        visible: logs.visible && !response.close_requested,
        ..logs
    }
}

/// The logs have followed what the user has asked for. That another log is
/// selected and that the log is hidden are two changes.
pub open spec fn answers(
    after: &SharedLogState,
    before: &SharedLogState,
    response: LogUiResponse,
) -> bool {
    let selects = response.selected_tab matches Some(tab) && tab != before@.tab;
    let hides = response.close_requested && before@.visible;
    &&& after@ == answered(before@, response)
    &&& after.noted() == noted_after(noted_after(before.noted(), selects), hides)
}

impl LogUiResponse {
    /// The log that the user has asked for.
    pub fn selected_tab(&self) -> (tab: Option<LogTab>)
        ensures
            tab == self.selected_tab,
    {
        self.selected_tab
    }

    /// Lets the logs follow what the user has asked for.
    pub fn apply(self, logs: &mut SharedLogState)
        ensures
            answers(final(logs), old(logs), self),
    {
        if let Some(tab) = self.selected_tab {
            logs.set_tab(tab);
        }
        if self.close_requested {
            logs.hide_log();
        }
    }

    /// Takes a click on the button of a log in: of two buttons that are clicked
    /// in one pass, the later one counts.
    pub fn tab_button(&mut self, tab: LogTab, clicked: bool)
        ensures
            *final(self) == (LogUiResponse {
                selected_tab: if clicked {
                    Some(tab)
                } else {
                    old(self).selected_tab
                },
                ..*old(self)
            }),
    {
        if clicked {
            self.selected_tab = Some(tab);
        }
    }

    /// Takes the state of the close button in.
    pub fn close_button(&mut self, clicked: bool)
        ensures
            *final(self) == (LogUiResponse { close_requested: clicked, ..*old(self) }),
    {
        self.close_requested = clicked;
    }
}

/// What a log's button says, and whether it is drawn as the selected one.
pub fn tab_label(tab: LogTab, selected_tab: LogTab) -> (label: (&'static str, bool))
    ensures
        label.0@ == (match tab {
            LogTab::Game => "Game Log"@,
            LogTab::Battle => "Battle Log"@,
        }),
        label.1 == (tab == selected_tab),
{
    (
        match tab {
            LogTab::Game => "Game Log",
            LogTab::Battle => "Battle Log",
        },
        tab == selected_tab,
    )
}

/// Whether the log takes part of the game's window.
pub fn side_panel_shown(logs: &SharedLogState) -> (shown: bool)
    ensures
        shown == (crate::log::displayed(logs@) == LogDisplay::SideBySide),
{
    logs.display() == LogDisplay::SideBySide
}

/// Closing the panel hides the log; nothing else the user does there shows or
/// hides it, and none of it changes what the logs hold or where they are shown.
pub proof fn only_the_close_button_hides(logs: Logs, response: LogUiResponse)
    ensures
        answered(logs, response).visible == (logs.visible && !response.close_requested),
        answered(logs, response).mode == logs.mode,
        answered(logs, response).game_log == logs.game_log,
        answered(logs, response).battle_log == logs.battle_log,
        response.close_requested ==> crate::log::displayed(answered(logs, response))
            == LogDisplay::Hidden,
{
}

/// The log that the user has asked for is the one that is then selected; where
/// they have asked for none, the selection stays.
pub proof fn the_log_that_is_asked_for_is_selected(logs: Logs, response: LogUiResponse)
    ensures
        response.selected_tab is None ==> answered(logs, response).tab == logs.tab,
        forall|tab: LogTab|
            response.selected_tab == Some(tab) ==> #[trigger] answered(logs, response).tab == tab,
        response.close_requested ==> !answered(logs, response).visible,
        !response.close_requested ==> answered(logs, response).visible == logs.visible,
{
}

/// One change is noted where another log is selected, and one where a shown log
/// is hidden; none is noted where nothing changes.
pub proof fn answers_note_each_change(
    after: &SharedLogState,
    before: &SharedLogState,
    response: LogUiResponse,
)
    requires
        answers(after, before, response),
        before.noted() + 2 <= u64::MAX,
    ensures
        response.selected_tab matches Some(tab) ==> after@.tab == tab,
        response.selected_tab is None ==> after@.tab == before@.tab,
        after@.visible == (before@.visible && !response.close_requested),
        after@.mode == before@.mode,
        after@.game_log == before@.game_log,
        after@.battle_log == before@.battle_log,
        after.noted() - before.noted() == (if after@.tab != before@.tab {
            1int
        } else {
            0
        }) + (if after@.visible != before@.visible {
            1int
        } else {
            0
        }),
{
}

/// Letting the logs follow the user selects the log that they have asked for and
/// hides the log where they have asked for that, and tells of each of the two
/// that changes something.
pub proof fn logs_follow_the_user()
    ensures
        forall|response: LogUiResponse, logs: &mut SharedLogState| #[trigger]
            call_ensures(LogUiResponse::apply, (response, logs), ()) ==> {
                &&& response.selected_tab is Some ==> final(logs)@.tab == response.selected_tab->0
                &&& response.selected_tab is None ==> final(logs)@.tab == logs@.tab
                &&& final(logs)@.visible <==> logs@.visible && !response.close_requested
                &&& final(logs)@.mode == logs@.mode
                &&& final(logs)@.game_log == logs@.game_log
                &&& final(logs)@.battle_log == logs@.battle_log
                &&& logs.noted() + 2 <= u64::MAX ==> final(logs).noted() - logs.noted() == (if final(logs)@.tab != logs@.tab {
                    1int
                } else {
                    0
                }) + (if final(logs)@.visible != logs@.visible {
                    1int
                } else {
                    0
                })
            },
{
}

/// A button that is clicked asks for its log, and one that is not asks for
/// nothing; so the last of the buttons that are clicked counts. The close button
/// is apart from them.
pub proof fn the_last_button_counts()
    ensures
        forall|
            a: &mut LogUiResponse,
            b: &mut LogUiResponse,
            first: LogTab,
            second: LogTab,
            on_first: bool,
            on_second: bool,
        |
            #[trigger] call_ensures(LogUiResponse::tab_button, (a, first, on_first), ())
                && #[trigger] call_ensures(LogUiResponse::tab_button, (b, second, on_second), ())
                && *b == *final(a) ==> {
                &&& on_second ==> final(b).selected_tab == Some(second)
                &&& !on_second && on_first ==> final(b).selected_tab == Some(first)
                &&& !on_second && !on_first ==> final(b).selected_tab == a.selected_tab
                &&& final(b).close_requested == a.close_requested
            },
        forall|a: &mut LogUiResponse, clicked: bool| #[trigger]
            call_ensures(LogUiResponse::close_button, (a, clicked), ()) ==> final(a).close_requested == clicked && final(a).selected_tab == a.selected_tab,
{
}

/// The two buttons say their own logs' names, and exactly one of them is drawn
/// as the selected one.
pub proof fn buttons_say_their_logs_names(
    selected: LogTab,
    game: (&'static str, bool),
    battle: (&'static str, bool),
)
    requires
        call_ensures(tab_label, (LogTab::Game, selected), game),
        call_ensures(tab_label, (LogTab::Battle, selected), battle),
    ensures
        game.0@ == "Game Log"@,
        battle.0@ == "Battle Log"@,
        game.1 <==> selected == LogTab::Game,
        battle.1 <==> selected == LogTab::Battle,
{
}

/// The log takes part of the game's window while it is visible and has its place
/// beside the game.
pub proof fn panels_are_shown_beside_the_game(logs: &SharedLogState, shown: bool)
    requires
        call_ensures(side_panel_shown, (logs,), shown),
    ensures
        shown <==> logs@.visible && logs@.mode == crate::log::LogMode::SideBySide,
{
}

} // verus!
