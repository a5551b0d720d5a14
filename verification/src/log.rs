//! The game's logs as the launcher shows them: where they are shown, which one
//! is selected, and what they hold.

use vstd::prelude::*;
use vstd::string::*;
use vstd::utf8::*;

use crate::log_mirror::{
    pushed, recent_part, short_logs_are_kept, LogMirror, Mirror, LOG_HISTORY_MAX_BYTES,
};
use crate::text::{
    a_text_is_its_prefix_and_the_rest, behind, is_white_space, only_space_is_taken_off, same_text,
    space_around_a_text_is_taken_off, strip_prefix, trim, trimmed,
};

verus! {

/// Where the log is shown when it is visible.
#[derive(Debug, Clone, Copy, PartialEq, Eq, Structural)]
pub enum LogMode {
    Disabled,
    SideBySide,
    PopOut,
}

/// Where the log is shown.
#[derive(Debug, Clone, Copy, PartialEq, Eq, Structural)]
pub enum LogDisplay {
    Hidden,
    SideBySide,
    PopOut,
}

/// One of the two logs.
#[derive(Debug, Clone, Copy, PartialEq, Eq, Structural)]
pub enum LogTab {
    Game,
    Battle,
}

impl Default for LogMode {
    fn default() -> (mode: Self)
        ensures
            mode == LogMode::Disabled,
    {
        LogMode::Disabled
    }
}

impl Default for LogDisplay {
    fn default() -> (display: Self)
        ensures
            display == LogDisplay::Hidden,
    {
        LogDisplay::Hidden
    }
}

impl Default for LogTab {
    fn default() -> (tab: Self)
        ensures
            tab == LogTab::Game,
    {
        LogTab::Game
    }
}

/// The selected log and what it holds.
#[derive(Debug, PartialEq, Eq)]
pub struct LogSnapshot {
    pub tab: LogTab,
    pub content: String,
}

impl Clone for LogSnapshot {
    fn clone(&self) -> (snapshot: Self)
        ensures
            snapshot == *self,
    {
        LogSnapshot { tab: self.tab, content: self.content.clone() }
    }
}

/// What a page of the game asks of the log.
#[derive(Debug, Clone, Copy, PartialEq, Eq, Structural)]
pub enum LogCommand {
    ToggleSbS,
    ToggleEx,
    HideLog,
    ToggleView,
}

/// The state of the logs.
#[verifier::ext_equal]
pub struct Logs {
    pub mode: LogMode,
    pub visible: bool,
    pub tab: LogTab,
    pub game_log: Seq<char>,
    pub battle_log: Seq<char>,
}

/// The logs before anything has happened to them.
pub open spec fn fresh_logs() -> Logs {
    Logs {
        mode: LogMode::Disabled,
        visible: false,
        tab: LogTab::Game,
        game_log: seq![],
        battle_log: seq![],
    }
}

/// Where the log is shown.
pub open spec fn displayed(logs: Logs) -> LogDisplay {
    if !logs.visible {
        LogDisplay::Hidden
    } else {
        match logs.mode {
            LogMode::SideBySide => LogDisplay::SideBySide,
            LogMode::PopOut => LogDisplay::PopOut,
            LogMode::Disabled => LogDisplay::Hidden,
        }
    }
}

/// What the selected log holds.
pub open spec fn selected(logs: Logs) -> Seq<char> {
    match logs.tab {
        LogTab::Game => logs.game_log,
        LogTab::Battle => logs.battle_log,
    }
}

/// The logs with one of them selected and replaced.
pub open spec fn with_selected(logs: Logs, tab: LogTab, content: Seq<char>) -> Logs {
    match tab {
        LogTab::Game => Logs { tab, game_log: content, ..logs },
        LogTab::Battle => Logs { tab, battle_log: content, ..logs },
    }
}

/// The other of the two logs.
pub open spec fn other_tab(tab: LogTab) -> LogTab {
    match tab {
        LogTab::Game => LogTab::Battle,
        LogTab::Battle => LogTab::Game,
    }
}

/// The logs once `command` has been carried out.
pub open spec fn applied(logs: Logs, command: LogCommand) -> Logs {
    match command {
        LogCommand::ToggleSbS => Logs {
            mode: LogMode::SideBySide,
            visible: !logs.visible,
            ..logs
        },
        LogCommand::ToggleEx => Logs { mode: LogMode::PopOut, visible: !logs.visible, ..logs },
        LogCommand::HideLog => Logs { visible: false, ..logs },
        LogCommand::ToggleView => Logs {
            mode: match logs.mode {
                LogMode::SideBySide => LogMode::PopOut,
                LogMode::PopOut => LogMode::SideBySide,
                LogMode::Disabled => LogMode::Disabled,
            },
            ..logs
        },
    }
}

/// How many changes are noted after one more, where it is one. The count stays
/// at its largest value.
pub open spec fn noted_after(noted: nat, changed: bool) -> nat {
    if changed && noted < u64::MAX {
        noted + 1
    } else {
        noted
    }
}

/// The logs that the game window, the log window and the game's own messages
/// work on. Changes are counted until they are taken.
pub struct SharedLogState {
    mode: LogMode,
    visible: bool,
    tab: LogTab,
    game_log: String,
    battle_log: String,
    changes: u64,
}

impl View for SharedLogState {
    type V = Logs;

    closed spec fn view(&self) -> Logs {
        Logs {
            mode: self.mode,
            visible: self.visible,
            tab: self.tab,
            game_log: self.game_log@,
            battle_log: self.battle_log@,
        }
    }
}

impl SharedLogState {
    /// How many changes have not been taken yet.
    pub closed spec fn noted(&self) -> nat {
        self.changes as nat
    }

    /// `self` is `before` after one change to `logs`, noted where it is one.
    pub open spec fn changed_to(&self, before: &SharedLogState, logs: Logs) -> bool {
        &&& self@ == logs
        &&& self.noted() == noted_after(before.noted(), logs != before@)
    }

    fn note(&mut self)
        ensures
            final(self)@ == old(self)@,
            final(self).noted() == noted_after(old(self).noted(), true),
    {
        if self.changes < u64::MAX {
            self.changes = self.changes + 1;
        }
    }

    /// How often the logs have changed since this was last asked: whoever wants
    /// to hear of their changes is to be told so often.
    pub fn take_changes(&mut self) -> (changes: u64)
        ensures
            changes == old(self).noted(),
            final(self)@ == old(self)@,
            final(self).noted() == 0,
    {
        let changes: u64 = self.changes;
        self.changes = 0;
        changes
    }

    /// Where the log is shown.
    pub fn display(&self) -> (display: LogDisplay)
        ensures
            display == displayed(self@),
    {
        if !self.visible {
            LogDisplay::Hidden
        } else {
            match self.mode {
                LogMode::SideBySide => LogDisplay::SideBySide,
                LogMode::PopOut => LogDisplay::PopOut,
                LogMode::Disabled => LogDisplay::Hidden,
            }
        }
    }

    /// The selected log and what it holds.
    pub fn snapshot(&self) -> (snapshot: LogSnapshot)
        ensures
            snapshot.tab == self@.tab,
            snapshot.content@ == selected(self@),
    {
        let content = match self.tab {
            LogTab::Game => self.game_log.clone(),
            LogTab::Battle => self.battle_log.clone(),
        };
        LogSnapshot { tab: self.tab, content }
    }

    /// Selects a log and replaces what it holds.
    pub fn replace(&mut self, snapshot: LogSnapshot)
        ensures
            final(self).changed_to(
                old(self),
                with_selected(old(self)@, snapshot.tab, snapshot.content@),
            ),
    {
        let tab_changed = self.tab != snapshot.tab;
        self.tab = snapshot.tab;
        let content_changed = match snapshot.tab {
            LogTab::Game => replace_if_changed(&mut self.game_log, snapshot.content),
            LogTab::Battle => replace_if_changed(&mut self.battle_log, snapshot.content),
        };
        if tab_changed || content_changed {
            self.note();
        }
    }

    /// Replaces what the game log holds.
    pub fn set_game_log(&mut self, content: String)
        ensures
            final(self).changed_to(old(self), (Logs { game_log: content@, ..old(self)@ })),
    {
        if replace_if_changed(&mut self.game_log, content) {
            self.note();
        }
    }

    /// Replaces what the battle log holds.
    pub fn set_battle_log(&mut self, content: String)
        ensures
            final(self).changed_to(old(self), (Logs { battle_log: content@, ..old(self)@ })),
    {
        if replace_if_changed(&mut self.battle_log, content) {
            self.note();
        }
    }

    /// Selects a log.
    pub fn set_tab(&mut self, tab: LogTab)
        ensures
            final(self).changed_to(old(self), (Logs { tab, ..old(self)@ })),
    {
        if self.tab != tab {
            self.note();
        }
        self.tab = tab;
    }

    /// Selects the other log.
    pub fn toggle_tab(&mut self)
        ensures
            final(self).changed_to(
                old(self),
                (Logs { tab: other_tab(old(self)@.tab), ..old(self)@ }),
            ),
    {
        self.tab = match self.tab {
            LogTab::Game => LogTab::Battle,
            LogTab::Battle => LogTab::Game,
        };
        self.note();
    }

    /// Hides the log.
    pub fn hide_log(&mut self)
        ensures
            final(self).changed_to(old(self), (Logs { visible: false, ..old(self)@ })),
    {
        if self.visible {
            self.note();
        }
        self.visible = false;
    }

    /// Carries a command out.
    pub fn apply(&mut self, command: LogCommand)
        ensures
            final(self).changed_to(old(self), applied(old(self)@, command)),
    {
        let mode = self.mode;
        let visible = self.visible;
        match command {
            LogCommand::ToggleSbS => {
                self.mode = LogMode::SideBySide;
                self.visible = !self.visible;
            },
            LogCommand::ToggleEx => {
                self.mode = LogMode::PopOut;
                self.visible = !self.visible;
            },
            LogCommand::HideLog => {
                self.visible = false;
            },
            LogCommand::ToggleView => {
                match self.mode {
                    LogMode::SideBySide => {
                        self.mode = LogMode::PopOut;
                    },
                    LogMode::PopOut => {
                        self.mode = LogMode::SideBySide;
                    },
                    LogMode::Disabled => {},
                }
            },
        }
        if mode != self.mode || visible != self.visible {
            self.note();
        }
    }
}

/// Puts `replacement` in the place of `target`. Returns whether that is a
/// change.
fn replace_if_changed(target: &mut String, replacement: String) -> (changed: bool)
    ensures
        final(target)@ == replacement@,
        changed == (old(target)@ != replacement@),
{
    if same_text(target.as_str(), replacement.as_str()) {
        false
    } else {
        *target = replacement;
        true
    }
}

/// Empty logs, with nothing shown.
pub fn new_shared_log_state() -> (logs: SharedLogState)
    ensures
        logs@ == fresh_logs(),
        logs.noted() == 0,
{
    let logs = SharedLogState {
        mode: LogMode::Disabled,
        visible: false,
        tab: LogTab::Game,
        game_log: String::new(),
        battle_log: String::new(),
        changes: 0,
    };
    assert(logs@ =~= fresh_logs());
    logs
}

/// The command that a `javascript:` URL stands for.
pub open spec fn command_of(url: Seq<char>) -> Option<LogCommand> {
    match behind(url, "javascript:"@) {
        None => None,
        Some(rest) => {
            let path = trimmed(rest);
            if path == "toggleSbS();"@ || path == "toggleSbS()"@ {
                Some(LogCommand::ToggleSbS)
            } else if path == "toggleEx();"@ || path == "toggleEx()"@ {
                Some(LogCommand::ToggleEx)
            } else if path == "hideLog();"@ || path == "hideLog()"@ {
                Some(LogCommand::HideLog)
            } else if path == "toggleView();"@ || path == "toggleView()"@ {
                Some(LogCommand::ToggleView)
            } else {
                None
            }
        },
    }
}

/// Reads a `javascript:` URL. Returns the log command that it stands for.
pub fn parse_javascript_url(url: &str) -> (command: Option<LogCommand>)
    ensures
        command == command_of(url@),
{
    match strip_prefix(url, "javascript:") {
        None => None,
        Some(rest) => {
            let path = trim(rest);
            if same_text(path, "toggleSbS();") || same_text(path, "toggleSbS()") {
                Some(LogCommand::ToggleSbS)
            } else if same_text(path, "toggleEx();") || same_text(path, "toggleEx()") {
                Some(LogCommand::ToggleEx)
            } else if same_text(path, "hideLog();") || same_text(path, "hideLog()") {
                Some(LogCommand::HideLog)
            } else if same_text(path, "toggleView();") || same_text(path, "toggleView()") {
                Some(LogCommand::ToggleView)
            } else {
                None
            }
        },
    }
}

/// Carries the log command of a `javascript:` URL out. Returns whether the URL
/// stands for one.
pub fn handle_javascript_url(url: &str, log_state: &mut SharedLogState) -> (handled: bool)
    ensures
        handled == (command_of(url@) is Some),
        match command_of(url@) {
            Some(command) => final(log_state).changed_to(
                old(log_state),
                applied(old(log_state)@, command),
            ),
            None => *final(log_state) == *old(log_state),
        },
{
    match parse_javascript_url(url) {
        None => false,
        Some(command) => {
            log_state.apply(command);
            true
        },
    }
}

/// Whether a `javascript:` URL stands for a log command.
pub fn is_log_javascript_url(url: &str) -> (yes: bool)
    ensures
        yes == (command_of(url@) is Some),
{
    parse_javascript_url(url).is_some()
}

/// A message that the game has sent to a local connection.
#[derive(Debug, Clone)]
pub struct LocalConnectionMessage {
    pub channel: String,
    pub method: String,
    pub arguments: Vec<String>,
}

/// A channel of the game's logs: `df_log`, or one that ends in `:df_log`.
pub open spec fn is_log_channel(channel: Seq<char>) -> bool {
    ||| channel == "df_log"@
    ||| channel.len() >= 7 && channel.skip(channel.len() - 7) == ":df_log"@
}

/// What the listener has heard of the two logs.
#[verifier::ext_equal]
pub struct Heard {
    pub game: Mirror,
    pub battle: Mirror,
}

/// What a message of the game does.
pub enum Instruction<'a> {
    /// The game's log buffer.
    Game(&'a String),
    /// The battle log's buffer.
    Battle(&'a String),
    /// Selects the other log.
    Swap,
    /// Nothing.
    Nothing,
}

/// The instruction that a message stands for.
pub open spec fn instruction_of<'a>(message: &'a LocalConnectionMessage) -> Instruction<'a> {
    if !is_log_channel(message.channel@) {
        Instruction::Nothing
    } else if message.method@ == "swapGameLog"@ {
        if message.arguments@.len() > 0 {
            Instruction::Game(&message.arguments@[0])
        } else {
            Instruction::Nothing
        }
    } else if message.method@ == "swapBattleLog"@ {
        if message.arguments@.len() > 0 {
            Instruction::Battle(&message.arguments@[0])
        } else {
            Instruction::Nothing
        }
    } else if message.method@ == "logSwap"@ {
        Instruction::Swap
    } else {
        Instruction::Nothing
    }
}

fn log_channel(channel: &str) -> (yes: bool)
    ensures
        yes == is_log_channel(channel@),
{
    if same_text(channel, "df_log") {
        return true;
    }
    let length: usize = crate::text::characters(channel).len();
    if length < 7 {
        return false;
    }
    let tail = channel.substring_char(length - 7, length);
    assert(tail@ =~= channel@.skip(channel@.len() - 7));
    same_text(tail, ":df_log")
}

/// Reads what a message of the game asks for.
pub fn instruction<'a>(message: &'a LocalConnectionMessage) -> (instruction: Instruction<'a>)
    ensures
        instruction == instruction_of(message),
{
    if !log_channel(message.channel.as_str()) {
        return Instruction::Nothing;
    }
    let method = message.method.as_str();
    if same_text(method, "swapGameLog") {
        if message.arguments.len() > 0 {
            Instruction::Game(&message.arguments[0])
        } else {
            Instruction::Nothing
        }
    } else if same_text(method, "swapBattleLog") {
        if message.arguments.len() > 0 {
            Instruction::Battle(&message.arguments[0])
        } else {
            Instruction::Nothing
        }
    } else if same_text(method, "logSwap") {
        Instruction::Swap
    } else {
        Instruction::Nothing
    }
}

/// Listens to the game's messages about its logs.
pub struct LogListener {
    game: LogMirror,
    battle: LogMirror,
}

impl View for LogListener {
    type V = Heard;

    closed spec fn view(&self) -> Heard {
        Heard { game: self.game@, battle: self.battle@ }
    }
}

impl LogListener {
    /// Both histories fit in `LOG_HISTORY_MAX_BYTES`.
    pub open spec fn wf(&self) -> bool {
        &&& self@.game.assembled.len() <= LOG_HISTORY_MAX_BYTES
        &&& self@.battle.assembled.len() <= LOG_HISTORY_MAX_BYTES
    }

    /// A listener that has heard nothing.
    pub fn new() -> (listener: Self)
        ensures
            listener@ == (Heard {
                game: Mirror { assembled: seq![], buffer: seq![] },
                battle: Mirror { assembled: seq![], buffer: seq![] },
            }),
            listener.wf(),
    {
        LogListener { game: LogMirror::default(), battle: LogMirror::default() }
    }

    /// Takes a message in. A log of the state becomes the history of that log
    /// where the message changes the history, and only there.
    pub fn on_message(&mut self, state: &mut SharedLogState, message: &LocalConnectionMessage)
        requires
            old(self).wf(),
        ensures
            final(self).wf(),
            match instruction_of(message) {
                Instruction::Game(content) => {
                    let bytes = encode_utf8(content@);
                    let game = pushed(old(self)@.game, bytes);
                    &&& final(self)@ == (Heard { game, ..old(self)@ })
                    &&& if game.assembled != old(self)@.game.assembled {
                        final(state).changed_to(
                            old(state),
                            (Logs { game_log: decode_utf8(game.assembled), ..old(state)@ }),
                        )
                    } else {
                        *final(state) == *old(state)
                    }
                },
                Instruction::Battle(content) => {
                    let bytes = encode_utf8(content@);
                    let battle = pushed(old(self)@.battle, bytes);
                    &&& final(self)@ == (Heard { battle, ..old(self)@ })
                    &&& if battle.assembled != old(self)@.battle.assembled {
                        final(state).changed_to(
                            old(state),
                            (Logs { battle_log: decode_utf8(battle.assembled), ..old(state)@ }),
                        )
                    } else {
                        *final(state) == *old(state)
                    }
                },
                Instruction::Swap => {
                    &&& final(self)@ == old(self)@
                    &&& final(state).changed_to(
                        old(state),
                        (Logs { tab: other_tab(old(state)@.tab), ..old(state)@ }),
                    )
                },
                Instruction::Nothing => {
                    &&& final(self)@ == old(self)@
                    &&& *final(state) == *old(state)
                },
            },
    {
        match instruction(message) {
            Instruction::Game(content) => {
                if self.game.push(content.as_str()) {
                    let log = self.game.recent(LOG_HISTORY_MAX_BYTES);
                    proof {
                        short_logs_are_kept(self.game@.assembled, LOG_HISTORY_MAX_BYTES as int);
                        encode_utf8_decode_utf8(log@);
                    }
                    state.set_game_log(log);
                }
            },
            Instruction::Battle(content) => {
                if self.battle.push(content.as_str()) {
                    let log = self.battle.recent(LOG_HISTORY_MAX_BYTES);
                    proof {
                        short_logs_are_kept(self.battle@.assembled, LOG_HISTORY_MAX_BYTES as int);
                        encode_utf8_decode_utf8(log@);
                    }
                    state.set_battle_log(log);
                }
            },
            Instruction::Swap => {
                state.toggle_tab();
            },
            Instruction::Nothing => {},
        }
    }
}

/// A log command given twice leaves the log as visible as it was, unless it is
/// the one that hides it.
pub proof fn toggles_undo_themselves(logs: Logs, command: LogCommand)
    requires
        command != LogCommand::HideLog,
    ensures
        applied(applied(logs, command), command).visible == logs.visible,
        command == LogCommand::ToggleView ==> applied(applied(logs, command), command) == logs,
{
}

/// Hiding the log keeps where it was shown: toggled again, it comes back there.
pub proof fn hiding_keeps_the_mode(logs: Logs, command: LogCommand)
    requires
        command == LogCommand::ToggleSbS || command == LogCommand::ToggleEx,
    ensures
        applied(logs, LogCommand::HideLog).mode == logs.mode,
        displayed(applied(logs, LogCommand::HideLog)) == LogDisplay::Hidden,
        displayed(applied(applied(logs, LogCommand::HideLog), command)) == if command
            == LogCommand::ToggleSbS {
            LogDisplay::SideBySide
        } else {
            LogDisplay::PopOut
        },
{
}

/// Switching the view moves a shown log to the other place, and leaves a hidden
/// one hidden.
pub proof fn toggling_the_view_moves_the_log(logs: Logs)
    ensures
        displayed(applied(logs, LogCommand::ToggleView)) == (match displayed(logs) {
            LogDisplay::Hidden => LogDisplay::Hidden,
            LogDisplay::SideBySide => LogDisplay::PopOut,
            LogDisplay::PopOut => LogDisplay::SideBySide,
        }),
        logs.mode == LogMode::Disabled ==> applied(logs, LogCommand::ToggleView) == logs,
{
}

/// Before anything is selected to be shown, nothing is: a log that is shown has
/// been given a place.
pub proof fn commands_keep_shown_logs_placed(logs: Logs, command: LogCommand)
    requires
        logs.visible ==> logs.mode != LogMode::Disabled,
    ensures
        applied(logs, command).visible ==> applied(logs, command).mode != LogMode::Disabled,
        applied(logs, command).visible == (displayed(applied(logs, command)) != LogDisplay::Hidden),
{
}

/// No command touches what the logs hold or which one is selected.
pub proof fn commands_leave_the_contents(logs: Logs, command: LogCommand)
    ensures
        applied(logs, command).tab == logs.tab,
        applied(logs, command).game_log == logs.game_log,
        applied(logs, command).battle_log == logs.battle_log,
{
}

/// What a log was replaced with is what is then selected, and the other log and
/// where the log is shown stay as they were.
pub proof fn replaced_logs_are_read_back(logs: Logs, tab: LogTab, content: Seq<char>)
    ensures
        with_selected(logs, tab, content).tab == tab,
        selected(with_selected(logs, tab, content)) == content,
        selected(Logs { tab: other_tab(tab), ..with_selected(logs, tab, content) }) == selected(
            Logs { tab: other_tab(tab), ..logs },
        ),
        displayed(with_selected(logs, tab, content)) == displayed(logs),
{
}

/// Swapping the logs twice selects the first one again.
pub proof fn swapping_twice_restores_the_tab(tab: LogTab)
    ensures
        other_tab(tab) != tab,
        other_tab(other_tab(tab)) == tab,
{
}

/// A log is shown where it was given a place, while it is visible.
pub proof fn logs_are_shown_in_their_place(logs: Logs)
    ensures
        displayed(logs) == LogDisplay::SideBySide <==> logs.visible && logs.mode
            == LogMode::SideBySide,
        displayed(logs) == LogDisplay::PopOut <==> logs.visible && logs.mode == LogMode::PopOut,
{
}

/// Each of the two buttons shows a hidden log in its own place and hides a shown
/// one; hiding hides; and only the buttons and the switch between the places
/// give the log another one.
pub proof fn commands_show_and_hide(logs: Logs, command: LogCommand)
    ensures
        ({
            let after = applied(logs, command);
            &&& command == LogCommand::ToggleSbS ==> after.mode == LogMode::SideBySide
                && after.visible == !logs.visible
            &&& command == LogCommand::ToggleEx ==> after.mode == LogMode::PopOut && after.visible
                == !logs.visible
            &&& command == LogCommand::HideLog ==> after.mode == logs.mode && !after.visible
            &&& command == LogCommand::ToggleView ==> after.visible == logs.visible && (
            logs.mode == LogMode::SideBySide ==> after.mode == LogMode::PopOut) && (logs.mode
                == LogMode::PopOut ==> after.mode == LogMode::SideBySide) && (logs.mode
                == LogMode::Disabled ==> after.mode == LogMode::Disabled)
        }),
{
}

/// What is selected is what the log of that name holds; a replacement touches
/// the log that it is for and no other.
pub proof fn each_log_is_its_own(logs: Logs, content: Seq<char>)
    ensures
        logs.tab == LogTab::Game ==> selected(logs) == logs.game_log,
        logs.tab == LogTab::Battle ==> selected(logs) == logs.battle_log,
        with_selected(logs, LogTab::Game, content) == (Logs {
            tab: LogTab::Game,
            game_log: content,
            ..logs
        }),
        with_selected(logs, LogTab::Battle, content) == (Logs {
            tab: LogTab::Battle,
            battle_log: content,
            ..logs
        }),
{
}

/// Nothing is shown at first, and nothing has been written.
pub proof fn logs_start_hidden_and_empty()
    ensures
        displayed(fresh_logs()) == LogDisplay::Hidden,
        !fresh_logs().visible,
        fresh_logs().mode == LogMode::Disabled,
        fresh_logs().tab == LogTab::Game,
        fresh_logs().game_log.len() == 0,
        fresh_logs().battle_log.len() == 0,
{
}

/// A change is counted once, and what is none is not counted.
pub proof fn changes_are_counted_once(
    after: &SharedLogState,
    before: &SharedLogState,
    logs: Logs,
)
    requires
        after.changed_to(before, logs),
        before.noted() < u64::MAX,
    ensures
        after@ == logs,
        after@ == before@ ==> after.noted() == before.noted(),
        after@ != before@ ==> after.noted() == before.noted() + 1,
        noted_after(before.noted(), true) == before.noted() + 1,
        noted_after(before.noted(), false) == before.noted(),
{
}

/// The characters of the calls that a page makes.
proof fn calls()
    ensures
        "toggleSbS()"@ == seq!['t', 'o', 'g', 'g', 'l', 'e', 'S', 'b', 'S', '(', ')'],
        "toggleEx()"@ == seq!['t', 'o', 'g', 'g', 'l', 'e', 'E', 'x', '(', ')'],
        "hideLog()"@ == seq!['h', 'i', 'd', 'e', 'L', 'o', 'g', '(', ')'],
        "toggleView()"@ == seq!['t', 'o', 'g', 'g', 'l', 'e', 'V', 'i', 'e', 'w', '(', ')'],
        "toggleSbS();"@ == "toggleSbS()"@.push(';'),
        "toggleEx();"@ == "toggleEx()"@.push(';'),
        "hideLog();"@ == "hideLog()"@.push(';'),
        "toggleView();"@ == "toggleView()"@.push(';'),
{
    reveal_strlit("toggleSbS()");
    reveal_strlit("toggleEx()");
    reveal_strlit("hideLog()");
    reveal_strlit("toggleView()");
    reveal_strlit("toggleSbS();");
    reveal_strlit("toggleEx();");
    reveal_strlit("hideLog();");
    reveal_strlit("toggleView();");
    assert("toggleSbS()"@ =~= seq!['t', 'o', 'g', 'g', 'l', 'e', 'S', 'b', 'S', '(', ')']);
    assert("toggleEx()"@ =~= seq!['t', 'o', 'g', 'g', 'l', 'e', 'E', 'x', '(', ')']);
    assert("hideLog()"@ =~= seq!['h', 'i', 'd', 'e', 'L', 'o', 'g', '(', ')']);
    assert("toggleView()"@ =~= seq!['t', 'o', 'g', 'g', 'l', 'e', 'V', 'i', 'e', 'w', '(', ')']);
    assert("toggleSbS();"@ =~= "toggleSbS()"@.push(';'));
    assert("toggleEx();"@ =~= "toggleEx()"@.push(';'));
    assert("hideLog();"@ =~= "hideLog()"@.push(';'));
    assert("toggleView();"@ =~= "toggleView()"@.push(';'));
}

/// The address that makes the call for a command stands for that command, with
/// or without a semicolon and with any white space around the call.
pub proof fn calls_stand_for_their_commands(
    command: LogCommand,
    before: Seq<char>,
    call: Seq<char>,
    after: Seq<char>,
)
    requires
        forall|i: int| 0 <= i < before.len() ==> is_white_space(#[trigger] before[i]),
        forall|i: int| 0 <= i < after.len() ==> is_white_space(#[trigger] after[i]),
        match command {
            LogCommand::ToggleSbS => call == "toggleSbS()"@ || call == "toggleSbS();"@,
            LogCommand::ToggleEx => call == "toggleEx()"@ || call == "toggleEx();"@,
            LogCommand::HideLog => call == "hideLog()"@ || call == "hideLog();"@,
            LogCommand::ToggleView => call == "toggleView()"@ || call == "toggleView();"@,
        },
    ensures
        command_of("javascript:"@ + (before + call + after)) == Some(command),
{
    calls();
    let rest = before + call + after;
    a_text_is_its_prefix_and_the_rest("javascript:"@ + rest, "javascript:"@, rest);
    assert(call[0] == 't' || call[0] == 'h');
    assert(call.last() == ';' || call.last() == ')');
    space_around_a_text_is_taken_off(before, call, after);
    assert(command == LogCommand::HideLog <==> call[0] == 'h');
    assert(command == LogCommand::ToggleSbS ==> call[6] == 'S');
    assert(command == LogCommand::ToggleEx ==> call[6] == 'E');
    assert(command == LogCommand::ToggleView ==> call[6] == 'V');
    assert("toggleSbS();"@[6] == 'S' && "toggleEx();"@[6] == 'E' && "toggleView();"@[6] == 'V');
    assert("toggleSbS()"@[6] == 'S' && "toggleEx()"@[6] == 'E' && "toggleView()"@[6] == 'V');
    assert("hideLog();"@[0] == 'h' && "hideLog()"@[0] == 'h');
}

/// Only such addresses stand for a command.
pub proof fn only_calls_stand_for_commands(url: Seq<char>) -> (around: (
    Seq<char>,
    Seq<char>,
    Seq<char>,
))
    ensures
        command_of(url) matches Some(command) ==> {
            &&& url == "javascript:"@ + (around.0 + around.1 + around.2)
            &&& forall|i: int| 0 <= i < around.0.len() ==> is_white_space(#[trigger] around.0[i])
            &&& forall|i: int| 0 <= i < around.2.len() ==> is_white_space(#[trigger] around.2[i])
            &&& match command {
                LogCommand::ToggleSbS => around.1 == "toggleSbS()"@ || around.1 == "toggleSbS();"@,
                LogCommand::ToggleEx => around.1 == "toggleEx()"@ || around.1 == "toggleEx();"@,
                LogCommand::HideLog => around.1 == "hideLog()"@ || around.1 == "hideLog();"@,
                LogCommand::ToggleView => around.1 == "toggleView()"@ || around.1
                    == "toggleView();"@,
            }
        },
{
    match behind(url, "javascript:"@) {
        Some(rest) => {
            a_text_is_its_prefix_and_the_rest(url, "javascript:"@, rest);
            let space = only_space_is_taken_off(rest);
            (space.0, trimmed(rest), space.1)
        },
        None => (seq![], seq![], seq![]),
    }
}

/// The game's logs are told of on the channel `df_log`, and on each whose name
/// ends in `:df_log`, and on no other.
pub proof fn log_channels_end_in_their_name(channel: Seq<char>)
    ensures
        is_log_channel(channel) <==> channel == "df_log"@ || exists|host: Seq<char>|
            channel == #[trigger] (host + ":df_log"@),
{
    reveal_strlit(":df_log");
    if channel.len() >= 7 && channel.skip(channel.len() - 7) == ":df_log"@ {
        let host = channel.take(channel.len() - 7);
        assert(channel =~= host + channel.skip(channel.len() - 7));
    }
    if exists|host: Seq<char>| channel == #[trigger] (host + ":df_log"@) {
        let host = choose|host: Seq<char>| channel == #[trigger] (host + ":df_log"@);
        assert(channel.skip(channel.len() - 7) =~= ":df_log"@);
    }
}

/// A message of the game says by its method for which log it is, and carries
/// that log in its first argument; a swap needs none. What comes on another
/// channel, or lacks its log, is no instruction.
pub proof fn methods_name_their_logs(message: &LocalConnectionMessage)
    ensures
        ({
            let heard = is_log_channel(message.channel@);
            let carries = message.arguments@.len() > 0;
            &&& instruction_of(message) is Game <==> heard && carries && message.method@
                == "swapGameLog"@
            &&& instruction_of(message) is Battle <==> heard && carries && message.method@
                == "swapBattleLog"@
            &&& instruction_of(message) is Swap <==> heard && message.method@ == "logSwap"@
            &&& instruction_of(message) matches Instruction::Game(content) ==> content@
                == message.arguments@[0]@
            &&& instruction_of(message) matches Instruction::Battle(content) ==> content@
                == message.arguments@[0]@
        }),
{
    reveal_strlit("swapGameLog");
    reveal_strlit("swapBattleLog");
    reveal_strlit("logSwap");
    assert("swapGameLog"@[0] == 's' && "logSwap"@[0] == 'l');
    assert("swapBattleLog"@.len() != "swapGameLog"@.len());
    assert("swapBattleLog"@[0] == 's');
}

/// What a log was replaced with is what is then read; the other log, and where
/// the log is shown, stay as they were.
pub proof fn replacements_are_read_back()
    ensures
        forall|
            logs: &mut SharedLogState,
            after: &SharedLogState,
            given: LogSnapshot,
            read: LogSnapshot,
        | #[trigger]
            call_ensures(SharedLogState::replace, (logs, given), ()) && #[trigger] call_ensures(
                SharedLogState::snapshot,
                (after,),
                read,
            ) && *after == *final(logs) ==> {
                &&& read.tab == given.tab
                &&& read.content@ == given.content@
                &&& final(logs)@.visible == logs@.visible
                &&& final(logs)@.mode == logs@.mode
                &&& given.tab == LogTab::Game ==> final(logs)@.battle_log == logs@.battle_log
                &&& given.tab == LogTab::Battle ==> final(logs)@.game_log == logs@.game_log
            },
{
}

/// Each of the logs takes what it is given, and only it.
pub proof fn each_log_takes_what_it_is_given()
    ensures
        forall|logs: &mut SharedLogState, content: String| #[trigger]
            call_ensures(SharedLogState::set_game_log, (logs, content), ()) ==> final(logs)@.game_log == content@ && final(logs)@.battle_log == logs@.battle_log && final(logs)@.tab == logs@.tab && final(logs)@.visible == logs@.visible && final(logs)@.mode
                == logs@.mode,
        forall|logs: &mut SharedLogState, content: String| #[trigger]
            call_ensures(SharedLogState::set_battle_log, (logs, content), ()) ==> final(logs)@.battle_log == content@ && final(logs)@.game_log == logs@.game_log && final(logs)@.tab == logs@.tab && final(logs)@.visible == logs@.visible && final(logs)@.mode
                == logs@.mode,
{
}

/// The log that is selected is the one that was asked for, a swap selects the
/// other one and a second swap the first again; hiding hides. Nothing else of
/// the logs changes by any of these.
pub proof fn selecting_and_hiding_do_just_that()
    ensures
        forall|logs: &mut SharedLogState, tab: LogTab| #[trigger]
            call_ensures(SharedLogState::set_tab, (logs, tab), ()) ==> final(logs)@ == (Logs {
                tab,
                ..logs@
            }),
        forall|a: &mut SharedLogState, b: &mut SharedLogState| #[trigger]
            call_ensures(SharedLogState::toggle_tab, (a,), ()) && #[trigger] call_ensures(
                SharedLogState::toggle_tab,
                (b,),
                (),
            ) && *b == *final(a) ==> final(a)@.tab != a@.tab && final(b)@ == a@,
        forall|logs: &mut SharedLogState| #[trigger]
            call_ensures(SharedLogState::hide_log, (logs,), ()) ==> final(logs)@ == (Logs {
                visible: false,
                ..logs@
            }),
{
}

/// Changes are told of once: what was taken is not there to be taken again, and
/// taking it changes no log.
pub proof fn changes_are_taken_once()
    ensures
        forall|a: &mut SharedLogState, b: &mut SharedLogState, first: u64, second: u64|
            #[trigger]
            call_ensures(SharedLogState::take_changes, (a,), first) && #[trigger] call_ensures(
                SharedLogState::take_changes,
                (b,),
                second,
            ) && *b == *final(a) ==> first == a.noted() && second == 0 && final(b)@ == a@,
        forall|a: &mut SharedLogState, b: &mut SharedLogState, tab: LogTab, first: u64| #[trigger]
            call_ensures(SharedLogState::set_tab, (a, tab), ()) && #[trigger] call_ensures(
                SharedLogState::take_changes,
                (b,),
                first,
            ) && *b == *final(a) && a.noted() == 0 ==> first == if tab != a@.tab {
                1int
            } else {
                0
            },
{
}

/// An address is handled exactly where it is one of the log's, and then its
/// command is carried out; any other leaves the logs alone.
pub proof fn addresses_are_handled_where_they_are_the_logs()
    ensures
        forall|
            url: &str,
            logs: &mut SharedLogState,
            handled: bool,
            is_ours: bool,
            command: Option<LogCommand>,
        |
            #[trigger] call_ensures(handle_javascript_url, (url, logs), handled) && #[trigger]
                call_ensures(is_log_javascript_url, (url,), is_ours) && #[trigger] call_ensures(
                parse_javascript_url,
                (url,),
                command,
            ) ==> {
                &&& handled <==> is_ours
                &&& handled <==> command is Some
                &&& !handled ==> *final(logs) == *logs
                &&& handled ==> final(logs)@ == applied(logs@, command->0)
                &&& final(logs)@.tab == logs@.tab && final(logs)@.game_log == logs@.game_log
                    && final(logs)@.battle_log == logs@.battle_log
            },
{
}

/// What the game sends of one of its logs goes into the history of that log and
/// into no other; what is shown of it is the history, from the message on that
/// changes it; a swap selects the other log and touches neither.
pub proof fn messages_reach_their_own_log()
    ensures
        forall|
            listener: &mut LogListener,
            state: &mut SharedLogState,
            message: &LocalConnectionMessage,
        | #[trigger]
            call_ensures(LogListener::on_message, (listener, state, message), ()) ==> {
                let heard = is_log_channel(message.channel@);
                let carries = message.arguments@.len() > 0;
                let game = heard && carries && message.method@ == "swapGameLog"@;
                let battle = heard && carries && message.method@ == "swapBattleLog"@;
                let swap = heard && message.method@ == "logSwap"@;
                &&& game ==> final(listener)@.game == pushed(
                    listener@.game,
                    encode_utf8(message.arguments@[0]@),
                )
                &&& battle ==> final(listener)@.battle == pushed(
                    listener@.battle,
                    encode_utf8(message.arguments@[0]@),
                )
                &&& !game ==> final(listener)@.game == listener@.game && final(state)@.game_log
                    == state@.game_log
                &&& !battle ==> final(listener)@.battle == listener@.battle && final(state)@.battle_log == state@.battle_log
                &&& final(listener)@.game.assembled != listener@.game.assembled ==> final(state)@.game_log == decode_utf8(final(listener)@.game.assembled)
                &&& final(listener)@.battle.assembled != listener@.battle.assembled ==> final(state)@.battle_log == decode_utf8(final(listener)@.battle.assembled)
                &&& final(listener)@.game.assembled == listener@.game.assembled && final(listener)@.battle.assembled == listener@.battle.assembled && !swap ==> *final(state)
                    == *state
                &&& swap <==> final(state)@.tab != state@.tab
                &&& final(state)@.visible == state@.visible
                &&& final(state)@.mode == state@.mode
            },
{
    reveal_strlit("swapGameLog");
    reveal_strlit("swapBattleLog");
    reveal_strlit("logSwap");
    assert("swapGameLog"@[0] == 's' && "swapBattleLog"@[0] == 's' && "logSwap"@[0] == 'l');
    assert("swapBattleLog"@.len() != "swapGameLog"@.len());
}

} // verus!
