use itmr_dragonfable_launcher::log::{
    handle_javascript_url, instruction, is_log_javascript_url, new_shared_log_state,
    parse_javascript_url, Instruction, LocalConnectionMessage, LogCommand, LogDisplay, LogListener,
    LogSnapshot, LogTab, SharedLogState,
};
use itmr_dragonfable_launcher::log_mirror::{
    recent_bytes_start, trim_to_recent_bytes, LogMirror, LOG_HISTORY_MAX_BYTES,
};
use itmr_dragonfable_launcher::navigator::{
    confirm_socket, is_javascript_url_allowed, DesktopNavigatorInterface,
};

fn note(logs: &mut SharedLogState, changes: &mut usize) {
    *changes += logs.take_changes() as usize;
}

#[test]
fn side_by_side_command_opens_and_closes_the_side_panel() {
    let mut logs = new_shared_log_state();

    assert!(handle_javascript_url("javascript:toggleSbS();", &mut logs));
    assert_eq!(logs.display(), LogDisplay::SideBySide);

    assert!(handle_javascript_url("javascript:toggleSbS();", &mut logs));
    assert_eq!(logs.display(), LogDisplay::Hidden);
}

#[test]
fn pop_out_command_opens_and_closes_the_pop_out() {
    let mut logs = new_shared_log_state();

    assert!(handle_javascript_url("javascript:toggleEx();", &mut logs));
    assert_eq!(logs.display(), LogDisplay::PopOut);

    assert!(handle_javascript_url("javascript:toggleEx();", &mut logs));
    assert_eq!(logs.display(), LogDisplay::Hidden);
}

#[test]
fn hiding_the_pop_out_preserves_its_mode() {
    let mut logs = new_shared_log_state();
    handle_javascript_url("javascript:toggleEx();", &mut logs);

    logs.hide_log();
    assert_eq!(logs.display(), LogDisplay::Hidden);

    handle_javascript_url("javascript:toggleEx();", &mut logs);
    assert_eq!(logs.display(), LogDisplay::PopOut);
}

#[test]
fn toggle_view_moves_a_visible_log_between_windows() {
    let mut logs = new_shared_log_state();
    handle_javascript_url("javascript:toggleSbS();", &mut logs);

    handle_javascript_url("javascript:toggleView();", &mut logs);
    assert_eq!(logs.display(), LogDisplay::PopOut);

    handle_javascript_url("javascript:toggleView();", &mut logs);
    assert_eq!(logs.display(), LogDisplay::SideBySide);
}

#[test]
fn toggle_view_does_nothing_before_a_view_is_selected() {
    let mut logs = new_shared_log_state();

    assert!(handle_javascript_url("javascript:toggleView();", &mut logs));

    assert_eq!(logs.display(), LogDisplay::Hidden);
    assert_eq!(logs.take_changes(), 0);
}

#[test]
fn hide_command_closes_the_visible_log() {
    let mut logs = new_shared_log_state();
    handle_javascript_url("javascript:toggleSbS();", &mut logs);

    assert!(handle_javascript_url("javascript:hideLog();", &mut logs));

    assert_eq!(logs.display(), LogDisplay::Hidden);
}

#[test]
fn unrelated_javascript_url_is_not_handled() {
    let mut logs = new_shared_log_state();

    assert!(!handle_javascript_url("javascript:other();", &mut logs));
    assert_eq!(logs.take_changes(), 0);
}

#[test]
fn mutations_notify_only_when_state_changes() {
    let mut logs = new_shared_log_state();
    let mut changes: usize = 0;

    logs.set_game_log("first".to_string());
    note(&mut logs, &mut changes);
    logs.set_game_log("first".to_string());
    note(&mut logs, &mut changes);
    logs.set_tab(LogTab::Game);
    note(&mut logs, &mut changes);
    logs.set_tab(LogTab::Battle);
    note(&mut logs, &mut changes);
    logs.hide_log();
    note(&mut logs, &mut changes);

    assert_eq!(changes, 2);
}

#[test]
fn replacing_log_data_updates_the_selected_log_and_tab() {
    let mut logs = new_shared_log_state();
    let mut changes: usize = 0;

    logs.replace(LogSnapshot { tab: LogTab::Battle, content: "battle".to_string() });
    note(&mut logs, &mut changes);

    assert_eq!(
        logs.snapshot(),
        LogSnapshot { tab: LogTab::Battle, content: "battle".to_string() }
    );
    assert_eq!(changes, 1);
}

#[test]
fn snapshot_contains_only_the_selected_log() {
    let mut logs = new_shared_log_state();
    logs.set_game_log("game".to_string());
    logs.set_battle_log("battle".to_string());
    logs.set_tab(LogTab::Battle);

    let snapshot = logs.snapshot();

    assert_eq!(snapshot.tab, LogTab::Battle);
    assert_eq!(snapshot.content, "battle");
}

const HEADER: &str = "Battle Log----\n";

fn entry(text: &str) -> String {
    format!("<font color='#333333'>{text}\\n</font>")
}

#[test]
fn log_mirror_appends_entries_from_whole_state_messages() {
    let mut mirror = LogMirror::default();
    let e1 = entry("Piotr takes 0 damage to MP.");
    let e2 = entry("Lost Spirit's HP was adjusted.");

    assert!(mirror.push(&format!("{HEADER}{e1}")));
    assert!(mirror.push(&format!("{HEADER}{e1}{e2}")));

    assert_eq!(mirror.assembled(), format!("{HEADER}{e1}{e2}"));
}

#[test]
fn log_mirror_ignores_identical_and_empty_messages() {
    let mut mirror = LogMirror::default();
    let state = format!("{HEADER}{}", entry("a"));

    assert!(mirror.push(&state));
    assert!(!mirror.push(&state));
    assert!(!mirror.push(""));

    assert_eq!(mirror.assembled(), state);
}

#[test]
fn log_mirror_recovers_entries_across_a_front_trim() {
    let mut mirror = LogMirror::default();
    let e1 = entry("[1]: Piotr takes 0 damage to MP.");
    let e2 = entry("[2]: Lost Spirit's HP was adjusted.");
    let e3 = entry("[3]: You miss.");

    mirror.push(&format!("{HEADER}{e1}{e2}"));
    // The tick that front-trims the buffer sends an empty string.
    assert!(!mirror.push(""));

    // The next full state: the game's fixed 8-char strip steals the head
    // of the first surviving entry.
    assert!(mirror.push(&format!("{}{e3}", &e2[8..])));

    assert_eq!(mirror.assembled(), format!("{HEADER}{e1}{e2}{e3}"));
}

#[test]
fn log_mirror_pure_trim_state_adds_nothing() {
    let mut mirror = LogMirror::default();
    let e1 = entry("a");
    let e2 = entry("b");

    mirror.push(&format!("{HEADER}{e1}{e2}"));
    assert!(!mirror.push(&e2[8..]));

    assert_eq!(mirror.assembled(), format!("{HEADER}{e1}{e2}"));
}

#[test]
fn log_mirror_appends_unrelated_state_after_a_game_reset() {
    let mut mirror = LogMirror::default();
    let old = format!("{HEADER}{}", entry("old battle"));
    let fresh = format!("{HEADER}{}", entry("new battle"));

    mirror.push(&old);
    assert!(mirror.push(&fresh));

    assert_eq!(mirror.assembled(), format!("{old}{fresh}"));
}

#[test]
fn log_mirror_continues_after_a_reset_with_more_entries() {
    let mut mirror = LogMirror::default();
    let fresh = format!("{HEADER}{}", entry("new battle"));

    mirror.push(&format!("{HEADER}{}", entry("old battle")));
    mirror.push(&fresh);
    assert!(mirror.push(&format!("{fresh}{}", entry("more"))));

    assert_eq!(
        mirror.assembled(),
        format!("{HEADER}{}{fresh}{}", entry("old battle"), entry("more"))
    );
}

#[test]
fn log_mirror_history_is_capped_to_recent_lines() {
    let mut mirror = LogMirror::default();
    let line = "0123456789\n";
    let message = format!(
        "{HEADER}<font color='#333333'>{}\n</font>",
        line.repeat(LOG_HISTORY_MAX_BYTES / line.len() + 2)
    );

    assert!(mirror.push(&message));

    assert!(mirror.assembled().len() <= LOG_HISTORY_MAX_BYTES);
    assert!(mirror.assembled().ends_with("\n</font>"));
}

#[test]
fn log_mirror_drives_the_display_log() {
    let mut logs = new_shared_log_state();
    let mut changes: usize = 0;
    logs.set_tab(LogTab::Battle);
    note(&mut logs, &mut changes);
    let mut mirror = LogMirror::default();
    let state = format!("{HEADER}{}", entry("a"));

    assert!(mirror.push(&state));
    logs.set_battle_log(mirror.recent(LOG_HISTORY_MAX_BYTES));
    note(&mut logs, &mut changes);
    assert!(!mirror.push(""));
    logs.set_battle_log(mirror.recent(LOG_HISTORY_MAX_BYTES));
    note(&mut logs, &mut changes);

    assert_eq!(logs.snapshot().content, state);
    assert_eq!(changes, 2);
}

#[test]
fn recent_bytes_start_cuts_at_the_next_newline() {
    assert_eq!(recent_bytes_start("aaa\nbbb\nccc\n", 7), 8);
}

#[test]
fn recent_bytes_start_clears_when_no_newline_exists() {
    assert_eq!(recent_bytes_start("abcdef", 2), 6);
}

#[test]
fn recent_bytes_start_is_the_start_within_the_cap() {
    assert_eq!(recent_bytes_start("aaa\nbbb", 100), 0);
}

#[test]
fn a_message_without_a_closed_entry_is_added_every_time() {
    let mut mirror = LogMirror::default();
    assert!(mirror.push("abc"));
    assert!(mirror.push("abc"));
    assert_eq!(mirror.assembled(), "abcabc");
}

#[test]
fn a_line_over_the_cap_changes_only_what_it_pushes_out() {
    let line = "x".repeat(LOG_HISTORY_MAX_BYTES + 1);
    let mut mirror = LogMirror::default();
    assert!(!mirror.push(&line));
    assert_eq!(mirror.assembled(), "");
    assert!(mirror.push("a\n"));
    assert!(mirror.push(&line));
    assert_eq!(mirror.assembled(), "");
    let mut logs = new_shared_log_state();
    let mut listener = LogListener::new();
    listener.on_message(&mut logs, &message("df_log", "swapGameLog", &[&line]));
    assert_eq!(logs.snapshot().content, "");
    assert_eq!(logs.take_changes(), 0);
}

#[test]
fn seams_lie_behind_the_longest_shared_entry() {
    let mut mirror = LogMirror::default();
    mirror.push("x</font>y</font>");
    assert_eq!(mirror.seam("y</font>z"), 8);
    assert_eq!(mirror.seam("x</font>y</font>z"), 16);
    assert_eq!(mirror.seam("x</font>z"), 0);
    assert_eq!(mirror.seam("y</font"), 0);
}

#[test]
fn multibyte_logs_are_cut_between_lines() {
    let mut log = "é\nü\nö".to_string();
    assert_eq!(recent_bytes_start(&log, 4), 6);
    trim_to_recent_bytes(&mut log, 4);
    assert_eq!(log, "ö");
    let mut mirror = LogMirror::default();
    mirror.push("ä</font>");
    assert!(mirror.push("ä</font>ß</font>"));
    assert_eq!(mirror.assembled(), "ä</font>ß</font>");
    assert_eq!(mirror.recent(3), "");
    assert_eq!(mirror.recent(18), "ä</font>ß</font>");
}

#[test]
fn smaller_windows_show_the_end_of_larger_ones() {
    let mut mirror = LogMirror::default();
    assert!(mirror.push("one\ntwo\nthree\n"));
    assert_eq!(mirror.recent(7), "three\n");
    assert_eq!(mirror.recent(11), "two\nthree\n");
    for smaller in 0..16 {
        for larger in smaller..16 {
            assert!(mirror.recent(larger).ends_with(&mirror.recent(smaller)));
        }
    }
}

#[test]
fn javascript_urls_name_log_commands() {
    assert_eq!(parse_javascript_url("javascript:toggleSbS()"), Some(LogCommand::ToggleSbS));
    assert_eq!(parse_javascript_url("javascript:\u{a0} toggleEx();\n"), Some(LogCommand::ToggleEx));
    assert_eq!(parse_javascript_url("javascript: hideLog()"), Some(LogCommand::HideLog));
    assert_eq!(parse_javascript_url("javascript:toggleView();"), Some(LogCommand::ToggleView));
    assert_eq!(parse_javascript_url("javascript:toggleView();;"), None);
    assert_eq!(parse_javascript_url("Javascript:toggleView();"), None);
    assert_eq!(parse_javascript_url("toggleView();"), None);
    assert!(is_log_javascript_url("javascript:hideLog();"));
    assert!(!is_log_javascript_url("https://play.dragonfable.com/"));
}

#[test]
fn navigation_keeps_log_commands_from_the_browser() {
    let mut logs = new_shared_log_state();
    let opens = DesktopNavigatorInterface { log_state: &mut logs }
        .navigate_to_website("javascript:toggleEx();");
    assert!(!opens);
    assert_eq!(logs.display(), LogDisplay::PopOut);
    let opens = DesktopNavigatorInterface { log_state: &mut logs }
        .navigate_to_website("https://www.dragonfable.com/");
    assert!(opens);
    assert_eq!(logs.display(), LogDisplay::PopOut);
    assert!(is_javascript_url_allowed("javascript:toggleEx();"));
    assert!(!is_javascript_url_allowed("javascript:alert(1)"));
    assert!(confirm_socket("example.org", 80));
}

fn message(channel: &str, method: &str, arguments: &[&str]) -> LocalConnectionMessage {
    LocalConnectionMessage {
        channel: channel.to_string(),
        method: method.to_string(),
        arguments: arguments.iter().map(|text| text.to_string()).collect(),
    }
}

#[test]
fn listeners_hear_only_the_log_channels() {
    assert!(matches!(
        instruction(&message("df_log", "swapGameLog", &["a"])),
        Instruction::Game(text) if text == "a"
    ));
    assert!(matches!(
        instruction(&message("localhost:df_log", "swapBattleLog", &["b", "c"])),
        Instruction::Battle(text) if text == "b"
    ));
    assert!(matches!(instruction(&message("df_log", "logSwap", &[])), Instruction::Swap));
    assert!(matches!(instruction(&message("df_log", "resetLogs", &[])), Instruction::Nothing));
    assert!(matches!(instruction(&message("df_log", "swapGameLog", &[])), Instruction::Nothing));
    assert!(matches!(instruction(&message("xdf_log", "logSwap", &[])), Instruction::Nothing));
    assert!(matches!(instruction(&message("df_log", "other", &[])), Instruction::Nothing));
}

#[test]
fn listeners_keep_the_logs_up_to_date() {
    let mut logs = new_shared_log_state();
    let mut listener = LogListener::new();
    let first = format!("{HEADER}{}", entry("a"));
    listener.on_message(&mut logs, &message("df_log", "swapGameLog", &[&first]));
    assert_eq!(logs.snapshot().content, first);
    assert_eq!(logs.take_changes(), 1);
    listener.on_message(&mut logs, &message("df_log", "swapGameLog", &[&first]));
    assert_eq!(logs.take_changes(), 0);
    listener.on_message(&mut logs, &message("x:df_log", "swapBattleLog", &["fight"]));
    assert_eq!(logs.snapshot().content, first);
    listener.on_message(&mut logs, &message("df_log", "logSwap", &[]));
    assert_eq!(
        logs.snapshot(),
        LogSnapshot { tab: LogTab::Battle, content: "fight".to_string() }
    );
}
