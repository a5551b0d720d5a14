use itmr_dragonfable_launcher::log::{
    handle_javascript_url, new_shared_log_state, LogDisplay, LogSnapshot, LogTab,
};
use itmr_dragonfable_launcher::log_process::{
    child_command, follow_logs, is_child_process, message_length, message_text, process_event, read_message,
    spawn_failure, spawn_next, take_report, write_message, ChildCommand, ChildReport, ChildStep,
    ChildWindowEvent, CommandOutbox, CommandWriter, FollowStep, LogChildApp, LogProcessEvent, MessageError,
    PendingCommands, SpawnNext, SpawnStep, WriterStep, MAX_MESSAGE_BYTES,
};
use itmr_dragonfable_launcher::log_window::LogWindowAction;

#[test]
fn outbox_coalesces_log_updates_to_the_latest_data() {
    let mut outbox = CommandOutbox::new();
    let first = LogSnapshot { tab: LogTab::Game, content: "first".to_string() };
    let latest = LogSnapshot { tab: LogTab::Battle, content: "battle".to_string() };

    outbox.update(first);
    outbox.update(latest.clone());
    let pending = outbox.take().unwrap();

    assert_eq!(pending.data, Some(latest));
}

fn tab_name(tab: LogTab) -> &'static str {
    match tab {
        LogTab::Game => "Game",
        LogTab::Battle => "Battle",
    }
}

fn tab_named(name: &str) -> LogTab {
    match name {
        "Game" => LogTab::Game,
        "Battle" => LogTab::Battle,
        other => panic!("unknown tab {other}"),
    }
}

fn payload(value: toml::Value) -> String {
    let mut message = toml::Table::new();
    message.insert("payload".to_string(), value);
    toml::to_string(&message).unwrap()
}

fn payload_of(text: &str) -> toml::Value {
    toml::from_str::<toml::Table>(text).unwrap().remove("payload").unwrap()
}

fn encode(command: &ChildCommand) -> String {
    payload(match command {
        ChildCommand::Close => toml::Value::String("Close".to_string()),
        ChildCommand::Shutdown => toml::Value::String("Shutdown".to_string()),
        ChildCommand::Update(data) => {
            let mut snapshot = toml::Table::new();
            snapshot.insert("tab".to_string(), toml::Value::String(tab_name(data.tab).to_string()));
            snapshot.insert("content".to_string(), toml::Value::String(data.content.clone()));
            let mut update = toml::Table::new();
            update.insert("Update".to_string(), toml::Value::Table(snapshot));
            toml::Value::Table(update)
        }
    })
}

fn decode(text: &str) -> ChildCommand {
    match payload_of(text) {
        toml::Value::String(name) if name == "Close" => ChildCommand::Close,
        toml::Value::String(name) if name == "Shutdown" => ChildCommand::Shutdown,
        toml::Value::Table(update) => {
            let data = update["Update"].as_table().unwrap();
            ChildCommand::Update(LogSnapshot {
                tab: tab_named(data["tab"].as_str().unwrap()),
                content: data["content"].as_str().unwrap().to_string(),
            })
        }
        other => panic!("unknown command {other}"),
    }
}

#[test]
fn child_commands_round_trip() {
    let data = LogSnapshot { tab: LogTab::Battle, content: "battle\nlog".to_string() };
    let commands = [ChildCommand::Close, ChildCommand::Update(data), ChildCommand::Shutdown];

    for command in commands {
        let bytes = write_message(&encode(&command)).unwrap();
        let (text, taken) = read_message(&bytes).unwrap();
        assert_eq!(taken, bytes.len());
        assert_eq!(decode(&text), command);
    }
}

#[test]
fn parent_events_round_trip() {
    for event in [
        ChildWindowEvent::Closed,
        ChildWindowEvent::TabSelected(LogTab::Game),
        ChildWindowEvent::TabSelected(LogTab::Battle),
    ] {
        let message = payload(match event {
            ChildWindowEvent::Closed => toml::Value::String("Closed".to_string()),
            ChildWindowEvent::TabSelected(tab) => {
                let mut selected = toml::Table::new();
                selected.insert(
                    "TabSelected".to_string(),
                    toml::Value::String(tab_name(tab).to_string()),
                );
                toml::Value::Table(selected)
            }
        });
        let bytes = write_message(&message).unwrap();
        let read = match payload_of(&read_message(&bytes).unwrap().0) {
            toml::Value::String(_) => ChildWindowEvent::Closed,
            toml::Value::Table(selected) => {
                ChildWindowEvent::TabSelected(tab_named(selected["TabSelected"].as_str().unwrap()))
            }
            other => panic!("unknown event {other}"),
        };
        assert_eq!(read, event);
    }
}

#[test]
fn oversized_message_is_rejected_before_allocation() {
    let bytes = Vec::from(((MAX_MESSAGE_BYTES + 1) as u32).to_le_bytes());

    let error = read_message(&bytes).unwrap_err();

    assert_eq!(error, MessageError::InvalidData);
}

#[test]
fn incomplete_message_is_rejected() {
    let mut bytes = Vec::from(10_u32.to_le_bytes());
    bytes.extend_from_slice(b"short");

    let error = read_message(&bytes).unwrap_err();

    assert_eq!(error, MessageError::UnexpectedEof);
}

#[test]
fn messages_are_framed_by_their_length() {
    assert_eq!(write_message("hé").unwrap(), vec![3, 0, 0, 0, b'h', 0xc3, 0xa9]);
    assert_eq!(write_message("").unwrap(), vec![0, 0, 0, 0]);
    let long = "x".repeat(0x01_02_03);
    assert_eq!(&write_message(&long).unwrap()[..4], &[3, 2, 1, 0]);
}

#[test]
fn what_follows_a_message_is_left_alone() {
    let mut bytes = write_message("one").unwrap();
    bytes.extend_from_slice(&write_message("two").unwrap());
    let (text, taken) = read_message(&bytes).unwrap();
    assert_eq!((text.as_str(), taken), ("one", 7));
    assert_eq!(read_message(&bytes[taken..]).unwrap(), ("two".to_string(), 7));
}

#[test]
fn messages_that_cannot_be_written_or_read_are_refused() {
    let long = "x".repeat(MAX_MESSAGE_BYTES + 1);
    assert_eq!(write_message(&long), Err(MessageError::InvalidInput));
    assert_eq!(read_message(&[1, 0, 0]), Err(MessageError::UnexpectedEof));
    assert_eq!(read_message(&[2, 0, 0, 0, 0xc3, 0x28]), Err(MessageError::InvalidData));
    assert_eq!(read_message(&[2, 0, 0, 0, 0xc3]), Err(MessageError::InvalidData));
    assert_eq!(message_length(&[0, 0, 0, 8]), Ok(MAX_MESSAGE_BYTES));
    assert_eq!(message_length(&[1, 0, 0, 8]), Err(MessageError::InvalidData));
    assert_eq!(message_text(2, vec![b'o', b'k']), Ok("ok".to_string()));
    assert_eq!(message_text(3, vec![b'o', b'k']), Err(MessageError::UnexpectedEof));
}

#[test]
fn an_empty_outbox_makes_the_writer_wait() {
    let mut outbox = CommandOutbox::new();
    assert!(outbox.take().is_none());
    outbox.close();
    let pending = outbox.take().unwrap();
    assert!(pending.close && !pending.shutdown && pending.data.is_none());
    assert!(outbox.take().is_none());
}

fn snapshot(content: &str) -> LogSnapshot {
    LogSnapshot { tab: LogTab::Game, content: content.to_string() }
}

#[test]
fn outboxes_keep_the_last_data_and_every_wish() {
    let mut outbox = CommandOutbox::new();
    outbox.close();
    outbox.update(snapshot("a"));
    outbox.shutdown();
    outbox.update(snapshot("b"));
    outbox.close();
    let pending = outbox.take().unwrap();
    assert_eq!(pending.data, Some(snapshot("b")));
    assert!(pending.close && pending.shutdown);
    outbox.shutdown();
    let pending = outbox.take().unwrap();
    assert!(pending.data.is_none() && !pending.close && pending.shutdown);
}

#[test]
fn the_process_runs_while_the_log_is_popped_out() {
    let nothing = FollowStep { close: false, spawn: false, update: false };
    for display in [LogDisplay::Hidden, LogDisplay::SideBySide] {
        assert_eq!(follow_logs(display, false), nothing);
        assert_eq!(follow_logs(display, true), FollowStep { close: true, ..nothing });
    }
    let update = FollowStep { update: true, ..nothing };
    assert_eq!(follow_logs(LogDisplay::PopOut, true), update);
    assert_eq!(follow_logs(LogDisplay::PopOut, false), FollowStep { spawn: true, ..update });
}

#[test]
fn the_logs_follow_what_the_process_reports() {
    let mut logs = new_shared_log_state();
    handle_javascript_url("javascript:toggleEx();", &mut logs);
    assert_eq!(logs.display(), LogDisplay::PopOut);
    assert_eq!(logs.take_changes(), 1);
    take_report(&mut logs, LogProcessEvent::TabSelected(LogTab::Battle), true);
    assert_eq!(logs.snapshot().tab, LogTab::Battle);
    take_report(&mut logs, LogProcessEvent::Exited, false);
    assert_eq!(logs.display(), LogDisplay::PopOut);
    take_report(&mut logs, LogProcessEvent::Exited, true);
    assert_eq!(logs.display(), LogDisplay::Hidden);
    take_report(&mut logs, LogProcessEvent::Closed, true);
    assert_eq!(logs.take_changes(), 2);
}

#[test]
fn the_writer_updates_before_it_closes() {
    let mut writer = CommandWriter::new();
    assert_eq!(writer.step(), WriterStep::Wait);
    writer.take_up(PendingCommands { data: Some(snapshot("a")), close: true, shutdown: false });
    assert_eq!(writer.step(), WriterStep::Write(ChildCommand::Update(snapshot("a"))));
    assert_eq!(writer.step(), WriterStep::Write(ChildCommand::Close));
    assert_eq!(writer.step(), WriterStep::Wait);
}

#[test]
fn the_writer_ends_after_a_shutdown_or_a_failure() {
    let mut writer = CommandWriter::new();
    writer.take_up(PendingCommands { data: Some(snapshot("a")), close: true, shutdown: true });
    assert_eq!(writer.step(), WriterStep::Write(ChildCommand::Shutdown));
    assert_eq!(writer.step(), WriterStep::End);
    let mut writer = CommandWriter::new();
    writer.take_up(PendingCommands { data: Some(snapshot("a")), close: true, shutdown: false });
    assert_eq!(writer.step(), WriterStep::Write(ChildCommand::Update(snapshot("a"))));
    writer.failed();
    assert_eq!(writer.step(), WriterStep::End);
}

#[test]
fn a_process_that_cannot_be_served_is_stopped() {
    assert_eq!(spawn_next(SpawnStep::Start, false), SpawnNext::Failed { stop_child: false });
    let mut step = SpawnStep::Start;
    let mut steps: usize = 1;
    loop {
        match spawn_next(step, true) {
            SpawnNext::Step(next) => {
                assert_eq!(spawn_next(next, false), SpawnNext::Failed { stop_child: true });
                step = next;
                steps += 1;
            }
            SpawnNext::Running => break,
            SpawnNext::Failed { .. } => panic!("a step that succeeds does not fail"),
        }
    }
    assert_eq!(steps, 5);
    assert_eq!(spawn_failure(SpawnStep::Start), Some("failed to start log window process"));
    assert_eq!(spawn_failure(SpawnStep::TakeInput), Some("log process stdin unavailable"));
    assert_eq!(spawn_failure(SpawnStep::TakeOutput), Some("log process stdout unavailable"));
    assert_eq!(spawn_failure(SpawnStep::StartReader), None);
    assert_eq!(spawn_failure(SpawnStep::StartWriter), None);
}

#[test]
fn what_the_processes_say_is_passed_on() {
    assert_eq!(process_event(Some(ChildWindowEvent::Closed)), LogProcessEvent::Closed);
    assert_eq!(
        process_event(Some(ChildWindowEvent::TabSelected(LogTab::Battle))),
        LogProcessEvent::TabSelected(LogTab::Battle)
    );
    assert_eq!(process_event(None), LogProcessEvent::Exited);
    assert_eq!(child_command(Some(ChildCommand::Close)), ChildCommand::Close);
    assert_eq!(child_command(None), ChildCommand::Shutdown);
    assert!(is_child_process(Some("--dragonfable-log-window")));
    assert!(!is_child_process(Some("--help")));
    assert!(!is_child_process(None));
}

#[test]
fn the_log_window_follows_the_launcher() {
    let mut app = LogChildApp::new();
    assert_eq!(app.resumed(), ChildStep::CreateWindow);
    assert_eq!(app.user_event(ChildCommand::Update(snapshot("a"))), ChildStep::Nothing);
    assert_eq!(app.window_created(true), ChildStep::Redraw);
    assert_eq!(app.resumed(), ChildStep::Nothing);
    assert_eq!(app.user_event(ChildCommand::Update(snapshot("b"))), ChildStep::Redraw);
    assert_eq!(app.logs().snapshot(), snapshot("b"));
    assert_eq!(app.user_event(ChildCommand::Close), ChildStep::Exit);
    assert_eq!(app.user_event(ChildCommand::Shutdown), ChildStep::Exit);
    assert_eq!(LogChildApp::new().window_created(false), ChildStep::Exit);
}

#[test]
fn actions_in_the_log_window_are_reported() {
    assert_eq!(LogChildApp::window_action(None), ChildReport { event: None, exit: false });
    assert_eq!(
        LogChildApp::window_action(Some(LogWindowAction::Close)),
        ChildReport { event: Some(ChildWindowEvent::Closed), exit: true }
    );
    assert_eq!(
        LogChildApp::window_action(Some(LogWindowAction::TabSelected(LogTab::Battle))),
        ChildReport { event: Some(ChildWindowEvent::TabSelected(LogTab::Battle)), exit: false }
    );
}
