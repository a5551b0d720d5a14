//! The log window's own process: what the two processes tell each other, how a
//! message is framed on a pipe, and what either side does next.

use vstd::prelude::*;
use vstd::slice::{slice_subrange, slice_to_vec};
use vstd::utf8::*;

use crate::log::{
    new_shared_log_state, with_selected, LogDisplay, LogSnapshot, LogTab, Logs, SharedLogState,
};
use crate::log_window::LogWindowAction;
use crate::text::{same_text, utf8_is_injective};

verus! {

/// The argument by which the launcher runs itself as the log window.
pub const CHILD_ARGUMENT: &'static str = "--dragonfable-log-window";

/// How many bytes a message may hold.
pub const MAX_MESSAGE_BYTES: usize = 134217728;

/// What the log window's process reports to the launcher.
#[derive(Debug, Clone, Copy, PartialEq, Eq, Structural)]
pub enum LogProcessEvent {
    Closed,
    TabSelected(LogTab),
    Exited,
}

/// What the launcher does about the log window's process once the logs have
/// changed.
#[derive(Debug, Clone, Copy, PartialEq, Eq, Structural)]
pub struct FollowStep {
    pub close: bool,
    pub spawn: bool,
    /// The process, where there is one now, is sent the log.
    pub update: bool,
}

/// The log window's process runs while the log is shown in a window of its own.
pub fn follow_logs(display: LogDisplay, running: bool) -> (step: FollowStep)
    ensures
        step == (FollowStep {
            close: running && display != LogDisplay::PopOut,
            spawn: !running && display == LogDisplay::PopOut,
            update: display == LogDisplay::PopOut,
        }),
{
    let popped_out = display == LogDisplay::PopOut;
    FollowStep { close: running && !popped_out, spawn: !running && popped_out, update: popped_out }
}

/// The logs once the log window's process has reported `event`. The end of a
/// process that was not known to run changes nothing.
pub open spec fn reported(logs: Logs, event: LogProcessEvent, running: bool) -> Logs {
    match event {
        LogProcessEvent::TabSelected(tab) => Logs { tab, ..logs },
        LogProcessEvent::Closed => Logs { visible: false, ..logs },
        LogProcessEvent::Exited => Logs { visible: logs.visible && !running, ..logs },
    }
}

/// Lets the logs follow what the log window's process reports.
pub fn take_report(logs: &mut SharedLogState, event: LogProcessEvent, running: bool)
    ensures
        final(logs).changed_to(old(logs), reported(old(logs)@, event, running)),
{
    match event {
        LogProcessEvent::TabSelected(tab) => logs.set_tab(tab),
        LogProcessEvent::Closed => logs.hide_log(),
        LogProcessEvent::Exited => {
            if running {
                logs.hide_log();
            }
        },
    }
}

/// What the launcher tells the log window.
#[derive(Debug, PartialEq, Eq)]
pub enum ChildCommand {
    Close,
    Update(LogSnapshot),
    Shutdown,
}

/// What the log window tells the launcher.
#[derive(Debug, Clone, Copy, PartialEq, Eq, Structural)]
pub enum ChildWindowEvent {
    Closed,
    TabSelected(LogTab),
}

/// What has yet to be told to the log window.
#[derive(Debug)]
pub struct PendingCommands {
    pub data: Option<LogSnapshot>,
    pub close: bool,
    pub shutdown: bool,
}

impl PendingCommands {
    /// There is nothing to tell.
    pub open spec fn nothing(&self) -> bool {
        self.data is None && !self.close && !self.shutdown
    }
}

impl Default for PendingCommands {
    fn default() -> (pending: Self)
        ensures
            pending.nothing(),
    {
        PendingCommands { data: None, close: false, shutdown: false }
    }
}

/// What is put into an outbox.
pub enum Request {
    Update(LogSnapshot),
    Close,
    Shutdown,
}

/// What an outbox holds once one more request has been put into it.
pub open spec fn requested(pending: PendingCommands, request: Request) -> PendingCommands {
    match request {
        Request::Update(data) => PendingCommands { data: Some(data), ..pending },
        Request::Close => PendingCommands { close: true, ..pending },
        Request::Shutdown => PendingCommands { shutdown: true, ..pending },
    }
}

/// What is taken from an outbox: all that it holds, where it holds anything.
pub open spec fn taken(pending: PendingCommands) -> Option<PendingCommands> {
    if pending.nothing() {
        None
    } else {
        Some(pending)
    }
}

/// Gathers what is to be told to the log window. Of the log's data only the
/// latest is kept.
pub struct CommandOutbox {
    pending: PendingCommands,
}

impl View for CommandOutbox {
    type V = PendingCommands;

    closed spec fn view(&self) -> PendingCommands {
        self.pending
    }
}

impl CommandOutbox {
    /// An outbox with nothing in it.
    pub fn new() -> (outbox: Self)
        ensures
            outbox@.nothing(),
    {
        CommandOutbox { pending: PendingCommands::default() }
    }

    /// Puts the log's data in, in the place of what was there.
    pub fn update(&mut self, data: LogSnapshot)
        ensures
            final(self)@ == requested(old(self)@, Request::Update(data)),
    {
        self.pending.data = Some(data);
    }

    /// Asks the log window to close.
    pub fn close(&mut self)
        ensures
            final(self)@ == requested(old(self)@, Request::Close),
    {
        self.pending.close = true;
    }

    /// Asks the log window's process to end.
    pub fn shutdown(&mut self)
        ensures
            final(self)@ == requested(old(self)@, Request::Shutdown),
    {
        self.pending.shutdown = true;
    }

    /// Takes all that is in the outbox. Where there is nothing, the caller has
    /// to wait.
    pub fn take(&mut self) -> (pending: Option<PendingCommands>)
        ensures
            pending == taken(old(self)@),
            final(self)@.nothing(),
    {
        let close = self.pending.close;
        let shutdown = self.pending.shutdown;
        let data = self.pending.data.take();
        self.pending.close = false;
        self.pending.shutdown = false;
        if data.is_none() && !close && !shutdown {
            None
        } else {
            Some(PendingCommands { data, close, shutdown })
        }
    }
}

/// What an outbox holds once requests have been put into it one after the
/// other.
pub open spec fn gathered(pending: PendingCommands, requests: Seq<Request>) -> PendingCommands
    decreases requests.len(),
{
    if requests.len() == 0 {
        pending
    } else {
        requested(gathered(pending, requests.drop_last()), requests.last())
    }
}

/// The request at `at` is the last one that brings data.
pub open spec fn is_last_update(requests: Seq<Request>, at: int) -> bool {
    &&& 0 <= at < requests.len()
    &&& requests[at] is Update
    &&& forall|i: int| at < i < requests.len() ==> !(#[trigger] requests[i] is Update)
}

/// What is taken from an outbox that was empty, after any requests: the data of
/// the last update, a request to close where there was any, and one to end where
/// there was any; nothing only where there were none.
pub proof fn outboxes_gather_all_requests(empty: PendingCommands, requests: Seq<Request>)
    requires
        empty.nothing(),
    ensures
        match taken(gathered(empty, requests)) {
            None => requests.len() == 0,
            Some(held) => {
                &&& requests.len() > 0
                &&& forall|at: int| #[trigger]
                    is_last_update(requests, at) ==> held.data == Some(requests[at]->Update_0)
                &&& held.data is Some <==> exists|i: int|
                    0 <= i < requests.len() && #[trigger] requests[i] is Update
                &&& held.close <==> exists|i: int|
                    0 <= i < requests.len() && #[trigger] requests[i] is Close
                &&& held.shutdown <==> exists|i: int|
                    0 <= i < requests.len() && #[trigger] requests[i] is Shutdown
            },
        },
    decreases requests.len(),
{
    if requests.len() > 0 {
        let before = requests.drop_last();
        let last = requests.len() - 1;
        outboxes_gather_all_requests(empty, before);
        assert(forall|i: int| 0 <= i < last ==> before[i] == #[trigger] requests[i]);
        assert(requests[last] == requests.last());
        let held = gathered(empty, requests);
        assert forall|at: int| #[trigger] is_last_update(requests, at) implies held.data == Some(
            requests[at]->Update_0,
        ) by {
            if at < last {
                assert(!(requests[last] is Update));
                assert(is_last_update(before, at));
            }
        }
        if exists|i: int| 0 <= i < before.len() && #[trigger] before[i] is Update {
            let i = choose|i: int| 0 <= i < before.len() && #[trigger] before[i] is Update;
            assert(requests[i] is Update);
        }
        if exists|i: int| 0 <= i < before.len() && #[trigger] before[i] is Close {
            let i = choose|i: int| 0 <= i < before.len() && #[trigger] before[i] is Close;
            assert(requests[i] is Close);
        }
        if exists|i: int| 0 <= i < before.len() && #[trigger] before[i] is Shutdown {
            let i = choose|i: int| 0 <= i < before.len() && #[trigger] before[i] is Shutdown;
            assert(requests[i] is Shutdown);
        }
    }
}

/// The commands that are written for what was taken from the outbox. Where the
/// process is to end, that is all it is told.
pub open spec fn commands_of(pending: PendingCommands) -> Seq<ChildCommand> {
    if pending.shutdown {
        seq![ChildCommand::Shutdown]
    } else {
        (match pending.data {
            Some(data) => seq![ChildCommand::Update(data)],
            None => seq![],
        }) + (if pending.close {
            seq![ChildCommand::Close]
        } else {
            seq![]
        })
    }
}

/// What the writer of the pipe does next.
#[derive(Debug, PartialEq, Eq)]
pub enum WriterStep {
    /// Waits for the outbox.
    Wait,
    /// Writes a command.
    Write(ChildCommand),
    /// Ends.
    End,
}

/// What the writer has before it: the commands to be written, and whether it
/// ends after them.
pub struct Writing {
    pub queue: Seq<ChildCommand>,
    pub last: bool,
}

/// Writes the commands to the log window's process.
pub struct CommandWriter {
    update: Option<LogSnapshot>,
    close: bool,
    shutdown: bool,
    ending: bool,
}

impl View for CommandWriter {
    type V = Writing;

    closed spec fn view(&self) -> Writing {
        Writing {
            queue: commands_of(
                PendingCommands { data: self.update, close: self.close, shutdown: self.shutdown },
            ),
            last: self.ending,
        }
    }
}

impl CommandWriter {
    /// A writer with nothing to write.
    pub fn new() -> (writer: Self)
        ensures
            writer@.queue == Seq::<ChildCommand>::empty(),
            !writer@.last,
    {
        let writer = CommandWriter { update: None, close: false, shutdown: false, ending: false };
        assert(writer@.queue =~= Seq::<ChildCommand>::empty());
        writer
    }

    /// Takes up what was in the outbox.
    pub fn take_up(&mut self, pending: PendingCommands)
        requires
            old(self)@.queue.len() == 0,
            !old(self)@.last,
        ensures
            final(self)@.queue == commands_of(pending),
            final(self)@.last == pending.shutdown,
    {
        self.ending = pending.shutdown;
        self.update = pending.data;
        self.close = pending.close;
        self.shutdown = pending.shutdown;
    }

    /// What is to be done next.
    pub fn step(&mut self) -> (step: WriterStep)
        ensures
            final(self)@.last == old(self)@.last,
            if old(self)@.queue.len() > 0 {
                &&& step == WriterStep::Write(old(self)@.queue[0])
                &&& final(self)@.queue == old(self)@.queue.drop_first()
            } else {
                &&& step == (if old(self)@.last {
                    WriterStep::End
                } else {
                    WriterStep::Wait
                })
                &&& final(self)@.queue == old(self)@.queue
            },
    {
        if self.shutdown {
            self.shutdown = false;
            self.update = None;
            self.close = false;
            assert(self@.queue =~= old(self)@.queue.drop_first());
            return WriterStep::Write(ChildCommand::Shutdown);
        }
        match self.update.take() {
            Some(data) => {
                assert(self@.queue =~= old(self)@.queue.drop_first());
                WriterStep::Write(ChildCommand::Update(data))
            },
            None => {
                if self.close {
                    self.close = false;
                    assert(self@.queue =~= old(self)@.queue.drop_first());
                    WriterStep::Write(ChildCommand::Close)
                } else if self.ending {
                    WriterStep::End
                } else {
                    WriterStep::Wait
                }
            },
        }
    }

    /// The pipe is broken: nothing more is written.
    pub fn failed(&mut self)
        ensures
            final(self)@.queue == Seq::<ChildCommand>::empty(),
            final(self)@.last,
    {
        self.update = None;
        self.close = false;
        self.shutdown = false;
        self.ending = true;
        assert(self@.queue =~= Seq::<ChildCommand>::empty());
    }
}

/// A process that is to end is told nothing else, and the writer ends.
pub proof fn shutdown_is_the_last_word(pending: PendingCommands)
    requires
        pending.shutdown,
    ensures
        commands_of(pending) == seq![ChildCommand::Shutdown],
{
}

/// Data that is put in while other data waits takes its place: one update is
/// written, with the latest data, and a request to close comes after it.
pub proof fn updates_coalesce(pending: PendingCommands, data: LogSnapshot)
    requires
        !pending.shutdown,
    ensures
        ({
            let commands = commands_of(PendingCommands { data: Some(data), ..pending });
            &&& commands[0] == ChildCommand::Update(data)
            &&& commands.len() == if pending.close {
                2int
            } else {
                1
            }
            &&& pending.close ==> commands[1] == ChildCommand::Close
        }),
{
}

/// Why a message cannot be written or read.
#[derive(Debug, Clone, Copy, PartialEq, Eq, Structural)]
pub enum MessageError {
    /// The message to be written is longer than `MAX_MESSAGE_BYTES`.
    InvalidInput,
    /// The message to be read is announced as longer than that, or is no text.
    InvalidData,
    /// The message breaks off.
    UnexpectedEof,
}

/// The four bytes of a number below 2^32, the lowest first.
pub open spec fn le_bytes(n: int) -> Seq<u8> {
    seq![
        (n % 256) as u8,
        (n / 256 % 256) as u8,
        (n / 65536 % 256) as u8,
        (n / 16777216 % 256) as u8,
    ]
}

/// The number that four bytes stand for, the lowest first.
pub open spec fn le_number(bytes: Seq<u8>) -> int {
    bytes[0] + 256 * bytes[1] + 65536 * bytes[2] + 16777216 * bytes[3]
}

/// The bytes of a number stand for it.
pub proof fn le_bytes_stand_for_their_number(n: int)
    requires
        0 <= n <= u32::MAX,
    ensures
        le_number(le_bytes(n)) == n,
        le_bytes(n).len() == 4,
{
}

/// A message as it is written: its length in four bytes, then its text.
pub open spec fn framed(message: Seq<char>) -> Seq<u8> {
    le_bytes(encode_utf8(message).len() as int) + encode_utf8(message)
}

/// Frames a message.
pub fn write_message(message: &str) -> (bytes: Result<Vec<u8>, MessageError>)
    ensures
        match bytes {
            Ok(frame) => encode_utf8(message@).len() <= MAX_MESSAGE_BYTES && frame@ == framed(
                message@,
            ),
            Err(error) => encode_utf8(message@).len() > MAX_MESSAGE_BYTES && error
                == MessageError::InvalidInput,
        },
{
    let text = message.as_bytes();
    let length: usize = text.len();
    if length > MAX_MESSAGE_BYTES {
        return Err(MessageError::InvalidInput);
    }
    let mut frame: Vec<u8> = Vec::new();
    frame.push((length % 256) as u8);
    frame.push((length / 256 % 256) as u8);
    frame.push((length / 65536 % 256) as u8);
    frame.push((length / 16777216 % 256) as u8);
    let mut body = slice_to_vec(text);
    assert(frame@ =~= le_bytes(length as int));
    frame.append(&mut body);
    assert(frame@ =~= framed(message@));
    Ok(frame)
}

/// The length that the head of a message announces.
pub open spec fn announced(header: Seq<u8>) -> Result<int, MessageError> {
    if header.len() < 4 {
        Err(MessageError::UnexpectedEof)
    } else if le_number(header) > MAX_MESSAGE_BYTES {
        Err(MessageError::InvalidData)
    } else {
        Ok(le_number(header))
    }
}

/// Reads the head of a message: how many bytes of text follow.
pub fn message_length(header: &[u8]) -> (length: Result<usize, MessageError>)
    ensures
        match length {
            Ok(n) => announced(header@) == Ok::<int, MessageError>(n as int) && n
                <= MAX_MESSAGE_BYTES,
            Err(error) => announced(header@) == Err::<int, MessageError>(error),
        },
{
    if header.len() < 4 {
        return Err(MessageError::UnexpectedEof);
    }
    let length: u64 = header[0] as u64 + 256 * header[1] as u64 + 65536 * header[2] as u64
        + 16777216 * header[3] as u64;
    if length > 134217728 {
        return Err(MessageError::InvalidData);
    }
    Ok(length as usize)
}

/// The text of a message of which `length` bytes were announced and `body` is
/// what could be read of them.
pub open spec fn text_of(length: int, body: Seq<u8>) -> Result<Seq<char>, MessageError> {
    if !valid_utf8(body) {
        Err(MessageError::InvalidData)
    } else if body.len() != length {
        Err(MessageError::UnexpectedEof)
    } else {
        Ok(decode_utf8(body))
    }
}

/// `String::from_utf8`: the text whose UTF-8 bytes are `bytes`, where they are
/// the bytes of a text.
#[verifier::external_body]
fn text_from_utf8(bytes: Vec<u8>) -> (text: Option<String>)
    ensures
        match text {
            Some(t) => valid_utf8(bytes@) && encode_utf8(t@) == bytes@,
            None => !valid_utf8(bytes@),
        },
{
    String::from_utf8(bytes).ok()
}

/// Reads the text of a message of which `length` bytes were announced and
/// `body` is what could be read of them.
pub fn message_text(length: usize, body: Vec<u8>) -> (text: Result<String, MessageError>)
    ensures
        match text {
            Ok(t) => text_of(length as int, body@) == Ok::<Seq<char>, MessageError>(t@),
            Err(error) => text_of(length as int, body@) == Err::<Seq<char>, MessageError>(error),
        },
{
    let complete = body.len() == length;
    match text_from_utf8(body) {
        None => Err(MessageError::InvalidData),
        Some(text) => {
            proof {
                encode_utf8_decode_utf8(text@);
            }
            if complete {
                Ok(text)
            } else {
                Err(MessageError::UnexpectedEof)
            }
        },
    }
}

/// The message at the start of `bytes`, and how many bytes it takes.
pub open spec fn message_at_start(bytes: Seq<u8>) -> Result<(Seq<char>, int), MessageError> {
    match announced(bytes) {
        Err(error) => Err(error),
        Ok(length) => {
            let end = if 4 + length <= bytes.len() {
                4 + length
            } else {
                bytes.len() as int
            };
            match text_of(length, bytes.subrange(4, end)) {
                Err(error) => Err(error),
                Ok(text) => Ok((text, 4 + length)),
            }
        },
    }
}

/// Reads the message at the start of `bytes`. Returns its text, and how many
/// bytes it takes.
pub fn read_message(bytes: &[u8]) -> (message: Result<(String, usize), MessageError>)
    ensures
        match message {
            Ok((text, taken)) => message_at_start(bytes@) == Ok::<(Seq<char>, int), MessageError>(
                (text@, taken as int),
            ),
            Err(error) => message_at_start(bytes@) == Err::<(Seq<char>, int), MessageError>(error),
        },
{
    match message_length(bytes) {
        Err(error) => Err(error),
        Ok(length) => {
            let available: usize = bytes.len();
            let end: usize = if available - 4 >= length {
                4 + length
            } else {
                available
            };
            let body = slice_to_vec(slice_subrange(bytes, 4, end));
            match message_text(length, body) {
                Err(error) => Err(error),
                Ok(text) => Ok((text, 4 + length)),
            }
        },
    }
}

/// What was written is read back, whatever follows it.
pub proof fn written_messages_are_read_back(message: Seq<char>, rest: Seq<u8>)
    requires
        encode_utf8(message).len() <= MAX_MESSAGE_BYTES,
    ensures
        message_at_start(framed(message) + rest) == Ok::<(Seq<char>, int), MessageError>(
            (message, framed(message).len() as int),
        ),
{
    let text = encode_utf8(message);
    let bytes = framed(message) + rest;
    let length = text.len() as int;
    le_bytes_stand_for_their_number(length);
    assert(le_number(bytes) == le_number(le_bytes(length)));
    assert(bytes.subrange(4, 4 + length) =~= text);
    encode_utf8_valid_utf8(message);
    encode_utf8_decode_utf8(message);
}

/// A message that breaks off is not read.
pub proof fn broken_messages_are_refused(message: Seq<char>, k: int)
    requires
        encode_utf8(message).len() <= MAX_MESSAGE_BYTES,
        0 <= k < framed(message).len(),
    ensures
        message_at_start(framed(message).take(k)) is Err,
{
    let bytes = framed(message).take(k);
    let length = encode_utf8(message).len() as int;
    le_bytes_stand_for_their_number(length);
    if k >= 4 {
        assert(le_number(bytes) == le_number(le_bytes(length)));
    }
}

/// Two messages with the same frame are the same.
pub proof fn frames_are_distinct(a: Seq<char>, b: Seq<char>)
    requires
        encode_utf8(a).len() <= MAX_MESSAGE_BYTES,
        encode_utf8(b).len() <= MAX_MESSAGE_BYTES,
        framed(a) == framed(b),
    ensures
        a == b,
{
    assert(framed(a).skip(4) =~= encode_utf8(a));
    assert(framed(b).skip(4) =~= encode_utf8(b));
    utf8_is_injective(a, b);
}

/// The steps in which the log window's process is started.
#[derive(Debug, Clone, Copy, PartialEq, Eq, Structural)]
pub enum SpawnStep {
    /// Start the process.
    Start,
    /// Take the pipe to it.
    TakeInput,
    /// Take the pipe from it.
    TakeOutput,
    /// Start the thread that reads.
    StartReader,
    /// Start the thread that writes.
    StartWriter,
}

/// What comes after a step.
#[derive(Debug, Clone, Copy, PartialEq, Eq, Structural)]
pub enum SpawnNext {
    /// The next step.
    Step(SpawnStep),
    /// The process runs.
    Running,
    /// The step has failed; the process is stopped first where there is one.
    Failed { stop_child: bool },
}

/// What comes after `step`.
pub open spec fn spawn_after(step: SpawnStep, succeeded: bool) -> SpawnNext {
    if !succeeded {
        SpawnNext::Failed { stop_child: step != SpawnStep::Start }
    } else {
        match step {
            SpawnStep::Start => SpawnNext::Step(SpawnStep::TakeInput),
            SpawnStep::TakeInput => SpawnNext::Step(SpawnStep::TakeOutput),
            SpawnStep::TakeOutput => SpawnNext::Step(SpawnStep::StartReader),
            SpawnStep::StartReader => SpawnNext::Step(SpawnStep::StartWriter),
            SpawnStep::StartWriter => SpawnNext::Running,
        }
    }
}

/// Decides what comes after a step of starting the process.
pub fn spawn_next(step: SpawnStep, succeeded: bool) -> (next: SpawnNext)
    ensures
        next == spawn_after(step, succeeded),
{
    if !succeeded {
        return SpawnNext::Failed { stop_child: step != SpawnStep::Start };
    }
    match step {
        SpawnStep::Start => SpawnNext::Step(SpawnStep::TakeInput),
        SpawnStep::TakeInput => SpawnNext::Step(SpawnStep::TakeOutput),
        SpawnStep::TakeOutput => SpawnNext::Step(SpawnStep::StartReader),
        SpawnStep::StartReader => SpawnNext::Step(SpawnStep::StartWriter),
        SpawnStep::StartWriter => SpawnNext::Running,
    }
}

/// What is said of a step that has failed; of a thread that cannot be started
/// the system's own error is reported.
pub fn spawn_failure(step: SpawnStep) -> (text: Option<&'static str>)
    ensures
        match step {
            SpawnStep::Start => text matches Some(t) && t@ == "failed to start log window process"@,
            SpawnStep::TakeInput => text matches Some(t) && t@ == "log process stdin unavailable"@,
            SpawnStep::TakeOutput => text matches Some(t) && t@
                == "log process stdout unavailable"@,
            SpawnStep::StartReader => text is None,
            SpawnStep::StartWriter => text is None,
        },
{
    match step {
        SpawnStep::Start => Some("failed to start log window process"),
        SpawnStep::TakeInput => Some("log process stdin unavailable"),
        SpawnStep::TakeOutput => Some("log process stdout unavailable"),
        SpawnStep::StartReader => None,
        SpawnStep::StartWriter => None,
    }
}

/// Where the steps lead that begin at `step` and succeed or fail as `outcomes`
/// say.
pub open spec fn spawned(step: SpawnStep, outcomes: Seq<bool>) -> SpawnNext
    decreases outcomes.len(),
{
    if outcomes.len() == 0 {
        SpawnNext::Step(step)
    } else {
        match spawn_after(step, outcomes[0]) {
            SpawnNext::Step(next) => spawned(next, outcomes.drop_first()),
            end => end,
        }
    }
}

/// A process that was started runs with both its pipes and threads, or is
/// stopped: no failure after the start leaves it behind.
pub proof fn no_process_is_left_behind(outcomes: Seq<bool>)
    requires
        outcomes.len() == 5,
        outcomes[0],
    ensures
        spawned(SpawnStep::Start, outcomes) == (if forall|i: int|
            0 <= i < 5 ==> #[trigger] outcomes[i] {
            SpawnNext::Running
        } else {
            SpawnNext::Failed { stop_child: true }
        }),
{
    reveal_with_fuel(spawned, 6);
    let all = forall|i: int| 0 <= i < 5 ==> #[trigger] outcomes[i];
    if outcomes[1] && outcomes[2] && outcomes[3] && outcomes[4] {
        assert(all);
    }
}

/// What is reported of what was read from the log window's process: what it
/// said, or that it is gone where nothing more can be read.
pub fn process_event(read: Option<ChildWindowEvent>) -> (event: LogProcessEvent)
    ensures
        event == (match read {
            Some(ChildWindowEvent::Closed) => LogProcessEvent::Closed,
            Some(ChildWindowEvent::TabSelected(tab)) => LogProcessEvent::TabSelected(tab),
            None => LogProcessEvent::Exited,
        }),
{
    match read {
        Some(ChildWindowEvent::Closed) => LogProcessEvent::Closed,
        Some(ChildWindowEvent::TabSelected(tab)) => LogProcessEvent::TabSelected(tab),
        None => LogProcessEvent::Exited,
    }
}

/// The command that the log window acts on once its pipe was read: where
/// nothing more can be read, it ends.
pub fn child_command(read: Option<ChildCommand>) -> (command: ChildCommand)
    ensures
        command == (match read {
            Some(told) => told,
            None => ChildCommand::Shutdown,
        }),
{
    match read {
        Some(told) => told,
        None => ChildCommand::Shutdown,
    }
}

/// Whether the launcher was run as the log window, by its first argument.
pub fn is_child_process(argument: Option<&str>) -> (yes: bool)
    ensures
        yes == (argument matches Some(text) && text@ == CHILD_ARGUMENT@),
{
    match argument {
        Some(text) => same_text(text, CHILD_ARGUMENT),
        None => false,
    }
}

/// What the log window's process does next.
#[derive(Debug, Clone, Copy, PartialEq, Eq, Structural)]
pub enum ChildStep {
    Nothing,
    CreateWindow,
    Redraw,
    Exit,
}

/// What the log window's process does about an action in its window: what it
/// tells the launcher, and whether it then ends.
#[derive(Debug, Clone, Copy, PartialEq, Eq, Structural)]
pub struct ChildReport {
    pub event: Option<ChildWindowEvent>,
    pub exit: bool,
}

/// The log window's process.
pub struct LogChildApp {
    window: bool,
    logs: SharedLogState,
}

impl LogChildApp {
    /// The window has been created.
    pub closed spec fn has_window(&self) -> bool {
        self.window
    }

    /// The logs that the window shows.
    pub closed spec fn shown(&self) -> Logs {
        self.logs@
    }

    /// A process without a window yet.
    pub fn new() -> (app: Self)
        ensures
            !app.has_window(),
            app.shown() == crate::log::fresh_logs(),
    {
        LogChildApp { window: false, logs: new_shared_log_state() }
    }

    /// The logs that the window shows.
    pub fn logs(&mut self) -> (logs: &mut SharedLogState)
        ensures
            logs@ == old(self).shown(),
            final(self).shown() == final(logs)@,
            final(self).has_window() == old(self).has_window(),
    {
        &mut self.logs
    }

    /// The system lets the process show a window: it creates one where it has
    /// none.
    pub fn resumed(&self) -> (step: ChildStep)
        ensures
            step == (if self.has_window() {
                ChildStep::Nothing
            } else {
                ChildStep::CreateWindow
            }),
    {
        if self.window {
            ChildStep::Nothing
        } else {
            ChildStep::CreateWindow
        }
    }

    /// The window has been created, or could not be.
    pub fn window_created(&mut self, created: bool) -> (step: ChildStep)
        ensures
            final(self).has_window() == (old(self).has_window() || created),
            final(self).shown() == old(self).shown(),
            step == (if created {
                ChildStep::Redraw
            } else {
                ChildStep::Exit
            }),
    {
        if created {
            self.window = true;
            ChildStep::Redraw
        } else {
            ChildStep::Exit
        }
    }

    /// Does what the launcher has told.
    pub fn user_event(&mut self, command: ChildCommand) -> (step: ChildStep)
        ensures
            final(self).has_window() == old(self).has_window(),
            match command {
                ChildCommand::Update(data) => {
                    &&& final(self).shown() == with_selected(
                        old(self).shown(),
                        data.tab,
                        data.content@,
                    )
                    &&& step == (if old(self).has_window() {
                        ChildStep::Redraw
                    } else {
                        ChildStep::Nothing
                    })
                },
                _ => final(self).shown() == old(self).shown() && step == ChildStep::Exit,
            },
    {
        match command {
            ChildCommand::Close => ChildStep::Exit,
            ChildCommand::Update(data) => {
                self.logs.replace(data);
                if self.window {
                    ChildStep::Redraw
                } else {
                    ChildStep::Nothing
                }
            },
            ChildCommand::Shutdown => ChildStep::Exit,
        }
    }

    /// Reports an action in the window to the launcher.
    pub fn window_action(action: Option<LogWindowAction>) -> (report: ChildReport)
        ensures
            report == (match action {
                None => ChildReport { event: None, exit: false },
                Some(LogWindowAction::Close) => ChildReport {
                    event: Some(ChildWindowEvent::Closed),
                    exit: true,
                },
                Some(LogWindowAction::TabSelected(tab)) => ChildReport {
                    event: Some(ChildWindowEvent::TabSelected(tab)),
                    exit: false,
                },
            }),
    {
        match action {
            None => ChildReport { event: None, exit: false },
            Some(LogWindowAction::Close) => ChildReport {
                event: Some(ChildWindowEvent::Closed),
                exit: true,
            },
            Some(LogWindowAction::TabSelected(tab)) => ChildReport {
                event: Some(ChildWindowEvent::TabSelected(tab)),
                exit: false,
            },
        }
    }
}

/// The logs follow what the log window's process reports: the log that is
/// selected there is selected, and a window that is closed, or whose process
/// ends while it is known to run, hides the log. What the logs hold and where
/// they are shown stays.
pub proof fn reports_are_followed(logs: Logs, event: LogProcessEvent, running: bool)
    ensures
        ({
            let after = reported(logs, event, running);
            &&& forall|tab: LogTab|
                event == LogProcessEvent::TabSelected(tab) ==> #[trigger] after.tab == tab
            &&& !(event is TabSelected) ==> after.tab == logs.tab
            &&& after.visible <==> logs.visible && !(event is Closed) && !(event is Exited
                && running)
            &&& after.mode == logs.mode
            &&& after.game_log == logs.game_log
            &&& after.battle_log == logs.battle_log
        }),
{
}

/// Nothing is pending exactly where there is neither data nor a wish, and what
/// is pending is taken as it is.
pub proof fn pending_commands_are_taken_as_they_are(pending: PendingCommands)
    ensures
        pending.nothing() <==> pending.data is None && !pending.close && !pending.shutdown,
        taken(pending) is None <==> pending.data is None && !pending.close && !pending.shutdown,
        taken(pending) matches Some(held) ==> held == pending,
{
}

/// A request touches what it is about and nothing else.
pub proof fn requests_are_kept_apart(pending: PendingCommands, data: LogSnapshot)
    ensures
        requested(pending, Request::Update(data)) == (PendingCommands {
            data: Some(data),
            close: pending.close,
            shutdown: pending.shutdown,
        }),
        requested(pending, Request::Close) == (PendingCommands {
            data: pending.data,
            close: true,
            shutdown: pending.shutdown,
        }),
        requested(pending, Request::Shutdown) == (PendingCommands {
            data: pending.data,
            close: pending.close,
            shutdown: true,
        }),
{
}

/// Unless the process is to end, it is told of data where there is any, then to
/// close where that is wished, and of nothing else.
pub proof fn all_that_is_pending_is_written(pending: PendingCommands)
    requires
        !pending.shutdown,
    ensures
        ({
            let commands = commands_of(pending);
            let updates = if pending.data is Some {
                1int
            } else {
                0
            };
            &&& commands.len() == updates + if pending.close {
                1int
            } else {
                0
            }
            &&& pending.data matches Some(data) ==> commands[0] == ChildCommand::Update(data)
            &&& pending.close ==> commands[updates] == ChildCommand::Close
        }),
{
}

/// A frame is the number of the text's bytes, in four bytes with the lowest
/// first, and then the text.
pub proof fn frames_announce_their_length(message: Seq<char>)
    requires
        encode_utf8(message).len() <= MAX_MESSAGE_BYTES,
    ensures
        ({
            let frame = framed(message);
            &&& frame.len() == 4 + encode_utf8(message).len()
            &&& frame[0] + 0x100 * frame[1] + 0x1_0000 * frame[2] + 0x100_0000 * frame[3]
                == encode_utf8(message).len()
            &&& frame.subrange(4, frame.len() as int) == encode_utf8(message)
        }),
{
    let text = encode_utf8(message);
    le_bytes_stand_for_their_number(text.len() as int);
    assert(framed(message).subrange(4, framed(message).len() as int) =~= text);
}

/// A message is read exactly where its length is announced in four bytes with
/// the lowest first, is at most 128 MiB, and as many bytes of a text follow; it
/// is that text, and takes its bytes and those four.
pub proof fn messages_are_read_by_their_length(bytes: Seq<u8>, text: Seq<char>, taken: int)
    ensures
        message_at_start(bytes) == Ok::<(Seq<char>, int), MessageError>((text, taken)) <==> {
            let length = bytes[0] + 0x100 * bytes[1] + 0x1_0000 * bytes[2] + 0x100_0000 * bytes[3];
            &&& 4 <= bytes.len()
            &&& length <= 128 * 1024 * 1024
            &&& 4 + length <= bytes.len()
            &&& taken == 4 + length
            &&& bytes.subrange(4, taken) == encode_utf8(text)
        },
{
    if 4 <= bytes.len() {
        let length = le_number(bytes);
        if 4 + length <= bytes.len() {
            let body = bytes.subrange(4, 4 + length);
            if body == encode_utf8(text) {
                encode_utf8_valid_utf8(text);
                encode_utf8_decode_utf8(text);
            }
            if valid_utf8(body) {
                decode_utf8_encode_utf8(body);
            }
        }
    }
}

/// A message of which too little could be read is reported to break off, and one
/// that is announced as too long, or whose bytes are no text, as no message.
pub proof fn messages_that_cannot_be_read_are_told_apart(bytes: Seq<u8>)
    ensures
        bytes.len() < 4 ==> message_at_start(bytes) == Err::<(Seq<char>, int), MessageError>(
            MessageError::UnexpectedEof,
        ),
        bytes.len() >= 4 ==> {
            let length = bytes[0] + 0x100 * bytes[1] + 0x1_0000 * bytes[2] + 0x100_0000 * bytes[3];
            let end = if 4 + length <= bytes.len() {
                4 + length
            } else {
                bytes.len() as int
            };
            &&& length > 128 * 1024 * 1024 ==> message_at_start(bytes) == Err::<
                (Seq<char>, int),
                MessageError,
            >(MessageError::InvalidData)
            &&& length <= 128 * 1024 * 1024 && !valid_utf8(bytes.subrange(4, end))
                ==> message_at_start(bytes) == Err::<(Seq<char>, int), MessageError>(
                MessageError::InvalidData,
            )
            &&& length <= 128 * 1024 * 1024 && valid_utf8(bytes.subrange(4, end)) && 4 + length
                > bytes.len() ==> message_at_start(bytes) == Err::<(Seq<char>, int), MessageError>(
                MessageError::UnexpectedEof,
            )
        },
{
}

/// The head of a message announces the length that its first four bytes stand
/// for.
pub proof fn heads_announce_lengths(header: Seq<u8>)
    ensures
        header.len() < 4 ==> announced(header) == Err::<int, MessageError>(
            MessageError::UnexpectedEof,
        ),
        header.len() >= 4 ==> {
            let length = header[0] + 0x100 * header[1] + 0x1_0000 * header[2] + 0x100_0000
                * header[3];
            &&& length <= 128 * 1024 * 1024 ==> announced(header) == Ok::<int, MessageError>(length)
            &&& length > 128 * 1024 * 1024 ==> announced(header) == Err::<int, MessageError>(
                MessageError::InvalidData,
            )
        },
{
}

/// The text of a message is read exactly where all of it is there and its bytes
/// are those of a text.
pub proof fn texts_are_read_whole(length: int, body: Seq<u8>, text: Seq<char>)
    ensures
        text_of(length, body) == Ok::<Seq<char>, MessageError>(text) <==> body.len() == length
            && body == encode_utf8(text),
        text_of(length, body) == Err::<Seq<char>, MessageError>(MessageError::InvalidData)
            <==> !valid_utf8(body),
        text_of(length, body) == Err::<Seq<char>, MessageError>(MessageError::UnexpectedEof)
            <==> valid_utf8(body) && body.len() != length,
{
    if body == encode_utf8(text) {
        encode_utf8_valid_utf8(text);
        encode_utf8_decode_utf8(text);
    }
    if valid_utf8(body) {
        decode_utf8_encode_utf8(body);
    }
}

/// The process is started first, then its pipes are taken, then its threads are
/// started, the reading one first; and a step that fails ends it all, stopping
/// the process unless it was never started.
pub proof fn processes_are_started_in_order(step: SpawnStep)
    ensures
        spawn_after(SpawnStep::Start, true) == SpawnNext::Step(SpawnStep::TakeInput),
        spawn_after(SpawnStep::TakeInput, true) == SpawnNext::Step(SpawnStep::TakeOutput),
        spawn_after(SpawnStep::TakeOutput, true) == SpawnNext::Step(SpawnStep::StartReader),
        spawn_after(SpawnStep::StartReader, true) == SpawnNext::Step(SpawnStep::StartWriter),
        spawn_after(SpawnStep::StartWriter, true) == SpawnNext::Running,
        spawn_after(step, false) == (SpawnNext::Failed { stop_child: !(step is Start) }),
{
}

/// The log window's process is started where the log pops out and none runs,
/// closed where one runs and the log does not, and told of the log while it pops
/// out.
pub proof fn processes_run_while_the_log_pops_out(
    display: LogDisplay,
    running: bool,
    step: FollowStep,
)
    requires
        call_ensures(follow_logs, (display, running), step),
    ensures
        display == LogDisplay::PopOut ==> step.update && !step.close && step.spawn == !running,
        display != LogDisplay::PopOut ==> !step.update && !step.spawn && step.close == running,
{
}

/// What was written can be read again, with any bytes behind it, and takes as
/// many bytes as were written; and all that is at most 128 MiB long can be
/// written.
pub proof fn messages_survive_the_pipe(
    message: &str,
    written: Result<Vec<u8>, MessageError>,
    bytes: &[u8],
    rest: Seq<u8>,
    read: Result<(String, usize), MessageError>,
)
    requires
        call_ensures(write_message, (message,), written),
        call_ensures(read_message, (bytes,), read),
        written matches Ok(frame) ==> bytes@ == frame@ + rest,
    ensures
        written is Ok <==> encode_utf8(message@).len() <= 128 * 1024 * 1024,
        written matches Err(error) ==> error == MessageError::InvalidInput,
        written matches Ok(frame) ==> read matches Ok(found) && found.0@ == message@ && found.1
            == frame@.len(),
        written matches Ok(frame) ==> frame@.len() == 4 + encode_utf8(message@).len() && frame@[0]
            + 0x100 * frame@[1] + 0x1_0000 * frame@[2] + 0x100_0000 * frame@[3] == encode_utf8(
            message@,
        ).len(),
{
    if written is Ok {
        written_messages_are_read_back(message@, rest);
        frames_announce_their_length(message@);
    }
}

/// Reading a message at once is the same as reading its head and then as many
/// bytes as that announces.
pub proof fn messages_can_be_read_in_two_steps(
    bytes: &[u8],
    head: &[u8],
    length: usize,
    body: Vec<u8>,
    text: Result<String, MessageError>,
    whole: Result<(String, usize), MessageError>,
)
    requires
        4 <= bytes@.len(),
        head@ == bytes@.take(4),
        call_ensures(message_length, (head,), Ok(length)),
        4 + length <= bytes@.len(),
        body@ == bytes@.subrange(4, 4 + length),
        call_ensures(message_text, (length, body), text),
        call_ensures(read_message, (bytes,), whole),
    ensures
        text matches Ok(t) ==> whole matches Ok(found) && found.0@ == t@ && found.1 == 4 + length,
        text matches Err(error) ==> whole matches Err(same) && same == error,
{
    assert(le_number(head@) == le_number(bytes@));
}

/// What the user does in the log window reaches the launcher: the log that they
/// select is selected there, and where they close the window the log is hidden.
pub proof fn actions_reach_the_launcher(action: LogWindowAction, report: ChildReport, event: LogProcessEvent)
    requires
        call_ensures(LogChildApp::window_action, (Some(action),), report),
        call_ensures(process_event, (report.event,), event),
    ensures
        report.event is Some,
        report.exit <==> action is Close,
        forall|logs: &mut SharedLogState, running: bool| #[trigger]
            call_ensures(take_report, (logs, event, running), ()) ==> {
                &&& action is TabSelected ==> final(logs)@.tab == action->TabSelected_0 && final(logs)@.visible == logs@.visible
                &&& action is Close ==> !final(logs)@.visible && final(logs)@.tab == logs@.tab
                &&& final(logs)@.game_log == logs@.game_log && final(logs)@.battle_log
                    == logs@.battle_log && final(logs)@.mode == logs@.mode
            },
{
}

/// A window in which nothing is done reports nothing and stays; a process from
/// which nothing more can be read is gone, and hides the log where it was known
/// to run.
pub proof fn silence_means_gone(report: ChildReport, event: LogProcessEvent)
    requires
        call_ensures(LogChildApp::window_action, (None::<LogWindowAction>,), report),
        call_ensures(process_event, (None::<ChildWindowEvent>,), event),
    ensures
        report.event is None && !report.exit,
        forall|logs: &mut SharedLogState, running: bool| #[trigger]
            call_ensures(take_report, (logs, event, running), ()) ==> final(logs)@.visible == (
            logs@.visible && !running) && final(logs)@.tab == logs@.tab,
{
}

/// What the launcher tells is what the log window's process acts on: the log that
/// it is sent is shown, in a window that is then drawn again; told to close or to
/// end, or told nothing more, it exits.
pub proof fn commands_reach_the_log_window(told: Option<ChildCommand>, command: ChildCommand)
    requires
        call_ensures(child_command, (told,), command),
    ensures
        told is Some ==> command == told->0,
        forall|app: &mut LogChildApp, step: ChildStep| #[trigger]
            call_ensures(LogChildApp::user_event, (app, command), step) ==> {
                &&& told is Some && told->0 is Update ==> {
                    let data = told->0->Update_0;
                    &&& final(app).shown().tab == data.tab
                    &&& data.tab == LogTab::Game ==> final(app).shown().game_log == data.content@
                        && final(app).shown().battle_log == app.shown().battle_log
                    &&& data.tab == LogTab::Battle ==> final(app).shown().battle_log
                        == data.content@ && final(app).shown().game_log == app.shown().game_log
                    &&& step == ChildStep::Redraw <==> app.has_window()
                    &&& step != ChildStep::Exit
                }
                &&& told is None || !(told->0 is Update) ==> step == ChildStep::Exit && final(app).shown() == app.shown()
                &&& final(app).has_window() == app.has_window()
            },
{
}

/// The process creates one window: it is asked for while there is none, and
/// drawn once it is there; a process that gets none exits.
pub proof fn windows_are_created_once()
    ensures
        forall|a: &LogChildApp, b: &mut LogChildApp, c: &LogChildApp, created: bool,
            first: ChildStep, made: ChildStep, second: ChildStep| #[trigger]
            call_ensures(LogChildApp::resumed, (a,), first) && #[trigger] call_ensures(
                LogChildApp::window_created,
                (b, created),
                made,
            ) && #[trigger] call_ensures(LogChildApp::resumed, (c,), second) && *b == *a && *c
                == *final(b) ==> {
                &&& first == ChildStep::CreateWindow <==> !a.has_window()
                &&& created ==> made == ChildStep::Redraw && second == ChildStep::Nothing
                &&& !created ==> made == ChildStep::Exit && second == first
                &&& c.shown() == a.shown()
            },
{
}

/// The launcher runs as the log window exactly where its first argument says so.
pub proof fn children_are_told_by_their_argument(argument: Option<&str>, yes: bool)
    requires
        call_ensures(is_child_process, (argument,), yes),
    ensures
        argument is None ==> !yes,
        argument matches Some(text) ==> (yes <==> text@ == "--dragonfable-log-window"@),
{
}

/// The commands are written one by one in their order, and then the writer waits,
/// or ends where the process is to end; a writer whose pipe is broken ends.
pub proof fn writers_write_all_they_have()
    ensures
        forall|writer: &mut CommandWriter, pending: PendingCommands| #[trigger]
            call_ensures(CommandWriter::take_up, (writer, pending), ()) ==> {
                &&& pending.shutdown ==> final(writer)@.queue == seq![ChildCommand::Shutdown]
                    && final(writer)@.last
                &&& !pending.shutdown ==> final(writer)@.queue == commands_of(pending) && !final(writer)@.last
            },
        forall|writer: &mut CommandWriter, step: WriterStep| #[trigger]
            call_ensures(CommandWriter::step, (writer,), step) ==> {
                let n = writer@.queue.len();
                &&& n > 0 ==> step == WriterStep::Write(writer@.queue[0]) && final(writer)@.queue
                    == writer@.queue.subrange(1, n as int)
                &&& n == 0 && writer@.last ==> step == WriterStep::End
                &&& n == 0 && !writer@.last ==> step == WriterStep::Wait
                &&& final(writer)@.last == writer@.last
            },
        forall|a: &mut CommandWriter, b: &mut CommandWriter, step: WriterStep| #[trigger]
            call_ensures(CommandWriter::failed, (a,), ()) && #[trigger] call_ensures(
                CommandWriter::step,
                (b,),
                step,
            ) && *b == *final(a) ==> step == WriterStep::End,
{
    assert forall|writer: &mut CommandWriter, step: WriterStep| #[trigger]
        call_ensures(CommandWriter::step, (writer,), step) && writer@.queue.len() > 0 implies final(writer)@.queue == writer@.queue.subrange(1, writer@.queue.len() as int) by {
        assert(writer@.queue.drop_first() =~= writer@.queue.subrange(
            1,
            writer@.queue.len() as int,
        ));
    }
}

/// What was put into an empty outbox is what is taken from it, and then it is
/// empty again.
pub proof fn outboxes_give_what_was_put_in()
    ensures
        forall|
            a: &mut CommandOutbox,
            b: &mut CommandOutbox,
            data: LogSnapshot,
            held: Option<PendingCommands>,
        | #[trigger]
            call_ensures(CommandOutbox::update, (a, data), ()) && #[trigger] call_ensures(
                CommandOutbox::take,
                (b,),
                held,
            ) && *b == *final(a) ==> held is Some && held->0.data == Some(data) && held->0.close
                == a@.close && held->0.shutdown == a@.shutdown,
        forall|a: &mut CommandOutbox, b: &mut CommandOutbox, held: Option<PendingCommands>|
            #[trigger]
            call_ensures(CommandOutbox::close, (a,), ()) && #[trigger] call_ensures(
                CommandOutbox::take,
                (b,),
                held,
            ) && *b == *final(a) ==> held is Some && held->0.close && held->0.data == a@.data
                && held->0.shutdown == a@.shutdown,
        forall|a: &mut CommandOutbox, b: &mut CommandOutbox, held: Option<PendingCommands>|
            #[trigger]
            call_ensures(CommandOutbox::shutdown, (a,), ()) && #[trigger] call_ensures(
                CommandOutbox::take,
                (b,),
                held,
            ) && *b == *final(a) ==> held is Some && held->0.shutdown && held->0.data == a@.data
                && held->0.close == a@.close,
        forall|a: &mut CommandOutbox, b: &mut CommandOutbox, first: Option<PendingCommands>,
            second: Option<PendingCommands>| #[trigger]
            call_ensures(CommandOutbox::take, (a,), first) && #[trigger] call_ensures(
                CommandOutbox::take,
                (b,),
                second,
            ) && *b == *final(a) ==> second is None,
{
}

/// Each step that can fail on its own says what has failed; where the system
/// says so itself, nothing is added.
pub proof fn failures_name_their_step(step: SpawnStep, text: Option<&'static str>)
    requires
        call_ensures(spawn_failure, (step,), text),
    ensures
        text is None <==> step is StartReader || step is StartWriter,
        step is Start ==> text->0@ == "failed to start log window process"@,
        step is TakeInput ==> text->0@ == "log process stdin unavailable"@,
        step is TakeOutput ==> text->0@ == "log process stdout unavailable"@,
{
}

/// The log window's process starts without a window and with empty logs, and an
/// outbox and a writer with nothing to tell.
pub proof fn processes_start_with_nothing(
    app: LogChildApp,
    outbox: CommandOutbox,
    writer: CommandWriter,
)
    requires
        call_ensures(LogChildApp::new, (), app),
        call_ensures(CommandOutbox::new, (), outbox),
        call_ensures(CommandWriter::new, (), writer),
    ensures
        !app.has_window(),
        app.shown().game_log.len() == 0 && app.shown().battle_log.len() == 0,
        !app.shown().visible && app.shown().tab == LogTab::Game,
        outbox@.data is None && !outbox@.close && !outbox@.shutdown,
        writer@.queue.len() == 0 && !writer@.last,
{
}

} // verus!
