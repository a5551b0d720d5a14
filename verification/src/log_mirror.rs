//! The history of one of the game's logs.
//!
//! The game sends the whole of its log buffer with every entry it adds, drops
//! entries from the front of a full buffer, and sends an empty text on the tick
//! on which it does so. A `LogMirror` recovers the new entries by aligning each
//! message with the one before it.

use vstd::prelude::*;
use vstd::slice::slice_subrange;
use vstd::string::*;
use vstd::utf8::*;

use crate::log_markup::{font_close, marks};
use crate::text::{
    ascii_byte_borders, cut, ends_with, find_from, first_occurrence, first_occurrence_is_least,
    has_suffix, occurs_at, same_text, utf8_is_injective, utf8_of_concatenation,
};

verus! {

/// How many bytes of a log are kept.
pub const LOG_HISTORY_MAX_BYTES: usize = 262144;

/// Where the last `max_bytes` of `log` start, moved forward to the start of the
/// next line; the end of the log where no line starts there.
pub open spec fn recent_start(log: Seq<u8>, max_bytes: int) -> int {
    if log.len() <= max_bytes {
        0
    } else {
        match first_occurrence(log, seq![0x0au8], log.len() - max_bytes) {
            Some(at) => at + 1,
            None => log.len() as int,
        }
    }
}

/// The lines at the end of `log` that fit in `max_bytes`.
pub open spec fn recent_part(log: Seq<u8>, max_bytes: int) -> Seq<u8> {
    log.skip(recent_start(log, max_bytes))
}

/// What is kept of a log fits in the given size, and starts where a line of the
/// log starts; where a line starts within the last `max_bytes` after a line
/// break, none of those bytes from that line on is lost. A log that fits is kept
/// whole, and none that does not.
pub proof fn recent_part_is_whole_lines(log: Seq<u8>, max_bytes: int)
    requires
        0 <= max_bytes,
    ensures
        recent_part(log, max_bytes).len() <= max_bytes,
        0 <= recent_start(log, max_bytes) <= log.len(),
        ({
            let start = recent_start(log, max_bytes);
            &&& start == 0 || start == log.len() || log[start - 1] == 0x0a
            &&& start == 0 <==> log.len() <= max_bytes
            &&& 0 < start < log.len() ==> log.len() - max_bytes < start
            &&& recent_part(log, max_bytes) == log.subrange(start, log.len() as int)
        }),
        forall|i: int|
            log.len() - max_bytes <= i < log.len() && 0 <= i && #[trigger] log[i] == 0x0a
                ==> recent_start(log, max_bytes) <= i + 1,
{
    let from = log.len() - max_bytes;
    assert(recent_part(log, max_bytes) =~= log.subrange(
        recent_start(log, max_bytes),
        log.len() as int,
    )) by {
        first_occurrence_is_least(log, seq![0x0au8], if from > 0 {
            from
        } else {
            0
        });
    }
    if log.len() > max_bytes {
        first_occurrence_is_least(log, seq![0x0au8], from);
        if let Some(at) = first_occurrence(log, seq![0x0au8], from) {
            assert(log.subrange(at, at + 1)[0] == log[at]);
        }
        assert forall|i: int| from <= i < log.len() && #[trigger] log[i] == 0x0a implies occurs_at(
            log,
            seq![0x0au8],
            i,
        ) by {
            assert(log.subrange(i, i + 1) =~= seq![0x0au8]);
        }
    }
}

/// A log that fits is kept whole.
pub proof fn short_logs_are_kept(log: Seq<u8>, max_bytes: int)
    requires
        log.len() <= max_bytes,
    ensures
        recent_part(log, max_bytes) == log,
{
    assert(log.skip(0) =~= log);
}

/// What is kept of a log in a smaller size is the end of what is kept in a
/// larger one.
pub proof fn smaller_windows_end_larger_ones(log: Seq<u8>, smaller: int, larger: int)
    requires
        0 <= smaller <= larger,
    ensures
        recent_start(log, larger) <= recent_start(log, smaller),
        ends_with(recent_part(log, larger), recent_part(log, smaller)),
{
    recent_part_is_whole_lines(log, smaller);
    recent_part_is_whole_lines(log, larger);
    if log.len() > larger {
        first_occurrence_is_least(log, seq![0x0au8], log.len() - larger);
        first_occurrence_is_least(log, seq![0x0au8], log.len() - smaller);
    }
    let whole = recent_part(log, larger);
    let part = recent_part(log, smaller);
    assert(whole.subrange(whole.len() - part.len(), whole.len() as int) =~= part);
}

proof fn recent_start_borders(log: Seq<char>, max_bytes: int)
    requires
        0 <= max_bytes,
    ensures
        is_char_boundary(encode_utf8(log), recent_start(encode_utf8(log), max_bytes)),
        is_char_boundary(encode_utf8(log), encode_utf8(log).len() as int),
{
    let bytes = encode_utf8(log);
    encode_utf8_valid_utf8(log);
    is_char_boundary_start_end_of_seq(bytes);
    recent_part_is_whole_lines(bytes, max_bytes);
    let start = recent_start(bytes, max_bytes);
    if start != 0 && start != bytes.len() {
        ascii_byte_borders(bytes, start - 1);
    }
}

/// Finds where the last `max_bytes` of `log` start, moved forward to the start
/// of the next line.
pub fn recent_bytes_start(log: &str, max_bytes: usize) -> (start: usize)
    ensures
        start == recent_start(encode_utf8(log@), max_bytes as int),
{
    let bytes = log.as_bytes();
    let length: usize = bytes.len();
    if length <= max_bytes {
        return 0;
    }
    let line_break: [u8; 1] = [0x0a];
    assert(line_break@ =~= seq![0x0au8]);
    match find_from(bytes, line_break.as_slice(), length - max_bytes) {
        Some(at) => {
            proof {
                first_occurrence_is_least(bytes@, seq![0x0au8], length - max_bytes);
            }
            at + 1
        },
        None => length,
    }
}

/// Cuts a log down to its last lines.
pub fn trim_to_recent_bytes(log: &mut String, max_bytes: usize)
    ensures
        encode_utf8(final(log)@) == recent_part(encode_utf8(old(log)@), max_bytes as int),
{
    let start: usize = recent_bytes_start(log.as_str(), max_bytes);
    let end: usize = log.as_str().as_bytes().len();
    proof {
        recent_start_borders(log@, max_bytes as int);
        recent_part_is_whole_lines(encode_utf8(log@), max_bytes as int);
    }
    let kept = cut(log.as_str(), start, end);
    assert(encode_utf8(kept@) =~= recent_part(encode_utf8(log@), max_bytes as int));
    *log = kept;
}

/// The first `k` bytes of `message` end an entry and are what `buffer` ends
/// with. None at all always are.
pub open spec fn aligns(message: Seq<u8>, buffer: Seq<u8>, k: int) -> bool {
    &&& 0 <= k <= message.len()
    &&& k <= buffer.len()
    &&& k == 0 || (ends_with(message.take(k), font_close()) && ends_with(buffer, message.take(k)))
}

/// The longest alignment of at most `k` bytes.
pub open spec fn longest_alignment(message: Seq<u8>, buffer: Seq<u8>, k: int) -> int
    decreases k,
{
    if k <= 0 {
        0
    } else if aligns(message, buffer, k) {
        k
    } else {
        longest_alignment(message, buffer, k - 1)
    }
}

/// Where what `message` adds to `buffer` begins: behind the longest start of
/// the message that ends an entry and that the buffer ends with.
pub open spec fn seam_of(message: Seq<u8>, buffer: Seq<u8>) -> int {
    longest_alignment(message, buffer, message.len() as int)
}

proof fn longest_alignment_is_longest(message: Seq<u8>, buffer: Seq<u8>, k: int)
    requires
        0 <= k,
    ensures
        aligns(message, buffer, longest_alignment(message, buffer, k)),
        0 <= longest_alignment(message, buffer, k) <= k,
        forall|j: int| j <= k && aligns(message, buffer, j) ==> j <= longest_alignment(
            message,
            buffer,
            k,
        ),
    decreases k,
{
    if k > 0 && !aligns(message, buffer, k) {
        longest_alignment_is_longest(message, buffer, k - 1);
    }
}

/// The seam is an alignment, and no alignment is longer.
pub proof fn seam_is_longest(message: Seq<u8>, buffer: Seq<u8>)
    ensures
        aligns(message, buffer, seam_of(message, buffer)),
        forall|j: int| aligns(message, buffer, j) ==> j <= seam_of(message, buffer),
{
    longest_alignment_is_longest(message, buffer, message.len() as int);
}

proof fn alignment_ends_an_entry(message: Seq<u8>, buffer: Seq<u8>, k: int)
    requires
        aligns(message, buffer, k),
        k > 0,
    ensures
        7 <= k,
        occurs_at(message, font_close(), k - 7),
        message[k - 1] == 0x3e,
{
    marks();
    assert(message.take(k).subrange(k - 7, k) =~= message.subrange(k - 7, k));
    assert(message.subrange(k - 7, k)[6] == message[k - 1]);
}

/// What a mirror holds: the history, and the last message.
pub struct Mirror {
    pub assembled: Seq<u8>,
    pub buffer: Seq<u8>,
}

/// The message holds text beyond what it shares with the last one.
pub open spec fn goes_beyond(mirror: Mirror, message: Seq<u8>) -> bool {
    message.len() > 0 && seam_of(message, mirror.buffer) < message.len()
}

/// The mirror once it has taken `message` in.
pub open spec fn pushed(mirror: Mirror, message: Seq<u8>) -> Mirror {
    if message.len() == 0 {
        mirror
    } else {
        Mirror {
            assembled: if goes_beyond(mirror, message) {
                recent_part(
                    mirror.assembled + message.skip(seam_of(message, mirror.buffer)),
                    LOG_HISTORY_MAX_BYTES as int,
                )
            } else {
                mirror.assembled
            },
            buffer: message,
        }
    }
}

/// Mirrors one of the game's log buffers while it gathers a longer history.
pub struct LogMirror {
    assembled: String,
    buffer: String,
}

impl View for LogMirror {
    type V = Mirror;

    closed spec fn view(&self) -> Mirror {
        Mirror { assembled: encode_utf8(self.assembled@), buffer: encode_utf8(self.buffer@) }
    }
}

impl Default for LogMirror {
    fn default() -> (mirror: Self)
        ensures
            mirror@ == (Mirror { assembled: seq![], buffer: seq![] }),
    {
        let mirror = LogMirror { assembled: String::new(), buffer: String::new() };
        assert(mirror@.assembled =~= seq![]);
        assert(mirror@.buffer =~= seq![]);
        mirror
    }
}

impl LogMirror {
    /// The history fits in `LOG_HISTORY_MAX_BYTES`.
    pub open spec fn wf(&self) -> bool {
        self@.assembled.len() <= LOG_HISTORY_MAX_BYTES
    }

    /// Takes a message in. Returns whether the history changed.
    pub fn push(&mut self, message: &str) -> (changed: bool)
        ensures
            final(self)@ == pushed(old(self)@, encode_utf8(message@)),
            changed == (final(self)@.assembled != old(self)@.assembled),
            old(self).wf() ==> final(self).wf(),
    {
        let length: usize = message.as_bytes().len();
        if length == 0 {
            return false;
        }
        let seam: usize = self.seam(message);
        let mut changed = false;
        if seam < length {
            let ghost bytes = encode_utf8(message@);
            proof {
                seam_is_longest(bytes, self@.buffer);
                encode_utf8_valid_utf8(message@);
                is_char_boundary_start_end_of_seq(bytes);
                if seam > 0 {
                    alignment_ends_an_entry(bytes, self@.buffer, seam as int);
                    ascii_byte_borders(bytes, seam - 1);
                }
            }
            let added = cut(message, seam, length);
            proof {
                utf8_of_concatenation(self.assembled@, added@);
                assert(encode_utf8(added@) =~= bytes.skip(seam as int));
                recent_part_is_whole_lines(
                    self@.assembled + bytes.skip(seam as int),
                    LOG_HISTORY_MAX_BYTES as int,
                );
            }
            let before = self.assembled.clone();
            self.assembled.append(added.as_str());
            trim_to_recent_bytes(&mut self.assembled, LOG_HISTORY_MAX_BYTES);
            changed = !same_text(before.as_str(), self.assembled.as_str());
            proof {
                if encode_utf8(before@) == encode_utf8(self.assembled@) {
                    utf8_is_injective(before@, self.assembled@);
                }
            }
        }
        self.buffer = message.to_owned();
        changed
    }

    /// The history.
    pub fn assembled(&self) -> (log: &str)
        ensures
            encode_utf8(log@) == self@.assembled,
    {
        self.assembled.as_str()
    }

    /// The lines at the end of the history that fit in `max_bytes`.
    pub fn recent(&self, max_bytes: usize) -> (log: String)
        ensures
            encode_utf8(log@) == recent_part(self@.assembled, max_bytes as int),
    {
        let mut log = self.assembled.clone();
        trim_to_recent_bytes(&mut log, max_bytes);
        log
    }

    /// Where what `message` adds to the last message begins.
    pub fn seam(&self, message: &str) -> (seam: usize)
        ensures
            seam == seam_of(encode_utf8(message@), self@.buffer),
    {
        let bytes = message.as_bytes();
        let buffer = self.buffer.as_str().as_bytes();
        let length: usize = bytes.len();
        let max: usize = if length < buffer.len() { length } else { buffer.len() };
        let mut seam: usize = 0;
        let mut search: usize = 0;
        proof {
            marks();
        }
        loop
            invariant
                length == bytes@.len(),
                max <= length,
                max <= buffer@.len(),
                max == length || max == buffer@.len(),
                font_close() == seq![0x3cu8, 0x2f, 0x66, 0x6f, 0x6e, 0x74, 0x3e],
                search <= length,
                seam <= search,
                aligns(bytes@, buffer@, seam as int),
                forall|j: int| j <= search && aligns(bytes@, buffer@, j) ==> j <= seam,
                forall|i: int| i < search && occurs_at(bytes@, font_close(), i) ==> i + 7 <= search,
            ensures
                aligns(bytes@, buffer@, seam as int),
                forall|j: int| aligns(bytes@, buffer@, j) ==> j <= seam,
            decreases length - search,
        {
            let found = find_from(bytes, "</font>".as_bytes(), search);
            proof {
                first_occurrence_is_least(bytes@, font_close(), search as int);
                assert forall|j: int| j > search && aligns(bytes@, buffer@, j) implies occurs_at(
                    bytes@,
                    font_close(),
                    j - 7,
                ) && j - 7 >= search by {
                    alignment_ends_an_entry(bytes@, buffer@, j);
                }
            }
            match found {
                None => {
                    break;
                },
                Some(end) => {
                    let candidate: usize = end + 7;
                    proof {
                        let part = bytes@.subrange(end as int, end + 7);
                        assert forall|i: int|
                            end < i < candidate && occurs_at(bytes@, font_close(), i) implies false by {
                            assert(bytes@.subrange(i, i + 7)[0] == bytes@[i]);
                            assert(part[i - end] == bytes@[i]);
                        }
                    }
                    search = candidate;
                    if candidate > max {
                        break;
                    }
                    let head = slice_subrange(bytes, 0, candidate);
                    assert(head@ =~= bytes@.take(candidate as int));
                    assert(head@.subrange(end as int, candidate as int) =~= bytes@.subrange(
                        end as int,
                        candidate as int,
                    ));
                    if has_suffix(buffer, head) {
                        seam = candidate;
                    }
                }
            }
        }
        proof {
            seam_is_longest(bytes@, buffer@);
        }
        seam
    }
}

/// An empty message carries nothing.
pub proof fn empty_messages_carry_nothing(mirror: Mirror)
    ensures
        pushed(mirror, seq![]) == mirror,
        !goes_beyond(mirror, seq![]),
{
}

/// Where the game has appended entries to its buffer, exactly those are
/// appended to the history.
pub proof fn appended_entries_are_added(mirror: Mirror, new: Seq<u8>)
    requires
        ends_with(mirror.buffer, font_close()),
    ensures
        seam_of(mirror.buffer + new, mirror.buffer) == mirror.buffer.len(),
        goes_beyond(mirror, mirror.buffer + new) == (new.len() > 0),
        new.len() > 0 ==> pushed(mirror, mirror.buffer + new).assembled == recent_part(
            mirror.assembled + new,
            LOG_HISTORY_MAX_BYTES as int,
        ),
{
    marks();
    let message = mirror.buffer + new;
    let k = mirror.buffer.len() as int;
    assert(message.take(k) =~= mirror.buffer);
    assert(mirror.buffer.subrange(0, k) =~= mirror.buffer);
    assert(aligns(message, mirror.buffer, k));
    seam_is_longest(message, mirror.buffer);
    assert(message.skip(k) =~= new);
}

/// Where the game has dropped text from the front of its buffer and appended
/// some, what was kept is not added again; and where no longer start of the
/// message is found at the end of the buffer, all that was appended is added.
pub proof fn front_trims_are_bridged(mirror: Mirror, kept: Seq<u8>, new: Seq<u8>)
    requires
        ends_with(mirror.buffer, kept),
        ends_with(kept, font_close()),
    ensures
        seam_of(kept + new, mirror.buffer) >= kept.len(),
        new.len() == 0 ==> pushed(mirror, kept + new).assembled == mirror.assembled,
        (forall|k: int| k > kept.len() ==> !aligns(kept + new, mirror.buffer, k)) ==> {
            &&& seam_of(kept + new, mirror.buffer) == kept.len()
            &&& new.len() > 0 ==> pushed(mirror, kept + new).assembled == recent_part(
                mirror.assembled + new,
                LOG_HISTORY_MAX_BYTES as int,
            )
        },
{
    marks();
    let message = kept + new;
    assert(message.take(kept.len() as int) =~= kept);
    assert(aligns(message, mirror.buffer, kept.len() as int));
    seam_is_longest(message, mirror.buffer);
    assert(message.skip(kept.len() as int) =~= new);
}

/// A message that ends an entry adds nothing when it comes again.
pub proof fn repeated_messages_add_nothing(mirror: Mirror, message: Seq<u8>)
    requires
        ends_with(message, font_close()),
    ensures
        !goes_beyond(pushed(mirror, message), message),
        pushed(pushed(mirror, message), message) == pushed(mirror, message),
{
    marks();
    let once = pushed(mirror, message);
    assert(message + seq![] =~= message);
    appended_entries_are_added(once, seq![]);
}

/// A message that shares no entry with the last one is added whole.
pub proof fn unrelated_messages_are_added_whole(mirror: Mirror, message: Seq<u8>)
    requires
        message.len() > 0,
        forall|k: int| k > 0 ==> !aligns(message, mirror.buffer, k),
    ensures
        goes_beyond(mirror, message),
        pushed(mirror, message).assembled == recent_part(
            mirror.assembled + message,
            LOG_HISTORY_MAX_BYTES as int,
        ),
{
    seam_is_longest(message, mirror.buffer);
    assert(message.skip(0) =~= message);
}

/// While the history fits, nothing is lost from it.
pub proof fn history_only_grows(mirror: Mirror, message: Seq<u8>)
    requires
        mirror.assembled.len() + message.len() <= LOG_HISTORY_MAX_BYTES,
    ensures
        pushed(mirror, message).assembled.len() >= mirror.assembled.len(),
        pushed(mirror, message).assembled.take(mirror.assembled.len() as int) == mirror.assembled,
{
    seam_is_longest(message, mirror.buffer);
    if goes_beyond(mirror, message) {
        let whole = mirror.assembled + message.skip(seam_of(message, mirror.buffer));
        short_logs_are_kept(whole, LOG_HISTORY_MAX_BYTES as int);
        assert(whole.take(mirror.assembled.len() as int) =~= mirror.assembled);
    } else {
        assert(mirror.assembled.take(mirror.assembled.len() as int) =~= mirror.assembled);
    }
}

/// Entries one after the other.
pub open spec fn joined(entries: Seq<Seq<u8>>) -> Seq<u8>
    decreases entries.len(),
{
    if entries.len() == 0 {
        seq![]
    } else {
        joined(entries.drop_last()) + entries.last()
    }
}

/// A mirror that was sent the game's whole buffer after each of the entries.
pub open spec fn fed(entries: Seq<Seq<u8>>) -> Mirror
    decreases entries.len(),
{
    if entries.len() == 0 {
        Mirror { assembled: seq![], buffer: seq![] }
    } else {
        pushed(fed(entries.drop_last()), joined(entries))
    }
}

/// Where the game sends its whole buffer after each entry, the history holds
/// each entry once, in order, as long as they fit.
pub proof fn whole_buffers_build_the_history(entries: Seq<Seq<u8>>)
    requires
        forall|i: int| 0 <= i < entries.len() ==> ends_with(#[trigger] entries[i], font_close()),
        joined(entries).len() <= LOG_HISTORY_MAX_BYTES,
    ensures
        fed(entries).assembled == joined(entries),
        fed(entries).buffer == joined(entries),
        entries.len() > 0 ==> ends_with(joined(entries), font_close()),
    decreases entries.len(),
{
    marks();
    if entries.len() > 0 {
        let start = entries.drop_last();
        let last = entries[entries.len() - 1];
        let before = joined(start);
        let whole = joined(entries);
        assert forall|i: int| 0 <= i < start.len() implies ends_with(
            #[trigger] start[i],
            font_close(),
        ) by {
            assert(start[i] == entries[i]);
        }
        whole_buffers_build_the_history(start);
        assert(ends_with(last, font_close()));
        assert(whole == before + last);
        assert(whole.subrange(whole.len() - 7, whole.len() as int) =~= last.subrange(
            last.len() - 7,
            last.len() as int,
        ));
        short_logs_are_kept(whole, LOG_HISTORY_MAX_BYTES as int);
        if start.len() == 0 {
            unrelated_messages_are_added_whole(fed(start), whole);
            assert(fed(start).assembled + whole =~= whole);
        } else {
            appended_entries_are_added(fed(start), last);
        }
    }
}

/// All that stands before the seam was already there: it is, byte for byte, what
/// the buffer ends with, and it ends an entry. No longer start of the message is
/// both.
pub proof fn the_seam_lies_behind_what_was_there(message: Seq<u8>, buffer: Seq<u8>)
    ensures
        ({
            let s = seam_of(message, buffer);
            let n = buffer.len() as int;
            &&& 0 <= s <= message.len()
            &&& s <= n
            &&& message.subrange(0, s) == buffer.subrange(n - s, n)
            &&& s > 0 ==> s >= 7 && message.subrange(s - 7, s) == seq![
                0x3cu8,
                0x2f,
                0x66,
                0x6f,
                0x6e,
                0x74,
                0x3e,
            ]
            &&& forall|j: int|
                7 <= j <= message.len() && j <= n && (#[trigger] message.subrange(0, j))
                    == buffer.subrange(n - j, n) && message.subrange(j - 7, j) == seq![
                    0x3cu8,
                    0x2f,
                    0x66,
                    0x6f,
                    0x6e,
                    0x74,
                    0x3e,
                ] ==> j <= s
        }),
{
    marks();
    seam_is_longest(message, buffer);
    let s = seam_of(message, buffer);
    let n = buffer.len() as int;
    if s > 0 {
        assert(message.take(s) =~= message.subrange(0, s));
        assert(message.take(s).subrange(s - 7, s) =~= message.subrange(s - 7, s));
    } else {
        assert(message.subrange(0, s) =~= buffer.subrange(n - s, n));
    }
    assert forall|j: int|
        7 <= j <= message.len() && j <= n && (#[trigger] message.subrange(0, j))
            == buffer.subrange(n - j, n) && message.subrange(j - 7, j) == font_close() implies j
        <= s by {
        assert(message.take(j) =~= message.subrange(0, j));
        assert(message.take(j).subrange(j - 7, j) =~= message.subrange(j - 7, j));
        assert(aligns(message, buffer, j));
    }
}

/// What is added to the history is what stands behind the seam, cut down to the
/// last lines that fit in 256 KiB; the message is then the buffer. Where nothing
/// stands behind the seam the history stays as it is.
pub proof fn pushes_add_what_lies_behind_the_seam(mirror: Mirror, message: Seq<u8>)
    ensures
        ({
            let s = seam_of(message, mirror.buffer);
            let after = pushed(mirror, message);
            let whole = mirror.assembled + message.subrange(s, message.len() as int);
            &&& after.buffer == if message.len() > 0 {
                message
            } else {
                mirror.buffer
            }
            &&& s == message.len() ==> after.assembled == mirror.assembled
            &&& s < message.len() ==> after.assembled == recent_part(whole, 262144)
            &&& s < message.len() && whole.len() <= 262144 ==> after.assembled == whole
            &&& goes_beyond(mirror, message) <==> s < message.len()
        }),
{
    seam_is_longest(message, mirror.buffer);
    let s = seam_of(message, mirror.buffer);
    let whole = mirror.assembled + message.skip(s);
    assert(message.skip(s) =~= message.subrange(s, message.len() as int));
    if whole.len() <= LOG_HISTORY_MAX_BYTES {
        short_logs_are_kept(whole, LOG_HISTORY_MAX_BYTES as int);
    }
}

/// Where the game has kept the end of its buffer, from some entry's text on, and
/// appended to it, and no longer start of the message is, byte for byte, what the
/// buffer ended with, exactly what was appended is added to the history.
pub proof fn exactly_what_is_new_is_added(mirror: Mirror, dropped: Seq<u8>, kept: Seq<u8>, new: Seq<u8>)
    requires
        mirror.buffer == dropped + kept,
        kept.len() >= 7,
        kept.subrange(kept.len() - 7, kept.len() as int) == seq![
            0x3cu8,
            0x2f,
            0x66,
            0x6f,
            0x6e,
            0x74,
            0x3e,
        ],
        forall|j: int|
            kept.len() < j <= kept.len() + new.len() && j <= mirror.buffer.len() ==> (
            #[trigger] (kept + new).subrange(0, j)) != mirror.buffer.subrange(
                mirror.buffer.len() - j,
                mirror.buffer.len() as int,
            ),
    ensures
        seam_of(kept + new, mirror.buffer) == kept.len(),
        pushed(mirror, kept + new).buffer == kept + new,
        new.len() == 0 ==> pushed(mirror, kept + new).assembled == mirror.assembled,
        new.len() > 0 ==> pushed(mirror, kept + new).assembled == recent_part(
            mirror.assembled + new,
            262144,
        ),
        mirror.assembled.len() + new.len() <= 262144 && new.len() > 0 ==> pushed(
            mirror,
            kept + new,
        ).assembled == mirror.assembled + new,
{
    let message = kept + new;
    let n = mirror.buffer.len() as int;
    let k = kept.len() as int;
    the_seam_lies_behind_what_was_there(message, mirror.buffer);
    pushes_add_what_lies_behind_the_seam(mirror, message);
    assert(message.subrange(0, k) =~= mirror.buffer.subrange(n - k, n));
    assert(message.subrange(k - 7, k) =~= kept.subrange(k - 7, k));
    assert(message.subrange(k, message.len() as int) =~= new);
}

/// No byte is ever added to the history that the message does not end with, and
/// none is taken from it but from its front.
pub proof fn histories_end_with_their_messages(mirror: Mirror, message: Seq<u8>)
    ensures
        ({
            let after = pushed(mirror, message).assembled;
            exists|dropped: Seq<u8>, added: Seq<u8>|
                mirror.assembled + added == #[trigger] (dropped + after) && #[trigger] ends_with(
                    message,
                    added,
                )
        }),
{
    pushes_add_what_lies_behind_the_seam(mirror, message);
    the_seam_lies_behind_what_was_there(message, mirror.buffer);
    let s = seam_of(message, mirror.buffer);
    let added = message.subrange(s, message.len() as int);
    let after = pushed(mirror, message).assembled;
    assert(ends_with(message, added));
    if s < message.len() {
        let whole = mirror.assembled + added;
        recent_part_is_whole_lines(whole, 262144);
        let dropped = whole.take(recent_start(whole, 262144));
        assert(whole =~= dropped + after);
    } else {
        assert(mirror.assembled + added =~= Seq::<u8>::empty() + after);
    }
}

/// The seam that a mirror finds lies behind the longest start of the message that
/// ends an entry and that is, byte for byte, what the last message ended with.
pub proof fn mirrors_find_the_seam(mirror: &LogMirror, message: &str, seam: usize)
    requires
        call_ensures(LogMirror::seam, (mirror, message), seam),
    ensures
        ({
            let bytes = encode_utf8(message@);
            let buffer = mirror@.buffer;
            let n = buffer.len() as int;
            &&& seam <= bytes.len()
            &&& seam <= n
            &&& bytes.subrange(0, seam as int) == buffer.subrange(n - seam, n)
            &&& seam > 0 ==> seam >= 7 && bytes.subrange(seam - 7, seam as int) == seq![
                0x3cu8,
                0x2f,
                0x66,
                0x6f,
                0x6e,
                0x74,
                0x3e,
            ]
            &&& forall|j: int|
                7 <= j <= bytes.len() && j <= n && (#[trigger] bytes.subrange(0, j))
                    == buffer.subrange(n - j, n) && bytes.subrange(j - 7, j) == seq![
                    0x3cu8,
                    0x2f,
                    0x66,
                    0x6f,
                    0x6e,
                    0x74,
                    0x3e,
                ] ==> j <= seam
        }),
{
    the_seam_lies_behind_what_was_there(encode_utf8(message@), mirror@.buffer);
}

/// A push adds what lies behind the seam to the history and says whether the
/// history has changed by that; the message is then what the next one is held
/// against, unless it is empty.
pub proof fn pushes_add_what_is_new()
    ensures
        forall|mirror: &mut LogMirror, message: &str, changed: bool| #[trigger]
            call_ensures(LogMirror::push, (mirror, message), changed) ==> {
                let bytes = encode_utf8(message@);
                let s = seam_of(bytes, mirror@.buffer);
                let whole = mirror@.assembled + bytes.subrange(s, bytes.len() as int);
                &&& changed <==> final(mirror)@.assembled != mirror@.assembled
                &&& bytes.len() == 0 ==> final(mirror)@ == mirror@
                &&& bytes.len() > 0 ==> final(mirror)@.buffer == bytes
                &&& s == bytes.len() ==> final(mirror)@.assembled == mirror@.assembled
                &&& s < bytes.len() && whole.len() <= 262144 ==> final(mirror)@.assembled == whole
                &&& s < bytes.len() ==> final(mirror)@.assembled == recent_part(whole, 262144)
                    && final(mirror)@.assembled.len() <= 262144
            },
{
    assert forall|mirror: Mirror, message: Seq<u8>| true implies ({
        let s = seam_of(message, mirror.buffer);
        let after = #[trigger] pushed(mirror, message);
        let whole = mirror.assembled + message.subrange(s, message.len() as int);
        &&& after.buffer == if message.len() > 0 {
            message
        } else {
            mirror.buffer
        }
        &&& s == message.len() ==> after.assembled == mirror.assembled
        &&& s < message.len() ==> after.assembled == recent_part(whole, 262144)
            && after.assembled.len() <= 262144
        &&& s < message.len() && whole.len() <= 262144 ==> after.assembled == whole
    }) by {
        pushes_add_what_lies_behind_the_seam(mirror, message);
        let s = seam_of(message, mirror.buffer);
        recent_part_is_whole_lines(
            mirror.assembled + message.subrange(s, message.len() as int),
            262144,
        );
    }
}

/// What is shown of a history is its end: all of it where it fits, else every
/// line that begins behind a line break within the size.
pub proof fn recent_lines_are_the_end_of_the_history(
    mirror: &LogMirror,
    max_bytes: usize,
    log: String,
)
    requires
        call_ensures(LogMirror::recent, (mirror, max_bytes), log),
    ensures
        ({
            let whole = mirror@.assembled;
            let part = encode_utf8(log@);
            let start = whole.len() - part.len();
            &&& part.len() <= max_bytes
            &&& 0 <= start
            &&& part == whole.subrange(start, whole.len() as int)
            &&& whole.len() <= max_bytes ==> part == whole
            &&& whole.len() > max_bytes && part.len() > 0 ==> whole[start - 1] == 0x0a && start
                > whole.len() - max_bytes
            &&& forall|i: int|
                whole.len() - max_bytes <= i < whole.len() && 0 <= i && #[trigger] whole[i] == 0x0a
                    ==> start <= i + 1
        }),
{
    recent_part_is_whole_lines(mirror@.assembled, max_bytes as int);
}

} // verus!
