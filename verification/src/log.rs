//! The error log: lines appended to one file, which is put aside when it has grown.
//!
//! The log lies at `ExplorerTabMerger\error.log` below the local application data. A log of
//! [`ROTATE_AT_BYTES`] or more is renamed before the next line, replacing the one put aside
//! earlier. Only failures are logged.
//!
//! The size is looked at before a line is written, so a file may pass the limit by one line:
//! both files together stay under twice the limit plus two lines.

use vstd::prelude::*;
use vstd::utf8::encode_utf8;

use crate::text::{numeral, to_numeral};

verus! {

/// The size at which the log is put aside.
pub const ROTATE_AT_BYTES: u64 = 65536;

/// The folder of the log.
pub const LOG_FOLDER: &'static str = "ExplorerTabMerger";

/// The file name of the log.
pub const LOG_FILE: &'static str = "error.log";

/// The extension that the log gets when it is put aside, in place of its own.
pub const ROTATED_EXTENSION: &'static str = "log.old";

/// A place in the file system: a folder in a base folder, and a file in it.
pub struct LogPath<B> {
    pub base: B,
    pub folder: &'static str,
    pub file: &'static str,
}

/// The place of the log: below the local application data, or below the folder for temporary
/// files if there is no such setting.
pub fn default_log_path<B>(local_app_data: Option<B>, temp_dir: B) -> (r: LogPath<B>)
    ensures
        r.base == (match local_app_data {
            Some(b) => b,
            None => temp_dir,
        }),
        r.folder@ == LOG_FOLDER@,
        r.file@ == LOG_FILE@,
{
    let base = match local_app_data {
        Some(b) => b,
        None => temp_dir,
    };
    LogPath { base, folder: LOG_FOLDER, file: LOG_FILE }
}

/// Seconds since 1970; zero for a clock that is set before.
pub fn epoch_timestamp(since_epoch: Option<u64>) -> (r: u64)
    ensures
        r == (match since_epoch {
            Some(secs) => secs,
            None => 0,
        }),
{
    match since_epoch {
        Some(secs) => secs,
        None => 0,
    }
}

/// A line of the log.
pub open spec fn log_line(ts: u64, message: Seq<char>) -> Seq<char> {
    "[ts="@ + numeral(ts as nat, 10) + "] "@ + message + "\n"@
}

/// Format a line of the log.
pub fn format_line(ts: u64, message: &str) -> (r: String)
    ensures
        r@ == log_line(ts, message@),
        r@ == "[ts="@ + numeral(ts as nat, 10) + "] "@ + message@ + "\n"@,
{
    let mut line = "[ts=".to_owned();
    line.append(to_numeral(ts, 10).as_str());
    line.append("] ");
    line.append(message);
    line.append("\n");
    line
}

/// Whether a log has grown to the size at which it is put aside. A log that cannot be
/// measured counts as empty.
pub open spec fn full(size: Option<u64>) -> bool {
    size matches Some(n) && n >= ROTATE_AT_BYTES
}

/// Decide whether to put the log aside.
pub fn rotate_if_needed(size: Option<u64>) -> (r: bool)
    ensures
        r == full(size),
        size matches Some(n) ==> r == (n >= ROTATE_AT_BYTES),
        size is None ==> !r,
{
    match size {
        Some(n) => n >= ROTATE_AT_BYTES,
        None => false,
    }
}

/// A call on the file system.
pub enum LogCall {
    /// Create the folder of the log and those above it.
    CreateDirs,
    /// Measure the log: [`LogReply::Size`].
    FileSize,
    /// Remove the log that was put aside.
    RemoveRotated,
    /// Put the log aside.
    Rotate,
    /// Open the log for appending, creating it if need be.
    Open,
    /// Read the clock: [`LogReply::Time`].
    ReadClock,
    /// Append a text to the open log.
    Append(String),
}

/// [`LogCall`] as a value.
pub enum LogCallView {
    CreateDirs,
    FileSize,
    RemoveRotated,
    Rotate,
    Open,
    ReadClock,
    Append(Seq<char>),
}

/// What an optional call comes to.
pub open spec fn log_call_view(c: Option<LogCall>) -> Option<LogCallView> {
    match c {
        Some(LogCall::CreateDirs) => Some(LogCallView::CreateDirs),
        Some(LogCall::FileSize) => Some(LogCallView::FileSize),
        Some(LogCall::RemoveRotated) => Some(LogCallView::RemoveRotated),
        Some(LogCall::Rotate) => Some(LogCallView::Rotate),
        Some(LogCall::Open) => Some(LogCallView::Open),
        Some(LogCall::ReadClock) => Some(LogCallView::ReadClock),
        Some(LogCall::Append(s)) => Some(LogCallView::Append(s@)),
        None => None,
    }
}

/// The reply to a call; a failure is the system's own.
pub enum LogReply<E> {
    Done,
    Failed(E),
    /// The number of bytes, if the file could be measured.
    Size(Option<u64>),
    /// Seconds since 1970, if the clock is set after that.
    Time(Option<u64>),
}

/// Where the writing of a line stands.
pub enum LogStage<E> {
    CreateDirs,
    FileSize,
    RemoveRotated,
    Rotate,
    Open,
    ReadClock,
    /// Append the line with this time.
    Append(u64),
    Finished(Result<(), E>),
}

impl<E> LogStage<E> {
    /// The call to make next to log `message`.
    pub open spec fn spec_call(self, message: Seq<char>) -> Option<LogCallView> {
        match self {
            LogStage::CreateDirs => Some(LogCallView::CreateDirs),
            LogStage::FileSize => Some(LogCallView::FileSize),
            LogStage::RemoveRotated => Some(LogCallView::RemoveRotated),
            LogStage::Rotate => Some(LogCallView::Rotate),
            LogStage::Open => Some(LogCallView::Open),
            LogStage::ReadClock => Some(LogCallView::ReadClock),
            LogStage::Append(ts) => Some(LogCallView::Append(log_line(ts, message))),
            LogStage::Finished(_) => None,
        }
    }

    /// Where a step that has to succeed leads.
    pub open spec fn step(self, best_effort: bool, reply: LogReply<E>, onward: Self) -> Self {
        match reply {
            LogReply::Done => onward,
            LogReply::Failed(e) => LogStage::Finished(
                if best_effort {
                    Ok(())
                } else {
                    Err(e)
                },
            ),
            _ => self,
        }
    }

    /// Where the reply leads. A reply to some other call leaves the stage as it is.
    pub open spec fn next(self, best_effort: bool, reply: LogReply<E>) -> Self {
        match self {
            LogStage::CreateDirs => self.step(best_effort, reply, LogStage::FileSize),
            LogStage::FileSize => match reply {
                LogReply::Size(size) => if full(size) {
                    LogStage::RemoveRotated
                } else {
                    LogStage::Open
                },
                _ => self,
            },
            // There may be none to remove.
            LogStage::RemoveRotated => match reply {
                LogReply::Done | LogReply::Failed(_) => LogStage::Rotate,
                _ => self,
            },
            LogStage::Rotate => self.step(best_effort, reply, LogStage::Open),
            LogStage::Open => self.step(best_effort, reply, LogStage::ReadClock),
            LogStage::ReadClock => match reply {
                LogReply::Time(Some(secs)) => LogStage::Append(secs),
                LogReply::Time(None) => LogStage::Append(0),
                _ => self,
            },
            LogStage::Append(_) => self.step(best_effort, reply, LogStage::Finished(Ok(()))),
            LogStage::Finished(_) => self,
        }
    }
}

/// The writing of one line.
pub struct WriteTo<E> {
    pub message: String,
    /// Whether failures are swallowed.
    pub best_effort: bool,
    pub stage: LogStage<E>,
}

/// Append a line to the default log. Failures are swallowed: a log that cannot be written
/// must not disturb the program.
pub fn write<E>(message: &str) -> (r: WriteTo<E>)
    ensures
        r.message@ == message@,
        r.best_effort,
        r.stage == LogStage::<E>::CreateDirs,
{
    WriteTo { message: message.to_owned(), best_effort: true, stage: LogStage::CreateDirs }
}

/// Append a line to some log; the folder is created if the path names one.
pub fn write_to<E>(has_parent: bool, message: &str) -> (r: WriteTo<E>)
    ensures
        r.message@ == message@,
        !r.best_effort,
        r.stage == (if has_parent {
            LogStage::<E>::CreateDirs
        } else {
            LogStage::FileSize
        }),
{
    let stage = if has_parent {
        LogStage::CreateDirs
    } else {
        LogStage::FileSize
    };
    WriteTo { message: message.to_owned(), best_effort: false, stage }
}

/// Take a step that has to succeed.
fn advance<E>(stage: LogStage<E>, best_effort: bool, reply: LogReply<E>, onward: LogStage<E>) -> (r:
    LogStage<E>)
    ensures
        r == stage.step(best_effort, reply, onward),
{
    match reply {
        LogReply::Done => onward,
        LogReply::Failed(e) => LogStage::Finished(
            if best_effort {
                Ok(())
            } else {
                Err(e)
            },
        ),
        _ => stage,
    }
}

impl<E> WriteTo<E> {
    /// The call to make next; none once the writing is over.
    pub fn call(&self) -> (r: Option<LogCall>)
        ensures
            log_call_view(r) == self.stage.spec_call(self.message@),
    {
        match &self.stage {
            LogStage::CreateDirs => Some(LogCall::CreateDirs),
            LogStage::FileSize => Some(LogCall::FileSize),
            LogStage::RemoveRotated => Some(LogCall::RemoveRotated),
            LogStage::Rotate => Some(LogCall::Rotate),
            LogStage::Open => Some(LogCall::Open),
            LogStage::ReadClock => Some(LogCall::ReadClock),
            LogStage::Append(ts) => Some(LogCall::Append(format_line(*ts, self.message.as_str()))),
            LogStage::Finished(_) => None,
        }
    }

    /// Take the reply to the call.
    pub fn on_reply(self, reply: LogReply<E>) -> (r: WriteTo<E>)
        ensures
            r.message == self.message,
            r.best_effort == self.best_effort,
            r.stage == self.stage.next(self.best_effort, reply),
    {
        let best_effort: bool = self.best_effort;
        let stage = match self.stage {
            LogStage::CreateDirs => advance(
                LogStage::CreateDirs,
                best_effort,
                reply,
                LogStage::FileSize,
            ),
            LogStage::FileSize => match reply {
                LogReply::Size(size) => if rotate_if_needed(size) {
                    LogStage::RemoveRotated
                } else {
                    LogStage::Open
                },
                _ => LogStage::FileSize,
            },
            LogStage::RemoveRotated => match reply {
                LogReply::Done => LogStage::Rotate,
                LogReply::Failed(_) => LogStage::Rotate,
                _ => LogStage::RemoveRotated,
            },
            LogStage::Rotate => advance(LogStage::Rotate, best_effort, reply, LogStage::Open),
            LogStage::Open => advance(LogStage::Open, best_effort, reply, LogStage::ReadClock),
            LogStage::ReadClock => match reply {
                LogReply::Time(since_epoch) => LogStage::Append(epoch_timestamp(since_epoch)),
                _ => LogStage::ReadClock,
            },
            LogStage::Append(ts) => advance(
                LogStage::Append(ts),
                best_effort,
                reply,
                LogStage::Finished(Ok(())),
            ),
            LogStage::Finished(r) => LogStage::Finished(r),
        };
        WriteTo { message: self.message, best_effort, stage }
    }
}

/// The log and the one put aside, byte for byte.
pub struct Disk {
    pub log: Option<Seq<u8>>,
    pub rotated: Option<Seq<u8>>,
}

/// The number of bytes in a file; none if it is missing.
pub open spec fn size_of_file(file: Option<Seq<u8>>) -> nat {
    match file {
        Some(bytes) => bytes.len(),
        None => 0,
    }
}

impl Disk {
    /// Whether the size of the log can be told.
    pub open spec fn fits(self) -> bool {
        size_of_file(self.log) <= u64::MAX
    }

    /// The bytes of the log; none if it is missing.
    pub open spec fn contents(self) -> Seq<u8> {
        match self.log {
            Some(bytes) => bytes,
            None => Seq::empty(),
        }
    }

    /// What a file system in which nothing fails does on a call, and what it replies. Only the
    /// removal of a file that is missing is refused.
    pub open spec fn serve<E>(
        self,
        call: LogCallView,
        time: Option<u64>,
        missing: E,
    ) -> (Disk, LogReply<E>) {
        match call {
            LogCallView::CreateDirs => (self, LogReply::Done),
            LogCallView::FileSize => (
                self,
                LogReply::Size(
                    match self.log {
                        Some(bytes) => Some(bytes.len() as u64),
                        None => None,
                    },
                ),
            ),
            LogCallView::RemoveRotated => (
                Disk { rotated: None, ..self },
                if self.rotated is Some {
                    LogReply::Done
                } else {
                    LogReply::Failed(missing)
                },
            ),
            LogCallView::Rotate => (Disk { log: None, rotated: self.log }, LogReply::Done),
            LogCallView::Open => (Disk { log: Some(self.contents()), ..self }, LogReply::Done),
            LogCallView::ReadClock => (self, LogReply::Time(time)),
            LogCallView::Append(s) => (
                Disk { log: Some(self.contents() + encode_utf8(s)), ..self },
                LogReply::Done,
            ),
        }
    }

    /// The disk after a line: below the limit the line is appended, else the log is put aside
    /// and the line begins a new one.
    pub open spec fn with_line(self, line: Seq<u8>) -> Disk {
        if self.contents().len() < ROTATE_AT_BYTES {
            Disk { log: Some(self.contents() + line), ..self }
        } else {
            Disk { log: Some(line), rotated: self.log }
        }
    }

    /// The disk after one line after the other.
    pub open spec fn with_lines(self, lines: Seq<Seq<u8>>) -> Disk
        decreases lines.len(),
    {
        if lines.len() == 0 {
            self
        } else {
            self.with_lines(lines.drop_last()).with_line(lines.last())
        }
    }

    /// The bytes of both files.
    pub open spec fn used(self) -> nat {
        size_of_file(self.log) + size_of_file(self.rotated)
    }
}

impl<E> LogStage<E> {
    /// How many calls are left at most.
    pub open spec fn rank(self) -> nat {
        match self {
            LogStage::CreateDirs => 7,
            LogStage::FileSize => 6,
            LogStage::RemoveRotated => 5,
            LogStage::Rotate => 4,
            LogStage::Open => 3,
            LogStage::ReadClock => 2,
            LogStage::Append(_) => 1,
            LogStage::Finished(_) => 0,
        }
    }

    /// Whether the reply is one to the call that is due.
    pub open spec fn takes(self, reply: LogReply<E>) -> bool {
        match self {
            LogStage::FileSize => reply is Size,
            LogStage::ReadClock => reply is Time,
            LogStage::Finished(_) => false,
            _ => reply is Done || reply is Failed,
        }
    }

    /// The writing carried through on a disk.
    pub open spec fn on(
        self,
        best_effort: bool,
        message: Seq<char>,
        disk: Disk,
        time: Option<u64>,
        missing: E,
    ) -> (Disk, LogStage<E>)
        decreases self.rank(),
    {
        match self.spec_call(message) {
            None => (disk, self),
            Some(call) => {
                let (disk, reply) = disk.serve(call, time, missing);
                self.next(best_effort, reply).on(best_effort, message, disk, time, missing)
            },
        }
    }

    /// Where replies of any kind lead.
    pub open spec fn after(self, best_effort: bool, replies: Seq<LogReply<E>>) -> LogStage<E>
        decreases replies.len(),
    {
        if replies.len() == 0 {
            self
        } else {
            self.next(best_effort, replies[0]).after(best_effort, replies.drop_first())
        }
    }
}

/// The bytes of a line of the log.
pub open spec fn line_bytes(time: Option<u64>, message: Seq<char>) -> Seq<u8> {
    let ts = match time {
        Some(secs) => secs,
        None => 0,
    };
    encode_utf8(log_line(ts, message))
}

/// On a file system that works, a line is appended to the log while the log is small. A log
/// that has grown is put aside first, and replaces the one that was put aside earlier.
pub proof fn law_write_appends_or_rotates<E>(
    best_effort: bool,
    message: Seq<char>,
    disk: Disk,
    time: Option<u64>,
    missing: E,
)
    requires
        disk.fits(),
    ensures
        LogStage::<E>::CreateDirs.on(best_effort, message, disk, time, missing) == (
            disk.with_line(line_bytes(time, message)),
            LogStage::<E>::Finished(Ok(())),
        ),
        LogStage::<E>::FileSize.on(best_effort, message, disk, time, missing) == (
            disk.with_line(line_bytes(time, message)),
            LogStage::<E>::Finished(Ok(())),
        ),
{
    reveal_with_fuel(LogStage::on, 8);
    let line = line_bytes(time, message);
    assert(disk.contents() + line == disk.with_line(line).contents() || disk.contents().len()
        >= ROTATE_AT_BYTES);
    assert(Seq::<u8>::empty() + line == line);
}

/// Each file stays below the limit and one line more, so both together stay below twice that.
pub proof fn law_disk_use_is_bounded(disk: Disk, lines: Seq<Seq<u8>>, longest: nat)
    requires
        size_of_file(disk.log) < ROTATE_AT_BYTES + longest,
        size_of_file(disk.rotated) < ROTATE_AT_BYTES + longest,
        forall|i: int| 0 <= i < lines.len() ==> (#[trigger] lines[i]).len() <= longest,
    ensures
        size_of_file(disk.with_lines(lines).log) < ROTATE_AT_BYTES + longest,
        size_of_file(disk.with_lines(lines).rotated) < ROTATE_AT_BYTES + longest,
        disk.with_lines(lines).used() < 2 * (ROTATE_AT_BYTES + longest),
    decreases lines.len(),
{
    if lines.len() > 0 {
        let rest = lines.drop_last();
        assert forall|i: int| 0 <= i < rest.len() implies (#[trigger] rest[i]).len() <= longest by {
            assert(rest[i] == lines[i]);
        }
        law_disk_use_is_bounded(disk, rest, longest);
        assert(lines.last() == lines[lines.len() - 1]);
    }
}

/// As long as no line takes the log past the limit, both files together stay within twice the
/// limit.
pub proof fn law_disk_use_within_twice_the_limit(disk: Disk, lines: Seq<Seq<u8>>)
    requires
        size_of_file(disk.rotated) <= ROTATE_AT_BYTES,
        forall|i: int|
            0 <= i <= lines.len() ==> size_of_file(
                (#[trigger] disk.with_lines(lines.take(i))).log,
            ) <= ROTATE_AT_BYTES,
    ensures
        size_of_file(disk.with_lines(lines).rotated) <= ROTATE_AT_BYTES,
        disk.with_lines(lines).used() <= 2 * ROTATE_AT_BYTES,
    decreases lines.len(),
{
    assert(lines.take(lines.len() as int) == lines);
    if lines.len() > 0 {
        let rest = lines.drop_last();
        assert forall|i: int| 0 <= i <= rest.len() implies size_of_file(
            (#[trigger] disk.with_lines(rest.take(i))).log,
        ) <= ROTATE_AT_BYTES by {
            assert(rest.take(i) == lines.take(i));
        }
        law_disk_use_within_twice_the_limit(disk, rest);
        assert(rest.take(rest.len() as int) == rest);
        assert(disk.with_lines(lines.take(lines.len() as int)).log == disk.with_lines(lines).log);
        assert(size_of_file(disk.with_lines(rest.take(rest.len() as int)).log) <= ROTATE_AT_BYTES);
    } else {
        assert(disk.with_lines(lines.take(0)) == disk);
    }
}

/// Best effort never fails, whatever the file system replies.
pub proof fn law_best_effort_never_fails<E>(stage: LogStage<E>, replies: Seq<LogReply<E>>)
    requires
        stage !is Finished,
    ensures
        !(stage.after(true, replies) matches LogStage::Finished(Err(_))),
    decreases replies.len(),
{
    if replies.len() > 0 {
        let next = stage.next(true, replies[0]);
        if next is Finished {
            lemma_finished_stays(next, replies.drop_first());
        } else {
            law_best_effort_never_fails(next, replies.drop_first());
        }
    }
}

/// A writing that is over stays as it is.
proof fn lemma_finished_stays<E>(stage: LogStage<E>, replies: Seq<LogReply<E>>)
    requires
        stage is Finished,
    ensures
        stage.after(true, replies) == stage,
    decreases replies.len(),
{
    if replies.len() > 0 {
        lemma_finished_stays(stage, replies.drop_first());
    }
}

/// Every reply to the call that is due brings the writing closer to its end: it takes at most
/// seven calls.
pub proof fn law_writing_ends<E>(stage: LogStage<E>, best_effort: bool, reply: LogReply<E>)
    requires
        stage.takes(reply),
    ensures
        stage.next(best_effort, reply).rank() < stage.rank() <= 7,
{
}

/// A failure to create the folder, to put the log aside, to open it or to write to it ends the
/// writing and is reported, or swallowed by best effort. A failure to remove the log that was
/// put aside earlier changes nothing.
pub proof fn law_failures_end_the_writing<E>(message: Seq<char>, ts: u64, failure: E)
    ensures
        LogStage::CreateDirs.next(false, LogReply::Failed(failure)) == LogStage::Finished(
            Err(failure),
        ),
        LogStage::Rotate.next(false, LogReply::Failed(failure)) == LogStage::Finished(
            Err(failure),
        ),
        LogStage::Open.next(false, LogReply::Failed(failure)) == LogStage::Finished(Err(failure)),
        LogStage::Append(ts).next(false, LogReply::Failed(failure)) == LogStage::Finished(
            Err(failure),
        ),
        LogStage::CreateDirs.next(true, LogReply::Failed(failure)) == LogStage::<E>::Finished(
            Ok(()),
        ),
        LogStage::Rotate.next(true, LogReply::Failed(failure)) == LogStage::<E>::Finished(Ok(())),
        LogStage::Open.next(true, LogReply::Failed(failure)) == LogStage::<E>::Finished(Ok(())),
        LogStage::Append(ts).next(true, LogReply::Failed(failure)) == LogStage::<E>::Finished(
            Ok(()),
        ),
        forall|best_effort: bool| #[trigger]
            LogStage::RemoveRotated.next(best_effort, LogReply::Failed(failure)).spec_call(message)
                == Some(LogCallView::Rotate),
{
}

/// A line is laid out as the seconds, the message and the end of the line; a clock set before
/// 1970 counts as zero seconds. It is appended below the limit, and begins a new log from the
/// limit on.
pub proof fn law_line_and_limit(message: Seq<char>, secs: u64, disk: Disk, line: Seq<u8>)
    ensures
        line_bytes(Some(secs), message) == encode_utf8(
            "[ts="@ + numeral(secs as nat, 10) + "] "@ + message + "\n"@,
        ),
        line_bytes(None, message) == line_bytes(Some(0), message),
        size_of_file(disk.log) < ROTATE_AT_BYTES ==> disk.with_line(line).contents()
            == disk.contents() + line && disk.with_line(line).rotated == disk.rotated,
        size_of_file(disk.log) >= ROTATE_AT_BYTES ==> disk.with_line(line).contents() == line
            && disk.with_line(line).rotated == Some(disk.contents()),
{
}

/// A call seen as a value is the same call with the same text.
pub proof fn law_log_calls_are_seen_as_they_are(line: String)
    ensures
        log_call_view(None) is None,
        log_call_view(Some(LogCall::CreateDirs)) == Some(LogCallView::CreateDirs),
        log_call_view(Some(LogCall::FileSize)) == Some(LogCallView::FileSize),
        log_call_view(Some(LogCall::RemoveRotated)) == Some(LogCallView::RemoveRotated),
        log_call_view(Some(LogCall::Rotate)) == Some(LogCallView::Rotate),
        log_call_view(Some(LogCall::Open)) == Some(LogCallView::Open),
        log_call_view(Some(LogCall::ReadClock)) == Some(LogCallView::ReadClock),
        log_call_view(Some(LogCall::Append(line))) == Some(LogCallView::Append(line@)),
{
}

} // verus!
