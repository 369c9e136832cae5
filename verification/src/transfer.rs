//! Copying a file between the local and the remote side, buffer by buffer.

use vstd::prelude::*;
use crate::error::{ErrorKind, SshError};
use crate::verbs::{request_lead, sftp_failure, SftpRequest};

verus! {

/// Bytes asked for in one read of the source.
pub const TRANSFER_BUFFER_LEN: usize = 32768;

/// Which way a file is copied.
#[derive(Debug, Clone, Copy, PartialEq, Eq, Structural)]
pub enum Direction {
    /// From the remote side to a local file.
    Download,
    /// From a local file to the remote side.
    Upload,
}

/// What a transfer waits for.
#[derive(Debug, Clone, Copy, PartialEq, Eq, Structural)]
pub enum Phase {
    /// The source to be opened for reading.
    OpenSource,
    /// The destination to be created, or emptied if it exists.
    OpenSink,
    /// One read of at most `max` bytes from the source.
    Read { max: usize },
    /// All of the bytes just handed on to be written to the destination.
    Write,
}

/// A transfer under way: what it waits for, and the number of bytes it has
/// handed on for writing so far.
#[derive(Debug, Clone, Copy, PartialEq, Eq, Structural)]
pub struct Transfer {
    pub direction: Direction,
    pub phase: Phase,
    pub total: u64,
}

/// What the side that does the reading and writing reports.
#[derive(Debug, Clone, PartialEq, Eq)]
pub enum TransferEvent {
    /// The open or the write succeeded.
    Done,
    /// The read returned these bytes; none at the end of the source.
    Read(Vec<u8>),
    /// The operation failed for this reason.
    Failed(String),
}

/// `TransferEvent` with its contents as sequences.
pub enum TransferEventView {
    Done,
    Read(Seq<u8>),
    Failed(Seq<char>),
}

impl View for TransferEvent {
    type V = TransferEventView;

    open spec fn view(&self) -> TransferEventView {
        match self {
            TransferEvent::Done => TransferEventView::Done,
            TransferEvent::Read(b) => TransferEventView::Read(b@),
            TransferEvent::Failed(r) => TransferEventView::Failed(r@),
        }
    }
}

/// Where a transfer stands after an event.
#[derive(Debug, PartialEq, Eq)]
pub enum Progress {
    /// The transfer goes on from this state. The bytes are those to write
    /// now; there are none unless the state waits for a write.
    Continue(Transfer, Vec<u8>),
    /// The transfer is over: the bytes written, or the failure.
    Finished(Result<u64, SshError>),
}

/// `Progress` with its contents as plain values.
pub enum ProgressView {
    Continue(Transfer, Seq<u8>),
    Finished(Result<u64, (ErrorKind, Seq<char>)>),
}

impl View for Progress {
    type V = ProgressView;

    open spec fn view(&self) -> ProgressView {
        match self {
            Progress::Continue(t, chunk) => ProgressView::Continue(*t, chunk@),
            Progress::Finished(Ok(n)) => ProgressView::Finished(Ok(*n)),
            Progress::Finished(Err(e)) => ProgressView::Finished(Err(e@)),
        }
    }
}

/// Whether the operation that phase `phase` waits for is one on the remote
/// side: the source of a download, the destination of an upload.
pub open spec fn is_remote(direction: Direction, phase: Phase) -> bool {
    match phase {
        Phase::OpenSource | Phase::Read { .. } => direction == Direction::Download,
        Phase::OpenSink | Phase::Write => direction == Direction::Upload,
    }
}

/// The SFTP request that a phase on the remote side makes.
pub open spec fn remote_request(phase: Phase) -> SftpRequest {
    match phase {
        Phase::OpenSource => SftpRequest::OpenFile,
        Phase::OpenSink => SftpRequest::CreateFile,
        Phase::Read { .. } => SftpRequest::ReadFile,
        Phase::Write => SftpRequest::WriteFile,
    }
}

/// The error of a transfer whose phase `phase` failed for `reason`: a
/// `ChannelError` worded after the request on the remote side, an `IoError`
/// with the bare reason on the local side.
pub open spec fn failure_of(direction: Direction, phase: Phase, reason: Seq<char>) -> (
    ErrorKind,
    Seq<char>,
) {
    if is_remote(direction, phase) {
        (ErrorKind::ChannelError, request_lead(remote_request(phase)) + reason)
    } else {
        (ErrorKind::IoError, reason)
    }
}

/// Whether `event` is an answer to what `phase` waits for.
pub open spec fn answers(phase: Phase, event: TransferEventView) -> bool {
    match (phase, event) {
        (_, TransferEventView::Failed(_)) => true,
        (Phase::Read { .. }, TransferEventView::Read(_)) => true,
        (Phase::Read { .. }, TransferEventView::Done) => false,
        (_, TransferEventView::Done) => true,
        (_, TransferEventView::Read(_)) => false,
    }
}

/// Whether the count of the transfer `t` stays within 64 bits when it
/// learns `event`.
pub open spec fn fits(t: Transfer, event: TransferEventView) -> bool {
    match event {
        TransferEventView::Read(bytes) => t.phase is Read ==> t.total + bytes.len() <= u64::MAX,
        _ => true,
    }
}

/// Where the transfer `t` stands after `event`.
///
/// The source is opened, then the destination. Each read asks for 32 KiB
/// at most; the bytes it returned are handed on, whole and unchanged, to be
/// written, and add to the total; after the write comes the next read. A
/// read of no bytes ends the transfer with the total. A failure ends it
/// with an error. An event that does not answer what `t` waits for changes
/// nothing.
pub open spec fn progress_of(t: Transfer, event: TransferEventView) -> ProgressView {
    match (t.phase, event) {
        (_, TransferEventView::Failed(reason)) => ProgressView::Finished(
            Err(failure_of(t.direction, t.phase, reason)),
        ),
        (Phase::OpenSource, TransferEventView::Done) => ProgressView::Continue(
            Transfer { phase: Phase::OpenSink, ..t },
            Seq::empty(),
        ),
        (Phase::OpenSink, TransferEventView::Done) => ProgressView::Continue(
            Transfer { phase: Phase::Read { max: TRANSFER_BUFFER_LEN }, ..t },
            Seq::empty(),
        ),
        (Phase::Read { .. }, TransferEventView::Read(bytes)) => if bytes.len() == 0 {
            ProgressView::Finished(Ok(t.total))
        } else {
            ProgressView::Continue(
                Transfer { phase: Phase::Write, total: (t.total + bytes.len()) as u64, ..t },
                bytes,
            )
        },
        (Phase::Write, TransferEventView::Done) => ProgressView::Continue(
            Transfer { phase: Phase::Read { max: TRANSFER_BUFFER_LEN }, ..t },
            Seq::empty(),
        ),
        _ => ProgressView::Continue(t, Seq::empty()),
    }
}

/// The bytes that the reads among `events` returned, one after the other.
pub open spec fn bytes_read(events: Seq<TransferEventView>) -> Seq<u8>
    decreases events.len(),
{
    if events.len() == 0 {
        Seq::empty()
    } else {
        bytes_read(events.drop_last()) + match events.last() {
            TransferEventView::Read(bytes) => bytes,
            _ => Seq::empty(),
        }
    }
}

/// Where the transfer `t` stands after `events` in turn; a transfer that
/// is over stays as it ended.
pub open spec fn progress_after(t: Transfer, events: Seq<TransferEventView>) -> ProgressView
    decreases events.len(),
{
    if events.len() == 0 {
        ProgressView::Continue(t, Seq::empty())
    } else {
        match progress_after(t, events.drop_last()) {
            ProgressView::Continue(s, _) => progress_of(s, events.last()),
            over => over,
        }
    }
}

/// The bytes that the transfer `t` hands on for writing while it learns
/// `events` in turn, one chunk after the other.
pub open spec fn bytes_handed_on(t: Transfer, events: Seq<TransferEventView>) -> Seq<u8>
    decreases events.len(),
{
    if events.len() == 0 {
        Seq::empty()
    } else {
        bytes_handed_on(t, events.drop_last()) + match progress_after(t, events.drop_last()) {
            ProgressView::Continue(s, _) => match progress_of(s, events.last()) {
                ProgressView::Continue(_, chunk) => chunk,
                _ => Seq::empty(),
            },
            _ => Seq::empty(),
        }
    }
}

/// Whether each of `events` answers what the transfer waits for when it
/// arrives, and the byte count stays within 64 bits.
pub open spec fn orderly(t: Transfer, events: Seq<TransferEventView>) -> bool
    decreases events.len(),
{
    events.len() == 0 || (orderly(t, events.drop_last()) && match progress_after(
        t,
        events.drop_last(),
    ) {
        ProgressView::Continue(s, _) => answers(s.phase, events.last()) && fits(s, events.last()),
        _ => false,
    })
}

/// A new transfer in the given direction.
pub fn begin(direction: Direction) -> (t: Transfer)
    ensures
        t == (Transfer { direction, phase: Phase::OpenSource, total: 0 }),
{
    Transfer { direction, phase: Phase::OpenSource, total: 0 }
}

/// Where the transfer `t` stands after `event`, and the bytes to write
/// now.
pub fn transfer_step(t: Transfer, event: TransferEvent) -> (p: Progress)
    requires
        fits(t, event@),
    ensures
        p@ == progress_of(t, event@),
{
    match (t.phase, event) {
        (phase, TransferEvent::Failed(reason)) => {
            let remote = match (t.direction, phase) {
                (Direction::Download, Phase::OpenSource) => Some(SftpRequest::OpenFile),
                (Direction::Download, Phase::Read { .. }) => Some(SftpRequest::ReadFile),
                (Direction::Upload, Phase::OpenSink) => Some(SftpRequest::CreateFile),
                (Direction::Upload, Phase::Write) => Some(SftpRequest::WriteFile),
                _ => None,
            };
            match remote {
                Some(request) => Progress::Finished(Err(sftp_failure(request, reason.as_str()))),
                None => Progress::Finished(Err(SshError::IoError(reason))),
            }
        },
        (Phase::OpenSource, TransferEvent::Done) => Progress::Continue(
            Transfer { direction: t.direction, phase: Phase::OpenSink, total: t.total },
            Vec::new(),
        ),
        (Phase::OpenSink, TransferEvent::Done) => Progress::Continue(
            Transfer {
                direction: t.direction,
                phase: Phase::Read { max: TRANSFER_BUFFER_LEN },
                total: t.total,
            },
            Vec::new(),
        ),
        (Phase::Read { .. }, TransferEvent::Read(bytes)) => if bytes.len() == 0 {
            Progress::Finished(Ok(t.total))
        } else {
            Progress::Continue(
                Transfer {
                    direction: t.direction,
                    phase: Phase::Write,
                    total: t.total + bytes.len() as u64,
                },
                bytes,
            )
        },
        (Phase::Write, TransferEvent::Done) => Progress::Continue(
            Transfer {
                direction: t.direction,
                phase: Phase::Read { max: TRANSFER_BUFFER_LEN },
                total: t.total,
            },
            Vec::new(),
        ),
        (_, _) => Progress::Continue(t, Vec::new()),
    }
}

/// While a transfer goes on in order, the bytes it has handed on for
/// writing are the bytes its reads returned, in the same order and without
/// change, and its count is their number.
pub proof fn lemma_handed_on_is_read(direction: Direction, events: Seq<TransferEventView>)
    requires
        orderly(Transfer { direction, phase: Phase::OpenSource, total: 0 }, events),
    ensures
        bytes_handed_on(Transfer { direction, phase: Phase::OpenSource, total: 0 }, events)
            == bytes_read(events),
        match progress_after(Transfer { direction, phase: Phase::OpenSource, total: 0 }, events) {
            ProgressView::Continue(s, _) => s.direction == direction && s.total == bytes_read(
                events,
            ).len(),
            ProgressView::Finished(Ok(n)) => n == bytes_read(events).len(),
            ProgressView::Finished(Err(_)) => true,
        },
    decreases events.len(),
{
    let t = Transfer { direction, phase: Phase::OpenSource, total: 0 };
    if events.len() > 0 {
        lemma_handed_on_is_read(direction, events.drop_last());
        assert(bytes_handed_on(t, events) =~= bytes_read(events));
    }
}

/// A transfer that went on in order and ended well has handed on for
/// writing exactly the bytes that its reads returned, and returns their
/// number: what reaches the destination is what came from the source.
pub proof fn lemma_total_is_bytes_read(direction: Direction, events: Seq<TransferEventView>, n: u64)
    requires
        orderly(Transfer { direction, phase: Phase::OpenSource, total: 0 }, events),
        progress_after(Transfer { direction, phase: Phase::OpenSource, total: 0 }, events)
            == ProgressView::Finished(Ok(n)),
    ensures
        n == bytes_read(events).len(),
        bytes_handed_on(Transfer { direction, phase: Phase::OpenSource, total: 0 }, events)
            == bytes_read(events),
{
    lemma_handed_on_is_read(direction, events);
}

} // verus!
