//! The operations a verb performs on a session's channel, in order, and
//! how the verb goes on when one of them fails.

use vstd::prelude::*;
use vstd::string::{StrSliceExecFns, StringSliceAdditionalSpecFns};
use crate::error::{describe, ErrorKind, SshError};

verus! {

/// One operation on the channel of a session, or on the session itself.
#[derive(Debug, Clone, Copy, PartialEq, Eq, Structural)]
pub enum ChannelOp {
    /// Switch the whole session to blocking or to non-blocking mode.
    SetBlocking(bool),
    /// Write every byte of the payload.
    WriteAll,
    /// Flush what was written.
    Flush,
    /// Tell the remote side the new size of the terminal window.
    WindowChange { cols: u32, rows: u32 },
    /// Clear the flag that keeps the reader of the session running.
    MarkClosed,
    /// Tell the remote side that nothing more will be sent.
    SendEof,
    /// Close the channel.
    Close,
    /// Wait until the remote side has acknowledged the close.
    WaitClose,
}

/// What a sequence of operations is performed for.
#[derive(Debug, Clone, Copy, PartialEq, Eq, Structural)]
pub enum Verb {
    Send,
    Resize,
    Shutdown,
}

/// The operations that send a payload: the session is blocking exactly
/// while the payload is written and flushed.
pub open spec fn send_ops() -> Seq<ChannelOp> {
    seq![
        ChannelOp::SetBlocking(true),
        ChannelOp::WriteAll,
        ChannelOp::Flush,
        ChannelOp::SetBlocking(false),
    ]
}

/// The operations that resize the terminal window to `cols` by `rows`.
pub open spec fn resize_ops(cols: u16, rows: u16) -> Seq<ChannelOp> {
    seq![
        ChannelOp::SetBlocking(true),
        ChannelOp::WindowChange { cols: cols as u32, rows: rows as u32 },
        ChannelOp::SetBlocking(false),
    ]
}

/// The operations that shut a session down.
pub open spec fn shutdown_ops() -> Seq<ChannelOp> {
    seq![ChannelOp::MarkClosed, ChannelOp::SendEof, ChannelOp::Close, ChannelOp::WaitClose]
}

/// Whether `op` is performed even after an earlier operation has failed:
/// a mode switch and the clearing of the flag are, remote requests are not.
pub open spec fn always_runs(op: ChannelOp) -> bool {
    op is SetBlocking || op is MarkClosed
}

/// The kind of error with which `verb` reports a failed operation; a
/// shutdown reports none.
pub open spec fn failure_kind(verb: Verb) -> Option<ErrorKind> {
    match verb {
        Verb::Send => Some(ErrorKind::IoError),
        Verb::Resize => Some(ErrorKind::PtyError),
        Verb::Shutdown => None,
    }
}

/// The words that `verb` puts before the reason of a failure.
pub open spec fn failure_lead(verb: Verb) -> Seq<char> {
    match verb {
        Verb::Resize => "Resize failed: "@,
        _ => Seq::empty(),
    }
}

/// The index of the first operation from `from` on that is performed,
/// given whether an earlier one has failed; the length of `ops` if none is.
pub open spec fn next_runnable(ops: Seq<ChannelOp>, from: int, failed: bool) -> int
    decreases ops.len() - from,
{
    if from >= ops.len() {
        ops.len() as int
    } else if !failed || always_runs(ops[from]) {
        from
    } else {
        next_runnable(ops, from + 1, failed)
    }
}

/// The mode the session is in after the operations `done`, having been in
/// mode `blocking` before.
pub open spec fn blocking_after(done: Seq<ChannelOp>, blocking: bool) -> bool
    decreases done.len(),
{
    if done.len() == 0 {
        blocking
    } else {
        match done.last() {
            ChannelOp::SetBlocking(b) => b,
            _ => blocking_after(done.drop_last(), blocking),
        }
    }
}

/// The operations of one verb on one session, with the place reached in
/// them and the first failure met.
pub struct Script {
    verb: Verb,
    ops: Vec<ChannelOp>,
    payload: Vec<u8>,
    next: usize,
    failure: Option<String>,
}

/// A `Script` as plain values.
pub struct ScriptView {
    pub verb: Verb,
    pub ops: Seq<ChannelOp>,
    pub payload: Seq<u8>,
    pub next: int,
    pub failure: Option<Seq<char>>,
}

impl View for Script {
    type V = ScriptView;

    closed spec fn view(&self) -> ScriptView {
        ScriptView {
            verb: self.verb,
            ops: self.ops@,
            payload: self.payload@,
            next: self.next as int,
            failure: crate::text::text_of(self.failure),
        }
    }
}

/// What a script that has met the failure `failure` reports at its end.
pub open spec fn outcome_of(verb: Verb, failure: Option<Seq<char>>) -> Result<
    (),
    (ErrorKind, Seq<char>),
> {
    match (failure, failure_kind(verb)) {
        (Some(reason), Some(kind)) => Err((kind, failure_lead(verb) + reason)),
        _ => Ok(()),
    }
}

/// The script of `verb` at its first operation.
pub open spec fn script_of(verb: Verb, ops: Seq<ChannelOp>, payload: Seq<u8>) -> ScriptView {
    ScriptView { verb, ops, payload, next: 0, failure: None }
}

/// The script `s` once the outcome of its current operation is recorded:
/// `failed` holds the reason if the operation failed.
///
/// The first failure is kept, unless the verb reports none. After a failure
/// only the operations that always run are still performed. At the end of
/// the script nothing changes.
pub open spec fn recorded(s: ScriptView, failed: Option<Seq<char>>) -> ScriptView {
    if 0 <= s.next < s.ops.len() {
        let failure = match (s.failure, failed) {
            (None, Some(reason)) => if failure_kind(s.verb) is Some {
                Some(reason)
            } else {
                None
            },
            (kept, _) => kept,
        };
        ScriptView { next: next_runnable(s.ops, s.next + 1, failure is Some), failure, ..s }
    } else {
        s
    }
}

/// The script `s` after the outcomes `outcomes` of its operations have
/// been recorded in turn.
pub open spec fn script_after(s: ScriptView, outcomes: Seq<Option<Seq<char>>>) -> ScriptView
    decreases outcomes.len(),
{
    if outcomes.len() == 0 {
        s
    } else {
        script_after(recorded(s, outcomes[0]), outcomes.drop_first())
    }
}

/// The operations that the script `s` hands out while the outcomes
/// `outcomes` are recorded in turn.
pub open spec fn handed_out(s: ScriptView, outcomes: Seq<Option<Seq<char>>>) -> Seq<ChannelOp>
    decreases outcomes.len(),
{
    if outcomes.len() == 0 || !(0 <= s.next < s.ops.len()) {
        Seq::empty()
    } else {
        seq![s.ops[s.next]] + handed_out(recorded(s, outcomes[0]), outcomes.drop_first())
    }
}

/// Whichever operations fail, a send switches the session to blocking
/// first and back to non-blocking last, and then it is at its end.
pub proof fn lemma_send_restores_mode(
    payload: Seq<u8>,
    outcomes: Seq<Option<Seq<char>>>,
    blocking: bool,
)
    requires
        outcomes.len() >= send_ops().len(),
    ensures
        handed_out(script_of(Verb::Send, send_ops(), payload), outcomes).first()
            == ChannelOp::SetBlocking(true),
        handed_out(script_of(Verb::Send, send_ops(), payload), outcomes).last()
            == ChannelOp::SetBlocking(false),
        !blocking_after(handed_out(script_of(Verb::Send, send_ops(), payload), outcomes), blocking),
        script_after(script_of(Verb::Send, send_ops(), payload), outcomes).next == send_ops().len(),
{
    reveal_with_fuel(handed_out, 6);
    reveal_with_fuel(next_runnable, 6);
    let s0 = script_of(Verb::Send, send_ops(), payload);
    let done = handed_out(s0, outcomes);
    assert(done.last() == ChannelOp::SetBlocking(false));
    lemma_script_ends(s0, outcomes);
}

/// A send whose operations all succeed writes its payload once, whole, and
/// flushes it, while the session is blocking, and reports success.
pub proof fn lemma_send_writes_once(payload: Seq<u8>, outcomes: Seq<Option<Seq<char>>>)
    requires
        outcomes.len() >= send_ops().len(),
        forall|i: int| 0 <= i < outcomes.len() ==> outcomes[i] is None,
    ensures
        handed_out(script_of(Verb::Send, send_ops(), payload), outcomes) == send_ops(),
        outcome_of(
            Verb::Send,
            script_after(script_of(Verb::Send, send_ops(), payload), outcomes).failure,
        ) is Ok,
{
    reveal_with_fuel(handed_out, 6);
    reveal_with_fuel(next_runnable, 6);
    let s0 = script_of(Verb::Send, send_ops(), payload);
    assert(handed_out(s0, outcomes) =~= send_ops());
    lemma_no_failure_without_failed(s0, outcomes);
}

/// Whichever operations fail, a resize switches the session to blocking
/// first and back to non-blocking last.
pub proof fn lemma_resize_restores_mode(
    cols: u16,
    rows: u16,
    outcomes: Seq<Option<Seq<char>>>,
    blocking: bool,
)
    requires
        outcomes.len() >= resize_ops(cols, rows).len(),
    ensures
        handed_out(script_of(Verb::Resize, resize_ops(cols, rows), Seq::empty()), outcomes).first()
            == ChannelOp::SetBlocking(true),
        handed_out(script_of(Verb::Resize, resize_ops(cols, rows), Seq::empty()), outcomes).last()
            == ChannelOp::SetBlocking(false),
        !blocking_after(
            handed_out(script_of(Verb::Resize, resize_ops(cols, rows), Seq::empty()), outcomes),
            blocking,
        ),
{
    reveal_with_fuel(handed_out, 5);
    reveal_with_fuel(next_runnable, 5);
    let done = handed_out(script_of(Verb::Resize, resize_ops(cols, rows), Seq::empty()), outcomes);
    assert(done.last() == ChannelOp::SetBlocking(false));
}

/// A shutdown performs all of its operations, whichever of them fail,
/// leaves the mode of the session as it was, and reports success.
pub proof fn lemma_shutdown_runs_to_the_end(outcomes: Seq<Option<Seq<char>>>, blocking: bool)
    requires
        outcomes.len() >= shutdown_ops().len(),
    ensures
        handed_out(script_of(Verb::Shutdown, shutdown_ops(), Seq::empty()), outcomes)
            == shutdown_ops(),
        blocking_after(shutdown_ops(), blocking) == blocking,
        outcome_of(
            Verb::Shutdown,
            script_after(script_of(Verb::Shutdown, shutdown_ops(), Seq::empty()), outcomes).failure,
        ) is Ok,
{
    reveal_with_fuel(handed_out, 6);
    reveal_with_fuel(next_runnable, 6);
    reveal_with_fuel(blocking_after, 6);
    assert(handed_out(script_of(Verb::Shutdown, shutdown_ops(), Seq::empty()), outcomes)
        =~= shutdown_ops());
}

/// A script moves on with every outcome recorded, so that as many
/// outcomes as it has operations left bring it to its end.
proof fn lemma_script_ends(s: ScriptView, outcomes: Seq<Option<Seq<char>>>)
    requires
        0 <= s.next <= s.ops.len(),
        outcomes.len() >= s.ops.len() - s.next,
    ensures
        script_after(s, outcomes).next == s.ops.len(),
        script_after(s, outcomes).ops == s.ops,
    decreases outcomes.len(),
{
    if outcomes.len() > 0 {
        let t = recorded(s, outcomes[0]);
        if s.next < s.ops.len() {
            lemma_next_runnable_bounds(s.ops, s.next + 1, t.failure is Some);
        }
        lemma_script_ends(t, outcomes.drop_first());
    }
}

/// The next operation to perform lies at or behind the place the search
/// begins, and within the script or at its end.
proof fn lemma_next_runnable_bounds(ops: Seq<ChannelOp>, from: int, failed: bool)
    requires
        0 <= from <= ops.len(),
    ensures
        from <= next_runnable(ops, from, failed) <= ops.len(),
    decreases ops.len() - from,
{
    if from < ops.len() && failed && !always_runs(ops[from]) {
        lemma_next_runnable_bounds(ops, from + 1, failed);
    }
}

/// A script in which no operation failed has kept no failure.
proof fn lemma_no_failure_without_failed(s: ScriptView, outcomes: Seq<Option<Seq<char>>>)
    requires
        s.failure is None,
        forall|i: int| 0 <= i < outcomes.len() ==> outcomes[i] is None,
    ensures
        script_after(s, outcomes).failure is None,
    decreases outcomes.len(),
{
    if outcomes.len() > 0 {
        let rest = outcomes.drop_first();
        assert forall|i: int| 0 <= i < rest.len() implies rest[i] is None by {
            assert(outcomes[i + 1] is None);
        }
        lemma_no_failure_without_failed(recorded(s, outcomes[0]), outcomes.drop_first());
    }
}

impl Script {
    /// The script that sends `data`, at its first operation.
    pub fn send(data: &str) -> (s: Script)
        ensures
            s@ == script_of(Verb::Send, send_ops(), data.spec_bytes()),
    {
        let mut ops: Vec<ChannelOp> = Vec::new();
        ops.push(ChannelOp::SetBlocking(true));
        ops.push(ChannelOp::WriteAll);
        ops.push(ChannelOp::Flush);
        ops.push(ChannelOp::SetBlocking(false));
        assert(ops@ =~= send_ops());
        Script { verb: Verb::Send, ops, payload: data.as_bytes_vec(), next: 0, failure: None }
    }

    /// The script that resizes the window to `cols` by `rows`, at its
    /// first operation.
    pub fn resize(cols: u16, rows: u16) -> (s: Script)
        ensures
            s@ == script_of(Verb::Resize, resize_ops(cols, rows), Seq::empty()),
    {
        let mut ops: Vec<ChannelOp> = Vec::new();
        ops.push(ChannelOp::SetBlocking(true));
        ops.push(ChannelOp::WindowChange { cols: cols as u32, rows: rows as u32 });
        ops.push(ChannelOp::SetBlocking(false));
        assert(ops@ =~= resize_ops(cols, rows));
        Script { verb: Verb::Resize, ops, payload: Vec::new(), next: 0, failure: None }
    }

    /// The script that shuts a session down, at its first operation.
    pub fn shutdown() -> (s: Script)
        ensures
            s@ == script_of(Verb::Shutdown, shutdown_ops(), Seq::empty()),
    {
        let mut ops: Vec<ChannelOp> = Vec::new();
        ops.push(ChannelOp::MarkClosed);
        ops.push(ChannelOp::SendEof);
        ops.push(ChannelOp::Close);
        ops.push(ChannelOp::WaitClose);
        assert(ops@ =~= shutdown_ops());
        Script { verb: Verb::Shutdown, ops, payload: Vec::new(), next: 0, failure: None }
    }

    /// The bytes that `WriteAll` writes.
    pub fn payload(&self) -> (p: &Vec<u8>)
        ensures
            p@ == self@.payload,
    {
        &self.payload
    }

    /// The operation to perform now, or `None` when the script is at its
    /// end.
    pub fn current(&self) -> (op: Option<ChannelOp>)
        ensures
            op == if 0 <= self@.next < self@.ops.len() {
                Some(self@.ops[self@.next])
            } else {
                None
            },
    {
        if self.next < self.ops.len() {
            Some(self.ops[self.next])
        } else {
            None
        }
    }

    /// Takes note of how the current operation went (`Some` with the
    /// reason if it failed) and moves on to the next operation to perform.
    pub fn record(&mut self, failed: Option<&str>)
        ensures
            final(self)@ == recorded(
                old(self)@,
                match failed {
                    Some(reason) => Some(reason@),
                    None => None,
                },
            ),
    {
        if self.next >= self.ops.len() {
            return ;
        }
        let reports = match self.verb {
            Verb::Shutdown => false,
            _ => true,
        };
        if reports && self.failure.is_none() {
            if let Some(reason) = failed {
                self.failure = Some(reason.to_owned());
            }
        }
        let has_failed = self.failure.is_some();
        let mut k: usize = self.next + 1;
        while k < self.ops.len() && has_failed && !is_restoring(self.ops[k])
            invariant
                self.next < k <= self.ops.len(),
                next_runnable(self.ops@, self.next + 1, has_failed) == next_runnable(
                    self.ops@,
                    k as int,
                    has_failed,
                ),
            decreases self.ops.len() - k,
        {
            k = k + 1;
        }
        self.next = k;
    }

    /// What the verb reports once the script is at its end: success, or
    /// the first failure as an error of the verb's kind.
    pub fn outcome(&self) -> (r: Result<(), SshError>)
        ensures
            match r {
                Ok(_) => outcome_of(self@.verb, self@.failure) is Ok,
                Err(e) => outcome_of(self@.verb, self@.failure) == Err::<(), (ErrorKind, Seq<char>)>(e@),
            },
    {
        match (&self.failure, self.verb) {
            (Some(reason), Verb::Send) => Err(SshError::IoError(reason.clone())),
            (Some(reason), Verb::Resize) => Err(
                SshError::PtyError(describe("Resize failed: ", reason.as_str())),
            ),
            _ => Ok(()),
        }
    }
}

/// Whether `op` is performed even after a failure.
fn is_restoring(op: ChannelOp) -> (b: bool)
    ensures
        b == always_runs(op),
{
    match op {
        ChannelOp::SetBlocking(_) => true,
        ChannelOp::MarkClosed => true,
        _ => false,
    }
}

} // verus!
