//! The decisions of the background task that runs a multipart upload.
//!
//! The task starts the upload, uploads each part it is given (first the parts
//! that accumulated before it started, then those that arrive from the
//! writer), and completes the upload when the writer says it is done or goes
//! away. If a part fails to upload, the upload is aborted so that no orphaned
//! upload is left behind.
//!
//! [`MultipartTask`] is the task as a state machine: its caller performs each
//! action against the object store and reports the outcome as the next event.

use vstd::prelude::*;
use crate::uri::ErrorKind;

verus! {

/// A message from the writer to the upload task.
pub enum UploadMessage {
    /// A completed part, ready for upload.
    Part(Vec<u8>),
    /// All parts have been sent; the upload should be completed.
    Finish,
}

/// Why a multipart upload failed.
#[derive(Debug)]
pub enum UploadError {
    /// The multipart upload could not be started; holds the store's message.
    Start(String),
    /// A part could not be uploaded, so the upload was aborted.
    Part { part_number: usize, cause: String },
    /// The upload could not be completed.
    Complete(String),
}

/// Where the task stands.
#[derive(PartialEq, Eq, Structural)]
pub enum Phase {
    /// Waiting for the multipart upload to be started.
    Starting,
    /// Waiting for the next message from the writer (every part that was
    /// pending when the task started has been uploaded).
    Ready,
    /// Waiting for a part to be uploaded.
    Uploading,
    /// Waiting for the upload to be completed.
    Completing,
    /// Finished, successfully or not.
    Done,
}

/// The abstract state of the task.
pub struct TaskState {
    pub phase: Phase,
    /// The number of the last part handed to the store (parts count from 1).
    pub part_number: nat,
    /// The parts that accumulated before the task started and are still to
    /// be uploaded, in order.
    pub pending: Seq<Seq<u8>>,
}

/// The view of a message.
pub enum MessageView {
    Part(Seq<u8>),
    Finish,
}

/// What happened since the last action.
pub enum TaskEvent {
    /// Starting the multipart upload succeeded, or failed with this message.
    Started(Result<(), String>),
    /// The next message from the writer; `None` when the writer has gone away.
    Next(Option<UploadMessage>),
    /// Uploading the last part succeeded, or failed with this message.
    PartUploaded(Result<(), String>),
    /// Completing the upload succeeded, or failed with this message.
    Completed(Result<(), String>),
}

/// The view of an event.
pub enum EventView {
    Started(Result<(), Seq<char>>),
    Next(Option<MessageView>),
    PartUploaded(Result<(), Seq<char>>),
    Completed(Result<(), Seq<char>>),
}

/// What the caller must do next.
pub enum TaskAction {
    /// Take the next message from the writer.
    AwaitNext,
    /// Upload this part under this number.
    UploadPart { part_number: usize, data: Vec<u8> },
    /// Abort the multipart upload, then report this error.
    Abort(UploadError),
    /// Complete the multipart upload.
    Complete,
    /// Report the end of the task.
    Report(Result<(), UploadError>),
}

/// The view of an upload error.
pub enum ErrorView {
    Start(Seq<char>),
    Part { part_number: nat, cause: Seq<char> },
    Complete(Seq<char>),
}

/// The view of an action.
pub enum ActionView {
    AwaitNext,
    UploadPart { part_number: nat, data: Seq<u8> },
    Abort(ErrorView),
    Complete,
    Report(Result<(), ErrorView>),
}

pub open spec fn result_view(r: Result<(), String>) -> Result<(), Seq<char>> {
    match r {
        Ok(()) => Ok(()),
        Err(m) => Err(m@),
    }
}

impl View for UploadMessage {
    type V = MessageView;

    open spec fn view(&self) -> MessageView {
        match self {
            UploadMessage::Part(p) => MessageView::Part(p@),
            UploadMessage::Finish => MessageView::Finish,
        }
    }
}

impl View for TaskEvent {
    type V = EventView;

    open spec fn view(&self) -> EventView {
        match self {
            TaskEvent::Started(r) => EventView::Started(result_view(*r)),
            TaskEvent::Next(Some(m)) => EventView::Next(Some(m@)),
            TaskEvent::Next(None) => EventView::Next(None),
            TaskEvent::PartUploaded(r) => EventView::PartUploaded(result_view(*r)),
            TaskEvent::Completed(r) => EventView::Completed(result_view(*r)),
        }
    }
}

impl View for UploadError {
    type V = ErrorView;

    open spec fn view(&self) -> ErrorView {
        match self {
            UploadError::Start(m) => ErrorView::Start(m@),
            UploadError::Part { part_number, cause } => ErrorView::Part {
                part_number: *part_number as nat,
                cause: cause@,
            },
            UploadError::Complete(m) => ErrorView::Complete(m@),
        }
    }
}

impl View for TaskAction {
    type V = ActionView;

    open spec fn view(&self) -> ActionView {
        match self {
            TaskAction::AwaitNext => ActionView::AwaitNext,
            TaskAction::UploadPart { part_number, data } => ActionView::UploadPart {
                part_number: *part_number as nat,
                data: data@,
            },
            TaskAction::Abort(e) => ActionView::Abort(e@),
            TaskAction::Complete => ActionView::Complete,
            TaskAction::Report(Ok(())) => ActionView::Report(Ok(())),
            TaskAction::Report(Err(e)) => ActionView::Report(Err(e@)),
        }
    }
}

/// A task that has not started the upload yet, with the parts that
/// accumulated before it.
pub open spec fn initial_task(pending: Seq<Seq<u8>>) -> TaskState {
    TaskState { phase: Phase::Starting, part_number: 0, pending }
}

/// Which events the task expects in each phase.
pub open spec fn accepts(s: TaskState, e: EventView) -> bool {
    match e {
        EventView::Started(_) => s.phase == Phase::Starting,
        EventView::Next(_) => s.phase == Phase::Ready,
        EventView::PartUploaded(_) => s.phase == Phase::Uploading,
        EventView::Completed(_) => s.phase == Phase::Completing,
    }
}

/// The task, ready for another part: it uploads the first pending part under
/// the next number, and asks for the writer's next message once none is
/// pending.
pub open spec fn next_part(s: TaskState) -> (TaskState, ActionView) {
    if s.pending.len() > 0 {
        (
            TaskState {
                phase: Phase::Uploading,
                part_number: s.part_number + 1,
                pending: s.pending.drop_first(),
            },
            ActionView::UploadPart { part_number: s.part_number + 1, data: s.pending[0] },
        )
    } else {
        (
            TaskState { phase: Phase::Ready, part_number: s.part_number, pending: s.pending },
            ActionView::AwaitNext,
        )
    }
}

/// The task in phase `phase`, otherwise unchanged.
pub open spec fn in_phase(s: TaskState, phase: Phase) -> TaskState {
    TaskState { phase, part_number: s.part_number, pending: s.pending }
}

/// How the task answers an event it expects.
pub open spec fn task_step(s: TaskState, e: EventView) -> (TaskState, ActionView) {
    match e {
        EventView::Started(Ok(())) => next_part(s),
        EventView::Started(Err(m)) => (
            in_phase(s, Phase::Done),
            ActionView::Report(Err(ErrorView::Start(m))),
        ),
        EventView::Next(Some(MessageView::Part(data))) => (
            TaskState {
                phase: Phase::Uploading,
                part_number: s.part_number + 1,
                pending: s.pending,
            },
            ActionView::UploadPart { part_number: s.part_number + 1, data },
        ),
        EventView::Next(_) => (in_phase(s, Phase::Completing), ActionView::Complete),
        EventView::PartUploaded(Ok(())) => next_part(s),
        EventView::PartUploaded(Err(m)) => (
            in_phase(s, Phase::Done),
            ActionView::Abort(ErrorView::Part { part_number: s.part_number, cause: m }),
        ),
        EventView::Completed(Ok(())) => (in_phase(s, Phase::Done), ActionView::Report(Ok(()))),
        EventView::Completed(Err(m)) => (
            in_phase(s, Phase::Done),
            ActionView::Report(Err(ErrorView::Complete(m))),
        ),
    }
}

/// The background multipart-upload task, as a state machine.
pub struct MultipartTask {
    phase: Phase,
    part_number: usize,
    pending: Vec<Vec<u8>>,
}

/// The view of a list of byte buffers.
pub open spec fn byte_parts_view(parts: Seq<Vec<u8>>) -> Seq<Seq<u8>> {
    parts.map_values(|p: Vec<u8>| p@)
}

impl View for MultipartTask {
    type V = TaskState;

    closed spec fn view(&self) -> TaskState {
        TaskState {
            phase: self.phase,
            part_number: self.part_number as nat,
            pending: byte_parts_view(self.pending@),
        }
    }
}

impl MultipartTask {
    /// A task about to start the multipart upload, which will upload the
    /// `pending` parts, in order, before any message from the writer.
    pub fn new(pending: Vec<Vec<u8>>) -> (t: Self)
        ensures
            t@ == initial_task(byte_parts_view(pending@)),
            t@.part_number <= usize::MAX,
    {
        MultipartTask { phase: Phase::Starting, part_number: 0, pending }
    }

    /// The part count always fits in `usize`: a step may take a part only
    /// while it is below `usize::MAX`.
    pub proof fn lemma_part_number_fits(&self)
        ensures
            self@.part_number <= usize::MAX,
    {
    }

    /// Whether the task has finished.
    pub fn is_done(&self) -> (b: bool)
        ensures
            b == (self@.phase == Phase::Done),
    {
        match self.phase {
            Phase::Done => true,
            _ => false,
        }
    }

    /// The number of parts handed to the store so far.
    pub fn part_number(&self) -> (n: usize)
        ensures
            n == self@.part_number,
    {
        self.part_number
    }

    /// Whether answering `event` keeps the part number within `usize`.
    pub fn step_fits(&self, event: &TaskEvent) -> (b: bool)
        requires
            accepts(self@, event@),
        ensures
            b == (task_step(self@, event@).0.part_number <= usize::MAX),
    {
        let takes_part = match event {
            TaskEvent::Started(Ok(())) => self.pending.len() > 0,
            TaskEvent::PartUploaded(Ok(())) => self.pending.len() > 0,
            TaskEvent::Next(Some(UploadMessage::Part(_))) => true,
            _ => false,
        };
        !takes_part || self.part_number < usize::MAX
    }

    fn next_part(&mut self) -> (action: TaskAction)
        requires
            old(self)@.pending.len() > 0 ==> old(self)@.part_number < usize::MAX,
        ensures
            (final(self)@, action@) == next_part(old(self)@),
    {
        if self.pending.len() > 0 {
            let ghost before = self.pending@;
            let data = self.pending.remove(0);
            assert(byte_parts_view(self.pending@) =~= byte_parts_view(before).drop_first());
            self.part_number = self.part_number + 1;
            self.phase = Phase::Uploading;
            TaskAction::UploadPart { part_number: self.part_number, data }
        } else {
            self.phase = Phase::Ready;
            TaskAction::AwaitNext
        }
    }

    /// Answers `event`, which must be one that the task expects now.
    pub fn step(&mut self, event: TaskEvent) -> (action: TaskAction)
        requires
            accepts(old(self)@, event@),
            task_step(old(self)@, event@).0.part_number <= usize::MAX,
        ensures
            (final(self)@, action@) == task_step(old(self)@, event@),
            final(self)@.part_number <= usize::MAX,
    {
        match event {
            TaskEvent::Started(Ok(())) => self.next_part(),
            TaskEvent::Started(Err(m)) => {
                self.phase = Phase::Done;
                TaskAction::Report(Err(UploadError::Start(m)))
            },
            TaskEvent::Next(Some(UploadMessage::Part(data))) => {
                self.part_number = self.part_number + 1;
                self.phase = Phase::Uploading;
                TaskAction::UploadPart { part_number: self.part_number, data }
            },
            TaskEvent::Next(_) => {
                self.phase = Phase::Completing;
                TaskAction::Complete
            },
            TaskEvent::PartUploaded(Ok(())) => self.next_part(),
            TaskEvent::PartUploaded(Err(m)) => {
                self.phase = Phase::Done;
                TaskAction::Abort(UploadError::Part { part_number: self.part_number, cause: m })
            },
            TaskEvent::Completed(Ok(())) => {
                self.phase = Phase::Done;
                TaskAction::Report(Ok(()))
            },
            TaskEvent::Completed(Err(m)) => {
                self.phase = Phase::Done;
                TaskAction::Report(Err(UploadError::Complete(m)))
            },
        }
    }
}

/// Why sending a part to the upload task failed.
#[derive(Debug)]
pub enum SendFailure {
    /// The task had already failed, with this error.
    UploadFailed(UploadError),
    /// The task ended without reporting an error.
    TaskTerminated,
}

/// Explains a failed send from what the task reported, if it reported
/// anything: the task's own error where it reported one.
pub fn send_failure(reported: Option<Result<(), UploadError>>) -> (f: SendFailure)
    ensures
        match reported {
            Some(Err(e)) => f == SendFailure::UploadFailed(e),
            _ => f == SendFailure::TaskTerminated,
        },
{
    match reported {
        Some(Err(e)) => SendFailure::UploadFailed(e),
        _ => SendFailure::TaskTerminated,
    }
}

/// The decimal digit for `d`, below ten.
pub open spec fn digit_char(d: nat) -> char {
    if d == 0 {
        '0'
    } else if d == 1 {
        '1'
    } else if d == 2 {
        '2'
    } else if d == 3 {
        '3'
    } else if d == 4 {
        '4'
    } else if d == 5 {
        '5'
    } else if d == 6 {
        '6'
    } else if d == 7 {
        '7'
    } else if d == 8 {
        '8'
    } else {
        '9'
    }
}

/// `n` written in decimal, without leading zeros.
pub open spec fn decimal(n: nat) -> Seq<char>
    decreases n,
{
    if n < 10 {
        seq![digit_char(n)]
    } else {
        decimal(n / 10).push(digit_char(n % 10))
    }
}

fn push_digit(s: &mut String, d: usize)
    requires
        d < 10,
    ensures
        final(s)@ == old(s)@.push(digit_char(d as nat)),
{
    let digit = if d == 0 {
        "0"
    } else if d == 1 {
        "1"
    } else if d == 2 {
        "2"
    } else if d == 3 {
        "3"
    } else if d == 4 {
        "4"
    } else if d == 5 {
        "5"
    } else if d == 6 {
        "6"
    } else if d == 7 {
        "7"
    } else if d == 8 {
        "8"
    } else {
        "9"
    };
    proof {
        reveal_strlit("0");
        reveal_strlit("1");
        reveal_strlit("2");
        reveal_strlit("3");
        reveal_strlit("4");
        reveal_strlit("5");
        reveal_strlit("6");
        reveal_strlit("7");
        reveal_strlit("8");
        reveal_strlit("9");
    }
    assert(digit@ =~= seq![digit_char(d as nat)]);
    s.append(digit);
}

fn append_decimal(s: &mut String, n: usize)
    ensures
        final(s)@ == old(s)@ + decimal(n as nat),
    decreases n,
{
    if n >= 10 {
        append_decimal(s, n / 10);
    }
    push_digit(s, n % 10);
    assert(final(s)@ =~= old(s)@ + decimal(n as nat));
}

/// The value of a decimal digit character.
pub open spec fn digit_value(c: char) -> Option<nat> {
    if c == '0' {
        Some(0)
    } else if c == '1' {
        Some(1)
    } else if c == '2' {
        Some(2)
    } else if c == '3' {
        Some(3)
    } else if c == '4' {
        Some(4)
    } else if c == '5' {
        Some(5)
    } else if c == '6' {
        Some(6)
    } else if c == '7' {
        Some(7)
    } else if c == '8' {
        Some(8)
    } else if c == '9' {
        Some(9)
    } else {
        None
    }
}

/// The number a string of decimal digits stands for.
pub open spec fn digits_value(s: Seq<char>) -> int
    decreases s.len(),
{
    if s.len() == 0 {
        0
    } else {
        digits_value(s.drop_last()) * 10 + digit_value(s.last())->0
    }
}

/// `decimal(n)` is the decimal writing of `n`: a non-empty string of the
/// digits `0` to `9`, without a leading zero (unless `n` is zero), that stands
/// for `n`.
pub proof fn lemma_decimal_stands_for(n: nat)
    ensures
        digits_value(decimal(n)) == n,
        decimal(n).len() > 0,
        forall|i: int| 0 <= i < decimal(n).len() ==> digit_value(#[trigger] decimal(n)[i]) is Some,
        decimal(n).len() > 1 ==> decimal(n)[0] != '0',
        decimal(n).len() > 1 <==> n >= 10,
    decreases n,
{
    let d = decimal(n);
    lemma_digit_char_value(n % 10);
    if n < 10 {
        assert(d =~= seq![digit_char(n)]);
        assert(d.drop_last() =~= Seq::<char>::empty());
        assert(n % 10 == n);
        assert(digits_value(Seq::<char>::empty()) == 0);
        assert(digits_value(d) == digits_value(d.drop_last()) * 10 + digit_value(d.last())->0);
        assert(digits_value(d) == n);
    } else {
        lemma_decimal_stands_for(n / 10);
        let m = n / 10;
        assert(d == decimal(m).push(digit_char(n % 10)));
        assert(d.drop_last() =~= decimal(m));
        assert(digits_value(d) == digits_value(decimal(m)) * 10 + (n % 10));
        assert(m * 10 + n % 10 == n);
        assert(forall|i: int| 0 <= i < d.len() - 1 ==> d[i] == decimal(m)[i]);
        assert(d[0] == decimal(m)[0]);
        if m < 10 {
            lemma_digit_char_value(m);
            assert(decimal(m) =~= seq![digit_char(m)]);
            assert(digit_char(m) != '0');
        }
        assert(digits_value(d) == n);
        assert(d.len() > 1 ==> d[0] != '0');
    }
}

proof fn lemma_digit_char_value(d: nat)
    requires
        d < 10,
    ensures
        digit_value(digit_char(d)) == Some(d),
        d > 0 ==> digit_char(d) != '0',
{
}

/// The text that describes an upload failure.
pub open spec fn upload_error_message(e: ErrorView) -> Seq<char> {
    match e {
        ErrorView::Start(cause) => "Failed to start multipart upload: "@ + cause,
        ErrorView::Part { part_number, cause } => "Failed to upload part "@ + decimal(part_number)
            + ": "@ + cause,
        ErrorView::Complete(cause) => "Failed to complete multipart upload: "@ + cause,
    }
}

/// The text that describes a failed send.
pub open spec fn send_failure_message(f: SendFailure) -> Seq<char> {
    match f {
        SendFailure::UploadFailed(e) => "S3 upload failed: "@ + upload_error_message(e@),
        SendFailure::TaskTerminated => "Background upload task terminated unexpectedly"@,
    }
}

impl UploadError {
    /// An upload failure is a failure of the store, not of the caller's input.
    pub fn kind(&self) -> (k: ErrorKind)
        ensures
            k == ErrorKind::Other,
    {
        ErrorKind::Other
    }

    /// The human-readable description of the failure.
    pub fn to_string(&self) -> (s: String)
        ensures
            s@ == upload_error_message(self@),
    {
        match self {
            UploadError::Start(cause) => String::from_str("Failed to start multipart upload: ").concat(
                cause.as_str(),
            ),
            UploadError::Part { part_number, cause } => {
                let mut s = String::from_str("Failed to upload part ");
                append_decimal(&mut s, *part_number);
                s.append(": ");
                s.append(cause.as_str());
                s
            },
            UploadError::Complete(cause) => String::from_str(
                "Failed to complete multipart upload: ",
            ).concat(cause.as_str()),
        }
    }
}

impl SendFailure {
    /// A failed send is a failure of the upload, not of the caller's input.
    pub fn kind(&self) -> (k: ErrorKind)
        ensures
            k == ErrorKind::Other,
    {
        ErrorKind::Other
    }

    /// The human-readable description of the failed send.
    pub fn to_string(&self) -> (s: String)
        ensures
            s@ == send_failure_message(*self),
    {
        match self {
            SendFailure::UploadFailed(e) => String::from_str("S3 upload failed: ").concat(
                e.to_string().as_str(),
            ),
            SendFailure::TaskTerminated => String::from_str(
                "Background upload task terminated unexpectedly",
            ),
        }
    }
}

/// Every upload failure's message ends with the store's own message, and a
/// failed part's message names the part: it holds the part's number in
/// decimal, then `": "`, then the store's message. A failed send that carries
/// the task's error ends with that error's message.
pub proof fn lemma_failure_messages_carry_detail(part_number: nat, cause: Seq<char>)
    ensures
        ({
            let msg = upload_error_message(ErrorView::Part { part_number, cause });
            let tail = decimal(part_number) + ": "@ + cause;
            msg.len() > tail.len() && msg.subrange(msg.len() - tail.len(), msg.len() as int) == tail
        }),
        ({
            let msg = upload_error_message(ErrorView::Start(cause));
            msg.len() > cause.len() && msg.subrange(msg.len() - cause.len(), msg.len() as int) == cause
        }),
        ({
            let msg = upload_error_message(ErrorView::Complete(cause));
            msg.len() > cause.len() && msg.subrange(msg.len() - cause.len(), msg.len() as int) == cause
        }),
{
    reveal_strlit("Failed to upload part ");
    reveal_strlit("Failed to start multipart upload: ");
    reveal_strlit("Failed to complete multipart upload: ");
    let tail = decimal(part_number) + ": "@ + cause;
    let p = "Failed to upload part "@ + tail;
    assert(upload_error_message(ErrorView::Part { part_number, cause }) =~= p);
    assert(p.subrange(p.len() - tail.len(), p.len() as int) =~= tail);
    let a = "Failed to start multipart upload: "@ + cause;
    assert(a.subrange(a.len() - cause.len(), a.len() as int) =~= cause);
    let b = "Failed to complete multipart upload: "@ + cause;
    assert(b.subrange(b.len() - cause.len(), b.len() as int) =~= cause);
}

/// A failed send that carries the task's error says so, then gives that
/// error's message.
pub proof fn lemma_send_failure_message_carries_error(e: UploadError)
    ensures
        ({
            let msg = send_failure_message(SendFailure::UploadFailed(e));
            let inner = upload_error_message(e@);
            msg.len() > inner.len() && msg.subrange(msg.len() - inner.len(), msg.len() as int) == inner
        }),
{
    reveal_strlit("S3 upload failed: ");
    let inner = upload_error_message(e@);
    let m = "S3 upload failed: "@ + inner;
    assert(m.subrange(m.len() - inner.len(), m.len() as int) =~= inner);
}

} // verus!
