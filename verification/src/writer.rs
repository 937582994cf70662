//! The buffering side of the streaming S3 writer.
//!
//! Written bytes accumulate in a buffer. Once the buffer holds at least
//! [`PARQUET_BUFFER_SIZE`] bytes it becomes one part of a multipart upload:
//! the first such part starts the upload, later ones are streamed to it. When
//! the writer is finished, an object that never filled a part is sent with one
//! simple PUT instead, and an empty object is not sent at all.
//!
//! [`S3Writer`] makes these decisions and hands each upload step to its caller,
//! which performs it against the object store.

use vstd::prelude::*;
use crate::upload::{SendFailure, UploadError};

verus! {

broadcast use vstd::seq_lib::group_seq_properties;

/// The size of one multipart-upload part (32 MiB); also the threshold above
/// which an object is uploaded in parts rather than with one PUT.
pub const PARQUET_BUFFER_SIZE: usize = 32 * 1024 * 1024;

/// The abstract state of a writer.
pub struct WriterState {
    /// Bytes written but not yet handed over as a part.
    pub buffer: Seq<u8>,
    /// The parts handed over to the multipart upload, in order.
    pub streamed: Seq<Seq<u8>>,
    /// Whether the multipart upload has been started.
    pub started: bool,
    /// The number of bytes written so far.
    pub total: nat,
    /// After a write that handed a part over to be sent: the length of that
    /// write's buffer, which the write counts only if the send succeeds.
    pub unsent: Option<nat>,
    /// Whether sending a part to the multipart upload has failed.
    pub failed: bool,
    /// Whether a failed send took the upload task's own error, so that the
    /// task's result can no longer be waited for.
    pub task_error_taken: bool,
}

/// A writer that has written nothing.
pub open spec fn initial_state() -> WriterState {
    WriterState {
        buffer: Seq::empty(),
        streamed: Seq::empty(),
        started: false,
        total: 0,
        unsent: None,
        failed: false,
        task_error_taken: false,
    }
}

/// The bytes the writer has handed over or holds, in order: every part
/// handed over (including one whose send failed), then the buffer. Unless a
/// send failed, these are exactly the bytes written.
pub open spec fn written(s: WriterState) -> Seq<u8> {
    s.streamed.flatten() + s.buffer
}

/// What the state of a writer always satisfies.
pub open spec fn state_wf(s: WriterState) -> bool {
    &&& s.buffer.len() < PARQUET_BUFFER_SIZE
    &&& !s.failed ==> s.total == written(s).len()
    &&& forall|i: int| 0 <= i < s.streamed.len() ==> #[trigger] s.streamed[i].len() >= PARQUET_BUFFER_SIZE
    &&& (s.started <==> s.streamed.len() > 0)
    &&& s.failed ==> s.started
    &&& s.task_error_taken ==> s.failed
    &&& s.buffer.len() <= s.total
    &&& s.started ==> s.total >= PARQUET_BUFFER_SIZE
    &&& s.unsent matches Some(n) ==> s.started && s.buffer.len() + n <= s.total && s.total - n
        >= PARQUET_BUFFER_SIZE
}

/// What one write asks of the caller.
pub enum PartAction {
    /// Nothing: the bytes stay in the buffer.
    Buffered,
    /// Start the multipart upload, uploading these parts first.
    StartMultipart(Seq<Seq<u8>>),
    /// Send this part to the running multipart upload.
    SendPart(Seq<u8>),
}

/// Writing `chunk`: the chunk joins the buffer; a buffer that reaches the part
/// size becomes the next part, which starts the multipart upload if it is the
/// first one, or else must be sent to it. The chunk is counted; when a part
/// must be sent, the count of this chunk stands only if the send succeeds.
pub open spec fn write_step(s: WriterState, chunk: Seq<u8>) -> (WriterState, PartAction) {
    let combined = s.buffer + chunk;
    let total = s.total + chunk.len();
    if combined.len() < PARQUET_BUFFER_SIZE {
        (
            WriterState {
                buffer: combined,
                streamed: s.streamed,
                started: s.started,
                total,
                unsent: None,
                failed: s.failed,
                task_error_taken: s.task_error_taken,
            },
            PartAction::Buffered,
        )
    } else if s.started {
        (
            WriterState {
                buffer: Seq::empty(),
                streamed: s.streamed.push(combined),
                started: true,
                total,
                unsent: Some(chunk.len()),
                failed: s.failed,
                task_error_taken: s.task_error_taken,
            },
            PartAction::SendPart(combined),
        )
    } else {
        (
            WriterState {
                buffer: Seq::empty(),
                streamed: s.streamed.push(combined),
                started: true,
                total,
                unsent: None,
                failed: s.failed,
                task_error_taken: s.task_error_taken,
            },
            PartAction::StartMultipart(seq![combined]),
        )
    }
}

/// Sending the part of the last write failed: that write wrote nothing, so
/// its count is taken back, and the writer remembers that its upload failed
/// and whether the failure took the upload task's own error.
pub open spec fn send_failed_step(s: WriterState, took_task_error: bool) -> WriterState {
    WriterState {
        buffer: s.buffer,
        streamed: s.streamed,
        started: s.started,
        total: (s.total - s.unsent->0) as nat,
        unsent: None,
        failed: true,
        task_error_taken: s.task_error_taken || took_task_error,
    }
}

/// How a finished writer's data is uploaded.
pub enum UploadPlan {
    /// Send the last part, where there is one, then complete the multipart upload.
    CompleteMultipart(Option<Seq<u8>>),
    /// Upload all the data with one PUT.
    Put(Seq<u8>),
    /// Upload nothing: no byte was written.
    Nothing,
    /// Upload nothing more: the multipart upload failed with the error that
    /// a failed send took, and nothing is left to send.
    Failed,
}

/// Finishing: a started multipart upload gets the rest of the buffer as its
/// last part and is then completed, the caller waiting for the upload task's
/// result; only when a failed send has already taken that result and nothing
/// is left to send, that error is the answer. Otherwise everything written
/// goes in one PUT, unless nothing was.
pub open spec fn finish_step(s: WriterState) -> UploadPlan {
    if s.task_error_taken && s.buffer.len() == 0 {
        UploadPlan::Failed
    } else if s.started {
        if s.buffer.len() == 0 {
            UploadPlan::CompleteMultipart(None)
        } else {
            UploadPlan::CompleteMultipart(Some(s.buffer))
        }
    } else if s.buffer.len() == 0 {
        UploadPlan::Nothing
    } else {
        UploadPlan::Put(s.buffer)
    }
}

/// The view of a list of byte buffers.
pub open spec fn parts_view(parts: Seq<Vec<u8>>) -> Seq<Seq<u8>> {
    parts.map_values(|p: Vec<u8>| p@)
}

/// What [`S3Writer::write`] asks of its caller.
pub enum WriteAction {
    /// Nothing: the bytes stay in the buffer.
    Buffered,
    /// Start the multipart upload, uploading these parts first.
    StartMultipart(Vec<Vec<u8>>),
    /// Send this part to the running multipart upload.
    SendPart(Vec<u8>),
}

impl View for WriteAction {
    type V = PartAction;

    open spec fn view(&self) -> PartAction {
        match self {
            WriteAction::Buffered => PartAction::Buffered,
            WriteAction::StartMultipart(ps) => PartAction::StartMultipart(parts_view(ps@)),
            WriteAction::SendPart(p) => PartAction::SendPart(p@),
        }
    }
}

/// How [`S3Writer::finish`] asks its caller to upload the data.
pub enum FinishUpload {
    /// Send the last part, where there is one, then complete the multipart upload.
    CompleteMultipart(Option<Vec<u8>>),
    /// Upload all the data with one PUT.
    Put(Vec<u8>),
    /// Upload nothing.
    Nothing,
    /// Upload nothing more: the multipart upload failed with this error, which
    /// a failed send took from the upload task.
    Failed(UploadError),
}

impl View for FinishUpload {
    type V = UploadPlan;

    open spec fn view(&self) -> UploadPlan {
        match self {
            FinishUpload::CompleteMultipart(Some(p)) => UploadPlan::CompleteMultipart(Some(p@)),
            FinishUpload::CompleteMultipart(None) => UploadPlan::CompleteMultipart(None),
            FinishUpload::Put(d) => UploadPlan::Put(d@),
            FinishUpload::Nothing => UploadPlan::Nothing,
            FinishUpload::Failed(_) => UploadPlan::Failed,
        }
    }
}

/// Everything a finished writer hands back: the client and object path it was
/// made with, how to upload, and how many bytes were written.
pub struct FinishPlan<C> {
    pub client: C,
    pub path: String,
    pub upload: FinishUpload,
    pub total: usize,
}

/// A writer that streams data to an S3 object through a multipart upload.
///
/// The writer holds the object store client `C` and the object's path for the
/// caller that performs the uploads; it never calls the client itself.
pub struct S3Writer<C> {
    client: C,
    path: String,
    buffer: Vec<u8>,
    total_bytes: usize,
    pending_parts: Vec<Vec<u8>>,
    multipart_started: bool,
    unsent: Option<usize>,
    failed: bool,
    task_error: Option<UploadError>,
    streamed: Ghost<Seq<Seq<u8>>>,
}

impl<C> View for S3Writer<C> {
    type V = WriterState;

    closed spec fn view(&self) -> WriterState {
        WriterState {
            buffer: self.buffer@,
            streamed: self.streamed@,
            started: self.multipart_started,
            total: self.total_bytes as nat,
            unsent: match self.unsent {
                Some(n) => Some(n as nat),
                None => None,
            },
            failed: self.failed,
            task_error_taken: self.task_error is Some,
        }
    }
}

impl<C> S3Writer<C> {
    /// The writer's invariant.
    pub closed spec fn wf(&self) -> bool {
        &&& state_wf(self@)
        &&& self.pending_parts@.len() == 0
    }

    /// The upload task's error, where a failed send took it.
    pub closed spec fn spec_task_error(&self) -> Option<UploadError> {
        self.task_error
    }

    /// A well-formed writer's abstract state satisfies the writer invariant:
    /// less than one part is buffered, every part handed over fills a part,
    /// and, unless a send failed, the total counts exactly the bytes written.
    pub proof fn lemma_wf_state(&self)
        requires
            self.wf(),
        ensures
            state_wf(self@),
    {
    }

    /// The client the writer was made with.
    pub closed spec fn spec_client(&self) -> C {
        self.client
    }

    /// The object path the writer was made with.
    pub closed spec fn spec_path(&self) -> Seq<char> {
        self.path@
    }

    /// Creates a writer for the object at `path`, to be uploaded with `client`.
    pub fn with_client(client: C, path: &str) -> (w: Self)
        ensures
            w.wf(),
            w@ == initial_state(),
            w.spec_client() == client,
            w.spec_path() == path@,
    {
        S3Writer {
            client,
            path: path.to_owned(),
            buffer: Vec::with_capacity(PARQUET_BUFFER_SIZE),
            total_bytes: 0,
            pending_parts: Vec::new(),
            multipart_started: false,
            unsent: None,
            failed: false,
            task_error: None,
            streamed: Ghost(Seq::empty()),
        }
    }

    /// The client the writer was made with.
    pub fn client(&self) -> (c: &C)
        ensures
            *c == self.spec_client(),
    {
        &self.client
    }

    /// The object path the writer was made with.
    pub fn path(&self) -> (p: &str)
        ensures
            p@ == self.spec_path(),
    {
        self.path.as_str()
    }

    /// The total number of bytes written so far.
    pub fn total_bytes(&self) -> (n: usize)
        ensures
            n == self@.total,
    {
        self.total_bytes
    }

    /// The total number of bytes written so far (the same as `total_bytes`).
    pub fn buffer_size(&self) -> (n: usize)
        ensures
            n == self@.total,
    {
        self.total_bytes
    }

    /// Marks the multipart upload as started and hands over the parts that
    /// accumulated before it.
    fn start_multipart_upload(&mut self) -> (parts: Vec<Vec<u8>>)
        requires
            !old(self).multipart_started,
        ensures
            final(self).multipart_started,
            parts@ == old(self).pending_parts@,
            final(self).pending_parts@.len() == 0,
            final(self).buffer == old(self).buffer,
            final(self).total_bytes == old(self).total_bytes,
            final(self).streamed == old(self).streamed,
            final(self).unsent == old(self).unsent,
            final(self).failed == old(self).failed,
            final(self).task_error == old(self).task_error,
            final(self).client == old(self).client,
            final(self).path == old(self).path,
    {
        self.multipart_started = true;
        let mut pending: Vec<Vec<u8>> = Vec::new();
        std::mem::swap(&mut pending, &mut self.pending_parts);
        pending
    }

    /// Writes `buf`. When the buffer reaches the part size it becomes a part,
    /// and the returned action says what the caller must do with it. The
    /// total grows by `buf`'s length; where the action is to send a part, it
    /// stays grown only if the send succeeds: on failure the caller reports it
    /// with [`S3Writer::send_failed`], which takes the count back.
    pub fn write(&mut self, buf: &[u8]) -> (action: WriteAction)
        requires
            old(self).wf(),
            old(self)@.total + buf@.len() <= usize::MAX,
        ensures
            final(self).wf(),
            (final(self)@, action@) == write_step(old(self)@, buf@),
            final(self).spec_client() == old(self).spec_client(),
            final(self).spec_path() == old(self).spec_path(),
            final(self).spec_task_error() == old(self).spec_task_error(),
    {
        let ghost old_state = self@;
        self.unsent = None;
        self.total_bytes = self.total_bytes + buf.len();
        self.buffer.extend_from_slice(buf);
        assert(self.buffer@ =~= old_state.buffer + buf@);
        if self.buffer.len() >= PARQUET_BUFFER_SIZE {
            let mut part: Vec<u8> = Vec::with_capacity(PARQUET_BUFFER_SIZE);
            std::mem::swap(&mut part, &mut self.buffer);
            self.streamed = Ghost(self.streamed@.push(part@));
            assert(written(self@) =~= written(old_state) + buf@) by {
                old_state.streamed.lemma_flatten_push(part@);
            }
            if self.multipart_started {
                self.unsent = Some(buf.len());
                WriteAction::SendPart(part)
            } else {
                self.pending_parts.push(part);
                let parts = self.start_multipart_upload();
                assert(parts_view(parts@) =~= seq![part@]);
                WriteAction::StartMultipart(parts)
            }
        } else {
            WriteAction::Buffered
        }
    }

    /// Reports that sending the part of the last write failed. That write then
    /// wrote nothing: its bytes are taken off the total. Where the failure
    /// holds the upload task's own error, the writer keeps it, since the task
    /// cannot report it again.
    pub fn send_failed(&mut self, failure: SendFailure)
        requires
            old(self).wf(),
            old(self)@.unsent is Some,
        ensures
            final(self).wf(),
            final(self)@ == send_failed_step(old(self)@, failure is UploadFailed),
            final(self).spec_task_error() == (match (old(self).spec_task_error(), failure) {
                (Some(e), _) => Some(e),
                (None, SendFailure::UploadFailed(e)) => Some(e),
                (None, SendFailure::TaskTerminated) => None,
            }),
            final(self).spec_client() == old(self).spec_client(),
            final(self).spec_path() == old(self).spec_path(),
    {
        match self.unsent {
            Some(n) => {
                self.total_bytes = self.total_bytes - n;
            },
            None => {},
        }
        self.unsent = None;
        self.failed = true;
        if self.task_error.is_none() {
            match failure {
                SendFailure::UploadFailed(e) => {
                    self.task_error = Some(e);
                },
                SendFailure::TaskTerminated => {},
            }
        }
    }

    /// Flushing uploads nothing: all data is uploaded when the writer is
    /// finished.
    pub fn flush(&mut self)
        ensures
            *final(self) == *old(self),
    {
    }

    /// Finishes the writer: hands back how the data must be uploaded and how
    /// many bytes were written.
    pub fn finish(self) -> (plan: FinishPlan<C>)
        requires
            self.wf(),
        ensures
            plan.upload@ == finish_step(self@),
            plan.upload matches FinishUpload::Failed(e) ==> self.spec_task_error() == Some(e),
            plan.total == self@.total,
            plan.client == self.spec_client(),
            plan.path@ == self.spec_path(),
    {
        let mut this = self;
        let total = this.total_bytes;
        if this.task_error.is_some() && this.buffer.len() == 0 {
            let error = this.task_error.unwrap();
            return FinishPlan {
                client: this.client,
                path: this.path,
                upload: FinishUpload::Failed(error),
                total,
            };
        }
        let mut last_part: Option<Vec<u8>> = None;
        if this.buffer.len() > 0 {
            let mut remaining: Vec<u8> = Vec::new();
            std::mem::swap(&mut remaining, &mut this.buffer);
            if this.multipart_started {
                last_part = Some(remaining);
            } else {
                this.pending_parts.push(remaining);
            }
        }
        let upload = if this.multipart_started {
            FinishUpload::CompleteMultipart(last_part)
        } else {
            let mut data: Vec<u8> = Vec::new();
            let n = this.pending_parts.len();
            let mut i: usize = 0;
            while i < n
                invariant
                    n == this.pending_parts@.len(),
                    i <= n,
                    data@ == parts_view(this.pending_parts@).take(i as int).flatten(),
                decreases n - i,
            {
                let ghost before = data@;
                data.extend_from_slice(this.pending_parts[i].as_slice());
                proof {
                    let ps = parts_view(this.pending_parts@);
                    assert(ps.take(i + 1) =~= ps.take(i as int).push(ps[i as int]));
                    ps.take(i as int).lemma_flatten_push(ps[i as int]);
                    assert(data@ =~= before + ps[i as int]);
                }
                i = i + 1;
            }
            proof {
                let ps = parts_view(this.pending_parts@);
                assert(ps.take(n as int) =~= ps);
                if self.buffer@.len() > 0 {
                    assert(ps =~= seq![self.buffer@]);
                    ps.lemma_flatten_singleton();
                } else {
                    assert(ps =~= Seq::<Seq<u8>>::empty());
                }
            }
            if data.len() == 0 {
                FinishUpload::Nothing
            } else {
                FinishUpload::Put(data)
            }
        };
        FinishPlan { client: this.client, path: this.path, upload, total }
    }
}

} // verus!
