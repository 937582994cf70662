//! What holds of every sequence of writes followed by finishing the writer,
//! and of every run of the multipart-upload task.

use vstd::prelude::*;
use crate::upload::{
    accepts, initial_task, task_step, ActionView, ErrorView, EventView, MessageView, Phase, TaskState,
};
use crate::writer::{
    finish_step, initial_state, send_failed_step, state_wf, write_step, written, PartAction, UploadPlan, WriterState,
    PARQUET_BUFFER_SIZE,
};

verus! {

broadcast use vstd::seq_lib::group_seq_properties;

/// The state after writing each chunk in turn into a fresh writer, with the
/// action that each write returned.
pub open spec fn run_writes(chunks: Seq<Seq<u8>>) -> (WriterState, Seq<PartAction>)
    decreases chunks.len(),
{
    if chunks.len() == 0 {
        (initial_state(), Seq::empty())
    } else {
        let (s, actions) = run_writes(chunks.drop_last());
        let (next, action) = write_step(s, chunks.last());
        (next, actions.push(action))
    }
}

/// The parts that one action hands to the multipart upload.
pub open spec fn action_parts(a: PartAction) -> Seq<Seq<u8>> {
    match a {
        PartAction::Buffered => Seq::empty(),
        PartAction::StartMultipart(parts) => parts,
        PartAction::SendPart(part) => seq![part],
    }
}

/// The parts that a sequence of actions hands to the multipart upload, in order.
pub open spec fn streamed_parts(actions: Seq<PartAction>) -> Seq<Seq<u8>>
    decreases actions.len(),
{
    if actions.len() == 0 {
        Seq::empty()
    } else {
        streamed_parts(actions.drop_last()) + action_parts(actions.last())
    }
}

/// The bytes that finishing uploads.
pub open spec fn plan_bytes(p: UploadPlan) -> Seq<u8> {
    match p {
        UploadPlan::CompleteMultipart(Some(last)) => last,
        UploadPlan::CompleteMultipart(None) => Seq::empty(),
        UploadPlan::Put(data) => data,
        UploadPlan::Nothing => Seq::empty(),
        UploadPlan::Failed => Seq::empty(),
    }
}

/// Whether an action starts the multipart upload.
pub open spec fn is_start(a: PartAction) -> bool {
    a is StartMultipart
}

/// Whether an action streams a part to a running multipart upload.
pub open spec fn is_send(a: PartAction) -> bool {
    a is SendPart
}

proof fn lemma_flatten_drop_last(chunks: Seq<Seq<u8>>)
    requires
        chunks.len() > 0,
    ensures
        chunks.flatten() == chunks.drop_last().flatten() + chunks.last(),
{
    assert(chunks.drop_last().push(chunks.last()) =~= chunks);
    chunks.drop_last().lemma_flatten_push(chunks.last());
}

proof fn lemma_run(chunks: Seq<Seq<u8>>)
    ensures
        ({
            let (s, actions) = run_writes(chunks);
            &&& state_wf(s)
            &&& !s.failed
            &&& !s.task_error_taken
            &&& actions.len() == chunks.len()
            &&& s.streamed == streamed_parts(actions)
            &&& written(s) == chunks.flatten()
            &&& !s.started ==> s.streamed.len() == 0 && s.buffer == chunks.flatten()
            &&& s.started ==> chunks.flatten().len() >= PARQUET_BUFFER_SIZE
            &&& !s.started ==> forall|i: int| 0 <= i < actions.len() ==> #[trigger] actions[i] is Buffered
            &&& s.started ==> exists|j: int| 0 <= j < actions.len() && #[trigger] is_start(actions[j])
            &&& forall|i: int, j: int|
                0 <= i < actions.len() && 0 <= j < actions.len() && #[trigger] is_start(actions[i])
                    && #[trigger] is_start(actions[j]) ==> i == j
            &&& forall|i: int|
                0 <= i < actions.len() && #[trigger] is_send(actions[i]) ==> exists|j: int|
                    0 <= j < i && #[trigger] is_start(actions[j])
        }),
    decreases chunks.len(),
{
    if chunks.len() == 0 {
        assert(written(initial_state()) =~= Seq::<u8>::empty());
        assert(chunks.flatten() =~= Seq::<u8>::empty());
    } else {
        let prefix = chunks.drop_last();
        let chunk = chunks.last();
        lemma_run(prefix);
        lemma_flatten_drop_last(chunks);
        let (s, actions) = run_writes(prefix);
        let (next, action) = write_step(s, chunk);
        let acts = actions.push(action);
        assert(run_writes(chunks) == (next, acts));
        assert(acts.drop_last() =~= actions);
        assert(streamed_parts(acts) == streamed_parts(actions) + action_parts(action));
        let combined = s.buffer + chunk;
        if combined.len() < PARQUET_BUFFER_SIZE {
            assert(action_parts(action) =~= Seq::<Seq<u8>>::empty());
            assert(streamed_parts(acts) =~= streamed_parts(actions));
            assert(written(next) =~= written(s) + chunk);
            assert(is_start(acts[acts.len() - 1]) == false);
            assert forall|i: int| 0 <= i < acts.len() && #[trigger] is_send(acts[i]) implies exists|j: int|
                0 <= j < i && #[trigger] is_start(acts[j]) by {
                assert(i < actions.len());
                assert(acts[i] == actions[i]);
                let j = choose|j: int| 0 <= j < i && #[trigger] is_start(actions[j]);
                assert(acts[j] == actions[j]);
            }
            if s.started {
                let j = choose|j: int| 0 <= j < actions.len() && #[trigger] is_start(actions[j]);
                assert(acts[j] == actions[j]);
            }
        } else {
            s.streamed.lemma_flatten_push(combined);
            assert(written(next) =~= written(s) + chunk);
            assert(action_parts(action) =~= seq![combined]);
            assert(next.streamed =~= streamed_parts(acts));
            let n = actions.len() as int;
            if s.started {
                let j0 = choose|j: int| 0 <= j < actions.len() && #[trigger] is_start(actions[j]);
                assert(acts[j0] == actions[j0]);
                assert(is_send(acts[n]));
                assert forall|i: int| 0 <= i < acts.len() && #[trigger] is_send(acts[i]) implies exists|j: int|
                    0 <= j < i && #[trigger] is_start(acts[j]) by {
                    if i == n {
                        assert(is_start(acts[j0]));
                    } else {
                        assert(acts[i] == actions[i]);
                        let j = choose|j: int| 0 <= j < i && #[trigger] is_start(actions[j]);
                        assert(acts[j] == actions[j]);
                    }
                }
                assert forall|i: int, j: int|
                    0 <= i < acts.len() && 0 <= j < acts.len() && #[trigger] is_start(acts[i])
                        && #[trigger] is_start(acts[j]) implies i == j by {
                    assert(i < n && j < n);
                    assert(acts[i] == actions[i] && acts[j] == actions[j]);
                }
            } else {
                assert(is_start(acts[n]));
                assert forall|i: int, j: int|
                    0 <= i < acts.len() && 0 <= j < acts.len() && #[trigger] is_start(acts[i])
                        && #[trigger] is_start(acts[j]) implies i == j by {
                    if i < n {
                        assert(acts[i] == actions[i]);
                    }
                    if j < n {
                        assert(acts[j] == actions[j]);
                    }
                }
                assert forall|i: int| 0 <= i < acts.len() && #[trigger] is_send(acts[i]) implies exists|j: int|
                    0 <= j < i && #[trigger] is_start(acts[j]) by {
                    assert(i < n);
                    assert(acts[i] == actions[i]);
                }
            }
        }
    }
}

/// Data integrity: whatever is written, the parts handed to the multipart
/// upload followed by the bytes that finishing uploads are exactly the bytes
/// written, in the order they were written.
pub proof fn lemma_uploaded_bytes_are_written_bytes(chunks: Seq<Seq<u8>>)
    ensures
        ({
            let (s, actions) = run_writes(chunks);
            streamed_parts(actions).flatten() + plan_bytes(finish_step(s)) == chunks.flatten()
        }),
{
    lemma_run(chunks);
    let (s, actions) = run_writes(chunks);
    assert(written(s) == s.streamed.flatten() + s.buffer);
    if s.started {
        if s.buffer.len() == 0 {
            assert(plan_bytes(finish_step(s)) =~= s.buffer);
        }
    } else {
        assert(s.streamed =~= Seq::<Seq<u8>>::empty());
        assert(s.streamed.flatten() =~= Seq::<u8>::empty());
        if s.buffer.len() == 0 {
            assert(plan_bytes(finish_step(s)) =~= s.buffer);
        }
    }
    assert(streamed_parts(actions).flatten() + plan_bytes(finish_step(s)) =~= chunks.flatten());
}

/// Every part handed to the multipart upload before it is finished holds at
/// least the part size, so only the last part may be smaller.
pub proof fn lemma_streamed_parts_fill_a_part(chunks: Seq<Seq<u8>>)
    ensures
        ({
            let (s, actions) = run_writes(chunks);
            forall|i: int|
                0 <= i < streamed_parts(actions).len() ==> #[trigger] streamed_parts(actions)[i].len()
                    >= PARQUET_BUFFER_SIZE
        }),
{
    lemma_run(chunks);
}

/// Memory stays bounded: however much is written, the buffer holds less than
/// one part; and the writer counts every byte written.
pub proof fn lemma_buffer_below_part_size(chunks: Seq<Seq<u8>>)
    ensures
        run_writes(chunks).0.buffer.len() < PARQUET_BUFFER_SIZE,
        run_writes(chunks).0.total == chunks.flatten().len(),
{
    lemma_run(chunks);
}

/// The multipart upload is used exactly when at least one part's worth of
/// data is written, and then finishing completes it; a smaller object is
/// uploaded with one PUT of all its bytes, and an empty one is not uploaded at
/// all. A writer that has only been written to has no failed send.
pub proof fn lemma_small_objects_use_one_put(chunks: Seq<Seq<u8>>)
    ensures
        ({
            let (s, actions) = run_writes(chunks);
            &&& s.started <==> chunks.flatten().len() >= PARQUET_BUFFER_SIZE
            &&& chunks.flatten().len() == 0 ==> finish_step(s) == UploadPlan::Nothing
            &&& 0 < chunks.flatten().len() < PARQUET_BUFFER_SIZE ==> finish_step(s) == UploadPlan::Put(
                chunks.flatten(),
            )
            &&& chunks.flatten().len() < PARQUET_BUFFER_SIZE ==> streamed_parts(actions).len() == 0
            &&& chunks.flatten().len() >= PARQUET_BUFFER_SIZE ==> finish_step(s) is CompleteMultipart
            &&& !s.failed
        }),
{
    lemma_run(chunks);
    let (s, actions) = run_writes(chunks);
    if !s.started {
    } else {
        assert(s.streamed.len() > 0);
        assert(s.streamed[0].len() >= PARQUET_BUFFER_SIZE);
        assert(s.streamed.flatten().len() >= s.streamed[0].len()) by {
            s.streamed.lemma_flatten_and_flatten_alt_are_equivalent();
            s.streamed.lemma_flatten_length_ge_single_element_length(0);
        }
    }
}

/// The multipart upload is started at most once, and every part streamed
/// to it comes after the write that started it.
pub proof fn lemma_multipart_started_once(chunks: Seq<Seq<u8>>)
    ensures
        ({
            let (s, actions) = run_writes(chunks);
            &&& forall|i: int, j: int|
                0 <= i < actions.len() && 0 <= j < actions.len() && #[trigger] is_start(actions[i])
                    && #[trigger] is_start(actions[j]) ==> i == j
            &&& forall|i: int|
                0 <= i < actions.len() && #[trigger] is_send(actions[i]) ==> exists|j: int|
                    0 <= j < i && #[trigger] is_start(actions[j])
            &&& s.started <==> exists|j: int| 0 <= j < actions.len() && #[trigger] is_start(actions[j])
        }),
{
    lemma_run(chunks);
    let (s, actions) = run_writes(chunks);
    if !s.started {
        assert forall|j: int| 0 <= j < actions.len() implies !#[trigger] is_start(actions[j]) by {
            assert(actions[j] is Buffered);
        }
    }
}

/// A write whose part could not be sent wrote nothing: once the failed send
/// is reported, the total is what it was before the write (still at least one
/// part, since the upload had started), and the writer stays well-formed.
/// Finishing then waits for the upload task's result, unless a failed send
/// has taken the task's error, which is then the answer.
pub proof fn lemma_failed_send_writes_nothing(s: WriterState, chunk: Seq<u8>, took_task_error: bool)
    requires
        state_wf(s),
        write_step(s, chunk).1 is SendPart,
    ensures
        ({
            let after = send_failed_step(write_step(s, chunk).0, took_task_error);
            &&& state_wf(after)
            &&& after.total == s.total
            &&& after.total >= PARQUET_BUFFER_SIZE
            &&& finish_step(after) == if took_task_error || s.task_error_taken {
                UploadPlan::Failed
            } else {
                UploadPlan::CompleteMultipart(None)
            }
        }),
{
    let (next, action) = write_step(s, chunk);
    s.streamed.lemma_flatten_push(s.buffer + chunk);
    assert(written(next) =~= written(s) + chunk);
}

/// A writer whose send failed stays so: whatever it is given to write
/// afterwards, it never falls back to one PUT; finishing completes the
/// multipart upload or reports the task's error.
pub proof fn lemma_failure_is_final(s: WriterState, chunk: Seq<u8>)
    requires
        state_wf(s),
        s.failed,
    ensures
        write_step(s, chunk).0.failed,
        state_wf(write_step(s, chunk).0),
        finish_step(write_step(s, chunk).0) is CompleteMultipart || finish_step(
            write_step(s, chunk).0,
        ) is Failed,
{
    s.streamed.lemma_flatten_push(s.buffer + chunk);
}

/// The state of a task started with the `pending` parts after answering each
/// event in turn, with the actions it answered them with; `None` if some event
/// was not one the task expected.
pub open spec fn run_task(pending: Seq<Seq<u8>>, events: Seq<EventView>) -> Option<
    (TaskState, Seq<ActionView>),
>
    decreases events.len(),
{
    if events.len() == 0 {
        Some((initial_task(pending), Seq::empty()))
    } else {
        match run_task(pending, events.drop_last()) {
            None => None,
            Some((s, actions)) => if accepts(s, events.last()) {
                let (next, action) = task_step(s, events.last());
                Some((next, actions.push(action)))
            } else {
                None
            },
        }
    }
}

/// The numbers under which the actions upload parts, in order.
pub open spec fn part_numbers(actions: Seq<ActionView>) -> Seq<nat>
    decreases actions.len(),
{
    if actions.len() == 0 {
        Seq::empty()
    } else {
        let rest = part_numbers(actions.drop_last());
        match actions.last() {
            ActionView::UploadPart { part_number, data } => rest.push(part_number),
            _ => rest,
        }
    }
}

/// The parts that the actions upload, in order.
pub open spec fn parts_uploaded(actions: Seq<ActionView>) -> Seq<Seq<u8>>
    decreases actions.len(),
{
    if actions.len() == 0 {
        Seq::empty()
    } else {
        let rest = parts_uploaded(actions.drop_last());
        match actions.last() {
            ActionView::UploadPart { part_number, data } => rest.push(data),
            _ => rest,
        }
    }
}

/// The parts that the writer's messages bring, in order.
pub open spec fn parts_received(events: Seq<EventView>) -> Seq<Seq<u8>>
    decreases events.len(),
{
    if events.len() == 0 {
        Seq::empty()
    } else {
        let rest = parts_received(events.drop_last());
        match events.last() {
            EventView::Next(Some(MessageView::Part(data))) => rest.push(data),
            _ => rest,
        }
    }
}

/// The message of a failed start, if the event reports one.
pub open spec fn start_failure(e: EventView) -> Option<Seq<char>> {
    match e {
        EventView::Started(Err(m)) => Some(m),
        _ => None,
    }
}

/// Whether the event says that no more parts will come: the writer's
/// `Finish`, or the writer gone away.
pub open spec fn is_end_of_parts(e: EventView) -> bool {
    match e {
        EventView::Next(None) => true,
        EventView::Next(Some(MessageView::Finish)) => true,
        _ => false,
    }
}

/// The store's message for a part that failed to upload, if the event
/// reports one.
pub open spec fn part_failure(e: EventView) -> Option<Seq<char>> {
    match e {
        EventView::PartUploaded(Err(m)) => Some(m),
        _ => None,
    }
}

/// The store's message for a completion that failed, if the event reports one.
pub open spec fn complete_failure(e: EventView) -> Option<Seq<char>> {
    match e {
        EventView::Completed(Err(m)) => Some(m),
        _ => None,
    }
}

/// Whether the action reports success.
pub open spec fn is_success(a: ActionView) -> bool {
    match a {
        ActionView::Report(Ok(_)) => true,
        _ => false,
    }
}

/// Whether the event reports that completing the upload succeeded.
pub open spec fn is_completed_ok(e: EventView) -> bool {
    match e {
        EventView::Completed(Ok(_)) => true,
        _ => false,
    }
}

/// Whether an action ends the task.
pub open spec fn is_terminal(a: ActionView) -> bool {
    a is Abort || a is Report
}

proof fn lemma_task_run(pending: Seq<Seq<u8>>, events: Seq<EventView>)
    ensures
        run_task(pending, events) matches Some((s, actions)) ==> {
            &&& actions.len() == events.len()
            &&& part_numbers(actions) == Seq::new(s.part_number, |i: int| (i + 1) as nat)
            &&& parts_uploaded(actions) + s.pending == pending + parts_received(events)
            &&& s.phase == Phase::Ready ==> s.pending.len() == 0
            &&& forall|i: int|
                0 <= i < actions.len() && is_terminal(#[trigger] actions[i]) ==> i == actions.len() - 1
                    && s.phase == Phase::Done
            &&& forall|i: int|
                0 <= i < actions.len() && #[trigger] actions[i] is Complete ==> (s.phase
                    == Phase::Completing || s.phase == Phase::Done) && s.pending.len() == 0
            &&& forall|i: int, j: int|
                0 <= i < j < actions.len() && #[trigger] actions[i] is Complete ==> #[trigger] actions[j] is Report
            &&& forall|i: int|
                0 <= i < actions.len() && #[trigger] actions[i] is Abort ==> is_failed_part(events[i])
            &&& forall|i: int|
                0 <= i < actions.len() && is_failed_part(#[trigger] events[i]) ==> actions[i] is Abort
        },
    decreases events.len(),
{
    if events.len() == 0 {
        assert(part_numbers(Seq::<ActionView>::empty()) =~= Seq::new(0, |i: int| (i + 1) as nat));
        assert(parts_received(events) =~= Seq::<Seq<u8>>::empty());
        assert(Seq::<Seq<u8>>::empty() + pending =~= pending + Seq::<Seq<u8>>::empty());
    } else {
        let prefix = events.drop_last();
        let e = events.last();
        lemma_task_run(pending, prefix);
        match run_task(pending, prefix) {
            None => {},
            Some((s, actions)) => {
                if accepts(s, e) {
                    let (next, a) = task_step(s, e);
                    let acts = actions.push(a);
                    assert(acts.drop_last() =~= actions);
                    assert(events.drop_last() =~= prefix);
                    let n = actions.len() as int;
                    assert(s.phase != Phase::Done);
                    assert forall|i: int|
                        0 <= i < acts.len() && is_terminal(#[trigger] acts[i]) implies i == acts.len() - 1
                            && next.phase == Phase::Done by {
                        if i < n {
                            assert(acts[i] == actions[i]);
                        }
                    }
                    assert forall|i: int|
                        0 <= i < acts.len() && #[trigger] acts[i] is Complete implies (next.phase
                            == Phase::Completing || next.phase == Phase::Done) && next.pending.len() == 0 by {
                        if i < n {
                            assert(acts[i] == actions[i]);
                        }
                    }
                    assert forall|i: int, j: int|
                        0 <= i < j < acts.len() && #[trigger] acts[i] is Complete implies #[trigger] acts[j] is Report by {
                        assert(acts[i] == actions[i]);
                        if j < n {
                            assert(acts[j] == actions[j]);
                        }
                    }
                    assert forall|i: int|
                        0 <= i < acts.len() && #[trigger] acts[i] is Abort implies is_failed_part(events[i]) by {
                        if i < n {
                            assert(acts[i] == actions[i]);
                            assert(events[i] == prefix[i]);
                        }
                    }
                    assert forall|i: int|
                        0 <= i < acts.len() && is_failed_part(#[trigger] events[i]) implies acts[i] is Abort by {
                        if i < n {
                            assert(acts[i] == actions[i]);
                            assert(events[i] == prefix[i]);
                        }
                    }
                    let up = parts_uploaded(actions);
                    let rec = parts_received(prefix);
                    if a is UploadPart {
                        assert(part_numbers(acts) =~= Seq::new(next.part_number, |i: int| (i + 1) as nat));
                        if e is Next {
                            assert(parts_received(events) == rec.push(a->data));
                            assert(up.push(a->data) + next.pending =~= pending + rec.push(a->data));
                        } else {
                            assert(parts_received(events) == rec);
                            assert(up.push(a->data) + next.pending =~= up + s.pending);
                        }
                    } else {
                        assert(part_numbers(acts) == part_numbers(actions));
                        assert(parts_uploaded(acts) == up);
                        assert(parts_received(events) == rec);
                    }
                }
            },
        }
    }
}

proof fn lemma_step_answers(s: TaskState, e: EventView)
    requires
        accepts(s, e),
    ensures
        ({
            let (next, a) = task_step(s, e);
            &&& is_success(a) ==> is_completed_ok(e) && s.phase == Phase::Completing
            &&& start_failure(e) is Some ==> a == ActionView::Report(Err(ErrorView::Start(start_failure(e)->0)))
            &&& (a is Complete <==> is_end_of_parts(e))
            &&& next.phase == Phase::Completing ==> a is Complete
            &&& next.phase != Phase::Done ==> !is_terminal(a)
            &&& a is Abort ==> s.phase == Phase::Uploading && part_failure(e) is Some && a
                == ActionView::Abort(ErrorView::Part { part_number: s.part_number, cause: part_failure(e)->0 })
            &&& next.phase == Phase::Uploading ==> a is UploadPart && a->part_number == next.part_number
            &&& complete_failure(e) is Some ==> a == ActionView::Report(
                Err(ErrorView::Complete(complete_failure(e)->0)),
            )
        }),
{
}

#[verifier::spinoff_prover]
proof fn lemma_task_answers(pending: Seq<Seq<u8>>, events: Seq<EventView>)
    ensures
        run_task(pending, events) matches Some((s, actions)) ==> {
            &&& actions.len() == events.len()
            &&& s.phase != Phase::Done ==> forall|i: int| 0 <= i < actions.len() ==> !is_terminal(#[trigger] actions[i])
            &&& s.phase == Phase::Completing ==> actions.len() > 0 && actions.last() is Complete
            &&& forall|i: int|
                0 <= i < actions.len() && is_success(#[trigger] actions[i]) ==> is_completed_ok(events[i])
                    && i >= 1 && actions[i - 1] is Complete
            &&& forall|i: int|
                0 <= i < actions.len() && start_failure(#[trigger] events[i]) is Some ==> actions[i]
                    == ActionView::Report(Err(ErrorView::Start(start_failure(events[i])->0)))
            &&& forall|i: int|
                0 <= i < actions.len() ==> (#[trigger] actions[i] is Complete <==> is_end_of_parts(events[i]))
            &&& s.phase == Phase::Uploading ==> actions.len() > 0 && actions.last() is UploadPart
                && actions.last()->part_number == s.part_number
            &&& forall|i: int|
                0 <= i < actions.len() && #[trigger] actions[i] is Abort ==> i >= 1 && actions[i - 1] is UploadPart
                    && actions[i] == ActionView::Abort(
                    ErrorView::Part { part_number: actions[i - 1]->part_number, cause: part_failure(events[i])->0 },
                )
            &&& forall|i: int|
                0 <= i < actions.len() && complete_failure(#[trigger] events[i]) is Some ==> actions[i]
                    == ActionView::Report(Err(ErrorView::Complete(complete_failure(events[i])->0)))
        },
    decreases events.len(),
{
    if events.len() > 0 {
        let prefix = events.drop_last();
        let e = events.last();
        lemma_task_answers(pending, prefix);
        match run_task(pending, prefix) {
            None => {},
            Some((s, actions)) => {
                if accepts(s, e) {
                    let (next, a) = task_step(s, e);
                    lemma_step_answers(s, e);
                    let acts = actions.push(a);
                    assert(acts.drop_last() =~= actions);
                    assert(events.drop_last() =~= prefix);
                    let n = actions.len() as int;
                    assert forall|i: int|
                        0 <= i < acts.len() && #[trigger] acts[i] is Abort implies i >= 1 && acts[i - 1] is UploadPart
                            && acts[i] == ActionView::Abort(
                            ErrorView::Part { part_number: acts[i - 1]->part_number, cause: part_failure(events[i])->0 },
                        ) by {
                        if i < n {
                            assert(acts[i] == actions[i]);
                            assert(events[i] == prefix[i]);
                            assert(acts[i - 1] == actions[i - 1]);
                        } else {
                            assert(acts[i - 1] == actions[n - 1]);
                        }
                    }
                    assert forall|i: int|
                        0 <= i < acts.len() && complete_failure(#[trigger] events[i]) is Some implies acts[i]
                            == ActionView::Report(Err(ErrorView::Complete(complete_failure(events[i])->0))) by {
                        if i < n {
                            assert(acts[i] == actions[i]);
                            assert(events[i] == prefix[i]);
                        }
                    }
                    assert forall|i: int| next.phase != Phase::Done && 0 <= i < acts.len() implies !is_terminal(#[trigger] acts[i]) by {
                        if i < n {
                            assert(acts[i] == actions[i]);
                        }
                    }
                    assert forall|i: int|
                        0 <= i < acts.len() && is_success(#[trigger] acts[i]) implies is_completed_ok(events[i])
                            && i >= 1 && acts[i - 1] is Complete by {
                        if i < n {
                            assert(acts[i] == actions[i]);
                            assert(events[i] == prefix[i]);
                            assert(acts[i - 1] == actions[i - 1]);
                        } else {
                            assert(acts[i - 1] == actions[n - 1]);
                        }
                    }
                    assert forall|i: int|
                        0 <= i < acts.len() && start_failure(#[trigger] events[i]) is Some implies acts[i]
                            == ActionView::Report(Err(ErrorView::Start(start_failure(events[i])->0))) by {
                        if i < n {
                            assert(acts[i] == actions[i]);
                            assert(events[i] == prefix[i]);
                        }
                    }
                    assert forall|i: int|
                        0 <= i < acts.len() implies (#[trigger] acts[i] is Complete <==> is_end_of_parts(events[i])) by {
                        if i < n {
                            assert(acts[i] == actions[i]);
                            assert(events[i] == prefix[i]);
                        }
                    }
                }
            },
        }
    }
}

/// Whether the event reports a part that failed to upload.
pub open spec fn is_failed_part(e: EventView) -> bool {
    e matches EventView::PartUploaded(Err(_))
}

/// Parts are numbered 1, 2, 3, ... in the order they are uploaded, and the
/// task uploads the parts that were pending when it started, in order, before
/// any part from the writer, then the writer's parts in the order they came:
/// what it has uploaded, followed by what is still pending, is always the
/// pending parts followed by the parts received.
pub proof fn lemma_parts_numbered_in_order(pending: Seq<Seq<u8>>, events: Seq<EventView>)
    ensures
        run_task(pending, events) matches Some((s, actions)) ==> {
            &&& part_numbers(actions) == Seq::new(s.part_number, |i: int| (i + 1) as nat)
            &&& parts_uploaded(actions) + s.pending == pending + parts_received(events)
            &&& s.phase == Phase::Ready ==> s.pending.len() == 0
        },
{
    lemma_task_run(pending, events);
}

/// The upload is aborted exactly when a part fails to upload, right after
/// that part was handed to the store, with that part's number and the store's
/// message; a failed completion is reported with its message; and aborting or
/// reporting ends the task: nothing follows.
pub proof fn lemma_abort_exactly_after_failed_part(pending: Seq<Seq<u8>>, events: Seq<EventView>)
    ensures
        run_task(pending, events) matches Some((s, actions)) ==> {
            &&& forall|i: int|
                0 <= i < actions.len() && #[trigger] actions[i] is Abort ==> i >= 1 && actions[i - 1] is UploadPart
                    && actions[i] == ActionView::Abort(
                    ErrorView::Part { part_number: actions[i - 1]->part_number, cause: part_failure(events[i])->0 },
                )
            &&& forall|i: int|
                0 <= i < actions.len() && complete_failure(#[trigger] events[i]) is Some ==> actions[i]
                    == ActionView::Report(Err(ErrorView::Complete(complete_failure(events[i])->0)))
            &&& forall|i: int|
                0 <= i < actions.len() && #[trigger] actions[i] is Abort ==> is_failed_part(events[i])
            &&& forall|i: int|
                0 <= i < actions.len() && is_failed_part(#[trigger] events[i]) ==> actions[i] is Abort
            &&& forall|i: int|
                0 <= i < actions.len() && is_terminal(#[trigger] actions[i]) ==> i == actions.len() - 1
                    && s.phase == Phase::Done
        },
{
    lemma_task_run(pending, events);
    lemma_task_answers(pending, events);
}

/// The task reports success only in answer to the completion of the upload
/// succeeding, right after it asked for that completion; in particular a
/// failed start is never reported as success: it is reported as the start
/// failure it is, with its message, whatever parts are pending.
pub proof fn lemma_success_only_after_completion(pending: Seq<Seq<u8>>, events: Seq<EventView>)
    ensures
        run_task(pending, events) matches Some((s, actions)) ==> {
            &&& forall|i: int|
                0 <= i < actions.len() && is_success(#[trigger] actions[i]) ==> is_completed_ok(events[i])
                    && i >= 1 && actions[i - 1] is Complete
            &&& forall|i: int|
                0 <= i < actions.len() && start_failure(#[trigger] events[i]) is Some ==> actions[i]
                    == ActionView::Report(Err(ErrorView::Start(start_failure(events[i])->0)))
        },
{
    lemma_task_answers(pending, events);
}

/// The task asks for the upload to be completed exactly when the writer says
/// no more parts will come (`Finish`, or the writer gone), never after a part
/// or while parts are still pending; and when it does, every pending part and
/// every part the writer sent has been uploaded.
pub proof fn lemma_complete_exactly_at_end_of_parts(pending: Seq<Seq<u8>>, events: Seq<EventView>)
    ensures
        run_task(pending, events) matches Some((s, actions)) ==> {
            &&& forall|i: int|
                0 <= i < actions.len() ==> (#[trigger] actions[i] is Complete <==> is_end_of_parts(events[i]))
            &&& (exists|i: int| 0 <= i < actions.len() && #[trigger] actions[i] is Complete)
                ==> parts_uploaded(actions) == pending + parts_received(events)
        },
{
    lemma_task_run(pending, events);
    lemma_task_answers(pending, events);
    if let Some((s, actions)) = run_task(pending, events) {
        if exists|i: int| 0 <= i < actions.len() && #[trigger] actions[i] is Complete {
            assert(s.pending.len() == 0);
            assert(parts_uploaded(actions) + s.pending =~= parts_uploaded(actions));
        }
    }
}

/// Once the task asks for the upload to be completed, no part is uploaded and
/// nothing is aborted: the only action left is the final report.
pub proof fn lemma_complete_is_final(pending: Seq<Seq<u8>>, events: Seq<EventView>)
    ensures
        run_task(pending, events) matches Some((s, actions)) ==> forall|i: int, j: int|
            0 <= i < j < actions.len() && #[trigger] actions[i] is Complete ==> #[trigger] actions[j] is Report,
{
    lemma_task_run(pending, events);
}

} // verus!
