//! Whole runs of a transfer, and what holds of every one of them.
//!
//! A run feeds a series of events to a transfer, one step after the other, and
//! collects the actions that come back. The lemmas of this module speak of the
//! collected actions: how often a transaction is opened, committed or aborted,
//! how often the restart is asked for, and where the transfer and the storage
//! stand at the end.

use crate::restart::{SchedulerState, TimerState, RESTART_DELAY_MS};
use crate::storage::{ManagerState, TransactionState, PARTITION_CAPACITY};
use crate::status::{
    STATUS_CODE_INTERNAL_SERVER_ERROR,
    STATUS_CODE_LENGTH_REQUIRED,
    STATUS_CODE_OK,
    STATUS_CODE_PAYLOAD_TOO_LARGE,
    STATUS_CODE_UNSUPPORTED_MEDIA_TYPE,
};
use crate::text::text_of_string;
use crate::update::{
    validation_error,
    Action,
    Event,
    Phase,
    TransferView,
    UpdateError,
    CHUNK_SIZE,
    CONTENT_TYPE_OCTET_STREAM,
};
use vstd::prelude::*;

verus! {

/// Where a run ends and what it asked for on the way.
pub struct Run {
    pub transfer: TransferView,
    pub manager: ManagerState,
    pub actions: Seq<Action>,
}

/// The run of `events` from `transfer` and `manager`.
pub open spec fn run(transfer: TransferView, manager: ManagerState, events: Seq<Event>) -> Run
    decreases events.len(),
{
    if events.len() == 0 {
        Run { transfer, manager, actions: Seq::empty() }
    } else {
        let before = run(transfer, manager, events.drop_last());
        let step = before.transfer.next(before.manager, events.last());
        Run {
            transfer: step.transfer,
            manager: step.manager,
            actions: before.actions.push(step.action),
        }
    }
}

/// One if `condition` holds, zero if not.
pub open spec fn one_if(condition: bool) -> nat {
    if condition {
        1
    } else {
        0
    }
}

/// Whether `action` answers the request and asks for the restart.
pub open spec fn asks_restart(action: Action) -> bool {
    action matches Action::Respond { restart_after_ms: Some(_), .. }
}

/// How many of `actions` are `wanted`.
pub open spec fn count(actions: Seq<Action>, wanted: spec_fn(Action) -> bool) -> nat
    decreases actions.len(),
{
    if actions.len() == 0 {
        0
    } else {
        count(actions.drop_last(), wanted) + one_if(wanted(actions.last()))
    }
}

/// How often a transaction is opened.
pub open spec fn begins(actions: Seq<Action>) -> nat {
    count(actions, |action: Action| action is BeginWrite)
}

/// How often a chunk is handed to the storage.
pub open spec fn writes(actions: Seq<Action>) -> nat {
    count(actions, |action: Action| action is Write)
}

/// How often a commit is asked for.
pub open spec fn commits(actions: Seq<Action>) -> nat {
    count(actions, |action: Action| action is Commit)
}

/// How often an abort is asked for.
pub open spec fn aborts(actions: Seq<Action>) -> nat {
    count(actions, |action: Action| action is Abort)
}

/// How often the request is answered.
pub open spec fn responses(actions: Seq<Action>) -> nat {
    count(actions, |action: Action| action is Respond)
}

/// How often the restart is asked for.
pub open spec fn restarts(actions: Seq<Action>) -> nat {
    count(actions, |action: Action| asks_restart(action))
}

/// The transfer and the storage belong together: both are well formed, and
/// while the transfer holds a transaction it is the one that the storage has
/// open, on the inactive slot.
pub open spec fn consistent(transfer: TransferView, manager: ManagerState) -> bool {
    &&& transfer.wf()
    &&& manager.wf()
    &&& transfer.phase.holds_transaction() ==> transfer.transaction->0.active_in(manager)
        && transfer.transaction->0.target == manager.update_slot()
}

/// What the collected actions of a run from a fresh transfer look like in each
/// phase.
pub open spec fn tally_holds(phase: Phase, actions: Seq<Action>) -> bool {
    &&& restarts(actions) <= responses(actions)
    &&& match phase {
        Phase::Validating => begins(actions) == 0 && commits(actions) == 0 && aborts(actions)
            == 0 && responses(actions) == 0 && writes(actions) == 0,
        Phase::Rejected => begins(actions) == 0 && commits(actions) == 0 && aborts(actions) == 0
            && responses(actions) == 1 && restarts(actions) == 0 && writes(actions) == 0,
        Phase::Opening => begins(actions) == 1 && commits(actions) == 0 && aborts(actions) == 0
            && responses(actions) == 0 && writes(actions) == 0,
        Phase::Reading => begins(actions) == 1 && commits(actions) == 0 && aborts(actions) == 0
            && responses(actions) == 0,
        Phase::Writing { .. } => begins(actions) == 1 && commits(actions) == 0 && aborts(actions)
            == 0 && responses(actions) == 0,
        Phase::Committing => begins(actions) == 1 && commits(actions) == 1 && aborts(actions)
            == 0 && responses(actions) == 0,
        Phase::Aborting => begins(actions) == 1 && commits(actions) == 0 && aborts(actions) == 1
            && responses(actions) == 0,
        Phase::Committed => begins(actions) == 1 && commits(actions) == 1 && aborts(actions) == 0
            && responses(actions) == 1 && restarts(actions) == 1,
        Phase::Aborted => begins(actions) == 1 && commits(actions) + aborts(actions) <= 1
            && responses(actions) == 1 && restarts(actions) == 0,
    }
}

/// Counting goes action by action.
pub proof fn lemma_count_push(actions: Seq<Action>, action: Action, wanted: spec_fn(Action) -> bool)
    ensures
        count(actions.push(action), wanted) == count(actions, wanted) + one_if(wanted(action)),
{
    assert(actions.push(action).drop_last() =~= actions);
}

/// What one more action adds to each count.
pub proof fn lemma_counts_push(actions: Seq<Action>, action: Action)
    ensures
        begins(actions.push(action)) == begins(actions) + one_if(action is BeginWrite),
        writes(actions.push(action)) == writes(actions) + one_if(action is Write),
        commits(actions.push(action)) == commits(actions) + one_if(action is Commit),
        aborts(actions.push(action)) == aborts(actions) + one_if(action is Abort),
        responses(actions.push(action)) == responses(actions) + one_if(action is Respond),
        restarts(actions.push(action)) == restarts(actions) + one_if(asks_restart(action)),
{
    lemma_count_push(actions, action, |action: Action| action is BeginWrite);
    lemma_count_push(actions, action, |action: Action| action is Write);
    lemma_count_push(actions, action, |action: Action| action is Commit);
    lemma_count_push(actions, action, |action: Action| action is Abort);
    lemma_count_push(actions, action, |action: Action| action is Respond);
    lemma_count_push(actions, action, |action: Action| asks_restart(action));
}

/// A run of one series after another is the run of the second from where the
/// first ended, with the actions of both.
pub proof fn lemma_run_append(
    transfer: TransferView,
    manager: ManagerState,
    first: Seq<Event>,
    second: Seq<Event>,
)
    ensures
        run(transfer, manager, first + second).transfer == run(
            run(transfer, manager, first).transfer,
            run(transfer, manager, first).manager,
            second,
        ).transfer,
        run(transfer, manager, first + second).manager == run(
            run(transfer, manager, first).transfer,
            run(transfer, manager, first).manager,
            second,
        ).manager,
        run(transfer, manager, first + second).actions == run(transfer, manager, first).actions
            + run(
            run(transfer, manager, first).transfer,
            run(transfer, manager, first).manager,
            second,
        ).actions,
    decreases second.len(),
{
    let middle = run(transfer, manager, first);
    if second.len() == 0 {
        assert(first + second =~= first);
        assert(middle.actions + Seq::<Action>::empty() =~= middle.actions);
    } else {
        lemma_run_append(transfer, manager, first, second.drop_last());
        assert((first + second).drop_last() =~= first + second.drop_last());
        assert((first + second).last() == second.last());
        let before = run(middle.transfer, middle.manager, second.drop_last());
        let step = before.transfer.next(before.manager, second.last());
        assert((middle.actions + before.actions).push(step.action) =~= middle.actions
            + before.actions.push(step.action));
    }
}

/// A step keeps the transfer well formed, whatever the event and whatever the
/// storage: never more bytes than declared, never more declared than a slot
/// holds.
pub proof fn lemma_step_keeps_wf(transfer: TransferView, manager: ManagerState, event: Event)
    requires
        transfer.wf(),
    ensures
        transfer.next(manager, event).transfer.wf(),
        transfer.next(manager, event).transfer.bytes_received
            <= transfer.next(manager, event).transfer.declared_size <= PARTITION_CAPACITY,
{
}

/// A step keeps the transfer and the storage together.
pub proof fn lemma_step_keeps_consistent(
    transfer: TransferView,
    manager: ManagerState,
    event: Event,
)
    requires
        consistent(transfer, manager),
    ensures
        consistent(transfer.next(manager, event).transfer, transfer.next(manager, event).manager),
{
}

/// A step never goes back: the phase does not fall behind, no byte is taken
/// back, and the declared length stands once the headers were accepted.
pub proof fn lemma_step_goes_forward(transfer: TransferView, manager: ManagerState, event: Event)
    requires
        transfer.wf(),
    ensures
        transfer.next(manager, event).transfer.phase.rank() >= transfer.phase.rank(),
        transfer.next(manager, event).transfer.bytes_received >= transfer.bytes_received,
        !(transfer.phase is Validating) ==> transfer.next(manager, event).transfer.declared_size
            == transfer.declared_size,
        transfer.next(manager, event).transfer.bytes_received
            <= transfer.next(manager, event).transfer.declared_size,
{
}

/// Nothing follows the end: a finished transfer ignores every event.
pub proof fn lemma_terminal_is_final(transfer: TransferView, manager: ManagerState, event: Event)
    requires
        transfer.phase.spec_is_terminal(),
    ensures
        transfer.next(manager, event).transfer == transfer,
        transfer.next(manager, event).manager == manager,
        transfer.next(manager, event).action == Action::Ignore,
{
}

/// Whatever the events, the actions of a run from a fresh transfer are those
/// that its phase allows.
pub proof fn lemma_tally(manager: ManagerState, events: Seq<Event>)
    ensures
        tally_holds(
            run(TransferView::fresh(), manager, events).transfer.phase,
            run(TransferView::fresh(), manager, events).actions,
        ),
    decreases events.len(),
{
    if events.len() > 0 {
        lemma_tally(manager, events.drop_last());
        let before = run(TransferView::fresh(), manager, events.drop_last());
        let step = before.transfer.next(before.manager, events.last());
        lemma_counts_push(before.actions, step.action);
    }
}

/// One request, one transaction: whatever the events, a transfer opens at most
/// one transaction, ends it at most once and never both ways, answers at most
/// once, and asks for the restart exactly if it ends committed.
pub proof fn lemma_at_most_once(manager: ManagerState, events: Seq<Event>)
    ensures
        ({
            let end = run(TransferView::fresh(), manager, events);
            &&& begins(end.actions) <= 1
            &&& commits(end.actions) + aborts(end.actions) <= 1
            &&& responses(end.actions) <= 1
            &&& restarts(end.actions) <= 1
            &&& begins(end.actions) == 0 <==> end.transfer.phase is Validating
                || end.transfer.phase is Rejected
            &&& responses(end.actions) == 1 <==> end.transfer.phase.spec_is_terminal()
            &&& restarts(end.actions) == 1 <==> end.transfer.phase is Committed
            &&& end.transfer.phase is Committed ==> commits(end.actions) == 1 && aborts(
                end.actions,
            ) == 0
        }),
{
    lemma_tally(manager, events);
}

/// A run from a fresh transfer and a well-formed storage keeps the two
/// together.
pub proof fn lemma_run_keeps_consistent(
    transfer: TransferView,
    manager: ManagerState,
    events: Seq<Event>,
)
    requires
        consistent(transfer, manager),
    ensures
        consistent(run(transfer, manager, events).transfer, run(transfer, manager, events).manager),
    decreases events.len(),
{
    if events.len() > 0 {
        lemma_run_keeps_consistent(transfer, manager, events.drop_last());
        let before = run(transfer, manager, events.drop_last());
        lemma_step_keeps_consistent(before.transfer, before.manager, events.last());
    }
}

/// No transaction is left behind: when a step ends a transfer that held one,
/// the storage is free again, and the slot that boots next changes exactly if
/// the transfer ends committed.
pub proof fn lemma_end_releases_storage(
    transfer: TransferView,
    manager: ManagerState,
    event: Event,
)
    requires
        consistent(transfer, manager),
        transfer.phase.holds_transaction(),
        transfer.next(manager, event).transfer.phase.spec_is_terminal(),
    ensures
        transfer.next(manager, event).manager.writer is None,
        transfer.next(manager, event).transfer.phase is Committed ==> transfer.next(
            manager,
            event,
        ).manager == manager.promoted(manager.update_slot()),
        transfer.next(manager, event).transfer.phase is Aborted ==> transfer.next(
            manager,
            event,
        ).manager == manager.released(),
{
}

/// Giving a transfer up frees the storage: whatever the phase, the transfer no
/// longer holds a transaction, the storage has none open, and no slot is
/// promoted.
pub proof fn lemma_abandon_releases_storage(transfer: TransferView, manager: ManagerState)
    requires
        consistent(transfer, manager),
    ensures
        consistent(transfer.abandoned(), transfer.released(manager)),
        !transfer.abandoned().phase.holds_transaction(),
        transfer.phase.holds_transaction() ==> transfer.released(manager) == manager.released()
            && transfer.abandoned().phase is Aborted,
        !transfer.phase.holds_transaction() ==> transfer.released(manager) == manager
            && transfer.abandoned() == transfer,
        transfer.released(manager).next_boot == manager.next_boot,
{
}

/// Headers that are refused are refused before the storage is touched: the
/// status names the first check that failed, the storage is as it was, and the
/// transfer is over.
pub proof fn lemma_refused_headers(
    manager: ManagerState,
    content_type: Option<String>,
    content_length: Option<u64>,
)
    requires
        validation_error(text_of_string(content_type), content_length) is Some,
    ensures
        ({
            let step = TransferView::fresh().next(
                manager,
                Event::Headers { content_type, content_length },
            );
            let error = validation_error(text_of_string(content_type), content_length)->0;
            &&& step.manager == manager
            &&& step.transfer.phase is Rejected
            &&& step.transfer.transaction is None
            &&& step.transfer.error == Some(error)
            &&& step.action == Action::Respond {
                status: error.spec_status_code(),
                restart_after_ms: None,
            }
        }),
{
}

/// A declared length above the slot size is answered with 413, and no
/// transaction is opened.
pub proof fn lemma_oversized_is_rejected(
    manager: ManagerState,
    content_type: Option<String>,
    declared_size: u64,
)
    requires
        text_of_string(content_type) == Some(CONTENT_TYPE_OCTET_STREAM@),
        declared_size > PARTITION_CAPACITY,
    ensures
        ({
            let step = TransferView::fresh().next(
                manager,
                Event::Headers { content_type, content_length: Some(declared_size) },
            );
            &&& step.action == Action::Respond {
                status: STATUS_CODE_PAYLOAD_TOO_LARGE,
                restart_after_ms: None,
            }
            &&& step.manager == manager
            &&& step.transfer.phase is Rejected
        }),
{
}

/// A request without a declared length is answered with 411, and no
/// transaction is opened.
pub proof fn lemma_missing_length_is_rejected(manager: ManagerState, content_type: Option<String>)
    requires
        text_of_string(content_type) == Some(CONTENT_TYPE_OCTET_STREAM@),
    ensures
        ({
            let step = TransferView::fresh().next(
                manager,
                Event::Headers { content_type, content_length: None },
            );
            &&& step.action == Action::Respond {
                status: STATUS_CODE_LENGTH_REQUIRED,
                restart_after_ms: None,
            }
            &&& step.manager == manager
            &&& step.transfer.phase is Rejected
        }),
{
}

/// A request with another media type, or with none, is answered with 415
/// whatever length it declares and whatever its body holds: no transaction is
/// opened, and every later event is ignored.
pub proof fn lemma_wrong_media_type_is_rejected(
    manager: ManagerState,
    content_type: Option<String>,
    content_length: Option<u64>,
    body: Seq<Event>,
)
    requires
        text_of_string(content_type) != Some(CONTENT_TYPE_OCTET_STREAM@),
    ensures
        ({
            let step = TransferView::fresh().next(
                manager,
                Event::Headers { content_type, content_length },
            );
            let end = run(step.transfer, step.manager, body);
            &&& step.action == Action::Respond {
                status: STATUS_CODE_UNSUPPORTED_MEDIA_TYPE,
                restart_after_ms: None,
            }
            &&& step.manager == manager
            &&& step.transfer.phase is Rejected
            &&& end.transfer == step.transfer
            &&& end.manager == manager
            &&& begins(end.actions) == 0
        }),
{
    let step = TransferView::fresh().next(manager, Event::Headers { content_type, content_length });
    lemma_finished_run_is_idle(step.transfer, step.manager, body);
}

/// A finished transfer stays as it is over any series of events, and asks for
/// nothing.
pub proof fn lemma_finished_run_is_idle(
    transfer: TransferView,
    manager: ManagerState,
    events: Seq<Event>,
)
    requires
        transfer.phase.spec_is_terminal(),
    ensures
        run(transfer, manager, events).transfer == transfer,
        run(transfer, manager, events).manager == manager,
        begins(run(transfer, manager, events).actions) == 0,
        writes(run(transfer, manager, events).actions) == 0,
        commits(run(transfer, manager, events).actions) == 0,
        aborts(run(transfer, manager, events).actions) == 0,
        responses(run(transfer, manager, events).actions) == 0,
        restarts(run(transfer, manager, events).actions) == 0,
    decreases events.len(),
{
    if events.len() > 0 {
        lemma_finished_run_is_idle(transfer, manager, events.drop_last());
        let before = run(transfer, manager, events.drop_last());
        lemma_terminal_is_final(before.transfer, before.manager, events.last());
        lemma_counts_push(before.actions, Action::Ignore);
    }
}

/// The events of a chunk of `len` bytes that the storage takes: the read, and
/// for a chunk that is not empty the storage's answer.
pub open spec fn chunk_events(len: usize) -> Seq<Event> {
    if len == 0 {
        seq![Event::Chunk { len }]
    } else {
        seq![Event::Chunk { len }, Event::Storage { ok: true }]
    }
}

/// The events of a body that arrives in `chunks`, each taken by the storage.
pub open spec fn delivery(chunks: Seq<usize>) -> Seq<Event>
    decreases chunks.len(),
{
    if chunks.len() == 0 {
        Seq::empty()
    } else {
        delivery(chunks.drop_last()) + chunk_events(chunks.last())
    }
}

/// The bytes of all `chunks` together.
pub open spec fn total(chunks: Seq<usize>) -> nat
    decreases chunks.len(),
{
    if chunks.len() == 0 {
        0
    } else {
        total(chunks.drop_last()) + chunks.last() as nat
    }
}

/// How many of `chunks` are not empty.
pub open spec fn filled(chunks: Seq<usize>) -> nat
    decreases chunks.len(),
{
    if chunks.len() == 0 {
        0
    } else {
        filled(chunks.drop_last()) + one_if(chunks.last() > 0)
    }
}

/// The sizes of the writes that `actions` ask for, in order.
pub open spec fn write_sizes(actions: Seq<Action>) -> Seq<usize>
    decreases actions.len(),
{
    if actions.len() == 0 {
        Seq::empty()
    } else {
        match actions.last() {
            Action::Write { len } => write_sizes(actions.drop_last()).push(len),
            _ => write_sizes(actions.drop_last()),
        }
    }
}

/// The size of the write that `action` asks for, if it asks for one.
pub open spec fn write_size(action: Action) -> Seq<usize> {
    match action {
        Action::Write { len } => seq![len],
        _ => Seq::empty(),
    }
}

/// The sizes of the chunks that are not empty, in order.
pub open spec fn filled_sizes(chunks: Seq<usize>) -> Seq<usize>
    decreases chunks.len(),
{
    if chunks.len() == 0 {
        Seq::empty()
    } else if chunks.last() > 0 {
        filled_sizes(chunks.drop_last()).push(chunks.last())
    } else {
        filled_sizes(chunks.drop_last())
    }
}

/// The writes of two series of actions follow each other.
pub proof fn lemma_write_sizes_append(first: Seq<Action>, second: Seq<Action>)
    ensures
        write_sizes(first + second) == write_sizes(first) + write_sizes(second),
    decreases second.len(),
{
    if second.len() == 0 {
        assert(first + second =~= first);
        assert(write_sizes(first) + Seq::<usize>::empty() =~= write_sizes(first));
    } else {
        lemma_write_sizes_append(first, second.drop_last());
        assert((first + second).drop_last() =~= first + second.drop_last());
        assert((first + second).last() == second.last());
        match second.last() {
            Action::Write { len } => {
                assert((write_sizes(first) + write_sizes(second.drop_last())).push(len)
                    =~= write_sizes(first) + write_sizes(second.drop_last()).push(len));
            },
            _ => {},
        }
    }
}

/// Whether `event` is a header with the accepted media type and the declared
/// length `declared_size`.
pub open spec fn accepted_headers(event: Event, declared_size: u64) -> bool {
    &&& event matches Event::Headers { content_type, content_length }
    &&& text_of_string(content_type) == Some(CONTENT_TYPE_OCTET_STREAM@)
    &&& content_length == Some(declared_size)
    &&& declared_size <= PARTITION_CAPACITY
}

/// Whether `manager` can open a transaction: it is initialized and free.
pub open spec fn ready(manager: ManagerState) -> bool {
    manager.available && manager.writer is None && manager.wf()
}

/// The events from the headers up to the end of a body that arrives in
/// `chunks`, with a storage that opens the slot and takes every chunk.
pub open spec fn upload(headers: Event, chunks: Seq<usize>) -> Seq<Event> {
    seq![headers, Event::Storage { ok: true }] + delivery(chunks)
}

/// Where a transfer stands after `received` of `declared_size` bytes, with
/// `manager` as it was before the request.
pub open spec fn streaming(manager: ManagerState, declared_size: u64, received: nat) -> Run {
    Run {
        transfer: TransferView {
            declared_size: declared_size as nat,
            bytes_received: received,
            phase: if received == declared_size {
                Phase::Committing
            } else {
                Phase::Reading
            },
            transaction: Some(
                TransactionState {
                    target: manager.update_slot(),
                    written: received,
                    open: true,
                },
            ),
            error: None,
        },
        manager: manager.locked_for(manager.update_slot()),
        actions: Seq::empty(),
    }
}

/// While chunks arrive and are taken, the transfer reads on, and it is about to
/// commit as soon as the declared length is reached. Every chunk that is not
/// empty is written once, before the next one is read.
pub proof fn lemma_delivery(
    manager: ManagerState,
    declared_size: u64,
    received: nat,
    chunks: Seq<usize>,
)
    requires
        ready(manager),
        declared_size <= PARTITION_CAPACITY,
        received + total(chunks) <= declared_size,
        forall|i: int| 0 <= i < chunks.len() ==> #[trigger] chunks[i] <= CHUNK_SIZE,
    ensures
        ({
            let start = streaming(manager, declared_size, received);
            let end = run(start.transfer, start.manager, delivery(chunks));
            let goal = streaming(manager, declared_size, received + total(chunks));
            &&& end.transfer == goal.transfer
            &&& end.manager == goal.manager
            &&& writes(end.actions) == filled(chunks)
            &&& write_sizes(end.actions) == filled_sizes(chunks)
            &&& begins(end.actions) == 0
            &&& aborts(end.actions) == 0
            &&& responses(end.actions) == 0
            &&& restarts(end.actions) == 0
            &&& commits(end.actions) == one_if(
                received < declared_size && received + total(chunks) == declared_size,
            )
        }),
    decreases chunks.len(),
{
    let start = streaming(manager, declared_size, received);
    if chunks.len() > 0 {
        let front = chunks.drop_last();
        let len = chunks.last();
        assert(chunks[chunks.len() - 1] <= CHUNK_SIZE);
        assert forall|i: int| 0 <= i < front.len() implies #[trigger] front[i] <= CHUNK_SIZE by {
            assert(front[i] == chunks[i]);
        }
        lemma_delivery(manager, declared_size, received, front);
        lemma_run_append(start.transfer, start.manager, delivery(front), chunk_events(len));
        let middle = run(start.transfer, start.manager, delivery(front));
        let so_far = received + total(front);
        assert(middle.transfer == streaming(manager, declared_size, so_far).transfer);
        let tail = run(middle.transfer, middle.manager, chunk_events(len));
        if len == 0 {
            lemma_run_one(middle.transfer, middle.manager, Event::Chunk { len });
        } else {
            lemma_run_two(
                middle.transfer,
                middle.manager,
                Event::Chunk { len },
                Event::Storage { ok: true },
            );
        }
        lemma_counts_sum(middle.actions, tail.actions);
        lemma_write_sizes_append(middle.actions, tail.actions);
        if len == 0 {
            assert(filled_sizes(front) + Seq::<usize>::empty() =~= filled_sizes(front));
        } else {
            assert(filled_sizes(front) + (Seq::<usize>::empty() + seq![len])
                =~= filled_sizes(front).push(len));
        }
    } else {
        assert(delivery(chunks) =~= Seq::<Event>::empty());
    }
}

/// The run of a single event is its step.
pub proof fn lemma_run_one(transfer: TransferView, manager: ManagerState, event: Event)
    ensures
        ({
            let step = transfer.next(manager, event);
            let end = run(transfer, manager, seq![event]);
            &&& end.transfer == step.transfer
            &&& end.manager == step.manager
            &&& end.actions == seq![step.action]
            &&& begins(end.actions) == one_if(step.action is BeginWrite)
            &&& writes(end.actions) == one_if(step.action is Write)
            &&& commits(end.actions) == one_if(step.action is Commit)
            &&& aborts(end.actions) == one_if(step.action is Abort)
            &&& responses(end.actions) == one_if(step.action is Respond)
            &&& restarts(end.actions) == one_if(asks_restart(step.action))
            &&& write_sizes(end.actions) == write_size(step.action)
        }),
{
    let step = transfer.next(manager, event);
    let events = seq![event];
    assert(seq![step.action].drop_last() =~= Seq::<Action>::empty());
    assert(write_sizes(Seq::<Action>::empty()) =~= Seq::<usize>::empty());
    assert(write_sizes(seq![step.action]) =~= write_size(step.action));
    assert(events.drop_last() =~= Seq::<Event>::empty());
    assert(events.last() == event);
    let end = run(transfer, manager, events);
    assert(run(transfer, manager, events.drop_last()).actions =~= Seq::<Action>::empty());
    assert(end.actions =~= seq![step.action]);
    lemma_counts_push(Seq::<Action>::empty(), step.action);
    assert(Seq::<Action>::empty().push(step.action) =~= seq![step.action]);
}

/// The run of two events is the second step after the first.
pub proof fn lemma_run_two(
    transfer: TransferView,
    manager: ManagerState,
    first: Event,
    second: Event,
)
    ensures
        ({
            let one = transfer.next(manager, first);
            let two = one.transfer.next(one.manager, second);
            let end = run(transfer, manager, seq![first, second]);
            &&& end.transfer == two.transfer
            &&& end.manager == two.manager
            &&& end.actions == seq![one.action, two.action]
            &&& begins(end.actions) == one_if(one.action is BeginWrite) + one_if(
                two.action is BeginWrite,
            )
            &&& writes(end.actions) == one_if(one.action is Write) + one_if(two.action is Write)
            &&& commits(end.actions) == one_if(one.action is Commit) + one_if(
                two.action is Commit,
            )
            &&& aborts(end.actions) == one_if(one.action is Abort) + one_if(two.action is Abort)
            &&& responses(end.actions) == one_if(one.action is Respond) + one_if(
                two.action is Respond,
            )
            &&& restarts(end.actions) == one_if(asks_restart(one.action)) + one_if(
                asks_restart(two.action),
            )
            &&& write_sizes(end.actions) == write_size(one.action) + write_size(two.action)
            &&& run(transfer, manager, seq![first]).actions == seq![one.action]
            &&& run(one.transfer, one.manager, seq![second]).actions == seq![two.action]
        }),
{
    let one = transfer.next(manager, first);
    lemma_run_one(transfer, manager, first);
    lemma_run_one(one.transfer, one.manager, second);
    lemma_run_append(transfer, manager, seq![first], seq![second]);
    assert(seq![first] + seq![second] =~= seq![first, second]);
    let two = one.transfer.next(one.manager, second);
    assert(seq![one.action] + seq![two.action] =~= seq![one.action, two.action]);
    lemma_counts_sum(seq![one.action], seq![two.action]);
    lemma_write_sizes_append(seq![one.action], seq![two.action]);
    assert(run(transfer, manager, seq![first]).actions == seq![one.action]);
    assert(run(one.transfer, one.manager, seq![second]).actions == seq![two.action]);
}

/// The counts of two series of actions add up.
pub proof fn lemma_counts_sum(first: Seq<Action>, second: Seq<Action>)
    ensures
        begins(first + second) == begins(first) + begins(second),
        writes(first + second) == writes(first) + writes(second),
        commits(first + second) == commits(first) + commits(second),
        aborts(first + second) == aborts(first) + aborts(second),
        responses(first + second) == responses(first) + responses(second),
        restarts(first + second) == restarts(first) + restarts(second),
    decreases second.len(),
{
    if second.len() == 0 {
        assert(first + second =~= first);
    } else {
        lemma_counts_sum(first, second.drop_last());
        assert(first + second =~= (first + second.drop_last()).push(second.last()));
        assert(second =~= second.drop_last().push(second.last()));
        lemma_counts_push(first + second.drop_last(), second.last());
        lemma_counts_push(second.drop_last(), second.last());
    }
}

/// After accepted headers and a body that arrived so far in `chunks`, each
/// taken by the storage, one transaction is open on the inactive slot, every
/// chunk that is not empty was written once, and the commit was asked for
/// exactly if the declared length is reached.
pub proof fn lemma_upload(
    manager: ManagerState,
    headers: Event,
    declared_size: u64,
    chunks: Seq<usize>,
)
    requires
        ready(manager),
        accepted_headers(headers, declared_size),
        total(chunks) <= declared_size,
        forall|i: int| 0 <= i < chunks.len() ==> #[trigger] chunks[i] <= CHUNK_SIZE,
    ensures
        ({
            let end = run(TransferView::fresh(), manager, upload(headers, chunks));
            let goal = streaming(manager, declared_size, total(chunks));
            &&& end.transfer == goal.transfer
            &&& end.manager == goal.manager
            &&& consistent(end.transfer, end.manager)
            &&& begins(end.actions) == 1
            &&& end.actions[0] == Action::BeginWrite { slot: manager.update_slot() }
            &&& writes(end.actions) == filled(chunks)
            &&& write_sizes(end.actions) == filled_sizes(chunks)
            &&& commits(end.actions) == one_if(total(chunks) == declared_size)
            &&& aborts(end.actions) == 0
            &&& responses(end.actions) == 0
            &&& restarts(end.actions) == 0
        }),
{
    let fresh = TransferView::fresh();
    let opened = Event::Storage { ok: true };
    lemma_run_two(fresh, manager, headers, opened);
    let head = run(fresh, manager, seq![headers, opened]);
    let start = streaming(manager, declared_size, 0);
    assert(head.transfer == start.transfer);
    assert(head.manager == start.manager);
    lemma_delivery(manager, declared_size, 0, chunks);
    lemma_run_append(fresh, manager, seq![headers, opened], delivery(chunks));
    let tail = run(start.transfer, start.manager, delivery(chunks));
    lemma_counts_sum(head.actions, tail.actions);
    lemma_write_sizes_append(head.actions, tail.actions);
    assert(Seq::<usize>::empty() + Seq::<usize>::empty() + filled_sizes(chunks) =~= filled_sizes(
        chunks,
    ));
    assert((head.actions + tail.actions)[0] == head.actions[0]);
}

/// A body that arrives complete is committed, and the restart is asked for.
///
/// With a storage that is initialized and free, headers that are accepted, a
/// body whose chunks add up to the declared length and a storage that takes
/// every chunk and finalizes the image: the transfer ends committed with the
/// answer 200; it opened one transaction, wrote every chunk that is not empty,
/// committed once, never aborted, and asked for the restart once, after the
/// fixed delay. The storage is free again and boots the written slot next. A
/// timer armed at `now` with that delay is due at `now` plus the delay.
pub proof fn lemma_complete_body_commits(
    manager: ManagerState,
    headers: Event,
    declared_size: u64,
    chunks: Seq<usize>,
    now: nat,
)
    requires
        ready(manager),
        accepted_headers(headers, declared_size),
        total(chunks) == declared_size,
        forall|i: int| 0 <= i < chunks.len() ==> #[trigger] chunks[i] <= CHUNK_SIZE,
    ensures
        ({
            let events = upload(headers, chunks) + seq![Event::Storage { ok: true }];
            let end = run(TransferView::fresh(), manager, events);
            &&& end.transfer.phase is Committed
            &&& end.transfer.error is None
            &&& end.transfer.bytes_received == declared_size
            &&& end.manager == manager.promoted(manager.update_slot())
            &&& end.actions.last() == Action::Respond {
                status: STATUS_CODE_OK,
                restart_after_ms: Some(RESTART_DELAY_MS),
            }
            &&& begins(end.actions) == 1
            &&& writes(end.actions) == filled(chunks)
            &&& write_sizes(end.actions) == filled_sizes(chunks)
            &&& commits(end.actions) == 1
            &&& aborts(end.actions) == 0
            &&& responses(end.actions) == 1
            &&& restarts(end.actions) == 1
            &&& SchedulerState::idle().armed(now, RESTART_DELAY_MS as nat).timer == Some(
                TimerState { fire_at: now + 5000, fired: false },
            )
        }),
{
    let fresh = TransferView::fresh();
    lemma_upload(manager, headers, declared_size, chunks);
    let body = run(fresh, manager, upload(headers, chunks));
    let finalized = Event::Storage { ok: true };
    lemma_run_one(body.transfer, body.manager, finalized);
    lemma_run_append(fresh, manager, upload(headers, chunks), seq![finalized]);
    let tail = run(body.transfer, body.manager, seq![finalized]);
    lemma_counts_sum(body.actions, tail.actions);
    lemma_write_sizes_append(body.actions, tail.actions);
    assert(filled_sizes(chunks) + Seq::<usize>::empty() =~= filled_sizes(chunks));
}

/// A write that fails aborts the transfer, and nothing restarts.
///
/// After any part of the body was taken, a chunk that the storage rejects ends
/// the transfer: it asks for the abort once, never for a commit and never for
/// the restart, and answers with a server error whatever the abort reports.
/// The storage is as it was before the request.
pub proof fn lemma_failed_write_aborts(
    manager: ManagerState,
    headers: Event,
    declared_size: u64,
    chunks: Seq<usize>,
    len: usize,
    abort_ok: bool,
)
    requires
        ready(manager),
        accepted_headers(headers, declared_size),
        0 < len <= CHUNK_SIZE,
        total(chunks) + len <= declared_size,
        forall|i: int| 0 <= i < chunks.len() ==> #[trigger] chunks[i] <= CHUNK_SIZE,
    ensures
        ({
            let events = upload(headers, chunks) + seq![
                Event::Chunk { len },
                Event::Storage { ok: false },
            ] + seq![Event::Storage { ok: abort_ok }];
            let end = run(TransferView::fresh(), manager, events);
            &&& end.transfer.phase is Aborted
            &&& end.transfer.error == Some(UpdateError::WriteFailed)
            &&& end.transfer.bytes_received == total(chunks)
            &&& end.manager == manager
            &&& end.actions.last() == Action::Respond {
                status: STATUS_CODE_INTERNAL_SERVER_ERROR,
                restart_after_ms: None,
            }
            &&& begins(end.actions) == 1
            &&& writes(end.actions) == filled(chunks) + 1
            &&& write_sizes(end.actions) == filled_sizes(chunks).push(len)
            &&& commits(end.actions) == 0
            &&& aborts(end.actions) == 1
            &&& responses(end.actions) == 1
            &&& restarts(end.actions) == 0
        }),
{
    let fresh = TransferView::fresh();
    lemma_upload(manager, headers, declared_size, chunks);
    let body = run(fresh, manager, upload(headers, chunks));
    let read = Event::Chunk { len };
    let rejected = Event::Storage { ok: false };
    let aborted = Event::Storage { ok: abort_ok };
    lemma_run_two(body.transfer, body.manager, read, rejected);
    lemma_run_append(fresh, manager, upload(headers, chunks), seq![read, rejected]);
    let failing = run(body.transfer, body.manager, seq![read, rejected]);
    lemma_counts_sum(body.actions, failing.actions);
    lemma_write_sizes_append(body.actions, failing.actions);
    let failed = run(fresh, manager, upload(headers, chunks) + seq![read, rejected]);
    lemma_run_one(failed.transfer, failed.manager, aborted);
    lemma_run_append(
        fresh,
        manager,
        upload(headers, chunks) + seq![read, rejected],
        seq![aborted],
    );
    let tail = run(failed.transfer, failed.manager, seq![aborted]);
    lemma_counts_sum(failed.actions, tail.actions);
    lemma_write_sizes_append(failed.actions, tail.actions);
    assert(filled_sizes(chunks) + (seq![len] + Seq::<usize>::empty()) + Seq::<usize>::empty()
        =~= filled_sizes(chunks).push(len));
}

/// A body that ends or fails before the declared length aborts the transfer,
/// and nothing restarts.
pub proof fn lemma_short_body_aborts(
    manager: ManagerState,
    headers: Event,
    declared_size: u64,
    chunks: Seq<usize>,
    abort_ok: bool,
)
    requires
        ready(manager),
        accepted_headers(headers, declared_size),
        total(chunks) < declared_size,
        forall|i: int| 0 <= i < chunks.len() ==> #[trigger] chunks[i] <= CHUNK_SIZE,
    ensures
        ({
            let events = upload(headers, chunks) + seq![
                Event::ReadFailed,
                Event::Storage { ok: abort_ok },
            ];
            let end = run(TransferView::fresh(), manager, events);
            &&& end.transfer.phase is Aborted
            &&& end.transfer.error == Some(UpdateError::ReadFailed)
            &&& end.manager == manager
            &&& end.actions.last() == Action::Respond {
                status: STATUS_CODE_INTERNAL_SERVER_ERROR,
                restart_after_ms: None,
            }
            &&& begins(end.actions) == 1
            &&& writes(end.actions) == filled(chunks)
            &&& commits(end.actions) == 0
            &&& aborts(end.actions) == 1
            &&& responses(end.actions) == 1
            &&& restarts(end.actions) == 0
        }),
{
    let fresh = TransferView::fresh();
    lemma_upload(manager, headers, declared_size, chunks);
    let body = run(fresh, manager, upload(headers, chunks));
    let aborted = Event::Storage { ok: abort_ok };
    lemma_run_two(body.transfer, body.manager, Event::ReadFailed, aborted);
    lemma_run_append(fresh, manager, upload(headers, chunks), seq![Event::ReadFailed, aborted]);
    let tail = run(body.transfer, body.manager, seq![Event::ReadFailed, aborted]);
    lemma_counts_sum(body.actions, tail.actions);
}

/// An image that the storage cannot finalize fails the request without an
/// abort, and nothing restarts: the transaction is closed already, the storage
/// is free and boots what it booted before.
pub proof fn lemma_failed_commit_fails(
    manager: ManagerState,
    headers: Event,
    declared_size: u64,
    chunks: Seq<usize>,
)
    requires
        ready(manager),
        accepted_headers(headers, declared_size),
        total(chunks) == declared_size,
        forall|i: int| 0 <= i < chunks.len() ==> #[trigger] chunks[i] <= CHUNK_SIZE,
    ensures
        ({
            let events = upload(headers, chunks) + seq![Event::Storage { ok: false }];
            let end = run(TransferView::fresh(), manager, events);
            &&& end.transfer.phase is Aborted
            &&& end.transfer.error == Some(UpdateError::CommitFailed)
            &&& end.manager == manager
            &&& end.actions.last() == Action::Respond {
                status: STATUS_CODE_INTERNAL_SERVER_ERROR,
                restart_after_ms: None,
            }
            &&& begins(end.actions) == 1
            &&& commits(end.actions) == 1
            &&& aborts(end.actions) == 0
            &&& responses(end.actions) == 1
            &&& restarts(end.actions) == 0
        }),
{
    let fresh = TransferView::fresh();
    lemma_upload(manager, headers, declared_size, chunks);
    let body = run(fresh, manager, upload(headers, chunks));
    let refused = Event::Storage { ok: false };
    lemma_run_one(body.transfer, body.manager, refused);
    lemma_run_append(fresh, manager, upload(headers, chunks), seq![refused]);
    let tail = run(body.transfer, body.manager, seq![refused]);
    lemma_counts_sum(body.actions, tail.actions);
}

} // verus!
