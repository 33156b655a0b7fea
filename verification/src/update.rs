//! The over-the-air update transfer.
//!
//! One [`Transfer`] lives for one update request. It never touches the network
//! or the flash: it is told what happened ([`Event`]) and answers with the one
//! thing to do next ([`Action`]). The caller performs the action and comes back
//! with its outcome, until the answer is [`Action::Respond`].
//!
//! The headers are checked in a fixed order (media type, declared length,
//! length against the slot size); only then is the write transaction opened on
//! the inactive slot. The body is read in chunks of at most [`CHUNK_SIZE`]
//! bytes and never beyond the declared length; every non-empty chunk is written
//! before the next one is read. A failed read, a chunk longer than asked for or
//! a failed write aborts the transaction. Reaching the declared length commits
//! it, and only a successful commit asks for the restart.

use crate::restart::RESTART_DELAY_MS;
use crate::status::{
    STATUS_CODE_INTERNAL_SERVER_ERROR,
    STATUS_CODE_LENGTH_REQUIRED,
    STATUS_CODE_OK,
    STATUS_CODE_PAYLOAD_TOO_LARGE,
    STATUS_CODE_UNSUPPORTED_MEDIA_TYPE,
};
use crate::storage::{
    ManagerState,
    PartitionManager,
    SlotId,
    StorageError,
    Transaction,
    TransactionState,
    PARTITION_CAPACITY,
};
use crate::text::{same_text, text_of_str, text_of_string};
use vstd::prelude::*;

verus! {

/// The only media type that an update request may declare.
pub const CONTENT_TYPE_OCTET_STREAM: &'static str = "application/octet-stream";

/// Most bytes asked for in one read.
pub const CHUNK_SIZE: usize = 8192;

/// Why an update did not go through.
#[derive(Clone, Copy, Debug, PartialEq, Eq, Structural)]
pub enum UpdateError {
    /// The media type is not [`CONTENT_TYPE_OCTET_STREAM`].
    UnsupportedMediaType,
    /// No body length was declared.
    LengthRequired,
    /// The declared length exceeds [`PARTITION_CAPACITY`].
    PayloadTooLarge,
    /// The write transaction could not be opened.
    BeginFailed(StorageError),
    /// The body ended or failed before the declared length, or a read
    /// delivered more than was asked for.
    ReadFailed,
    /// The storage rejected a chunk.
    WriteFailed,
    /// The storage could not finalize the image.
    CommitFailed,
}

impl UpdateError {
    /// The status that answers a request which failed with `self`.
    pub open spec fn spec_status_code(self) -> u16 {
        match self {
            UpdateError::UnsupportedMediaType => STATUS_CODE_UNSUPPORTED_MEDIA_TYPE,
            UpdateError::LengthRequired => STATUS_CODE_LENGTH_REQUIRED,
            UpdateError::PayloadTooLarge => STATUS_CODE_PAYLOAD_TOO_LARGE,
            _ => STATUS_CODE_INTERNAL_SERVER_ERROR,
        }
    }

    /// The status that answers a request which failed with `self`.
    #[verifier::when_used_as_spec(spec_status_code)]
    pub fn status_code(self) -> (status: u16)
        ensures
            status == self.spec_status_code(),
    {
        match self {
            UpdateError::UnsupportedMediaType => STATUS_CODE_UNSUPPORTED_MEDIA_TYPE,
            UpdateError::LengthRequired => STATUS_CODE_LENGTH_REQUIRED,
            UpdateError::PayloadTooLarge => STATUS_CODE_PAYLOAD_TOO_LARGE,
            _ => STATUS_CODE_INTERNAL_SERVER_ERROR,
        }
    }
}

/// Where a transfer stands, as the request sees it.
#[derive(Clone, Copy, Debug, PartialEq, Eq, Structural)]
pub enum TransferState {
    /// The headers are not checked yet.
    Validating,
    /// The transaction is open and the body is on its way.
    Streaming,
    /// The image was committed.
    Committed,
    /// The transaction was opened and then given up.
    Aborted,
    /// The headers were refused; no transaction was opened.
    Rejected,
}

/// Where a transfer stands, step by step.
#[derive(Clone, Copy, Debug, PartialEq, Eq, Structural)]
pub enum Phase {
    /// Waiting for the headers.
    Validating,
    /// Waiting for the storage to open the slot.
    Opening,
    /// Waiting for the next chunk of the body.
    Reading,
    /// Waiting for the storage to take a chunk of `len` bytes.
    Writing { len: usize },
    /// Waiting for the storage to finalize the image.
    Committing,
    /// Waiting for the storage to discard the image.
    Aborting,
    /// Done: the image was committed.
    Committed,
    /// Done: the transaction was given up.
    Aborted,
    /// Done: the headers were refused.
    Rejected,
}

impl Phase {
    /// The state that the phase belongs to.
    pub open spec fn spec_state(self) -> TransferState {
        match self {
            Phase::Validating => TransferState::Validating,
            Phase::Committed => TransferState::Committed,
            Phase::Aborted => TransferState::Aborted,
            Phase::Rejected => TransferState::Rejected,
            _ => TransferState::Streaming,
        }
    }

    /// The state that the phase belongs to.
    #[verifier::when_used_as_spec(spec_state)]
    pub fn state(self) -> (state: TransferState)
        ensures
            state == self.spec_state(),
    {
        match self {
            Phase::Validating => TransferState::Validating,
            Phase::Committed => TransferState::Committed,
            Phase::Aborted => TransferState::Aborted,
            Phase::Rejected => TransferState::Rejected,
            _ => TransferState::Streaming,
        }
    }

    /// Whether nothing can follow the phase.
    pub open spec fn spec_is_terminal(self) -> bool {
        self is Committed || self is Aborted || self is Rejected
    }

    /// Whether nothing can follow the phase.
    #[verifier::when_used_as_spec(spec_is_terminal)]
    pub fn is_terminal(self) -> (terminal: bool)
        ensures
            terminal == self.spec_is_terminal(),
    {
        match self {
            Phase::Committed | Phase::Aborted | Phase::Rejected => true,
            _ => false,
        }
    }

    /// Whether a transaction is open during the phase.
    pub open spec fn holds_transaction(self) -> bool {
        self is Opening || self is Reading || self is Writing || self is Committing
            || self is Aborting
    }

    /// Position of the phase in the order in which phases can follow each
    /// other. Reading and writing alternate and share a position.
    pub open spec fn rank(self) -> nat {
        match self {
            Phase::Validating => 0,
            Phase::Opening => 1,
            Phase::Reading => 2,
            Phase::Writing { .. } => 2,
            Phase::Committing => 3,
            Phase::Aborting => 3,
            Phase::Committed => 4,
            Phase::Aborted => 4,
            Phase::Rejected => 4,
        }
    }
}

/// What happened since the last action.
#[derive(Debug)]
pub enum Event {
    /// The request's headers arrived.
    Headers { content_type: Option<String>, content_length: Option<u64> },
    /// The storage finished the action it was asked for.
    Storage { ok: bool },
    /// A read delivered `len` bytes, possibly none.
    Chunk { len: usize },
    /// The body failed or ended.
    ReadFailed,
}

/// The one thing to do next.
#[derive(Clone, Copy, Debug, PartialEq, Eq, Structural)]
pub enum Action {
    /// Open `slot` for writing, then report `Event::Storage`.
    BeginWrite { slot: SlotId },
    /// Read at most `max_len` bytes of the body, then report `Event::Chunk` or
    /// `Event::ReadFailed`.
    Read { max_len: usize },
    /// Write the `len` bytes just read, then report `Event::Storage`.
    Write { len: usize },
    /// Finalize the image, then report `Event::Storage`.
    Commit,
    /// Discard the image, then report `Event::Storage`.
    Abort,
    /// Answer the request with `status`; then, whether or not the answer could
    /// be sent, arm the restart for `restart_after_ms` if that is given.
    Respond { status: u16, restart_after_ms: Option<u64> },
    /// The event was not asked for: nothing changed, nothing to do.
    Ignore,
}

/// Why headers are refused, if they are: the media type is looked at first,
/// then the presence of a length, then its size.
pub open spec fn validation_error(
    content_type: Option<Seq<char>>,
    content_length: Option<u64>,
) -> Option<UpdateError> {
    if content_type != Some(CONTENT_TYPE_OCTET_STREAM@) {
        Some(UpdateError::UnsupportedMediaType)
    } else if content_length is None {
        Some(UpdateError::LengthRequired)
    } else if content_length->0 > PARTITION_CAPACITY {
        Some(UpdateError::PayloadTooLarge)
    } else {
        None
    }
}

/// Why `event` is refused as the headers of a request, if it is.
pub open spec fn refusal(event: Event) -> Option<UpdateError> {
    match event {
        Event::Headers { content_type, content_length } => validation_error(
            text_of_string(content_type),
            content_length,
        ),
        _ => None,
    }
}

/// What a [`Transfer`] knows, as a mathematical value.
pub struct TransferView {
    /// Length of the body as the request declared it.
    pub declared_size: nat,
    /// Bytes written so far.
    pub bytes_received: nat,
    /// Where the transfer stands.
    pub phase: Phase,
    /// The write transaction, once it was opened.
    pub transaction: Option<TransactionState>,
    /// Why the transfer failed, once it did.
    pub error: Option<UpdateError>,
}

/// A transfer, the storage and the action that a step leaves behind.
pub struct Step {
    pub transfer: TransferView,
    pub manager: ManagerState,
    pub action: Action,
}

impl TransferView {
    /// A transfer that waits for its headers.
    pub open spec fn fresh() -> TransferView {
        TransferView {
            declared_size: 0,
            bytes_received: 0,
            phase: Phase::Validating,
            transaction: None,
            error: None,
        }
    }

    /// Never more bytes than declared, never more declared than a slot holds,
    /// and in each phase the transaction and the error that belong to it.
    pub open spec fn wf(self) -> bool {
        &&& self.bytes_received <= self.declared_size <= PARTITION_CAPACITY
        &&& match self.phase {
            Phase::Validating => self.transaction is None && self.error is None
                && self.declared_size == 0,
            Phase::Rejected => self.transaction is None && self.error is Some
                && self.bytes_received == 0,
            Phase::Opening => self.error is None && self.bytes_received == 0,
            Phase::Reading => self.error is None && self.bytes_received < self.declared_size,
            Phase::Writing { len } => self.error is None && 0 < len <= self.declared_size
                - self.bytes_received && len <= CHUNK_SIZE,
            Phase::Committing => self.error is None && self.bytes_received == self.declared_size,
            Phase::Aborting => self.error is Some,
            Phase::Committed => self.error is None && self.bytes_received == self.declared_size,
            Phase::Aborted => self.error is Some,
        }
        &&& self.phase.holds_transaction() ==> (self.transaction matches Some(transaction)
            && transaction.open && (self.phase is Aborting || transaction.written
            == self.bytes_received))
        &&& self.phase is Committed ==> (self.transaction matches Some(transaction)
            && !transaction.open)
        &&& self.phase is Aborted ==> self.transaction is Some
    }

    /// Most bytes that the next read may deliver.
    pub open spec fn max_read(self) -> nat {
        if self.declared_size - self.bytes_received < CHUNK_SIZE {
            (self.declared_size - self.bytes_received) as nat
        } else {
            CHUNK_SIZE as nat
        }
    }

    /// The transfer refused with `error` before any transaction was opened.
    pub open spec fn rejected(self, error: UpdateError) -> TransferView {
        TransferView { phase: Phase::Rejected, error: Some(error), ..self }
    }

    /// The step that gives the open transaction up because of `error`.
    pub open spec fn abort_with(self, manager: ManagerState, error: UpdateError) -> Step {
        Step {
            transfer: TransferView { phase: Phase::Aborting, error: Some(error), ..self },
            manager,
            action: Action::Abort,
        }
    }

    /// The step that goes on with the body, or commits once it is complete.
    pub open spec fn proceed(self, manager: ManagerState) -> Step {
        if self.bytes_received == self.declared_size {
            Step {
                transfer: TransferView { phase: Phase::Committing, ..self },
                manager,
                action: Action::Commit,
            }
        } else {
            Step {
                transfer: TransferView { phase: Phase::Reading, ..self },
                manager,
                action: Action::Read { max_len: self.max_read() as usize },
            }
        }
    }

    /// The step on the request's headers.
    pub open spec fn on_headers(
        self,
        manager: ManagerState,
        content_type: Option<Seq<char>>,
        content_length: Option<u64>,
    ) -> Step {
        match validation_error(content_type, content_length) {
            Some(error) => Step {
                transfer: self.rejected(error),
                manager,
                action: Action::Respond {
                    status: error.spec_status_code(),
                    restart_after_ms: None,
                },
            },
            None => match manager.begin_error(manager.update_slot()) {
                Some(refusal) => Step {
                    transfer: self.rejected(UpdateError::BeginFailed(refusal)),
                    manager,
                    action: Action::Respond {
                        status: STATUS_CODE_INTERNAL_SERVER_ERROR,
                        restart_after_ms: None,
                    },
                },
                None => Step {
                    transfer: TransferView {
                        declared_size: content_length->0 as nat,
                        bytes_received: 0,
                        phase: Phase::Opening,
                        transaction: Some(
                            TransactionState {
                                target: manager.update_slot(),
                                written: 0,
                                open: true,
                            },
                        ),
                        error: None,
                    },
                    manager: manager.locked_for(manager.update_slot()),
                    action: Action::BeginWrite { slot: manager.update_slot() },
                },
            },
        }
    }

    /// The step on the storage's answer to opening the slot.
    pub open spec fn on_opened(self, manager: ManagerState, ok: bool) -> Step {
        if ok {
            self.proceed(manager)
        } else {
            Step {
                transfer: TransferView {
                    phase: Phase::Aborted,
                    transaction: Some(self.transaction->0.after_abort()),
                    error: Some(UpdateError::BeginFailed(StorageError::StorageUnavailable)),
                    ..self
                },
                manager: manager.after_abort_of(self.transaction->0),
                action: Action::Respond {
                    status: STATUS_CODE_INTERNAL_SERVER_ERROR,
                    restart_after_ms: None,
                },
            }
        }
    }

    /// The step on a chunk of `len` bytes.
    pub open spec fn on_chunk(self, manager: ManagerState, len: usize) -> Step {
        if len == 0 {
            Step { transfer: self, manager, action: Action::Read { max_len: self.max_read() as usize } }
        } else if len > self.max_read() {
            self.abort_with(manager, UpdateError::ReadFailed)
        } else {
            Step {
                transfer: TransferView { phase: Phase::Writing { len }, ..self },
                manager,
                action: Action::Write { len },
            }
        }
    }

    /// The step on the storage's answer to a write of `len` bytes.
    pub open spec fn on_written(self, manager: ManagerState, len: usize, ok: bool) -> Step {
        if self.transaction->0.accepts(manager, len as nat, ok) {
            TransferView {
                bytes_received: self.bytes_received + len as nat,
                transaction: Some(self.transaction->0.extended(len as nat)),
                ..self
            }.proceed(manager)
        } else {
            self.abort_with(manager, UpdateError::WriteFailed)
        }
    }

    /// The step on the storage's answer to the finalization.
    pub open spec fn on_committed(self, manager: ManagerState, ok: bool) -> Step {
        if self.transaction->0.active_in(manager) && ok {
            Step {
                transfer: TransferView {
                    phase: Phase::Committed,
                    transaction: Some(self.transaction->0.closed()),
                    ..self
                },
                manager: manager.promoted(self.transaction->0.target),
                action: Action::Respond {
                    status: STATUS_CODE_OK,
                    restart_after_ms: Some(RESTART_DELAY_MS),
                },
            }
        } else {
            Step {
                transfer: TransferView {
                    phase: Phase::Aborted,
                    transaction: Some(self.transaction->0.after_commit(manager)),
                    error: Some(UpdateError::CommitFailed),
                    ..self
                },
                manager: manager.after_commit_of(self.transaction->0, ok),
                action: Action::Respond {
                    status: STATUS_CODE_INTERNAL_SERVER_ERROR,
                    restart_after_ms: None,
                },
            }
        }
    }

    /// The step on the storage's answer to the abort, whatever it is.
    pub open spec fn on_aborted(self, manager: ManagerState) -> Step {
        Step {
            transfer: TransferView {
                phase: Phase::Aborted,
                transaction: Some(self.transaction->0.after_abort()),
                ..self
            },
            manager: manager.after_abort_of(self.transaction->0),
            action: Action::Respond {
                status: STATUS_CODE_INTERNAL_SERVER_ERROR,
                restart_after_ms: None,
            },
        }
    }

    /// The transfer after it was given up: a transaction that it still holds
    /// is discarded, and the error is the one it already had or, without one,
    /// `ReadFailed`. A transfer without a transaction stays as it is.
    pub open spec fn abandoned(self) -> TransferView {
        if self.phase.holds_transaction() {
            TransferView {
                phase: Phase::Aborted,
                transaction: Some(self.transaction->0.after_abort()),
                error: Some(
                    match self.error {
                        Some(error) => error,
                        None => UpdateError::ReadFailed,
                    },
                ),
                ..self
            }
        } else {
            self
        }
    }

    /// The storage after the transfer was given up.
    pub open spec fn released(self, manager: ManagerState) -> ManagerState {
        if self.phase.holds_transaction() {
            manager.after_abort_of(self.transaction->0)
        } else {
            manager
        }
    }

    /// The step that `event` causes. An event that the phase does not wait for
    /// changes nothing.
    pub open spec fn next(self, manager: ManagerState, event: Event) -> Step {
        match (self.phase, event) {
            (Phase::Validating, Event::Headers { content_type, content_length }) => self.on_headers(
                manager,
                text_of_string(content_type),
                content_length,
            ),
            (Phase::Opening, Event::Storage { ok }) => self.on_opened(manager, ok),
            (Phase::Reading, Event::Chunk { len }) => self.on_chunk(manager, len),
            (Phase::Reading, Event::ReadFailed) => self.abort_with(
                manager,
                UpdateError::ReadFailed,
            ),
            (Phase::Writing { len }, Event::Storage { ok }) => self.on_written(manager, len, ok),
            (Phase::Committing, Event::Storage { ok }) => self.on_committed(manager, ok),
            (Phase::Aborting, Event::Storage { .. }) => self.on_aborted(manager),
            _ => Step { transfer: self, manager, action: Action::Ignore },
        }
    }
}

/// Checks the headers of an update request and gives the declared length.
///
/// The media type is looked at first, then the presence of a length, then its
/// size: the first check that fails names the error.
pub fn validate(content_type: Option<&str>, content_length: Option<u64>) -> (result: Result<
    u64,
    UpdateError,
>)
    ensures
        result == match validation_error(text_of_str(content_type), content_length) {
            Some(error) => Err::<u64, UpdateError>(error),
            None => Ok::<u64, UpdateError>(content_length->0),
        },
{
    let accepted = match content_type {
        Some(text) => same_text(text, CONTENT_TYPE_OCTET_STREAM),
        None => false,
    };
    if !accepted {
        return Err(UpdateError::UnsupportedMediaType);
    }
    match content_length {
        None => Err(UpdateError::LengthRequired),
        Some(length) => {
            if length > PARTITION_CAPACITY {
                Err(UpdateError::PayloadTooLarge)
            } else {
                Ok(length)
            }
        },
    }
}

/// The transfer of one update request.
pub struct Transfer {
    declared_size: u64,
    bytes_received: u64,
    phase: Phase,
    transaction: Option<Transaction>,
    error: Option<UpdateError>,
}

impl View for Transfer {
    type V = TransferView;

    closed spec fn view(&self) -> TransferView {
        TransferView {
            declared_size: self.declared_size as nat,
            bytes_received: self.bytes_received as nat,
            phase: self.phase,
            transaction: match self.transaction {
                Some(transaction) => Some(transaction@),
                None => None,
            },
            error: self.error,
        }
    }
}

impl Transfer {
    #[verifier::type_invariant]
    spec fn inv(&self) -> bool {
        self@.wf()
    }

    /// A transfer that waits for its headers.
    pub fn new() -> (transfer: Transfer)
        ensures
            transfer@ == TransferView::fresh(),
    {
        Transfer {
            declared_size: 0,
            bytes_received: 0,
            phase: Phase::Validating,
            transaction: None,
            error: None,
        }
    }

    /// Where the transfer stands, as the request sees it.
    pub fn state(&self) -> (state: TransferState)
        ensures
            state == self@.phase.spec_state(),
    {
        self.phase.state()
    }

    /// Where the transfer stands, step by step.
    pub fn phase(&self) -> (phase: Phase)
        ensures
            phase == self@.phase,
            self@.wf(),
    {
        proof {
            use_type_invariant(self);
        }
        self.phase
    }

    /// Whether the request is over.
    pub fn is_finished(&self) -> (finished: bool)
        ensures
            finished == self@.phase.spec_is_terminal(),
    {
        self.phase.is_terminal()
    }

    /// Length of the body as the request declared it; zero until the headers
    /// were accepted.
    pub fn declared_size(&self) -> (size: u64)
        ensures
            size == self@.declared_size,
            size <= PARTITION_CAPACITY,
    {
        proof {
            use_type_invariant(self);
        }
        self.declared_size
    }

    /// Bytes written so far.
    pub fn bytes_received(&self) -> (count: u64)
        ensures
            count == self@.bytes_received,
            count <= self@.declared_size,
    {
        proof {
            use_type_invariant(self);
        }
        self.bytes_received
    }

    /// Why the transfer failed, once it did.
    pub fn error(&self) -> (error: Option<UpdateError>)
        ensures
            error == self@.error,
    {
        self.error
    }

    /// Gives the transfer up, as when the request ends before its answer: a
    /// transaction that the transfer still holds is aborted, so that the
    /// storage is free for the next request.
    pub fn abandon(self, manager: &mut PartitionManager) -> (transfer: Transfer)
        ensures
            transfer@ == self@.abandoned(),
            final(manager)@ == self@.released(old(manager)@),
            transfer@.wf(),
            final(manager)@.wf(),
    {
        proof {
            use_type_invariant(&self);
            use_type_invariant(&*manager);
        }
        let Transfer { declared_size, bytes_received, phase, transaction, error } = self;
        match (phase, transaction) {
            (
                Phase::Opening
                | Phase::Reading
                | Phase::Writing { .. }
                | Phase::Committing
                | Phase::Aborting,
                Some(mut opened),
            ) => {
                let _ = opened.abort(manager);
                let error = match error {
                    Some(error) => error,
                    None => UpdateError::ReadFailed,
                };
                Transfer {
                    declared_size,
                    bytes_received,
                    phase: Phase::Aborted,
                    transaction: Some(opened),
                    error: Some(error),
                }
            },
            (_, transaction) => Transfer {
                declared_size,
                bytes_received,
                phase,
                transaction,
                error,
            },
        }
    }

    /// Goes on with the body, or commits once it is complete.
    fn proceed(declared_size: u64, bytes_received: u64, transaction: Transaction) -> (result: (
        Transfer,
        Action,
    ))
        requires
            bytes_received <= declared_size <= PARTITION_CAPACITY,
            transaction@.open,
            transaction@.written == bytes_received,
        ensures
            forall|manager: ManagerState, phase: Phase|
                (Step { transfer: result.0@, manager, action: result.1 }) == (#[trigger] TransferView {
                    declared_size: declared_size as nat,
                    bytes_received: bytes_received as nat,
                    phase,
                    transaction: Some(transaction@),
                    error: None,
                }.proceed(manager)),
    {
        if bytes_received == declared_size {
            (
                Transfer {
                    declared_size,
                    bytes_received,
                    phase: Phase::Committing,
                    transaction: Some(transaction),
                    error: None,
                },
                Action::Commit,
            )
        } else {
            let remaining: u64 = declared_size - bytes_received;
            let max_len: usize = if remaining < CHUNK_SIZE as u64 {
                remaining as usize
            } else {
                CHUNK_SIZE
            };
            (
                Transfer {
                    declared_size,
                    bytes_received,
                    phase: Phase::Reading,
                    transaction: Some(transaction),
                    error: None,
                },
                Action::Read { max_len },
            )
        }
    }

    /// Takes `event` and says what to do next.
    ///
    /// The result is the transfer after the event and the action that the
    /// caller owes; `manager` is the storage after the event. All three are
    /// given by [`TransferView::next`].
    pub fn step(self, manager: &mut PartitionManager, event: &Event) -> (result: (
        Transfer,
        Action,
    ))
        ensures
            (Step { transfer: result.0@, manager: final(manager)@, action: result.1 })
                == self@.next(old(manager)@, *event),
            self@.wf(),
            result.0@.wf(),
            final(manager)@.wf(),
            self@.phase is Validating && refusal(*event) is Some ==> result.1 == (Action::Respond {
                status: refusal(*event)->0.spec_status_code(),
                restart_after_ms: None,
            }) && result.0@.phase is Rejected && final(manager)@ == old(manager)@,
            result.1 matches Action::Respond { restart_after_ms: Some(_), .. } ==> result.1 == (
            Action::Respond { status: STATUS_CODE_OK, restart_after_ms: Some(RESTART_DELAY_MS) })
                && result.0@.phase is Committed,
    {
        proof {
            use_type_invariant(&self);
            use_type_invariant(&*manager);
        }
        let Transfer { declared_size, bytes_received, phase, transaction, error } = self;
        let result = match phase {
            Phase::Validating => match event {
                Event::Headers { content_type, content_length } => {
                    let text: Option<&str> = match content_type {
                        Some(text) => Some(text.as_str()),
                        None => None,
                    };
                    match validate(text, *content_length) {
                        Err(refusal) => (
                            Transfer {
                                declared_size,
                                bytes_received,
                                phase: Phase::Rejected,
                                transaction,
                                error: Some(refusal),
                            },
                            Action::Respond {
                                status: refusal.status_code(),
                                restart_after_ms: None,
                            },
                        ),
                        Ok(length) => {
                            let slot = manager.current_update_slot();
                            match manager.begin_write(slot) {
                                Err(refusal) => (
                                    Transfer {
                                        declared_size,
                                        bytes_received,
                                        phase: Phase::Rejected,
                                        transaction,
                                        error: Some(UpdateError::BeginFailed(refusal)),
                                    },
                                    Action::Respond {
                                        status: STATUS_CODE_INTERNAL_SERVER_ERROR,
                                        restart_after_ms: None,
                                    },
                                ),
                                Ok(opened) => (
                                    Transfer {
                                        declared_size: length,
                                        bytes_received: 0,
                                        phase: Phase::Opening,
                                        transaction: Some(opened),
                                        error: None,
                                    },
                                    Action::BeginWrite { slot },
                                ),
                            }
                        },
                    }
                },
                _ => (
                    Transfer { declared_size, bytes_received, phase, transaction, error },
                    Action::Ignore,
                ),
            },
            Phase::Opening => match (event, transaction) {
                (Event::Storage { ok }, Some(mut opened)) => {
                    if *ok {
                        Transfer::proceed(declared_size, bytes_received, opened)
                    } else {
                        let _ = opened.abort(manager);
                        (
                            Transfer {
                                declared_size,
                                bytes_received,
                                phase: Phase::Aborted,
                                transaction: Some(opened),
                                error: Some(
                                    UpdateError::BeginFailed(StorageError::StorageUnavailable),
                                ),
                            },
                            Action::Respond {
                                status: STATUS_CODE_INTERNAL_SERVER_ERROR,
                                restart_after_ms: None,
                            },
                        )
                    }
                },
                (_, transaction) => (
                    Transfer { declared_size, bytes_received, phase, transaction, error },
                    Action::Ignore,
                ),
            },
            Phase::Reading => match event {
                Event::Chunk { len } => {
                    let remaining: u64 = declared_size - bytes_received;
                    let max_len: usize = if remaining < CHUNK_SIZE as u64 {
                        remaining as usize
                    } else {
                        CHUNK_SIZE
                    };
                    if *len == 0 {
                        (
                            Transfer { declared_size, bytes_received, phase, transaction, error },
                            Action::Read { max_len },
                        )
                    } else if *len > max_len {
                        (
                            Transfer {
                                declared_size,
                                bytes_received,
                                phase: Phase::Aborting,
                                transaction,
                                error: Some(UpdateError::ReadFailed),
                            },
                            Action::Abort,
                        )
                    } else {
                        (
                            Transfer {
                                declared_size,
                                bytes_received,
                                phase: Phase::Writing { len: *len },
                                transaction,
                                error,
                            },
                            Action::Write { len: *len },
                        )
                    }
                },
                Event::ReadFailed => (
                    Transfer {
                        declared_size,
                        bytes_received,
                        phase: Phase::Aborting,
                        transaction,
                        error: Some(UpdateError::ReadFailed),
                    },
                    Action::Abort,
                ),
                _ => (
                    Transfer { declared_size, bytes_received, phase, transaction, error },
                    Action::Ignore,
                ),
            },
            Phase::Writing { len } => match (event, transaction) {
                (Event::Storage { ok }, Some(mut opened)) => {
                    match opened.write(&*manager, len, *ok) {
                        Ok(()) => Transfer::proceed(
                            declared_size,
                            bytes_received + len as u64,
                            opened,
                        ),
                        Err(_) => (
                            Transfer {
                                declared_size,
                                bytes_received,
                                phase: Phase::Aborting,
                                transaction: Some(opened),
                                error: Some(UpdateError::WriteFailed),
                            },
                            Action::Abort,
                        ),
                    }
                },
                (_, transaction) => (
                    Transfer { declared_size, bytes_received, phase, transaction, error },
                    Action::Ignore,
                ),
            },
            Phase::Committing => match (event, transaction) {
                (Event::Storage { ok }, Some(mut opened)) => {
                    match opened.commit(manager, *ok) {
                        Ok(()) => (
                            Transfer {
                                declared_size,
                                bytes_received,
                                phase: Phase::Committed,
                                transaction: Some(opened),
                                error,
                            },
                            Action::Respond {
                                status: STATUS_CODE_OK,
                                restart_after_ms: Some(RESTART_DELAY_MS),
                            },
                        ),
                        Err(_) => (
                            Transfer {
                                declared_size,
                                bytes_received,
                                phase: Phase::Aborted,
                                transaction: Some(opened),
                                error: Some(UpdateError::CommitFailed),
                            },
                            Action::Respond {
                                status: STATUS_CODE_INTERNAL_SERVER_ERROR,
                                restart_after_ms: None,
                            },
                        ),
                    }
                },
                (_, transaction) => (
                    Transfer { declared_size, bytes_received, phase, transaction, error },
                    Action::Ignore,
                ),
            },
            Phase::Aborting => match (event, transaction) {
                (Event::Storage { .. }, Some(mut opened)) => {
                    let _ = opened.abort(manager);
                    (
                        Transfer {
                            declared_size,
                            bytes_received,
                            phase: Phase::Aborted,
                            transaction: Some(opened),
                            error,
                        },
                        Action::Respond {
                            status: STATUS_CODE_INTERNAL_SERVER_ERROR,
                            restart_after_ms: None,
                        },
                    )
                },
                (_, transaction) => (
                    Transfer { declared_size, bytes_received, phase, transaction, error },
                    Action::Ignore,
                ),
            },
            _ => (
                Transfer { declared_size, bytes_received, phase, transaction, error },
                Action::Ignore,
            ),
        };
        result
    }
}

} // verus!
