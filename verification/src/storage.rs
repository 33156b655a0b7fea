//! Bookkeeping of the two firmware slots.
//!
//! One slot runs, the other is the only legal target of a write. The manager
//! hands out at most one write transaction at a time and records whether it
//! ended in a commit or in an abort. The flash itself is driven by the caller:
//! what the medium answered to a write or to a finalization comes in as an
//! argument, and the manager decides what that means for the transaction.

use crate::text::same_text;
use vstd::prelude::*;

verus! {

/// Size of one firmware slot in bytes.
pub const PARTITION_CAPACITY: u64 = 0x1f0000;

/// One of the two firmware slots.
#[derive(Clone, Copy, Debug, PartialEq, Eq, Structural)]
pub enum SlotId {
    Ota0,
    Ota1,
}

impl SlotId {
    /// The slot that `self` is not.
    pub open spec fn spec_other(self) -> SlotId {
        match self {
            SlotId::Ota0 => SlotId::Ota1,
            SlotId::Ota1 => SlotId::Ota0,
        }
    }

    /// The label of the slot in the partition table.
    pub open spec fn spec_label(self) -> Seq<char> {
        match self {
            SlotId::Ota0 => "ota_0"@,
            SlotId::Ota1 => "ota_1"@,
        }
    }

    /// The label of the slot in the partition table.
    pub fn label(self) -> (label: &'static str)
        ensures
            label@ == self.spec_label(),
    {
        match self {
            SlotId::Ota0 => "ota_0",
            SlotId::Ota1 => "ota_1",
        }
    }

    /// The slot that the partition table calls `label`, if it is one of the
    /// two.
    pub fn from_label(label: &str) -> (slot: Option<SlotId>)
        ensures
            slot == if label@ == SlotId::Ota0.spec_label() {
                Some(SlotId::Ota0)
            } else if label@ == SlotId::Ota1.spec_label() {
                Some(SlotId::Ota1)
            } else {
                None
            },
    {
        if same_text(label, "ota_0") {
            Some(SlotId::Ota0)
        } else if same_text(label, "ota_1") {
            Some(SlotId::Ota1)
        } else {
            None
        }
    }

    /// The slot that `self` is not.
    #[verifier::when_used_as_spec(spec_other)]
    pub fn other(self) -> (slot: SlotId)
        ensures
            slot == self.spec_other(),
            slot != self,
    {
        match self {
            SlotId::Ota0 => SlotId::Ota1,
            SlotId::Ota1 => SlotId::Ota0,
        }
    }
}

/// Why a storage operation was refused.
#[derive(Clone, Copy, Debug, PartialEq, Eq, Structural)]
pub enum StorageError {
    /// The storage was never initialized.
    StorageUnavailable,
    /// Another transaction is open.
    SlotBusy,
    /// The slot is the running one.
    InvalidSlot,
    /// The medium or the slot's bounds rejected the bytes.
    WriteFailed,
    /// The image could not be finalized.
    CommitFailed,
}

/// What a [`PartitionManager`] knows, as a mathematical value.
pub struct ManagerState {
    /// Whether the storage was initialized.
    pub available: bool,
    /// The slot that the firmware runs from.
    pub running: SlotId,
    /// Version string of the running firmware.
    pub version: Seq<char>,
    /// Target of the open transaction, if one is open.
    pub writer: Option<SlotId>,
    /// The slot that the next restart boots.
    pub next_boot: SlotId,
}

impl ManagerState {
    /// The running slot is never being written.
    pub open spec fn wf(self) -> bool {
        self.writer != Some(self.running)
    }

    /// The inactive slot.
    pub open spec fn update_slot(self) -> SlotId {
        self.running.spec_other()
    }

    /// Why `begin_write(slot)` is refused, if it is.
    pub open spec fn begin_error(self, slot: SlotId) -> Option<StorageError> {
        if !self.available {
            Some(StorageError::StorageUnavailable)
        } else if self.writer is Some {
            Some(StorageError::SlotBusy)
        } else if slot == self.running {
            Some(StorageError::InvalidSlot)
        } else {
            None
        }
    }

    /// The state with a transaction open on `slot`.
    pub open spec fn locked_for(self, slot: SlotId) -> ManagerState {
        ManagerState { writer: Some(slot), ..self }
    }

    /// The state with no transaction open.
    pub open spec fn released(self) -> ManagerState {
        ManagerState { writer: None, ..self }
    }

    /// The state after a transaction on `slot` was committed.
    pub open spec fn promoted(self, slot: SlotId) -> ManagerState {
        ManagerState { writer: None, next_boot: slot, ..self }
    }

    /// The state after `transaction` was committed with the medium's answer
    /// `finalized`.
    pub open spec fn after_commit_of(
        self,
        transaction: TransactionState,
        finalized: bool,
    ) -> ManagerState {
        if !transaction.active_in(self) {
            self
        } else if finalized {
            self.promoted(transaction.target)
        } else {
            self.released()
        }
    }

    /// The state after `transaction` was aborted.
    pub open spec fn after_abort_of(self, transaction: TransactionState) -> ManagerState {
        if transaction.active_in(self) {
            self.released()
        } else {
            self
        }
    }
}

/// What a [`Transaction`] knows, as a mathematical value.
pub struct TransactionState {
    /// The slot being written.
    pub target: SlotId,
    /// Bytes appended so far.
    pub written: nat,
    /// Whether the transaction is neither committed nor aborted.
    pub open: bool,
}

impl TransactionState {
    /// Whether the transaction is the one that `manager` has open.
    pub open spec fn active_in(self, manager: ManagerState) -> bool {
        self.open && manager.writer == Some(self.target)
    }

    /// Whether a write of `len` bytes that the medium answered with `accepted`
    /// is appended.
    pub open spec fn accepts(self, manager: ManagerState, len: nat, accepted: bool) -> bool {
        self.active_in(manager) && accepted && self.written + len <= PARTITION_CAPACITY
    }

    /// The transaction after `len` more bytes.
    pub open spec fn extended(self, len: nat) -> TransactionState {
        TransactionState { written: self.written + len, ..self }
    }

    /// The transaction after a commit: closed, its bytes kept.
    pub open spec fn closed(self) -> TransactionState {
        TransactionState { open: false, ..self }
    }

    /// The transaction after an abort: closed, its bytes discarded.
    pub open spec fn discarded(self) -> TransactionState {
        TransactionState { open: false, written: 0, ..self }
    }

    /// The transaction after a write of `len` bytes that the medium answered
    /// with `accepted`.
    pub open spec fn after_write(
        self,
        manager: ManagerState,
        len: nat,
        accepted: bool,
    ) -> TransactionState {
        if self.accepts(manager, len, accepted) {
            self.extended(len)
        } else {
            self
        }
    }

    /// The transaction after a commit against `manager`.
    pub open spec fn after_commit(self, manager: ManagerState) -> TransactionState {
        if self.active_in(manager) {
            self.closed()
        } else {
            self
        }
    }

    /// The transaction after an abort.
    pub open spec fn after_abort(self) -> TransactionState {
        if self.open {
            self.discarded()
        } else {
            self
        }
    }
}

/// The two-slot storage: which slot runs, which one boots next, and whether a
/// write transaction is open.
pub struct PartitionManager {
    available: bool,
    running: SlotId,
    version: String,
    writer: Option<SlotId>,
    next_boot: SlotId,
}

impl View for PartitionManager {
    type V = ManagerState;

    closed spec fn view(&self) -> ManagerState {
        ManagerState {
            available: self.available,
            running: self.running,
            version: self.version@,
            writer: self.writer,
            next_boot: self.next_boot,
        }
    }
}

/// A write transaction against one slot.
pub struct Transaction {
    target: SlotId,
    written: u64,
    open: bool,
}

impl View for Transaction {
    type V = TransactionState;

    closed spec fn view(&self) -> TransactionState {
        TransactionState { target: self.target, written: self.written as nat, open: self.open }
    }
}

impl PartitionManager {
    /// Holds of every manager: its state is well formed.
    #[verifier::type_invariant]
    pub open spec fn inv(&self) -> bool {
        self@.wf()
    }

    /// An initialized storage that runs `version` from `running`.
    pub fn new(running: SlotId, version: String) -> (manager: PartitionManager)
        ensures
            manager@ == (ManagerState {
                available: true,
                running,
                version: version@,
                writer: None,
                next_boot: running,
            }),
            manager@.wf(),
    {
        PartitionManager { available: true, running, version, writer: None, next_boot: running }
    }

    /// A storage that was never initialized: every query and every
    /// `begin_write` is refused.
    pub fn unavailable() -> (manager: PartitionManager)
        ensures
            manager@ == (ManagerState {
                available: false,
                running: SlotId::Ota0,
                version: Seq::<char>::empty(),
                writer: None,
                next_boot: SlotId::Ota0,
            }),
            manager@.wf(),
    {
        PartitionManager {
            available: false,
            running: SlotId::Ota0,
            version: String::new(),
            writer: None,
            next_boot: SlotId::Ota0,
        }
    }

    /// The running slot and the version of its firmware.
    pub fn current_running_slot(&self) -> (result: Result<(SlotId, String), StorageError>)
        ensures
            self@.available ==> (result matches Ok((slot, version)) && slot == self@.running
                && version@ == self@.version),
            !self@.available ==> result == Err::<(SlotId, String), StorageError>(
                StorageError::StorageUnavailable,
            ),
    {
        if self.available {
            Ok((self.running, self.version.clone()))
        } else {
            Err(StorageError::StorageUnavailable)
        }
    }

    /// The inactive slot, the only legal target of a write.
    pub fn current_update_slot(&self) -> (slot: SlotId)
        ensures
            slot == self@.update_slot(),
            slot != self@.running,
    {
        self.running.other()
    }

    /// The slot that the next restart boots.
    pub fn boot_slot(&self) -> (slot: SlotId)
        ensures
            slot == self@.next_boot,
    {
        self.next_boot
    }

    /// Whether a transaction is open.
    pub fn has_open_transaction(&self) -> (open: bool)
        ensures
            open == (self@.writer is Some),
    {
        self.writer.is_some()
    }

    /// Opens the write transaction on `slot`.
    ///
    /// Refused with `StorageUnavailable` on a storage that was never
    /// initialized, with `SlotBusy` while another transaction is open, and with
    /// `InvalidSlot` for the running slot, in that order. A refusal changes
    /// nothing.
    pub fn begin_write(&mut self, slot: SlotId) -> (result: Result<Transaction, StorageError>)
        ensures
            match old(self)@.begin_error(slot) {
                Some(error) => result == Err::<Transaction, StorageError>(error) && final(self)@
                    == old(self)@,
                None => result matches Ok(transaction) && transaction@ == (TransactionState {
                    target: slot,
                    written: 0,
                    open: true,
                }) && final(self)@ == old(self)@.locked_for(slot),
            },
            final(self)@.wf(),
    {
        proof {
            use_type_invariant(&*self);
        }
        if !self.available {
            Err(StorageError::StorageUnavailable)
        } else if self.writer.is_some() {
            Err(StorageError::SlotBusy)
        } else if slot == self.running {
            Err(StorageError::InvalidSlot)
        } else {
            self.writer = Some(slot);
            Ok(Transaction { target: slot, written: 0, open: true })
        }
    }
}

impl Transaction {
    #[verifier::type_invariant]
    spec fn inv(&self) -> bool {
        self.written <= PARTITION_CAPACITY
    }

    /// The slot being written.
    pub fn target(&self) -> (slot: SlotId)
        ensures
            slot == self@.target,
    {
        self.target
    }

    /// Bytes appended so far.
    pub fn written(&self) -> (count: u64)
        ensures
            count == self@.written,
            count <= PARTITION_CAPACITY,
    {
        proof {
            use_type_invariant(self);
        }
        self.written
    }

    /// Whether the transaction is neither committed nor aborted.
    pub fn is_open(&self) -> (open: bool)
        ensures
            open == self@.open,
    {
        self.open
    }

    /// Appends `len` bytes that the medium answered with `accepted`.
    ///
    /// The bytes count only if the transaction is the one that `manager` has
    /// open, the medium accepted them and they fit in the slot. Anything else
    /// is `WriteFailed` and leaves the transaction as it was.
    pub fn write(&mut self, manager: &PartitionManager, len: usize, accepted: bool) -> (result:
        Result<(), StorageError>)
        ensures
            result == if old(self)@.accepts(manager@, len as nat, accepted) {
                Ok::<(), StorageError>(())
            } else {
                Err::<(), StorageError>(StorageError::WriteFailed)
            },
            final(self)@ == old(self)@.after_write(manager@, len as nat, accepted),
    {
        proof {
            use_type_invariant(&*self);
        }
        let holds_lock = match manager.writer {
            Some(slot) => slot == self.target,
            None => false,
        };
        if self.open && holds_lock && accepted && len as u64 <= PARTITION_CAPACITY - self.written {
            self.written = self.written + len as u64;
            Ok(())
        } else {
            Err(StorageError::WriteFailed)
        }
    }

    /// Ends the transaction with what the medium answered to the finalization.
    ///
    /// `Ok` exactly if the transaction is the one that `manager` has open and
    /// the medium finalized the image; the target then boots next. Either way
    /// an open transaction is closed and the manager is free again. A
    /// transaction that `manager` does not have open is `CommitFailed` and
    /// changes nothing.
    pub fn commit(&mut self, manager: &mut PartitionManager, finalized: bool) -> (result: Result<
        (),
        StorageError,
    >)
        ensures
            result == if old(self)@.active_in(old(manager)@) && finalized {
                Ok::<(), StorageError>(())
            } else {
                Err::<(), StorageError>(StorageError::CommitFailed)
            },
            final(self)@ == old(self)@.after_commit(old(manager)@),
            final(manager)@ == old(manager)@.after_commit_of(old(self)@, finalized),
            final(manager)@.wf(),
    {
        proof {
            use_type_invariant(&*self);
            use_type_invariant(&*manager);
        }
        let holds_lock = match manager.writer {
            Some(slot) => slot == self.target,
            None => false,
        };
        if self.open && holds_lock {
            self.open = false;
            manager.writer = None;
            if finalized {
                manager.next_boot = self.target;
                Ok(())
            } else {
                Err(StorageError::CommitFailed)
            }
        } else {
            Err(StorageError::CommitFailed)
        }
    }

    /// Discards the transaction. Never fails, and a second call changes
    /// nothing.
    ///
    /// An open transaction is closed and its bytes are dropped; if it is the
    /// one that `manager` has open, the manager is free again.
    pub fn abort(&mut self, manager: &mut PartitionManager) -> (result: Result<(), StorageError>)
        ensures
            result == Ok::<(), StorageError>(()),
            final(self)@ == old(self)@.after_abort(),
            final(manager)@ == old(manager)@.after_abort_of(old(self)@),
            final(manager)@.wf(),
    {
        proof {
            use_type_invariant(&*self);
            use_type_invariant(&*manager);
        }
        if self.open {
            let holds_lock = match manager.writer {
                Some(slot) => slot == self.target,
                None => false,
            };
            if holds_lock {
                manager.writer = None;
            }
            self.open = false;
            self.written = 0;
        }
        Ok(())
    }
}

/// One transaction at a time: once a transaction is open, every further
/// `begin_write` is refused with `SlotBusy`, and the running slot is not the
/// one being written.
pub proof fn lemma_begin_write_locks(manager: ManagerState, slot: SlotId, other: SlotId)
    requires
        manager.wf(),
        manager.begin_error(slot) is None,
    ensures
        manager.locked_for(slot).wf(),
        manager.locked_for(slot).writer == Some(slot),
        slot != manager.running,
        manager.locked_for(slot).begin_error(other) == Some(StorageError::SlotBusy),
{
}

/// The inactive slot is never the running one, and a free, initialized storage
/// opens it.
pub proof fn lemma_update_slot_is_legal(manager: ManagerState)
    ensures
        manager.update_slot() != manager.running,
        manager.update_slot().spec_other() == manager.running,
        manager.available && manager.writer is None ==> manager.begin_error(manager.update_slot())
            is None,
{
}

/// Commit and abort end the transaction that is open: the storage is free
/// again and still well formed, the running slot stays, and only a finalized
/// commit changes the slot that boots next.
pub proof fn lemma_end_unlocks(
    manager: ManagerState,
    transaction: TransactionState,
    finalized: bool,
)
    requires
        manager.wf(),
        transaction.active_in(manager),
    ensures
        manager.after_commit_of(transaction, finalized).writer is None,
        manager.after_commit_of(transaction, finalized).wf(),
        manager.after_commit_of(transaction, finalized).running == manager.running,
        manager.after_commit_of(transaction, finalized).next_boot == if finalized {
            transaction.target
        } else {
            manager.next_boot
        },
        !transaction.after_commit(manager).open,
        manager.after_abort_of(transaction) == manager.released(),
        manager.after_abort_of(transaction).wf(),
        manager.after_abort_of(transaction).next_boot == manager.next_boot,
        transaction.after_abort() == transaction.discarded(),
{
}

/// Abort is idempotent: a second abort changes neither the transaction nor
/// the storage, even if another transaction was opened in between.
pub proof fn lemma_abort_is_idempotent(manager: ManagerState, transaction: TransactionState)
    ensures
        transaction.after_abort().after_abort() == transaction.after_abort(),
        forall|later: ManagerState| #[trigger]
            later.after_abort_of(transaction.after_abort()) == later,
{
}

} // verus!
