use panel_firmware::storage::{PartitionManager, SlotId, StorageError, PARTITION_CAPACITY};

fn manager() -> PartitionManager {
    PartitionManager::new(SlotId::Ota0, String::from("1.2.3"))
}

#[test]
fn slots_are_each_other_s_other() {
    assert_eq!(SlotId::Ota0.other(), SlotId::Ota1);
    assert_eq!(SlotId::Ota1.other(), SlotId::Ota0);
}

#[test]
fn running_slot_and_version_are_reported() {
    let manager = manager();
    assert_eq!(
        manager.current_running_slot(),
        Ok((SlotId::Ota0, String::from("1.2.3")))
    );
    assert_eq!(manager.current_update_slot(), SlotId::Ota1);
    assert_eq!(manager.boot_slot(), SlotId::Ota0);
    assert!(!manager.has_open_transaction());
}

#[test]
fn unavailable_storage_refuses_everything() {
    let mut manager = PartitionManager::unavailable();
    assert_eq!(
        manager.current_running_slot(),
        Err(StorageError::StorageUnavailable)
    );
    assert_eq!(
        manager.begin_write(SlotId::Ota1).err(),
        Some(StorageError::StorageUnavailable)
    );
    assert!(!manager.has_open_transaction());
}

#[test]
fn begin_write_refuses_the_running_slot() {
    let mut manager = manager();
    assert_eq!(
        manager.begin_write(SlotId::Ota0).err(),
        Some(StorageError::InvalidSlot)
    );
    assert!(!manager.has_open_transaction());
}

#[test]
fn begin_write_refuses_a_second_transaction() {
    let mut manager = manager();
    let first = manager.begin_write(SlotId::Ota1).unwrap();
    assert!(first.is_open());
    assert_eq!(first.target(), SlotId::Ota1);
    assert_eq!(first.written(), 0);
    assert!(manager.has_open_transaction());
    assert_eq!(
        manager.begin_write(SlotId::Ota1).err(),
        Some(StorageError::SlotBusy)
    );
    assert_eq!(
        manager.begin_write(SlotId::Ota0).err(),
        Some(StorageError::SlotBusy)
    );
}

#[test]
fn write_appends_what_the_medium_accepted() {
    let mut manager = manager();
    let mut transaction = manager.begin_write(SlotId::Ota1).unwrap();
    assert_eq!(transaction.write(&manager, 400, true), Ok(()));
    assert_eq!(transaction.write(&manager, 0, true), Ok(()));
    assert_eq!(transaction.write(&manager, 200, true), Ok(()));
    assert_eq!(transaction.written(), 600);
}

#[test]
fn write_fails_when_the_medium_rejects() {
    let mut manager = manager();
    let mut transaction = manager.begin_write(SlotId::Ota1).unwrap();
    assert_eq!(transaction.write(&manager, 400, true), Ok(()));
    assert_eq!(
        transaction.write(&manager, 400, false),
        Err(StorageError::WriteFailed)
    );
    assert_eq!(transaction.written(), 400);
    assert!(transaction.is_open());
}

#[test]
fn write_fails_beyond_the_slot() {
    let mut manager = manager();
    let mut transaction = manager.begin_write(SlotId::Ota1).unwrap();
    assert_eq!(
        transaction.write(&manager, PARTITION_CAPACITY as usize, true),
        Ok(())
    );
    assert_eq!(
        transaction.write(&manager, 1, true),
        Err(StorageError::WriteFailed)
    );
    assert_eq!(transaction.written(), PARTITION_CAPACITY);
}

#[test]
fn commit_promotes_the_target_and_frees_the_storage() {
    let mut manager = manager();
    let mut transaction = manager.begin_write(SlotId::Ota1).unwrap();
    assert_eq!(transaction.write(&manager, 10, true), Ok(()));
    assert_eq!(transaction.commit(&mut manager, true), Ok(()));
    assert!(!transaction.is_open());
    assert_eq!(transaction.written(), 10);
    assert!(!manager.has_open_transaction());
    assert_eq!(manager.boot_slot(), SlotId::Ota1);
    assert_eq!(
        manager.current_running_slot(),
        Ok((SlotId::Ota0, String::from("1.2.3")))
    );
    assert!(manager.begin_write(SlotId::Ota1).is_ok());
}

#[test]
fn failed_commit_closes_without_promoting() {
    let mut manager = manager();
    let mut transaction = manager.begin_write(SlotId::Ota1).unwrap();
    assert_eq!(
        transaction.commit(&mut manager, false),
        Err(StorageError::CommitFailed)
    );
    assert!(!transaction.is_open());
    assert!(!manager.has_open_transaction());
    assert_eq!(manager.boot_slot(), SlotId::Ota0);
}

#[test]
fn commit_of_a_closed_transaction_fails_and_changes_nothing() {
    let mut manager = manager();
    let mut first = manager.begin_write(SlotId::Ota1).unwrap();
    assert_eq!(first.abort(&mut manager), Ok(()));
    let second = manager.begin_write(SlotId::Ota1).unwrap();
    assert_eq!(
        first.commit(&mut manager, true),
        Err(StorageError::CommitFailed)
    );
    assert!(manager.has_open_transaction());
    assert!(second.is_open());
    assert_eq!(manager.boot_slot(), SlotId::Ota0);
}

#[test]
fn abort_discards_and_is_idempotent() {
    let mut manager = manager();
    let mut transaction = manager.begin_write(SlotId::Ota1).unwrap();
    assert_eq!(transaction.write(&manager, 77, true), Ok(()));
    assert_eq!(transaction.abort(&mut manager), Ok(()));
    assert!(!transaction.is_open());
    assert_eq!(transaction.written(), 0);
    assert!(!manager.has_open_transaction());
    assert_eq!(transaction.abort(&mut manager), Ok(()));
    assert!(!manager.has_open_transaction());
    assert_eq!(manager.boot_slot(), SlotId::Ota0);
}

#[test]
fn abort_of_a_stale_transaction_keeps_the_new_one() {
    let mut manager = manager();
    let mut first = manager.begin_write(SlotId::Ota1).unwrap();
    assert_eq!(first.abort(&mut manager), Ok(()));
    let mut second = manager.begin_write(SlotId::Ota1).unwrap();
    assert_eq!(first.abort(&mut manager), Ok(()));
    assert!(manager.has_open_transaction());
    assert_eq!(second.write(&manager, 5, true), Ok(()));
    assert_eq!(
        first.write(&manager, 5, true),
        Err(StorageError::WriteFailed)
    );
}

#[test]
fn slots_have_their_labels() {
    assert_eq!(SlotId::Ota0.label(), "ota_0");
    assert_eq!(SlotId::Ota1.label(), "ota_1");
    assert_eq!(SlotId::from_label("ota_0"), Some(SlotId::Ota0));
    assert_eq!(SlotId::from_label("ota_1"), Some(SlotId::Ota1));
    assert_eq!(SlotId::from_label("ota_2"), None);
    assert_eq!(SlotId::from_label("factory"), None);
    assert_eq!(SlotId::from_label(""), None);
    assert_eq!(SlotId::from_label("OTA_0"), None);
}
