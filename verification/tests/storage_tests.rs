use shared::storage::{StorageBackend, StorageDiagnostics, StorageWarning};

#[test]
fn backend_labels() {
    assert_eq!(StorageBackend::LocalStorage.label(), "Local Storage (Fast Tier)");
    assert_eq!(StorageBackend::IndexedDb.label(), "IndexedDB (Extended Quota Tier)");
    assert_eq!(StorageBackend::MemoryOnly.label(), "In-Memory Only (Ephemeral)");
    assert_eq!(StorageBackend::default(), StorageBackend::LocalStorage);
}

#[test]
fn diagnostics_texts() {
    let mut d = StorageDiagnostics::default();
    assert_eq!(d.durability_label(), "Unknown / Querying...");
    assert_eq!(d.storage_button_label(), "Storage");
    assert_eq!(d.installation_label(), "Not Available in Tab");
    assert!(d.can_request_persistence());
    assert!(!d.can_offer_install());
    d.is_persisted = Some(true);
    d.pwa_install_available = true;
    assert_eq!(d.durability_label(), "Persistent (Immune to browser eviction)");
    assert_eq!(d.storage_button_label(), "Storage (Persistent)");
    assert_eq!(d.installation_label(), "Available to Install");
    assert!(!d.can_request_persistence());
    assert!(d.can_offer_install());
    d.is_pwa_installed = true;
    assert_eq!(d.installation_label(), "Installed (Permanent App)");
    assert!(!d.can_offer_install());
}

#[test]
fn warnings_follow_dismissals() {
    let mut d = StorageDiagnostics::default();
    assert_eq!(d.warning(false, false, false), None);
    d.is_persisted = Some(false);
    d.quota_exceeded = true;
    assert_eq!(d.warning(false, false, false), Some(StorageWarning::Combined));
    assert_eq!(d.warning(true, false, false), Some(StorageWarning::Ephemeral));
    assert_eq!(d.warning(true, true, false), Some(StorageWarning::QuotaExceeded));
    assert_eq!(d.warning(true, true, true), None);
    d.quota_exceeded = false;
    assert_eq!(d.warning(false, false, false), Some(StorageWarning::Ephemeral));
}
