//! Storage tiers and the diagnostics the interface shows about persistence and installation.

use vstd::prelude::*;

verus! {

/// Where the application state is kept.
#[derive(Debug, Clone, Copy, PartialEq, Eq, Structural)]
pub enum StorageBackend {
    LocalStorage,
    IndexedDb,
    MemoryOnly,
}

impl Default for StorageBackend {
    fn default() -> (backend: Self)
        ensures
            backend == StorageBackend::LocalStorage,
    {
        StorageBackend::LocalStorage
    }
}

pub open spec fn backend_label(backend: StorageBackend) -> Seq<char> {
    match backend {
        StorageBackend::LocalStorage => "Local Storage (Fast Tier)"@,
        StorageBackend::IndexedDb => "IndexedDB (Extended Quota Tier)"@,
        StorageBackend::MemoryOnly => "In-Memory Only (Ephemeral)"@,
    }
}

impl StorageBackend {
    pub fn label(self) -> (text: &'static str)
        ensures
            text@ == backend_label(self),
    {
        match self {
            StorageBackend::LocalStorage => "Local Storage (Fast Tier)",
            StorageBackend::IndexedDb => "IndexedDB (Extended Quota Tier)",
            StorageBackend::MemoryOnly => "In-Memory Only (Ephemeral)",
        }
    }
}

/// What the browser reports about storage persistence and installation.
#[derive(Debug, Clone, Copy, PartialEq, Eq, Structural)]
pub struct StorageDiagnostics {
    pub is_persisted: Option<bool>,
    pub pwa_install_available: bool,
    pub is_pwa_installed: bool,
    pub backend: StorageBackend,
    pub quota_exceeded: bool,
    pub idb_active: bool,
}

impl Default for StorageDiagnostics {
    fn default() -> (diag: Self)
        ensures
            diag.is_persisted is None,
            !diag.pwa_install_available,
            !diag.is_pwa_installed,
            diag.backend == StorageBackend::LocalStorage,
            !diag.quota_exceeded,
            !diag.idb_active,
    {
        StorageDiagnostics {
            is_persisted: None,
            pwa_install_available: false,
            is_pwa_installed: false,
            backend: StorageBackend::LocalStorage,
            quota_exceeded: false,
            idb_active: false,
        }
    }
}

/// The storage warning shown to the user.
#[derive(Debug, Clone, Copy, PartialEq, Eq, Structural)]
pub enum StorageWarning {
    /// Ephemeral storage and a full quota together.
    Combined,
    /// Storage the browser may clear.
    Ephemeral,
    /// The quota is full and data moved to IndexedDB.
    QuotaExceeded,
}

/// The warning to show for `diag`, given which warnings were dismissed.
pub open spec fn warning_for(
    diag: StorageDiagnostics,
    dismissed_combined: bool,
    dismissed_ephemeral: bool,
    dismissed_quota: bool,
) -> Option<StorageWarning> {
    let ephemeral = diag.is_persisted == Some(false);
    let quota = diag.quota_exceeded;
    if ephemeral && quota && !dismissed_combined {
        Some(StorageWarning::Combined)
    } else if ephemeral && !dismissed_ephemeral {
        Some(StorageWarning::Ephemeral)
    } else if quota && !dismissed_quota {
        Some(StorageWarning::QuotaExceeded)
    } else {
        None
    }
}

pub open spec fn durability_text(persisted: Option<bool>) -> Seq<char> {
    match persisted {
        Some(true) => "Persistent (Immune to browser eviction)"@,
        Some(false) => "Ephemeral (May be cleared under storage pressure)"@,
        None => "Unknown / Querying..."@,
    }
}

pub open spec fn installation_text(diag: StorageDiagnostics) -> Seq<char> {
    if diag.is_pwa_installed {
        "Installed (Permanent App)"@
    } else if diag.pwa_install_available {
        "Available to Install"@
    } else {
        "Not Available in Tab"@
    }
}

pub open spec fn storage_button_text(persisted: Option<bool>) -> Seq<char> {
    match persisted {
        Some(true) => "Storage (Persistent)"@,
        Some(false) => "Storage (Ephemeral)"@,
        None => "Storage"@,
    }
}

impl StorageDiagnostics {
    /// Whether installing the web app can be offered: it is available and not installed.
    pub fn can_offer_install(&self) -> (offer: bool)
        ensures
            offer == (self.pwa_install_available && !self.is_pwa_installed),
    {
        self.pwa_install_available && !self.is_pwa_installed
    }

    /// Whether persistent storage can still be requested: it is not known to be granted.
    pub fn can_request_persistence(&self) -> (offer: bool)
        ensures
            offer == (self.is_persisted != Some(true)),
    {
        !matches!(self.is_persisted, Some(true))
    }

    /// How durable the stored data is.
    pub fn durability_label(&self) -> (text: &'static str)
        ensures
            text@ == durability_text(self.is_persisted),
    {
        match self.is_persisted {
            Some(true) => "Persistent (Immune to browser eviction)",
            Some(false) => "Ephemeral (May be cleared under storage pressure)",
            None => "Unknown / Querying...",
        }
    }

    /// Whether the web app is installed or can be.
    pub fn installation_label(&self) -> (text: &'static str)
        ensures
            text@ == installation_text(*self),
    {
        if self.is_pwa_installed {
            "Installed (Permanent App)"
        } else if self.pwa_install_available {
            "Available to Install"
        } else {
            "Not Available in Tab"
        }
    }

    /// The text of the storage button of the navigation bar.
    pub fn storage_button_label(&self) -> (text: &'static str)
        ensures
            text@ == storage_button_text(self.is_persisted),
    {
        match self.is_persisted {
            Some(true) => "Storage (Persistent)",
            Some(false) => "Storage (Ephemeral)",
            None => "Storage",
        }
    }

    /// The warning to show, given which warnings the user dismissed.
    pub fn warning(
        &self,
        dismissed_combined: bool,
        dismissed_ephemeral: bool,
        dismissed_quota: bool,
    ) -> (w: Option<StorageWarning>)
        ensures
            w == warning_for(*self, dismissed_combined, dismissed_ephemeral, dismissed_quota),
    {
        let ephemeral = matches!(self.is_persisted, Some(false));
        let quota = self.quota_exceeded;
        if ephemeral && quota && !dismissed_combined {
            Some(StorageWarning::Combined)
        } else if ephemeral && !dismissed_ephemeral {
            Some(StorageWarning::Ephemeral)
        } else if quota && !dismissed_quota {
            Some(StorageWarning::QuotaExceeded)
        } else {
            None
        }
    }
}

} // verus!
