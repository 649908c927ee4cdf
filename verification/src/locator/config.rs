//! Configuration of the locator: where mappings come from, where the backup
//! copy is kept, and how it is compressed.

use crate::support::strmap::StrMap;
use vstd::prelude::*;

verus! {

/// Compression applied to the stored backup of the route data.
#[derive(Debug, PartialEq, Eq, Clone, Copy)]
pub enum Compression {
    Uncompressed,
    Gzip,
    Zstd1,
    Zstd3,
}

/// Where the backup copy of the route data is kept.
#[derive(Debug, PartialEq, Eq)]
pub enum BackupRouteStoreType {
    Filesystem { base_dir: String, filename: String, compression: Compression },
    Gcs { bucket: String, compression: Compression },
}

/// The control plane the mappings are synchronized from.
#[derive(Debug, PartialEq, Eq)]
pub struct ControlPlane {
    pub url: String,
}

#[derive(Debug, PartialEq, Eq)]
pub struct BackupRouteStore {
    pub kind: BackupRouteStoreType,
}

/// Address the standalone locator API listens on.
#[derive(Debug, PartialEq, Eq)]
pub struct Listener {
    pub host: String,
    pub port: u16,
}

impl Default for Listener {
    fn default() -> (l: Self)
        ensures
            l.host@ == "127.0.0.1"@,
            l.port == 3000,
    {
        Listener { host: "127.0.0.1".to_owned(), port: 3000 }
    }
}

/// Which kind of identifier the locator maps to cells.
#[derive(Debug, PartialEq, Eq, Clone, Copy)]
pub enum LocatorDataType {
    Organization,
    ProjectKey,
}

/// Configuration of a standalone locator.
#[derive(Debug)]
pub struct Config {
    pub listener: Listener,
    pub control_plane: ControlPlane,
    pub backup_route_store: BackupRouteStore,
    pub locality_to_default_cell: Option<StrMap<String>>,
    pub data_type: LocatorDataType,
}

} // verus!
