//! Cloud synchronisation metadata. Synchronisation is not offered yet.
use vstd::prelude::*;

verus! {

/// What a synchronised record carries besides its data.
#[derive(Clone, Debug)]
pub struct SyncMetadata {
    pub uuid: String,
    pub user_id: Option<String>,
    pub sync_status: String,
    pub version: i64,
    pub last_synced_at: Option<String>,
}

/// Whether cloud synchronisation can be used: it cannot.
pub fn sync_is_available() -> (r: bool)
    ensures
        !r,
{
    false
}

} // verus!
