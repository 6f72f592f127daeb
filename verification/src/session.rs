//! What the host learns from its session with the backend.
//!
//! The session itself stays with the host. The engine sees plain values: the
//! install record and the state flags of an item, and whether the session
//! has logged in.

use vstd::prelude::*;
use crate::workshop::downloads::Probe;

verus! {

/// The state flag of an item whose content is on disk and up to date.
pub const ITEM_STATE_INSTALLED: u32 = 4;

/// The backend's record of an item's installation.
#[derive(Clone, Debug, PartialEq, Eq)]
pub struct InstallInfo {
    /// The place where the item's content lies.
    pub folder: String,
    /// The size of the content in bytes.
    pub size_on_disk: u64,
    /// When the content was last updated, in seconds since the epoch.
    pub timestamp: u32,
}

/// Whether the state flags of an item say that it is installed.
pub open spec fn has_installed_flag(state: u32) -> bool {
    state & ITEM_STATE_INSTALLED != 0
}

/// The place where an item is installed, if it is.
///
/// An item counts as installed only if the backend has an install record of
/// it and its state flags say so too: a record can exist while the item is
/// still downloading.
pub open spec fn installed_folder(info: Option<InstallInfo>, state: u32) -> Option<String> {
    if info is Some && has_installed_flag(state) {
        Some(info->0.folder)
    } else {
        None
    }
}

/// Says where an item is installed, if it is.
pub fn is_installed(info: Option<InstallInfo>, state: u32) -> (folder: Option<String>)
    ensures
        folder == installed_folder(info, state),
{
    match info {
        Some(info) => {
            if state & ITEM_STATE_INSTALLED != 0 {
                Some(info.folder)
            } else {
                None
            }
        },
        None => None,
    }
}

/// Puts together what the host observed for an item before a download request.
pub fn probe(cached: bool, info: Option<InstallInfo>, state: u32, logged_in: bool) -> (probe: Probe)
    ensures
        probe == (Probe { cached, installed: installed_folder(info, state), logged_in }),
{
    Probe { cached, installed: is_installed(info, state), logged_in }
}

} // verus!
