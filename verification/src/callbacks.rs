//! Reference counting for the shared host-tick hook.
//!
//! Several asynchronous operations may be in flight at once, while the host
//! offers a single named callback slot. The manager counts the operations and
//! tells the host when to install the hook and when to remove it.

use vstd::prelude::*;

verus! {

/// What the host has to do with its tick hook after an operation was counted.
#[derive(Clone, Copy, Debug, PartialEq, Eq, Structural)]
pub enum HookAction {
    /// Leave the hook as it is.
    Keep,
    /// Install the hook: the first operation has just started.
    Install,
    /// Remove the hook: the last operation has just finished.
    Remove,
}

/// One step of an interleaving of operations on the manager.
#[derive(Clone, Copy, Debug, PartialEq, Eq, Structural)]
pub enum HookOp {
    /// An asynchronous operation starts.
    Acquire,
    /// An asynchronous operation ends.
    Release,
}

/// Counts the asynchronous operations that still need the host-tick hook.
pub struct CallbackManager {
    pending: usize,
}

/// The action that starting an operation calls for, `count` operations being outstanding.
pub open spec fn acquire_action(count: nat) -> HookAction {
    if count == 0 {
        HookAction::Install
    } else {
        HookAction::Keep
    }
}

/// The action that ending an operation calls for, `count` operations being outstanding.
pub open spec fn release_action(count: nat) -> HookAction {
    if count == 1 {
        HookAction::Remove
    } else {
        HookAction::Keep
    }
}

/// The count after ending an operation: one less, and never below zero.
pub open spec fn release_count(count: nat) -> nat {
    if count == 0 {
        0
    } else {
        (count - 1) as nat
    }
}

/// Whether the hook is installed once the host has carried out `action`.
pub open spec fn hook_after(installed: bool, action: HookAction) -> bool {
    match action {
        HookAction::Keep => installed,
        HookAction::Install => true,
        HookAction::Remove => false,
    }
}

/// The number of outstanding operations after `ops`, starting from none.
pub open spec fn count_after(ops: Seq<HookOp>) -> nat
    decreases ops.len(),
{
    if ops.len() == 0 {
        0
    } else {
        match ops.last() {
            HookOp::Acquire => count_after(ops.drop_last()) + 1,
            HookOp::Release => release_count(count_after(ops.drop_last())),
        }
    }
}

/// Whether the hook is installed after `ops`, the host having obeyed every action.
pub open spec fn installed_after(ops: Seq<HookOp>) -> bool
    decreases ops.len(),
{
    if ops.len() == 0 {
        false
    } else {
        let before = count_after(ops.drop_last());
        let action = match ops.last() {
            HookOp::Acquire => acquire_action(before),
            HookOp::Release => release_action(before),
        };
        hook_after(installed_after(ops.drop_last()), action)
    }
}

/// Whatever the interleaving of acquisitions and releases, the hook is
/// installed exactly while at least one operation is outstanding.
pub proof fn lemma_installed_iff_outstanding(ops: Seq<HookOp>)
    ensures
        installed_after(ops) <==> count_after(ops) > 0,
    decreases ops.len(),
{
    if ops.len() > 0 {
        lemma_installed_iff_outstanding(ops.drop_last());
    }
}

impl CallbackManager {
    /// The number of operations that are outstanding.
    pub closed spec fn outstanding(&self) -> nat {
        self.pending as nat
    }

    /// A manager with no operation outstanding.
    pub fn new() -> (mgr: CallbackManager)
        ensures
            mgr.outstanding() == 0,
    {
        CallbackManager { pending: 0 }
    }

    /// The number of operations that are outstanding.
    pub fn pending(&self) -> (count: usize)
        ensures
            count == self.outstanding(),
    {
        self.pending
    }

    /// Whether the host-tick hook is installed, the host having obeyed every action.
    pub fn is_installed(&self) -> (installed: bool)
        ensures
            installed <==> self.outstanding() > 0,
    {
        self.pending > 0
    }
}

impl Default for CallbackManager {
    fn default() -> (mgr: CallbackManager)
        ensures
            mgr.outstanding() == 0,
    {
        CallbackManager::new()
    }
}

/// Counts one more outstanding operation and says whether the hook must be installed.
pub fn push(mgr: &mut CallbackManager) -> (action: HookAction)
    requires
        old(mgr).outstanding() < usize::MAX,
    ensures
        final(mgr).outstanding() == old(mgr).outstanding() + 1,
        action == acquire_action(old(mgr).outstanding()),
{
    let pending: usize = mgr.pending + 1;
    mgr.pending = pending;
    if pending == 1 {
        HookAction::Install
    } else {
        HookAction::Keep
    }
}

/// Counts one outstanding operation less and says whether the hook must be removed.
///
/// A release without a matching acquisition leaves the count at zero and the hook alone.
pub fn pop(mgr: &mut CallbackManager) -> (action: HookAction)
    ensures
        final(mgr).outstanding() == release_count(old(mgr).outstanding()),
        action == release_action(old(mgr).outstanding()),
{
    let before: usize = mgr.pending;
    mgr.pending = before.saturating_sub(1);
    if before == 1 {
        HookAction::Remove
    } else {
        HookAction::Keep
    }
}

} // verus!
