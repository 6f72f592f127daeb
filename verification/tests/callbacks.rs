use gmsv_workshop::callbacks::{pop, push, CallbackManager, HookAction};

#[test]
fn first_acquire_installs_and_last_release_removes() {
    let mut mgr = CallbackManager::new();
    assert_eq!(mgr.pending(), 0);
    assert!(!mgr.is_installed());

    assert_eq!(push(&mut mgr), HookAction::Install);
    assert_eq!(push(&mut mgr), HookAction::Keep);
    assert_eq!(push(&mut mgr), HookAction::Keep);
    assert_eq!(mgr.pending(), 3);
    assert!(mgr.is_installed());

    assert_eq!(pop(&mut mgr), HookAction::Keep);
    assert_eq!(pop(&mut mgr), HookAction::Keep);
    assert_eq!(pop(&mut mgr), HookAction::Remove);
    assert_eq!(mgr.pending(), 0);
    assert!(!mgr.is_installed());
}

#[test]
fn release_without_acquire_saturates_at_zero() {
    let mut mgr = CallbackManager::default();
    assert_eq!(pop(&mut mgr), HookAction::Keep);
    assert_eq!(pop(&mut mgr), HookAction::Keep);
    assert_eq!(mgr.pending(), 0);
    assert_eq!(push(&mut mgr), HookAction::Install);
    assert_eq!(mgr.pending(), 1);
}

#[test]
fn hook_is_installed_iff_outstanding_for_every_interleaving() {
    // Every sequence of up to ten acquisitions and releases, by its bits.
    for len in 0..=10u32 {
        for bits in 0..(1u32 << len) {
            let mut mgr = CallbackManager::new();
            let mut installed = false;
            let mut expected: usize = 0;
            for step in 0..len {
                let action = if bits & (1 << step) != 0 {
                    expected += 1;
                    push(&mut mgr)
                } else {
                    expected = expected.saturating_sub(1);
                    pop(&mut mgr)
                };
                match action {
                    HookAction::Install => {
                        assert!(!installed, "installed twice");
                        installed = true;
                    }
                    HookAction::Remove => {
                        assert!(installed, "removed what was not installed");
                        installed = false;
                    }
                    HookAction::Keep => {}
                }
                assert_eq!(mgr.pending(), expected);
                assert_eq!(installed, mgr.pending() > 0);
                assert_eq!(installed, mgr.is_installed());
            }
        }
    }
}
