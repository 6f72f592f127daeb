use gmsv_workshop::session::{is_installed, probe, InstallInfo, ITEM_STATE_INSTALLED};
use gmsv_workshop::util::ChadCell;
use gmsv_workshop::workshop::downloads::Probe;

fn info(folder: &str) -> InstallInfo {
    InstallInfo { folder: folder.to_string(), size_on_disk: 1234, timestamp: 1_600_000_000 }
}

#[test]
fn installed_needs_record_and_flag() {
    assert_eq!(ITEM_STATE_INSTALLED, 4);
    assert_eq!(is_installed(Some(info("/c/1")), 4), Some("/c/1".to_string()));
    assert_eq!(is_installed(Some(info("/c/1")), 5), Some("/c/1".to_string()));
    assert_eq!(is_installed(Some(info("/c/1")), 4 | 8), Some("/c/1".to_string()));
    assert_eq!(is_installed(Some(info("/c/1")), u32::MAX), Some("/c/1".to_string()));
}

#[test]
fn record_of_an_unfinished_download_does_not_count() {
    assert_eq!(is_installed(Some(info("/c/1")), 0), None);
    assert_eq!(is_installed(Some(info("/c/1")), 1), None);
    assert_eq!(is_installed(Some(info("/c/1")), 16), None);
    assert_eq!(is_installed(Some(info("/c/1")), 16 | 32 | 8 | 2 | 1), None);
}

#[test]
fn flag_without_a_record_does_not_count() {
    assert_eq!(is_installed(None, 4), None);
    assert_eq!(is_installed(None, 0), None);
}

#[test]
fn probe_holds_what_was_observed() {
    assert_eq!(
        probe(false, Some(info("/c/1")), 4, true),
        Probe { cached: false, installed: Some("/c/1".to_string()), logged_in: true }
    );
    assert_eq!(
        probe(true, Some(info("/c/1")), 16, false),
        Probe { cached: true, installed: None, logged_in: false }
    );
}

#[test]
fn cell_hands_out_its_contents() {
    let mut cell = ChadCell::new(5u32);
    assert_eq!(*cell.get(), 5);
    *cell.get_mut() += 1;
    assert_eq!(*cell.get(), 6);
    assert_eq!(cell.replace(9), 6);
    assert_eq!(cell.into_inner(), 9);
    let cell: ChadCell<u64> = ChadCell::default();
    assert_eq!(*cell.get(), 0);
}
