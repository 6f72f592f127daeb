use gmsv_workshop::artifact::{
    cache_dir, cache_path, check_package, classify, classify_name, is_cache_path, mounted_path,
    plan_cache, read_declared_size, select_entry, starts_with_signature, unpack, ArtifactError,
    DirEntry, EntryKind, Found, Origin, Plan, Selection, CONTAINER_HEADER,
};

fn file(name: &str) -> DirEntry {
    DirEntry { name: name.to_string(), is_file: true }
}

fn dir(name: &str) -> DirEntry {
    DirEntry { name: name.to_string(), is_file: false }
}

#[test]
fn cache_paths_are_named_after_the_item() {
    assert_eq!(cache_dir(), "garrysmod/cache/srcds");
    assert_eq!(cache_path(104533079), "garrysmod/cache/srcds/104533079.gma");
    assert_eq!(mounted_path(104533079), "cache/srcds/104533079.gma");
    assert_eq!(cache_path(0), "garrysmod/cache/srcds/0.gma");
    assert_eq!(mounted_path(u64::MAX), "cache/srcds/18446744073709551615.gma");
}

#[test]
fn cache_path_is_recognised() {
    assert!(is_cache_path(7, "garrysmod/cache/srcds/7.gma"));
    assert!(!is_cache_path(7, "garrysmod/cache/srcds/8.gma"));
    assert!(!is_cache_path(7, "cache/srcds/7.gma"));
    assert!(!is_cache_path(7, "garrysmod/cache/srcds/7.GMA"));
    assert!(!is_cache_path(7, ""));
}

#[test]
fn names_are_classified_by_extension() {
    assert_eq!(classify_name("addon.gma"), EntryKind::Package);
    assert_eq!(classify_name("ADDON.GMA"), EntryKind::Package);
    assert_eq!(classify_name("addon.GmA"), EntryKind::Package);
    assert_eq!(classify_name("123_legacy.bin"), EntryKind::Container);
    assert_eq!(classify_name("x.BIN"), EntryKind::Container);
    assert_eq!(classify_name("a.b.gma"), EntryKind::Package);
    assert_eq!(classify_name("addon.gma.bin"), EntryKind::Container);
    assert_eq!(classify_name("readme.txt"), EntryKind::Other);
    assert_eq!(classify_name("addon.gmad"), EntryKind::Other);
    assert_eq!(classify_name("addon.gm"), EntryKind::Other);
    assert_eq!(classify_name("trailing."), EntryKind::Other);
    assert_eq!(classify_name("café.gmä"), EntryKind::Other);
}

#[test]
fn names_without_extension_are_skipped() {
    assert_eq!(classify_name(""), EntryKind::Skipped);
    assert_eq!(classify_name("gma"), EntryKind::Skipped);
    assert_eq!(classify_name(".gma"), EntryKind::Skipped);
    assert_eq!(classify_name(".bin"), EntryKind::Skipped);
    assert_eq!(classify_name("noext"), EntryKind::Skipped);
}

#[test]
fn hidden_name_with_second_dot_has_extension() {
    assert_eq!(classify_name(".hidden.gma"), EntryKind::Package);
    assert_eq!(classify_name("..gma"), EntryKind::Package);
}

#[test]
fn only_regular_files_count() {
    assert_eq!(classify(&file("addon.gma")), EntryKind::Package);
    assert_eq!(classify(&dir("addon.gma")), EntryKind::Skipped);
    assert_eq!(classify(&dir("stuff.bin")), EntryKind::Skipped);
}

#[test]
fn empty_directory_selects_nothing() {
    assert_eq!(select_entry(&vec![]), Selection::Nothing);
    assert_eq!(select_entry(&vec![dir("sub"), file("noext"), file(".hidden")]), Selection::Nothing);
}

#[test]
fn first_package_or_container_decides() {
    assert_eq!(select_entry(&vec![file("a.gma")]), Selection::Package(0));
    assert_eq!(select_entry(&vec![file("a.bin")]), Selection::Compressed(0));
    assert_eq!(select_entry(&vec![file("a.bin"), file("b.gma")]), Selection::Compressed(0));
    assert_eq!(select_entry(&vec![file("a.gma"), file("b.bin")]), Selection::Package(0));
    assert_eq!(
        select_entry(&vec![dir("d.gma"), file("noext"), file("b.GMA"), file("c.gma")]),
        Selection::Package(2)
    );
}

#[test]
fn single_unknown_file_is_taken_for_a_container() {
    assert_eq!(select_entry(&vec![file("blob.dat")]), Selection::Compressed(0));
    assert_eq!(select_entry(&vec![dir("x"), file("blob.dat"), file("noext")]), Selection::Compressed(1));
}

#[test]
fn unknown_file_before_a_package_does_not_matter() {
    assert_eq!(select_entry(&vec![file("readme.txt"), file("a.gma")]), Selection::Package(1));
    assert_eq!(select_entry(&vec![file("readme.txt"), file("a.bin")]), Selection::Compressed(1));
}

#[test]
fn two_unknown_files_are_ambiguous() {
    assert_eq!(select_entry(&vec![file("a.txt"), file("b.dat")]), Selection::Ambiguous);
    assert_eq!(select_entry(&vec![file("a.txt"), file("b.dat"), file("c.gma")]), Selection::Ambiguous);
    assert_eq!(
        select_entry(&vec![file("a.txt"), file("c.gma"), file("b.dat")]),
        Selection::Package(1)
    );
}

#[test]
fn plan_for_the_cache_path_is_nothing_to_do() {
    let found = Found::Directory(vec![file("a.gma")]);
    assert_eq!(plan_cache(5, "garrysmod/cache/srcds/5.gma", &found), Plan::Cached);
    let found = Found::File { name: Some("5.gma".to_string()) };
    assert_eq!(plan_cache(5, "garrysmod/cache/srcds/5.gma", &found), Plan::Cached);
}

#[test]
fn plan_for_a_directory_follows_the_selection() {
    let path = "/steam/content/4000/5";
    assert_eq!(
        plan_cache(5, path, &Found::Directory(vec![file("x.txt"), file("a.gma")])),
        Plan::Copy(Origin::Entry(1))
    );
    assert_eq!(
        plan_cache(5, path, &Found::Directory(vec![file("a.bin")])),
        Plan::Unpack(Origin::Entry(0))
    );
    assert_eq!(
        plan_cache(5, path, &Found::Directory(vec![file("a.dat")])),
        Plan::Unpack(Origin::Entry(0))
    );
    assert_eq!(
        plan_cache(5, path, &Found::Directory(vec![file("a.dat"), file("b.dat")])),
        Plan::Missing
    );
    assert_eq!(plan_cache(5, path, &Found::Directory(vec![])), Plan::Missing);
}

#[test]
fn plan_for_a_file_copies_packages_and_unpacks_the_rest() {
    let found = Found::File { name: Some("5.gma".to_string()) };
    assert_eq!(plan_cache(5, "/steam/5.gma", &found), Plan::Copy(Origin::Path));
    let found = Found::File { name: Some("5.GMA".to_string()) };
    assert_eq!(plan_cache(5, "/steam/5.GMA", &found), Plan::Copy(Origin::Path));
    let found = Found::File { name: Some("5_legacy.bin".to_string()) };
    assert_eq!(plan_cache(5, "/steam/5_legacy.bin", &found), Plan::Unpack(Origin::Path));
    let found = Found::File { name: Some("noext".to_string()) };
    assert_eq!(plan_cache(5, "/steam/noext", &found), Plan::Unpack(Origin::Path));
    let found = Found::File { name: None };
    assert_eq!(plan_cache(5, "/steam/..", &found), Plan::Unpack(Origin::Path));
}

#[test]
fn signature_is_four_bytes() {
    assert!(starts_with_signature(b"GMAD"));
    assert!(starts_with_signature(b"GMAD\x03rest"));
    assert!(!starts_with_signature(b""));
    assert!(!starts_with_signature(b"GMA"));
    assert!(!starts_with_signature(b"gmad"));
    assert!(!starts_with_signature(b"XGMAD"));
}

#[test]
fn decoded_contents_are_checked_for_the_signature() {
    assert_eq!(check_package(Some(b"GMAD1234".to_vec())), Ok(b"GMAD1234".to_vec()));
    assert_eq!(check_package(Some(b"GMAD".to_vec())), Ok(b"GMAD".to_vec()));
    assert_eq!(check_package(Some(b"NOPE1234".to_vec())), Err(ArtifactError::InvalidData));
    assert_eq!(check_package(Some(Vec::new())), Err(ArtifactError::InvalidData));
    assert_eq!(check_package(None), Err(ArtifactError::InvalidData));
}

#[test]
fn container_with_a_package_unpacks_to_it() {
    let package = b"GMAD\x03 a synthetic package file, long enough to compress a little".to_vec();
    let container = gmod_lzma::compress(&package, 9).unwrap();
    assert_ne!(container, package);
    assert_eq!(unpack(&container), Ok(package));
}

#[test]
fn container_without_a_package_is_invalid() {
    let contents = b"DAMG this is not a package file".to_vec();
    let container = gmod_lzma::compress(&contents, 9).unwrap();
    assert_eq!(unpack(&container), Err(ArtifactError::InvalidData));
}

#[test]
fn known_container_unpacks_to_known_bytes() {
    // The container of "Hello world": no package, so the signature check refuses it.
    let container: [u8; 29] = [
        0x5D, 0x00, 0x00, 0x01, 0x00, 0x0B, 0x00, 0x00, 0x00, 0x00, 0x00, 0x00, 0x00, 0x00, 0x24,
        0x19, 0x49, 0x98, 0x6F, 0x10, 0x19, 0xC6, 0xD7, 0x31, 0xEB, 0x36, 0x11, 0xEF, 0x00,
    ];
    assert_eq!(read_declared_size(&container), 11);
    assert_eq!(unpack(&container), Err(ArtifactError::InvalidData));
}

#[test]
fn what_does_not_decompress_is_invalid() {
    assert_eq!(unpack(b""), Err(ArtifactError::InvalidData));
    assert_eq!(unpack(b"Error!!!"), Err(ArtifactError::InvalidData));
    assert_eq!(unpack(b"twelve bytes"), Err(ArtifactError::InvalidData));
    // A header that declares four bytes, and no stream behind it.
    let header: [u8; 13] = [0x5D, 0x00, 0x00, 0x01, 0x00, 0x04, 0, 0, 0, 0, 0, 0, 0];
    assert_eq!(unpack(&header), Err(ArtifactError::InvalidData));
}

#[test]
fn stream_that_ends_before_the_declared_size_is_invalid() {
    let package = b"GMAD and a few more bytes".to_vec();
    let mut container = gmod_lzma::compress(&package, 9).unwrap();
    let declared = package.len() as u64 + 1;
    container[5..13].copy_from_slice(&declared.to_le_bytes());
    assert_eq!(unpack(&container), Err(ArtifactError::InvalidData));
}

#[test]
fn contents_come_in_a_buffer_of_the_declared_size() {
    let package = b"GMAD and a few more bytes".to_vec();
    let mut container = gmod_lzma::compress(&package, 9).unwrap();
    container[5..13].copy_from_slice(&4u64.to_le_bytes());
    assert_eq!(unpack(&container), Ok(b"GMAD".to_vec()));
    container[5..13].copy_from_slice(&3u64.to_le_bytes());
    assert_eq!(unpack(&container), Err(ArtifactError::InvalidData));
}

#[test]
fn header_that_declares_too_much_is_invalid() {
    let mut container = gmod_lzma::compress(b"GMAD....", 9).unwrap();
    for byte in &mut container[5..13] {
        *byte = 0xFF;
    }
    assert_eq!(read_declared_size(&container), u64::MAX);
    assert_eq!(unpack(&container), Err(ArtifactError::InvalidData));
}

#[test]
fn declared_size_is_little_endian() {
    assert_eq!(CONTAINER_HEADER, 13);
    let mut header = vec![0u8; 13];
    header[5] = 0x01;
    header[6] = 0x02;
    assert_eq!(read_declared_size(&header), 0x0201);
    header[12] = 0x80;
    assert_eq!(read_declared_size(&header), 0x8000_0000_0000_0201);
}

#[test]
fn highly_redundant_package_still_unpacks() {
    // Nothing compresses better than a long run of one byte.
    let mut package = b"GMAD".to_vec();
    package.resize(8 * 1024 * 1024, 0);
    let container = gmod_lzma::compress(&package, 9).unwrap();
    assert!(container.len() < 4096);
    assert_eq!(read_declared_size(&container), package.len() as u64);
    assert_eq!(unpack(&container), Ok(package));
}
