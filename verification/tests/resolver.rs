use gmsv_workshop::resolver::{
    check_release, digest_of, download_links, has_digest, judge, present_groups, release_links,
    same_digest, unique_links, Platform, Verdict, LINK_PATTERN,
};
use std::io::Write;
use std::str::FromStr;

const ABC_DIGEST: [u8; 32] = [
    0xba, 0x78, 0x16, 0xbf, 0x8f, 0x01, 0xcf, 0xea, 0x41, 0x41, 0x40, 0xde, 0x5d, 0xae, 0x22, 0x23,
    0xb0, 0x03, 0x61, 0xa3, 0x96, 0x17, 0x7a, 0x9c, 0xb4, 0x10, 0xff, 0x61, 0xf2, 0x00, 0x15, 0xad,
];

const EMPTY_DIGEST: [u8; 32] = [
    0xe3, 0xb0, 0xc4, 0x42, 0x98, 0xfc, 0x1c, 0x14, 0x9a, 0xfb, 0xf4, 0xc8, 0x99, 0x6f, 0xb9, 0x24,
    0x27, 0xae, 0x41, 0xe4, 0x64, 0x9b, 0x93, 0x4c, 0xa4, 0x95, 0x99, 0x1b, 0x78, 0x52, 0xb8, 0x55,
];

fn archive(members: &[(&str, &[u8])], method: zip::CompressionMethod) -> Vec<u8> {
    let mut writer = zip::ZipWriter::new(std::io::Cursor::new(Vec::new()));
    let options = zip::write::SimpleFileOptions::default().compression_method(method);
    for (name, content) in members {
        writer.start_file(*name, options).unwrap();
        writer.write_all(content).unwrap();
    }
    writer.finish().unwrap().into_inner()
}

fn strings(items: &[&str]) -> Vec<String> {
    items.iter().map(|item| item.to_string()).collect()
}

#[test]
fn platform_paths() {
    assert_eq!(Platform::Win32.path(), "sdk/redistributable_bin/steam_api.dll");
    assert_eq!(Platform::Win64.path(), "sdk/redistributable_bin/win64/steam_api64.dll");
    assert_eq!(Platform::Linux32.path(), "sdk/redistributable_bin/linux32/libsteam_api.so");
    assert_eq!(Platform::Linux64.path(), "sdk/redistributable_bin/linux64/libsteam_api.so");
    assert_eq!(Platform::OSX.path(), "sdk/redistributable_bin/osx/libsteam_api.dylib");
}

#[test]
fn platform_names() {
    assert_eq!(Platform::from_str("win32"), Ok(Platform::Win32));
    assert_eq!(Platform::from_str("win64"), Ok(Platform::Win64));
    assert_eq!(Platform::from_str("linux32"), Ok(Platform::Linux32));
    assert_eq!(Platform::from_str("linux64"), Ok(Platform::Linux64));
    assert_eq!(Platform::from_str("osx"), Ok(Platform::OSX));
    assert_eq!(Platform::parse("linux64"), Ok(Platform::Linux64));
}

#[test]
fn unknown_platform_comes_back_as_the_error() {
    assert_eq!(Platform::from_str("Win32"), Err("Win32".to_string()));
    assert_eq!(Platform::from_str(""), Err(String::new()));
    assert_eq!(Platform::from_str("linux"), Err("linux".to_string()));
    assert_eq!(Platform::parse("osx "), Err("osx ".to_string()));
}

#[test]
fn digest_is_sha256() {
    assert_eq!(digest_of(b"abc"), ABC_DIGEST);
    assert_eq!(digest_of(b""), EMPTY_DIGEST);
    assert!(has_digest(b"abc", &ABC_DIGEST));
    assert!(!has_digest(b"abd", &ABC_DIGEST));
    assert!(!has_digest(b"abc", &EMPTY_DIGEST));
}

#[test]
fn digests_are_compared_byte_by_byte() {
    assert!(same_digest(&ABC_DIGEST, &ABC_DIGEST));
    assert!(!same_digest(&ABC_DIGEST, &EMPTY_DIGEST));
    let mut last = ABC_DIGEST;
    last[31] ^= 1;
    assert!(!same_digest(&ABC_DIGEST, &last));
    let mut first = ABC_DIGEST;
    first[0] ^= 0x80;
    assert!(!same_digest(&first, &ABC_DIGEST));
}

#[test]
fn groups_that_took_no_part_are_dropped() {
    let groups = vec![Some("a".to_string()), None, Some("b".to_string()), None];
    assert_eq!(present_groups(groups), strings(&["a", "b"]));
    assert_eq!(present_groups(vec![]), Vec::<String>::new());
    assert_eq!(present_groups(vec![None]), Vec::<String>::new());
}

#[test]
fn repeated_links_stay_where_they_first_occur() {
    assert_eq!(unique_links(strings(&["a", "b", "a", "c", "b", "a"])), strings(&["a", "b", "c"]));
    assert_eq!(unique_links(strings(&["x", "x", "x"])), strings(&["x"]));
    assert_eq!(unique_links(strings(&["c", "b", "a"])), strings(&["c", "b", "a"]));
    assert_eq!(unique_links(vec![]), Vec::<String>::new());
    let groups = vec![Some("a".to_string()), None, Some("a".to_string()), Some("b".to_string())];
    assert_eq!(release_links(groups), strings(&["a", "b"]));
}

#[test]
fn links_are_read_from_the_page() {
    assert_eq!(LINK_PATTERN, r#"<a class="contentsLink" href="(.+?)">Download</a>"#);
    let html = [
        "<html><body>",
        "<a class=\"contentsLink\" href=\"https://example.invalid/sdk_153a.zip\">Download</a>",
        "<a class=\"other\" href=\"https://example.invalid/ignored.zip\">Download</a>",
        "<a class=\"contentsLink\" href=\"https://example.invalid/sdk_152.zip\">Download</a><a class=\"contentsLink\" href=\"https://example.invalid/sdk_153a.zip\">Download</a>",
        "<a class=\"contentsLink\" href=\"https://example.invalid/notes\">Notes</a>",
        "</body></html>",
    ]
    .join("\n");
    assert_eq!(
        download_links(&html),
        Some(strings(&["https://example.invalid/sdk_153a.zip", "https://example.invalid/sdk_152.zip"]))
    );
}

#[test]
fn page_without_links_lists_nothing() {
    assert_eq!(download_links(""), Some(vec![]));
    assert_eq!(download_links("<a href=\"x\">Download</a>"), Some(vec![]));
    assert_eq!(download_links("<a class=\"contentsLink\" href=\"\">Download</a>"), Some(vec![]));
}

#[test]
fn release_with_the_very_file_matches() {
    let path = Platform::Linux64.path();
    for method in [zip::CompressionMethod::Stored, zip::CompressionMethod::Deflated] {
        let bytes = archive(&[("readme.txt", b"hello"), (path, b"abc")], method);
        assert_eq!(check_release(&bytes, Platform::Linux64, &ABC_DIGEST), Verdict::Match);
        assert_eq!(check_release(&bytes, Platform::Linux64, &EMPTY_DIGEST), Verdict::Different);
    }
}

#[test]
fn release_without_the_platform_is_unreadable() {
    let bytes = archive(
        &[(Platform::Win32.path(), b"abc")],
        zip::CompressionMethod::Stored,
    );
    assert_eq!(check_release(&bytes, Platform::Win32, &ABC_DIGEST), Verdict::Match);
    match check_release(&bytes, Platform::OSX, &ABC_DIGEST) {
        Verdict::Unreadable(reason) => assert!(!reason.is_empty()),
        other => panic!("unexpected verdict {:?}", other),
    }
}

#[test]
fn what_is_no_archive_is_told_apart() {
    assert_eq!(check_release(b"", Platform::Linux64, &ABC_DIGEST), Verdict::NotAnArchive);
    assert_eq!(
        check_release(b"<html>not found</html>", Platform::Linux64, &ABC_DIGEST),
        Verdict::NotAnArchive
    );
}

#[test]
fn member_that_was_read_is_judged_by_its_digest() {
    assert_eq!(judge(Some(Ok(b"abc".to_vec())), &ABC_DIGEST), Verdict::Match);
    assert_eq!(judge(Some(Ok(Vec::new())), &EMPTY_DIGEST), Verdict::Match);
    assert_eq!(judge(Some(Ok(b"abc".to_vec())), &EMPTY_DIGEST), Verdict::Different);
    assert_eq!(
        judge(Some(Err("no such file".to_string())), &ABC_DIGEST),
        Verdict::Unreadable("no such file".to_string())
    );
    assert_eq!(judge(None, &ABC_DIGEST), Verdict::NotAnArchive);
}
