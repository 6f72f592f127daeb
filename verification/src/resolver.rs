//! Finding out which release of the backend's SDK a given library file
//! belongs to.
//!
//! The releases are listed on a download page, each as a link to an archive.
//! The library file belongs to the first release whose archive holds, under
//! the platform's path, a file with the same SHA-256 digest. Fetching the
//! page and the archives is the host's part; the functions here read them.

use indexmap::IndexSet;
use sha2::Digest;
use vstd::prelude::*;

verus! {

/// A platform that the SDK ships a library file for.
#[derive(Clone, Copy, Debug, PartialEq, Eq, Structural)]
pub enum Platform {
    /// 32-bit Windows.
    Win32,
    /// 64-bit Windows.
    Win64,
    /// 32-bit Linux.
    Linux32,
    /// 64-bit Linux.
    Linux64,
    /// macOS.
    OSX,
}

impl Platform {
    /// The path of the platform's library file inside a release archive.
    pub open spec fn path_of(self) -> Seq<char> {
        match self {
            Platform::Win32 => "sdk/redistributable_bin/steam_api.dll"@,
            Platform::Win64 => "sdk/redistributable_bin/win64/steam_api64.dll"@,
            Platform::Linux32 => "sdk/redistributable_bin/linux32/libsteam_api.so"@,
            Platform::Linux64 => "sdk/redistributable_bin/linux64/libsteam_api.so"@,
            Platform::OSX => "sdk/redistributable_bin/osx/libsteam_api.dylib"@,
        }
    }

    /// The platform that goes by `name`, if there is one.
    pub open spec fn named(name: Seq<char>) -> Option<Platform> {
        if name == "win32"@ {
            Some(Platform::Win32)
        } else if name == "win64"@ {
            Some(Platform::Win64)
        } else if name == "linux32"@ {
            Some(Platform::Linux32)
        } else if name == "linux64"@ {
            Some(Platform::Linux64)
        } else if name == "osx"@ {
            Some(Platform::OSX)
        } else {
            None
        }
    }

    /// Gives the path of the platform's library file inside a release archive.
    pub fn path(&self) -> (path: &'static str)
        ensures
            path@ == self.path_of(),
    {
        match self {
            Platform::Win32 => "sdk/redistributable_bin/steam_api.dll",
            Platform::Win64 => "sdk/redistributable_bin/win64/steam_api64.dll",
            Platform::Linux32 => "sdk/redistributable_bin/linux32/libsteam_api.so",
            Platform::Linux64 => "sdk/redistributable_bin/linux64/libsteam_api.so",
            Platform::OSX => "sdk/redistributable_bin/osx/libsteam_api.dylib",
        }
    }

    /// Reads a platform's name; a name that is none comes back as the error.
    pub fn parse(name: &str) -> (platform: Result<Platform, String>)
        ensures
            match platform {
                Ok(platform) => Platform::named(name@) == Some(platform),
                Err(unknown) => Platform::named(name@) is None && unknown@ == name@,
            },
    {
        let given = name.to_owned();
        if given == "win32".to_owned() {
            Ok(Platform::Win32)
        } else if given == "win64".to_owned() {
            Ok(Platform::Win64)
        } else if given == "linux32".to_owned() {
            Ok(Platform::Linux32)
        } else if given == "linux64".to_owned() {
            Ok(Platform::Linux64)
        } else if given == "osx".to_owned() {
            Ok(Platform::OSX)
        } else {
            Err(given)
        }
    }
}

impl std::str::FromStr for Platform {
    type Err = String;

    fn from_str(s: &str) -> (platform: Result<Platform, String>)
        ensures
            match platform {
                Ok(platform) => Platform::named(s@) == Some(platform),
                Err(unknown) => Platform::named(s@) is None && unknown@ == s@,
            },
    {
        Platform::parse(s)
    }
}

/// The SHA-256 digest of `data`: 32 bytes.
pub uninterp spec fn sha256_of(data: Seq<u8>) -> Seq<u8>;

/// Calls `sha2::Sha256::digest`.
///
/// Not proved: that the 32 bytes that come back are the SHA-256 digest of
/// `data`, which depends on `data` alone.
#[verifier::external_body]
fn sha256(data: &[u8]) -> (digest: [u8; 32])
    ensures
        digest@ == sha256_of(data@),
{
    sha2::Sha256::digest(data).into()
}

/// Says whether two digests are the same.
pub fn same_digest(left: &[u8; 32], right: &[u8; 32]) -> (same: bool)
    ensures
        same <==> left@ == right@,
{
    let mut i: usize = 0;
    while i < 32
        invariant
            i <= 32,
            forall|k: int| 0 <= k < i ==> left@[k] == right@[k],
        decreases 32 - i,
    {
        if left[i] != right[i] {
            return false;
        }
        i += 1;
    }
    assert(left@ =~= right@);
    true
}

/// Says whether `data` has the digest `reference`.
pub fn has_digest(data: &[u8], reference: &[u8; 32]) -> (same: bool)
    ensures
        same <==> sha256_of(data@) == reference@,
{
    let digest = sha256(data);
    same_digest(&digest, reference)
}

/// The pattern of a link to a release archive on the download page.
pub const LINK_PATTERN: &'static str = "<a class=\"contentsLink\" href=\"(.+?)\">Download</a>";

/// The group of the link pattern that holds the archive's address.
pub const LINK_GROUP: usize = 1;

/// What the group `group` of `pattern` holds in each match in `text`, the
/// matches taken from left to right without overlap: the group's text, or
/// nothing where the pattern has no such group or the group took no part in
/// the match. Nothing at all where `pattern` is no regular expression.
pub uninterp spec fn groups_of(pattern: Seq<char>, group: nat, text: Seq<char>) -> Option<
    Seq<Option<Seq<char>>>,
>;

/// The texts that a list of groups holds.
pub open spec fn group_texts(groups: Seq<Option<String>>) -> Seq<Option<Seq<char>>> {
    groups.map_values(
        |group: Option<String>|
            match group {
                Some(text) => Some(text@),
                None => None,
            },
    )
}

/// The texts that a list of strings holds.
pub open spec fn texts(strings: Seq<String>) -> Seq<Seq<char>> {
    strings.map_values(|text: String| text@)
}

/// Calls `regex::Regex::new`, `regex::Regex::captures_iter` and, on each
/// match, `regex::Captures::get`.
///
/// Not proved: that what comes back is what the group holds in each match,
/// in the order of the matches, which depends on the pattern, the group and
/// the text alone.
#[verifier::external_body]
fn capture_groups(pattern: &str, group: usize, text: &str) -> (groups: Option<
    Vec<Option<String>>,
>)
    ensures
        match groups {
            Some(groups) => groups_of(pattern@, group as nat, text@) == Some(
                group_texts(groups@),
            ),
            None => groups_of(pattern@, group as nat, text@) is None,
        },
{
    let re = regex::Regex::new(pattern).ok()?;
    Some(re.captures_iter(text).map(|cap| cap.get(group).map(|m| m.as_str().to_string())).collect())
}

/// The groups that took part in their match, in order.
pub open spec fn present(groups: Seq<Option<Seq<char>>>) -> Seq<Seq<char>>
    decreases groups.len(),
{
    if groups.len() == 0 {
        Seq::empty()
    } else if groups.last() is Some {
        present(groups.drop_last()).push(groups.last()->0)
    } else {
        present(groups.drop_last())
    }
}

/// The items of a list without repetitions: each where it first occurs.
pub open spec fn first_occurrences(items: Seq<Seq<char>>) -> Seq<Seq<char>>
    decreases items.len(),
{
    if items.len() == 0 {
        Seq::empty()
    } else {
        let earlier = first_occurrences(items.drop_last());
        if earlier.contains(items.last()) {
            earlier
        } else {
            earlier.push(items.last())
        }
    }
}

/// What is left without repetitions holds every item of the list, and
/// holds none twice.
pub proof fn lemma_first_occurrences(items: Seq<Seq<char>>)
    ensures
        first_occurrences(items).no_duplicates(),
        forall|item: Seq<char>|
            first_occurrences(items).contains(item) <==> items.contains(item),
    decreases items.len(),
{
    if items.len() > 0 {
        let earlier = items.drop_last();
        let last = items.last();
        lemma_first_occurrences(earlier);
        let kept = first_occurrences(earlier);
        let all = first_occurrences(items);
        assert forall|item: Seq<char>| all.contains(item) <==> items.contains(item) by {
            if items.contains(item) {
                let k = choose|k: int| 0 <= k < items.len() && items[k] == item;
                if k < earlier.len() {
                    assert(earlier[k] == item);
                    assert(earlier.contains(item));
                    assert(kept.contains(item));
                    let j = choose|j: int| 0 <= j < kept.len() && kept[j] == item;
                    assert(all[j] == item);
                } else if kept.contains(last) {
                } else {
                    assert(all[all.len() - 1] == item);
                }
            }
            if all.contains(item) {
                let j = choose|j: int| 0 <= j < all.len() && all[j] == item;
                if j < kept.len() {
                    assert(kept[j] == item);
                    assert(kept.contains(item));
                    assert(earlier.contains(item));
                    let k = choose|k: int| 0 <= k < earlier.len() && earlier[k] == item;
                    assert(items[k] == item);
                } else {
                    assert(items[items.len() - 1] == item);
                }
            }
        }
    }
}

/// Keeps the groups that took part in their match.
pub fn present_groups(groups: Vec<Option<String>>) -> (links: Vec<String>)
    ensures
        texts(links@) == present(group_texts(groups@)),
{
    let mut links: Vec<String> = Vec::new();
    let mut i: usize = 0;
    while i < groups.len()
        invariant
            i <= groups.len(),
            texts(links@) == present(group_texts(groups@).take(i as int)),
        decreases groups.len() - i,
    {
        let ghost before = links@;
        assert(group_texts(groups@).take(i + 1).drop_last() =~= group_texts(groups@).take(
            i as int,
        ));
        match &groups[i] {
            Some(text) => {
                links.push(text.clone());
                assert(texts(links@) =~= texts(before).push(text@));
            },
            None => {},
        }
        i += 1;
    }
    assert(group_texts(groups@).take(groups@.len() as int) =~= group_texts(groups@));
    links
}

/// A set that keeps its items in the order in which they were inserted.
#[verifier::external_type_specification]
#[verifier::external_body]
#[verifier::reject_recursive_types(T)]
#[verifier::reject_recursive_types(S)]
pub struct ExIndexSet<T, S>(IndexSet<T, S>);

/// The items of a set of links, in the order in which they were inserted.
pub uninterp spec fn link_set_items(set: IndexSet<String>) -> Seq<Seq<char>>;

/// Calls `indexmap::IndexSet::new`.
///
/// Not proved: that the new set is empty.
#[verifier::external_body]
fn link_set_new() -> (set: IndexSet<String>)
    ensures
        link_set_items(set) == Seq::<Seq<char>>::empty(),
{
    IndexSet::new()
}

/// Calls `indexmap::IndexSet::insert`.
///
/// Not proved: that an item which the set holds already leaves the set as it
/// is, that any other item goes to the end, and that the result says which
/// of the two it was.
#[verifier::external_body]
fn link_set_insert(set: &mut IndexSet<String>, link: String) -> (inserted: bool)
    ensures
        inserted == !link_set_items(*old(set)).contains(link@),
        link_set_items(*final(set)) == if link_set_items(*old(set)).contains(link@) {
            link_set_items(*old(set))
        } else {
            link_set_items(*old(set)).push(link@)
        },
{
    set.insert(link)
}

/// Calls `indexmap::IndexSet::into_iter`.
///
/// Not proved: that the items come out in the order in which they were inserted.
#[verifier::external_body]
fn link_set_into_vec(set: IndexSet<String>) -> (links: Vec<String>)
    ensures
        texts(links@) == link_set_items(set),
{
    set.into_iter().collect()
}

/// Drops the repetitions from a list of links: each link stays where it first occurs.
pub fn unique_links(links: Vec<String>) -> (unique: Vec<String>)
    ensures
        texts(unique@) == first_occurrences(texts(links@)),
{
    let mut set = link_set_new();
    let mut i: usize = 0;
    while i < links.len()
        invariant
            i <= links.len(),
            link_set_items(set) == first_occurrences(texts(links@).take(i as int)),
        decreases links.len() - i,
    {
        assert(texts(links@).take(i + 1).drop_last() =~= texts(links@).take(i as int));
        link_set_insert(&mut set, links[i].clone());
        i += 1;
    }
    assert(texts(links@).take(links@.len() as int) =~= texts(links@));
    link_set_into_vec(set)
}

/// The links to release archives that groups found on the download page
/// amount to: the groups that took part in their match, without repetitions.
pub open spec fn links_of(groups: Seq<Option<Seq<char>>>) -> Seq<Seq<char>> {
    first_occurrences(present(groups))
}

/// Turns the groups found on the download page into the list of release archives.
pub fn release_links(groups: Vec<Option<String>>) -> (links: Vec<String>)
    ensures
        texts(links@) == links_of(group_texts(groups@)),
{
    unique_links(present_groups(groups))
}

/// Lists the release archives that the download page links to, each once
/// and in the order of the page.
///
/// Nothing comes back only if the link pattern is no regular expression.
pub fn download_links(html: &str) -> (links: Option<Vec<String>>)
    ensures
        match links {
            Some(links) => groups_of(LINK_PATTERN@, LINK_GROUP as nat, html@) matches Some(groups)
                && texts(links@) == links_of(groups),
            None => groups_of(LINK_PATTERN@, LINK_GROUP as nat, html@) is None,
        },
{
    match capture_groups(LINK_PATTERN, LINK_GROUP, html) {
        Some(groups) => Some(release_links(groups)),
        None => None,
    }
}

/// What reading the member `name` of the archive `archive` yields: the
/// member's bytes, or the reason why it cannot be read. Nothing where
/// `archive` is no archive.
pub uninterp spec fn zip_member_of(archive: Seq<u8>, name: Seq<char>) -> Option<
    Result<Seq<u8>, Seq<char>>,
>;

/// What a member that was read holds.
pub open spec fn member_view(member: Option<Result<Vec<u8>, String>>) -> Option<
    Result<Seq<u8>, Seq<char>>,
> {
    match member {
        Some(Ok(bytes)) => Some(Ok(bytes@)),
        Some(Err(reason)) => Some(Err(reason@)),
        None => None,
    }
}

/// Calls `zip::read::ZipArchive::new`, `zip::read::ZipArchive::by_name` and,
/// on the member, `std::io::Read::read_to_end`.
///
/// Not proved: that what comes back is the member's content or the error of
/// the archive's reader, which depends on the archive and the name alone.
#[verifier::external_body]
fn zip_member(archive: &[u8], name: &str) -> (member: Option<Result<Vec<u8>, String>>)
    ensures
        member_view(member) == zip_member_of(archive@, name@),
{
    let mut zip = zip::read::ZipArchive::new(std::io::Cursor::new(archive)).ok()?;
    let mut file = match zip.by_name(name) {
        Ok(file) => file,
        Err(error) => return Some(Err(error.to_string())),
    };
    let mut bytes = Vec::new();
    match std::io::Read::read_to_end(&mut file, &mut bytes) {
        Ok(_) => Some(Ok(bytes)),
        Err(error) => Some(Err(error.to_string())),
    }
}

/// What a release archive says about the library file in question.
#[derive(Clone, Debug, PartialEq, Eq)]
pub enum Verdict {
    /// The release holds the very file: the search is over.
    Match,
    /// The release holds another file for the platform.
    Different,
    /// The release's file for the platform cannot be read, for this reason.
    Unreadable(String),
    /// What was fetched is no archive.
    NotAnArchive,
}

/// Judges a release by what was read from its archive.
///
/// A member that was read matches if it has the digest `reference`.
pub fn judge(member: Option<Result<Vec<u8>, String>>, reference: &[u8; 32]) -> (verdict: Verdict)
    ensures
        match verdict {
            Verdict::Match => member matches Some(Ok(bytes)) && sha256_of(bytes@) == reference@,
            Verdict::Different => member matches Some(Ok(bytes)) && sha256_of(bytes@)
                != reference@,
            Verdict::Unreadable(reason) => member == Some(
                Err::<Vec<u8>, String>(reason),
            ),
            Verdict::NotAnArchive => member is None,
        },
{
    match member {
        Some(Ok(bytes)) => {
            if has_digest(bytes.as_slice(), reference) {
                Verdict::Match
            } else {
                Verdict::Different
            }
        },
        Some(Err(reason)) => Verdict::Unreadable(reason),
        None => Verdict::NotAnArchive,
    }
}

/// Judges a release: does its archive hold, under the platform's path, a
/// file with the digest `reference`?
pub fn check_release(archive: &[u8], platform: Platform, reference: &[u8; 32]) -> (verdict:
    Verdict)
    ensures
        match verdict {
            Verdict::Match => zip_member_of(archive@, platform.path_of()) matches Some(Ok(bytes))
                && sha256_of(bytes) == reference@,
            Verdict::Different => zip_member_of(archive@, platform.path_of()) matches Some(
                Ok(bytes),
            ) && sha256_of(bytes) != reference@,
            Verdict::Unreadable(reason) => zip_member_of(archive@, platform.path_of()) == Some(
                Err::<Seq<u8>, Seq<char>>(reason@),
            ),
            Verdict::NotAnArchive => zip_member_of(archive@, platform.path_of()) is None,
        },
{
    judge(zip_member(archive, platform.path()), reference)
}

/// Gives the digest by which a library file is recognised.
pub fn digest_of(data: &[u8]) -> (digest: [u8; 32])
    ensures
        digest@ == sha256_of(data@),
{
    sha256(data)
}

} // verus!
