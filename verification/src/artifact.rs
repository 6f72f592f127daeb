//! Locating the package file of an installed item, and unpacking a compressed one.
//!
//! The backend reports where an item was installed, not which file the host
//! can mount. The functions here decide, from what the host found at that
//! place, how the package file in the cache directory comes about.

use vstd::prelude::*;
use vstd::string::StringExecFns;
use crate::item_id::{decimal, push_decimal};

verus! {

/// Why a package file could not be produced.
#[derive(Clone, Copy, Debug, PartialEq, Eq, Structural)]
pub enum ArtifactError {
    /// The host could not read or write a file.
    Io,
    /// The container does not decompress, or does not hold a package.
    InvalidData,
}

/// One entry of an install directory, as the host read it.
#[derive(Clone, Debug, PartialEq, Eq)]
pub struct DirEntry {
    /// The entry's file name, without the directory.
    pub name: String,
    /// Whether the entry is a regular file.
    pub is_file: bool,
}

/// What a directory entry means to the search for a package file.
#[derive(Clone, Copy, Debug, PartialEq, Eq, Structural)]
pub enum EntryKind {
    /// Not a regular file, or a file without an extension.
    Skipped,
    /// A package file.
    Package,
    /// A compressed container.
    Container,
    /// A file with any other extension.
    Other,
}

/// The outcome of searching an install directory.
#[derive(Clone, Copy, Debug, PartialEq, Eq, Structural)]
pub enum Selection {
    /// The entry at this index is the package file.
    Package(usize),
    /// The entry at this index has to be decompressed.
    Compressed(usize),
    /// Two files of unknown kind came before any package or container.
    Ambiguous,
    /// No file with an extension was found.
    Nothing,
}

/// Where the file that a plan works on lies.
#[derive(Clone, Copy, Debug, PartialEq, Eq, Structural)]
pub enum Origin {
    /// The reported path itself.
    Path,
    /// The entry at this index of the reported directory.
    Entry(usize),
}

/// How the package file in the cache directory comes about.
#[derive(Clone, Copy, Debug, PartialEq, Eq, Structural)]
pub enum Plan {
    /// The reported path is the cached package file: nothing to do.
    Cached,
    /// Copy the file to the cache path.
    Copy(Origin),
    /// Decompress the file and write the result to the cache path.
    Unpack(Origin),
    /// No package file can be produced.
    Missing,
}

/// What the host found at the reported path.
#[derive(Clone, Debug, PartialEq, Eq)]
pub enum Found {
    /// A directory with these entries, in the order the host read them.
    Directory(Vec<DirEntry>),
    /// Anything else; `name` is the last component of the path, if it has one.
    File { name: Option<String> },
}

/// The index of the last dot in `name`, or -1 if it holds none.
pub open spec fn last_dot(name: Seq<char>) -> int
    decreases name.len(),
{
    if name.len() == 0 {
        -1
    } else if name.last() == '.' {
        name.len() - 1
    } else {
        last_dot(name.drop_last())
    }
}

/// The extension of a file name: what follows its last dot, unless the name
/// holds no dot or its only dot leads it.
pub open spec fn extension_of(name: Seq<char>) -> Option<Seq<char>> {
    let dot = last_dot(name);
    if dot <= 0 {
        None
    } else {
        Some(name.skip(dot + 1))
    }
}

/// Whether `c` is the letter `lower`, in either ASCII case.
pub open spec fn is_letter(c: char, lower: char, upper: char) -> bool {
    c == lower || c == upper
}

/// Whether an extension is `gma`, ASCII case ignored.
pub open spec fn is_package_extension(ext: Seq<char>) -> bool {
    &&& ext.len() == 3
    &&& is_letter(ext[0], 'g', 'G')
    &&& is_letter(ext[1], 'm', 'M')
    &&& is_letter(ext[2], 'a', 'A')
}

/// Whether an extension is `bin`, ASCII case ignored.
pub open spec fn is_container_extension(ext: Seq<char>) -> bool {
    &&& ext.len() == 3
    &&& is_letter(ext[0], 'b', 'B')
    &&& is_letter(ext[1], 'i', 'I')
    &&& is_letter(ext[2], 'n', 'N')
}

/// What a file of this name is, going by its extension.
pub open spec fn kind_of_name(name: Seq<char>) -> EntryKind {
    match extension_of(name) {
        None => EntryKind::Skipped,
        Some(ext) => if is_package_extension(ext) {
            EntryKind::Package
        } else if is_container_extension(ext) {
            EntryKind::Container
        } else {
            EntryKind::Other
        },
    }
}

/// What a directory entry means to the search.
pub open spec fn kind_of(entry: DirEntry) -> EntryKind {
    if entry.is_file {
        kind_of_name(entry.name@)
    } else {
        EntryKind::Skipped
    }
}

/// The state of a search that walks a directory from its first entry.
pub enum Scan {
    /// Undecided so far; the index of the one file of unknown kind that was seen.
    Open(Option<usize>),
    /// Decided: later entries change nothing.
    Closed(Selection),
}

/// The search after one more entry, which has index `index` and kind `kind`.
pub open spec fn scan_step(scan: Scan, index: usize, kind: EntryKind) -> Scan {
    match scan {
        Scan::Closed(_) => scan,
        Scan::Open(candidate) => match kind {
            EntryKind::Skipped => scan,
            EntryKind::Package => Scan::Closed(Selection::Package(index)),
            EntryKind::Container => Scan::Closed(Selection::Compressed(index)),
            EntryKind::Other => if candidate is Some {
                Scan::Closed(Selection::Ambiguous)
            } else {
                Scan::Open(Some(index))
            },
        },
    }
}

/// The search after all of `entries`.
pub open spec fn scan_of(entries: Seq<DirEntry>) -> Scan
    decreases entries.len(),
{
    if entries.len() == 0 {
        Scan::Open(None)
    } else {
        scan_step(
            scan_of(entries.drop_last()),
            (entries.len() - 1) as usize,
            kind_of(entries.last()),
        )
    }
}

/// The entry of an install directory that yields the package file.
///
/// The first package file or container decides, unless two files of unknown
/// kind come before it. With neither, a single file of unknown kind is taken
/// for a container.
pub open spec fn selection_of(entries: Seq<DirEntry>) -> Selection {
    match scan_of(entries) {
        Scan::Closed(selection) => selection,
        Scan::Open(Some(index)) => Selection::Compressed(index),
        Scan::Open(None) => Selection::Nothing,
    }
}

/// Whether an entry of this kind ends the search on its own.
pub open spec fn is_decisive(kind: EntryKind) -> bool {
    kind == EntryKind::Package || kind == EntryKind::Container
}

/// Whether no package file and no container is among the first `n` entries.
pub open spec fn undecided_before(entries: Seq<DirEntry>, n: int) -> bool {
    forall|j: int| 0 <= j < n && j < entries.len() ==> !is_decisive(#[trigger] kind_of(entries[j]))
}

/// Whether at most one file of unknown kind is among the first `n` entries.
pub open spec fn one_unknown_before(entries: Seq<DirEntry>, n: int) -> bool {
    forall|a: int, b: int|
        0 <= a < b < n && b < entries.len() ==> !(#[trigger] kind_of(entries[a]) == EntryKind::Other
            && #[trigger] kind_of(entries[b]) == EntryKind::Other)
}

/// Whether all entries but the one at `index` are skipped.
pub open spec fn skipped_but(entries: Seq<DirEntry>, index: int) -> bool {
    forall|j: int|
        0 <= j < entries.len() && j != index ==> #[trigger] kind_of(entries[j])
            == EntryKind::Skipped
}

/// Whether two files of unknown kind come before any package file or container.
pub open spec fn ambiguous(entries: Seq<DirEntry>) -> bool {
    exists|a: int, b: int|
        0 <= a < b < entries.len() && #[trigger] kind_of(entries[a]) == EntryKind::Other
            && #[trigger] kind_of(entries[b]) == EntryKind::Other && undecided_before(
            entries,
            b,
        )
}

/// What a search in progress has seen.
pub open spec fn scan_meaning(entries: Seq<DirEntry>, scan: Scan) -> bool {
    match scan {
        Scan::Open(None) => skipped_but(entries, -1),
        Scan::Open(Some(index)) => {
            &&& index < entries.len()
            &&& kind_of(entries[index as int]) == EntryKind::Other
            &&& skipped_but(entries, index as int)
        },
        Scan::Closed(Selection::Package(index)) => {
            &&& index < entries.len()
            &&& kind_of(entries[index as int]) == EntryKind::Package
            &&& undecided_before(entries, index as int)
            &&& one_unknown_before(entries, index as int)
        },
        Scan::Closed(Selection::Compressed(index)) => {
            &&& index < entries.len()
            &&& kind_of(entries[index as int]) == EntryKind::Container
            &&& undecided_before(entries, index as int)
            &&& one_unknown_before(entries, index as int)
        },
        Scan::Closed(Selection::Ambiguous) => ambiguous(entries),
        Scan::Closed(Selection::Nothing) => false,
    }
}

/// The search sees what `scan_meaning` says.
proof fn lemma_scan_meaning(entries: Seq<DirEntry>)
    requires
        entries.len() <= usize::MAX,
    ensures
        scan_meaning(entries, scan_of(entries)),
    decreases entries.len(),
{
    if entries.len() > 0 {
        let earlier = entries.drop_last();
        let last = entries.len() - 1;
        lemma_scan_meaning(earlier);
        assert forall|j: int| 0 <= j < last implies earlier[j] == entries[j] by {}
        match scan_of(earlier) {
            Scan::Open(None) => {},
            Scan::Open(Some(index)) => {
                if kind_of(entries.last()) == EntryKind::Other {
                    assert(kind_of(entries[index as int]) == EntryKind::Other);
                    assert(kind_of(entries[last]) == EntryKind::Other);
                    assert(ambiguous(entries));
                } else if is_decisive(kind_of(entries.last())) {
                    assert forall|a: int, b: int|
                        0 <= a < b < last implies !(#[trigger] kind_of(entries[a])
                        == EntryKind::Other && #[trigger] kind_of(entries[b])
                        == EntryKind::Other) by {
                        if a != index {
                            assert(kind_of(earlier[a]) == EntryKind::Skipped);
                        } else {
                            assert(kind_of(earlier[b]) == EntryKind::Skipped);
                        }
                    }
                    assert forall|j: int| 0 <= j < last implies !is_decisive(
                        #[trigger] kind_of(entries[j]),
                    ) by {
                        if j != index {
                            assert(kind_of(earlier[j]) == EntryKind::Skipped);
                        }
                    }
                }
            },
            Scan::Closed(Selection::Ambiguous) => {
                let (a, b) = choose|a: int, b: int|
                    0 <= a < b < earlier.len() && #[trigger] kind_of(earlier[a])
                        == EntryKind::Other && #[trigger] kind_of(earlier[b]) == EntryKind::Other
                        && undecided_before(earlier, b);
                assert(kind_of(entries[a]) == EntryKind::Other);
                assert(kind_of(entries[b]) == EntryKind::Other);
                assert(undecided_before(entries, b)) by {
                    assert forall|j: int| 0 <= j < b implies !is_decisive(
                        #[trigger] kind_of(entries[j]),
                    ) by {
                        assert(!is_decisive(kind_of(earlier[j])));
                    }
                }
            },
            Scan::Closed(Selection::Package(index)) => {
                assert forall|j: int| 0 <= j < index implies !is_decisive(
                    #[trigger] kind_of(entries[j]),
                ) by {
                    assert(!is_decisive(kind_of(earlier[j])));
                }
                assert forall|a: int, b: int| 0 <= a < b < index implies !(#[trigger] kind_of(
                    entries[a],
                ) == EntryKind::Other && #[trigger] kind_of(entries[b]) == EntryKind::Other) by {
                    assert(!(kind_of(earlier[a]) == EntryKind::Other && kind_of(earlier[b])
                        == EntryKind::Other));
                }
            },
            Scan::Closed(Selection::Compressed(index)) => {
                assert forall|j: int| 0 <= j < index implies !is_decisive(
                    #[trigger] kind_of(entries[j]),
                ) by {
                    assert(!is_decisive(kind_of(earlier[j])));
                }
                assert forall|a: int, b: int| 0 <= a < b < index implies !(#[trigger] kind_of(
                    entries[a],
                ) == EntryKind::Other && #[trigger] kind_of(entries[b]) == EntryKind::Other) by {
                    assert(!(kind_of(earlier[a]) == EntryKind::Other && kind_of(earlier[b])
                        == EntryKind::Other));
                }
            },
            Scan::Closed(Selection::Nothing) => {},
        }
    }
}

/// What the selection means, said without walking the directory.
///
/// A package file or container is selected if it is the first of the two
/// kinds and at most one file of unknown kind comes before it. A file of
/// unknown kind is selected if it is the only file with an extension. The
/// directory is ambiguous if two files of unknown kind come before any
/// package file or container. Nothing is selected if no file has an extension.
pub proof fn lemma_selection_meaning(entries: Seq<DirEntry>)
    requires
        entries.len() <= usize::MAX,
    ensures
        match selection_of(entries) {
            Selection::Package(index) => {
                &&& index < entries.len()
                &&& kind_of(entries[index as int]) == EntryKind::Package
                &&& undecided_before(entries, index as int)
                &&& one_unknown_before(entries, index as int)
            },
            Selection::Compressed(index) => {
                &&& index < entries.len()
                &&& undecided_before(entries, index as int)
                &&& if kind_of(entries[index as int]) == EntryKind::Container {
                    one_unknown_before(entries, index as int)
                } else {
                    kind_of(entries[index as int]) == EntryKind::Other && skipped_but(
                        entries,
                        index as int,
                    )
                }
            },
            Selection::Ambiguous => ambiguous(entries),
            Selection::Nothing => skipped_but(entries, -1),
        },
{
    lemma_scan_meaning(entries);
    match scan_of(entries) {
        Scan::Open(Some(index)) => {
            assert forall|j: int| 0 <= j < index && j < entries.len() implies !is_decisive(
                #[trigger] kind_of(entries[j]),
            ) by {
                assert(kind_of(entries[j]) == EntryKind::Skipped);
            }
        },
        _ => {},
    }
}

/// The characters of `text`.
fn chars_of(text: &str) -> (chars: Vec<char>)
    ensures
        chars@ == text@,
{
    let mut chars: Vec<char> = Vec::new();
    for c in it: text.chars()
        invariant
            it.seq() == text@,
            chars@ == it.seq().take(it.index() as int),
    {
        chars.push(c);
    }
    chars
}

/// Says what a file of this name is, going by its extension.
pub fn classify_name(name: &str) -> (kind: EntryKind)
    ensures
        kind == kind_of_name(name@),
{
    let chars = chars_of(name);
    let len: usize = chars.len();
    let mut dot: Option<usize> = None;
    let mut i: usize = 0;
    while i < len
        invariant
            i <= len,
            len == chars@.len(),
            chars@ == name@,
            dot matches Some(at) ==> at < i && last_dot(chars@.take(i as int)) == at,
            dot is None ==> last_dot(chars@.take(i as int)) == -1,
        decreases len - i,
    {
        assert(chars@.take(i + 1).drop_last() =~= chars@.take(i as int));
        if chars[i] == '.' {
            dot = Some(i);
        }
        i += 1;
    }
    assert(chars@.take(len as int) =~= chars@);
    match dot {
        None => EntryKind::Skipped,
        Some(at) => {
            if at == 0 {
                EntryKind::Skipped
            } else if len - at != 4 {
                EntryKind::Other
            } else {
                let a: char = chars[at + 1];
                let b: char = chars[at + 2];
                let c: char = chars[at + 3];
                if (a == 'g' || a == 'G') && (b == 'm' || b == 'M') && (c == 'a' || c == 'A') {
                    EntryKind::Package
                } else if (a == 'b' || a == 'B') && (b == 'i' || b == 'I') && (c == 'n' || c
                    == 'N') {
                    EntryKind::Container
                } else {
                    EntryKind::Other
                }
            }
        },
    }
}

/// Says what a directory entry means to the search.
pub fn classify(entry: &DirEntry) -> (kind: EntryKind)
    ensures
        kind == kind_of(*entry),
{
    if entry.is_file {
        classify_name(entry.name.as_str())
    } else {
        EntryKind::Skipped
    }
}

/// Searches an install directory for the file that yields the package.
pub fn select_entry(entries: &Vec<DirEntry>) -> (selection: Selection)
    ensures
        selection == selection_of(entries@),
{
    let mut candidate: Option<usize> = None;
    let mut i: usize = 0;
    while i < entries.len()
        invariant
            i <= entries.len(),
            scan_of(entries@.take(i as int)) == Scan::Open(candidate),
        decreases entries.len() - i,
    {
        assert(entries@.take(i + 1).drop_last() =~= entries@.take(i as int));
        let kind = classify(&entries[i]);
        proof {
            assert(entries@.take(entries@.len() as int) =~= entries@);
            if kind != EntryKind::Skipped && !(kind == EntryKind::Other && candidate is None) {
                lemma_closed_stays(entries@, i as int + 1);
            }
        }
        match kind {
            EntryKind::Skipped => {},
            EntryKind::Package => {
                return Selection::Package(i);
            },
            EntryKind::Container => {
                return Selection::Compressed(i);
            },
            EntryKind::Other => {
                if candidate.is_some() {
                    return Selection::Ambiguous;
                }
                candidate = Some(i);
            },
        }
        i += 1;
    }
    assert(entries@.take(entries@.len() as int) =~= entries@);
    match candidate {
        Some(index) => Selection::Compressed(index),
        None => Selection::Nothing,
    }
}

/// Once the search is decided after `n` entries, the rest does not change it.
proof fn lemma_closed_stays(entries: Seq<DirEntry>, n: int)
    requires
        0 <= n <= entries.len(),
        scan_of(entries.take(n)) is Closed,
    ensures
        scan_of(entries) == scan_of(entries.take(n)),
    decreases entries.len(),
{
    if n == entries.len() {
        assert(entries.take(n) =~= entries);
    } else {
        assert(entries.drop_last().take(n) =~= entries.take(n));
        lemma_closed_stays(entries.drop_last(), n);
    }
}

/// The path of the cached package file of an item, from the server's working directory.
pub open spec fn cache_path_of(id: u64) -> Seq<char> {
    "garrysmod/cache/srcds/"@ + decimal(id as nat) + ".gma"@
}

/// The path of the cached package file of an item, as the host's file system mounts it.
pub open spec fn mounted_path_of(id: u64) -> Seq<char> {
    "cache/srcds/"@ + decimal(id as nat) + ".gma"@
}

/// The directory that holds the cached package files, from the server's working directory.
pub fn cache_dir() -> (dir: &'static str)
    ensures
        dir@ == "garrysmod/cache/srcds"@,
{
    "garrysmod/cache/srcds"
}

/// Writes the path of the cached package file of an item, from the server's working directory.
pub fn cache_path(id: u64) -> (path: String)
    ensures
        path@ == cache_path_of(id),
{
    let mut path = String::from_str("garrysmod/cache/srcds/");
    push_decimal(id, &mut path);
    path.append(".gma");
    path
}

/// Writes the path of the cached package file of an item, as the host's file system mounts it.
pub fn mounted_path(id: u64) -> (path: String)
    ensures
        path@ == mounted_path_of(id),
{
    let mut path = String::from_str("cache/srcds/");
    push_decimal(id, &mut path);
    path.append(".gma");
    path
}

/// Whether `path` is the cached package file of the item, so that nothing has to be produced.
pub fn is_cache_path(id: u64, path: &str) -> (cached: bool)
    ensures
        cached <==> path@ == cache_path_of(id),
{
    let expected = cache_path(id);
    let given = String::from_str(path);
    given == expected
}

/// How the package file of an item comes about, `found` being what lies at `path`.
pub open spec fn plan_of(id: u64, path: Seq<char>, found: Found) -> Plan {
    if path == cache_path_of(id) {
        Plan::Cached
    } else {
        match found {
            Found::Directory(entries) => match selection_of(entries@) {
                Selection::Package(index) => Plan::Copy(Origin::Entry(index)),
                Selection::Compressed(index) => Plan::Unpack(Origin::Entry(index)),
                Selection::Ambiguous => Plan::Missing,
                Selection::Nothing => Plan::Missing,
            },
            Found::File { name } => if name matches Some(name) && kind_of_name(name@)
                == EntryKind::Package {
                Plan::Copy(Origin::Path)
            } else {
                Plan::Unpack(Origin::Path)
            },
        }
    }
}

/// Decides how the package file of an item comes about.
///
/// A path that is the cache path needs nothing. In a directory the search of
/// `select_entry` decides. Any other path is copied if it is named like a
/// package file, and decompressed if not.
pub fn plan_cache(id: u64, path: &str, found: &Found) -> (plan: Plan)
    ensures
        plan == plan_of(id, path@, *found),
{
    if is_cache_path(id, path) {
        return Plan::Cached;
    }
    match found {
        Found::Directory(entries) => match select_entry(entries) {
            Selection::Package(index) => Plan::Copy(Origin::Entry(index)),
            Selection::Compressed(index) => Plan::Unpack(Origin::Entry(index)),
            Selection::Ambiguous => Plan::Missing,
            Selection::Nothing => Plan::Missing,
        },
        Found::File { name } => {
            let package: bool = match name {
                Some(name) => classify_name(name.as_str()) == EntryKind::Package,
                None => false,
            };
            if package {
                Plan::Copy(Origin::Path)
            } else {
                Plan::Unpack(Origin::Path)
            }
        },
    }
}

/// Whether `data` starts with the four bytes that open every package file.
pub open spec fn has_signature(data: Seq<u8>) -> bool {
    &&& data.len() >= 4
    &&& data[0] == 0x47
    &&& data[1] == 0x4d
    &&& data[2] == 0x41
    &&& data[3] == 0x44
}

/// Whether `data` starts with the four bytes that open every package file.
pub fn starts_with_signature(data: &[u8]) -> (found: bool)
    ensures
        found == has_signature(data@),
{
    data.len() >= 4 && data[0] == 0x47 && data[1] == 0x4d && data[2] == 0x41 && data[3] == 0x44
}

/// The length of the header that leads a container: five bytes of coder
/// properties and eight bytes of size.
pub const CONTAINER_HEADER: usize = 13;

/// The size that a container's header declares for its contents: the eight
/// bytes after the coder properties, least significant first.
pub open spec fn declared_size(data: Seq<u8>) -> nat
    recommends
        data.len() >= CONTAINER_HEADER,
{
    (data[5] as nat) + (data[6] as nat) * 0x100 + (data[7] as nat) * 0x1_0000 + (data[8] as nat)
        * 0x100_0000 + (data[9] as nat) * 0x1_0000_0000 + (data[10] as nat) * 0x100_0000_0000 + (
    data[11] as nat) * 0x1_0000_0000_0000 + (data[12] as nat) * 0x100_0000_0000_0000
}

/// Whether a buffer of the size that a container's header declares can be
/// asked for at all.
///
/// The decoder asks for that buffer before it reads anything else, and
/// panics where the size is more than a buffer can have.
pub open spec fn decodable(data: Seq<u8>) -> bool {
    data.len() >= CONTAINER_HEADER ==> declared_size(data) <= isize::MAX
}

/// What decompressing a container yields: its contents, or nothing where the
/// decoder reports an error.
pub uninterp spec fn lzma_decompressed(data: Seq<u8>) -> Option<Seq<u8>>;

/// Calls `gmod_lzma::decompress`.
///
/// Not proved: that the outcome depends on the bytes alone, that a container
/// shorter than its header is an error, and that the contents come in a
/// buffer of the size that the header declares. Containers whose header
/// declares more than a buffer can have are kept away: the decoder would
/// panic when it asks for the buffer. Where the machine cannot give a buffer
/// of the declared size, the process ends, as on any allocation.
#[verifier::external_body]
fn lzma_decompress(data: &[u8]) -> (decoded: Option<Vec<u8>>)
    requires
        decodable(data@),
    ensures
        match decoded {
            Some(contents) => lzma_decompressed(data@) == Some(contents@),
            None => lzma_decompressed(data@) is None,
        },
        data@.len() < CONTAINER_HEADER ==> decoded is None,
        decoded matches Some(contents) ==> contents@.len() == declared_size(data@),
{
    gmod_lzma::decompress(data).ok()
}

/// The package that decoded contents hold, if they are one.
pub open spec fn package_of(decoded: Option<Seq<u8>>) -> Result<Seq<u8>, ArtifactError> {
    match decoded {
        Some(contents) => if has_signature(contents) {
            Ok(contents)
        } else {
            Err(ArtifactError::InvalidData)
        },
        None => Err(ArtifactError::InvalidData),
    }
}

/// Accepts decoded contents as a package file if they start with the package signature.
pub fn check_package(decoded: Option<Vec<u8>>) -> (package: Result<Vec<u8>, ArtifactError>)
    ensures
        match package {
            Ok(bytes) => decoded == Some(bytes) && has_signature(bytes@),
            Err(error) => error == ArtifactError::InvalidData && !(decoded matches Some(contents)
                && has_signature(contents@)),
        },
{
    match decoded {
        Some(contents) => {
            if starts_with_signature(contents.as_slice()) {
                Ok(contents)
            } else {
                Err(ArtifactError::InvalidData)
            }
        },
        None => Err(ArtifactError::InvalidData),
    }
}

/// The package file that a container unpacks to.
pub open spec fn unpacked_of(container: Seq<u8>) -> Result<Seq<u8>, ArtifactError> {
    if decodable(container) {
        package_of(lzma_decompressed(container))
    } else {
        Err(ArtifactError::InvalidData)
    }
}

/// Reads the size that a container's header declares for its contents.
pub fn read_declared_size(data: &[u8]) -> (size: u64)
    requires
        data@.len() >= CONTAINER_HEADER,
    ensures
        size == declared_size(data@),
{
    let b0: u64 = data[5] as u64;
    let b1: u64 = data[6] as u64;
    let b2: u64 = data[7] as u64;
    let b3: u64 = data[8] as u64;
    let b4: u64 = data[9] as u64;
    let b5: u64 = data[10] as u64;
    let b6: u64 = data[11] as u64;
    let b7: u64 = data[12] as u64;
    b0 + b1 * 0x100 + b2 * 0x1_0000 + b3 * 0x100_0000 + b4 * 0x1_0000_0000 + b5
        * 0x100_0000_0000 + b6 * 0x1_0000_0000_0000 + b7 * 0x100_0000_0000_0000
}

/// Unpacks a compressed container into the package file it holds.
///
/// Fails with `InvalidData` where the container does not decompress, where
/// its header declares more than a buffer can have, and where the contents
/// do not start with the package signature. For every other container the
/// result is what the decoder yields.
pub fn unpack(container: &[u8]) -> (package: Result<Vec<u8>, ArtifactError>)
    ensures
        match package {
            Ok(bytes) => unpacked_of(container@) == Ok::<Seq<u8>, ArtifactError>(bytes@),
            Err(error) => unpacked_of(container@) == Err::<Seq<u8>, ArtifactError>(error),
        },
{
    if container.len() >= CONTAINER_HEADER {
        let size: u64 = read_declared_size(container);
        let limit: u64 = (usize::MAX / 2) as u64;
        if size > limit {
            return Err(ArtifactError::InvalidData);
        }
    }
    check_package(lzma_decompress(container))
}

} // verus!
