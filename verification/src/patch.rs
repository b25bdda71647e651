use vstd::prelude::*;
use vstd::string::StringExecFns;
use crate::text::{decimal, push_decimal, push_text, same_text};

verus! {

// ---------------------------------------------------------------------------
// Request paths
// ---------------------------------------------------------------------------

/// One component of a requested path, as `std::path` splits it.
pub enum PathPart {
    /// A drive prefix (Windows).
    Prefix,
    /// The root (a leading separator).
    RootDir,
    /// `.`
    CurDir,
    /// `..`
    ParentDir,
    /// A file or folder name.
    Normal(String),
}

/// The view of a path component.
pub enum PartView {
    Prefix,
    RootDir,
    CurDir,
    ParentDir,
    Normal(Seq<char>),
}

impl View for PathPart {
    type V = PartView;

    open spec fn view(&self) -> PartView {
        match self {
            PathPart::Prefix => PartView::Prefix,
            PathPart::RootDir => PartView::RootDir,
            PathPart::CurDir => PartView::CurDir,
            PathPart::ParentDir => PartView::ParentDir,
            PathPart::Normal(s) => PartView::Normal(s@),
        }
    }
}

/// The path that the components give once prefixes, roots and `.` are
/// dropped and each `..` takes back the name before it (if any): a path that
/// stays inside the served folder.
pub open spec fn clean_parts(parts: Seq<PartView>) -> Seq<Seq<char>>
    decreases parts.len(),
{
    if parts.len() == 0 {
        Seq::empty()
    } else {
        let prev = clean_parts(parts.drop_last());
        match parts.last() {
            PartView::ParentDir => if prev.len() > 0 {
                prev.drop_last()
            } else {
                prev
            },
            PartView::Normal(s) => prev.push(s),
            _ => prev,
        }
    }
}

/// `s` occurs in `path` as a run of consecutive characters.
pub open spec fn occurs_in(s: Seq<char>, path: Seq<char>) -> bool {
    exists|i: int| 0 <= i && i + s.len() <= path.len() && #[trigger] path.subrange(i, i + s.len()) == s
}

/// A plain name: not empty, not `.` or `..`, and free of every character that
/// `std::path` treats as a separator or a prefix mark on some platform
/// (`/`, `\`, `:`).
pub open spec fn plain_name(path: Seq<char>) -> bool {
    &&& path.len() > 0
    &&& !path.contains('/')
    &&& !path.contains('\\')
    &&& !path.contains(':')
    &&& path != seq!['.']
    &&& path != seq!['.', '.']
}

/// A file or folder name as `std::path` gives it: not empty, and neither `.`
/// nor `..`.
pub open spec fn proper_name(t: Seq<char>) -> bool {
    t.len() > 0 && t != seq!['.'] && t != seq!['.', '.']
}

/// The path starts with two backslashes, as the Windows prefixes do in which
/// `/` is not a separator (`\\?\...` and the like).
pub open spec fn starts_with_double_backslash(path: Seq<char>) -> bool {
    path.len() >= 2 && path[0] == '\\' && path[1] == '\\'
}

/// What holds of the components of `path` on every platform: an empty path
/// has none; a plain name is one `Normal` component holding it; the text of
/// every `Normal` component occurs in the path and is a proper name (repeated
/// separators and `.` after the start are dropped, and `..` is always the
/// parent); and `/` separates components, so that no `Normal` text holds it,
/// unless the path starts with two backslashes.
pub open spec fn split_facts(path: Seq<char>, parts: Seq<PartView>) -> bool {
    &&& path.len() == 0 ==> parts.len() == 0
    &&& plain_name(path) ==> parts == seq![PartView::Normal(path)]
    &&& forall|k: int| 0 <= k < parts.len() ==> (#[trigger] parts[k] matches PartView::Normal(t) ==> occurs_in(t, path)
        && proper_name(t) && (!starts_with_double_backslash(path) ==> !t.contains('/')))
}

/// Splits a requested path into its components with `std::path::Path::components`.
/// How separators and prefixes are recognised depends on the platform; what is
/// stated is what its documentation and source give on every platform (see
/// [`split_facts`]): no component for an empty path, a single `Normal`
/// component for a plain name, and `Normal` components that are pieces of the
/// path (a `&str` converts back without loss), never empty, `.` or `..`, and
/// free of `/` unless the path starts with two backslashes (on Windows,
/// `/` is no separator after a verbatim prefix such as `\\?\`).
#[verifier::external_body]
fn split_path(path: &str) -> (r: Vec<PathPart>)
    ensures
        split_facts(path@, part_views(r@)),
{
    std::path::Path::new(path).components().map(|c| match c {
        std::path::Component::Prefix(_) => PathPart::Prefix,
        std::path::Component::RootDir => PathPart::RootDir,
        std::path::Component::CurDir => PathPart::CurDir,
        std::path::Component::ParentDir => PathPart::ParentDir,
        std::path::Component::Normal(s) => PathPart::Normal(s.to_string_lossy().to_string()),
    }).collect()
}

/// The views of a list of components.
pub open spec fn part_views(parts: Seq<PathPart>) -> Seq<PartView> {
    parts.map_values(|p: PathPart| p@)
}

/// The views of a list of strings.
pub open spec fn string_views(v: Seq<String>) -> Seq<Seq<char>> {
    v.map_values(|s: String| s@)
}

/// Cleans a list of path components (see [`clean_parts`]).
pub fn clean_path(parts: &Vec<PathPart>) -> (r: Vec<String>)
    ensures
        string_views(r@) == clean_parts(part_views(parts@)),
{
    let ghost all = part_views(parts@);
    let mut out: Vec<String> = Vec::new();
    let n = parts.len();
    let mut i: usize = 0;
    while i < n
        invariant
            i <= n,
            n == parts@.len(),
            all == part_views(parts@),
            string_views(out@) == clean_parts(all.take(i as int)),
        decreases n - i,
    {
        proof {
            assert(all.take(i + 1).drop_last() =~= all.take(i as int));
            assert(all.take(i + 1).last() == parts@[i as int]@);
        }
        match &parts[i] {
            PathPart::ParentDir => {
                if out.len() > 0 {
                    out.pop();
                    proof {
                        assert(string_views(out@) =~= clean_parts(all.take(i as int)).drop_last());
                    }
                }
            },
            PathPart::Normal(s) => {
                let name = s.clone();
                out.push(name);
                proof {
                    assert(string_views(out@) =~= clean_parts(all.take(i as int)).push(s@));
                }
            },
            _ => {},
        }
        i = i + 1;
    }
    proof {
        assert(all.take(n as int) =~= all);
    }
    out
}

/// The components of a requested file path, cleaned so that it stays inside
/// the served folder: the cleaned form of the components that `std::path`
/// gives (see [`split_facts`]). An empty path gives nothing and a plain name
/// gives itself. Every name returned is a proper name, neither `.` nor `..`,
/// and holds no `/` unless the request starts with two backslashes: pushed
/// onto the served folder one after the other, the names stay inside it.
pub fn sanitize_path(path: &str) -> (r: Vec<String>)
    ensures
        exists|parts: Seq<PartView>| split_facts(path@, parts) && string_views(r@) == #[trigger] clean_parts(parts),
        path@.len() == 0 ==> r@.len() == 0,
        plain_name(path@) ==> string_views(r@) == seq![path@],
        forall|k: int| 0 <= k < r@.len() ==> proper_name(#[trigger] r@[k]@)
            && (!starts_with_double_backslash(path@) ==> !r@[k]@.contains('/')),
{
    let parts = split_path(path);
    let ghost pv = part_views(parts@);
    let r = clean_path(&parts);
    proof {
        assert(string_views(r@) == clean_parts(pv));
        if plain_name(path@) {
            assert(pv == seq![PartView::Normal(path@)]);
            assert(pv.drop_last() =~= Seq::<PartView>::empty());
            assert(clean_parts(pv.drop_last()) == Seq::<Seq<char>>::empty());
            assert(pv.last() == PartView::Normal(path@));
            assert(clean_parts(pv) =~= Seq::<Seq<char>>::empty().push(path@));
            assert(clean_parts(pv) =~= seq![path@]);
        }
        if path@.len() == 0 {
            assert(string_views(r@).len() == r@.len());
        }
        assert forall|k: int| 0 <= k < r@.len() implies proper_name(#[trigger] r@[k]@)
            && (!starts_with_double_backslash(path@) ==> !r@[k]@.contains('/')) by {
            assert(string_views(r@)[k] == r@[k]@);
            law_clean_path_stays_inside(pv, k);
            let j = choose|j: int| 0 <= j < pv.len() && pv[j] == PartView::Normal(#[trigger] clean_parts(pv)[k]);
            assert(pv[j] matches PartView::Normal(t) && t == r@[k]@);
        }
    }
    r
}

/// A cleaned path never climbs above the served folder: it holds at most as
/// many names as the request, and each of them is a name of the request.
pub proof fn law_clean_path_stays_inside(parts: Seq<PartView>, k: int)
    requires
        0 <= k < clean_parts(parts).len(),
    ensures
        exists|j: int| 0 <= j < parts.len() && parts[j] == PartView::Normal(#[trigger] clean_parts(parts)[k]),
    decreases parts.len(),
{
    let prev = clean_parts(parts.drop_last());
    match parts.last() {
        PartView::ParentDir => {
            law_clean_path_stays_inside(parts.drop_last(), k);
            let j = choose|j: int| 0 <= j < parts.drop_last().len() && parts.drop_last()[j] == PartView::Normal(#[trigger] clean_parts(parts.drop_last())[k]);
            assert(parts[j] == parts.drop_last()[j]);
        },
        PartView::Normal(s) => {
            if k == prev.len() {
                assert(parts[parts.len() - 1] == PartView::Normal(clean_parts(parts)[k]));
            } else {
                law_clean_path_stays_inside(parts.drop_last(), k);
                let j = choose|j: int| 0 <= j < parts.drop_last().len() && parts.drop_last()[j] == PartView::Normal(#[trigger] clean_parts(parts.drop_last())[k]);
                assert(parts[j] == parts.drop_last()[j]);
            }
        },
        _ => {
            law_clean_path_stays_inside(parts.drop_last(), k);
            let j = choose|j: int| 0 <= j < parts.drop_last().len() && parts.drop_last()[j] == PartView::Normal(#[trigger] clean_parts(parts.drop_last())[k]);
            assert(parts[j] == parts.drop_last()[j]);
        },
    }
}

// ---------------------------------------------------------------------------
// Choosing what to answer
// ---------------------------------------------------------------------------

/// What a file request is answered with.
#[derive(Clone, Copy, Debug, PartialEq, Eq, Structural)]
pub enum PatchTarget {
    /// The patch list of the master folder.
    MasterList,
    /// The patch list of the patch folder.
    PatchList,
    /// A file from the master folder.
    MasterFile,
    /// A file from the patch folder.
    PatchFile,
    /// Refused.
    Forbidden,
}

/// Whether the cleaned path names the patch list.
pub open spec fn is_patchlist(path: Seq<Seq<char>>) -> bool {
    path.len() == 1 && path[0] == "patchlist.txt"@
}

/// The answer to a request for `path` in the URL folder `folder`: the patch
/// list or a file of the master or the patch folder, by which URL the folder
/// is; any other folder is refused.
pub open spec fn target_spec(folder: Seq<char>, path: Seq<Seq<char>>, master_url: Seq<char>, patch_url: Seq<char>) -> PatchTarget {
    if folder == master_url {
        if is_patchlist(path) { PatchTarget::MasterList } else { PatchTarget::MasterFile }
    } else if folder == patch_url {
        if is_patchlist(path) { PatchTarget::PatchList } else { PatchTarget::PatchFile }
    } else {
        PatchTarget::Forbidden
    }
}

/// Chooses the answer to a file request (see [`target_spec`]).
pub fn patch_target(folder: &str, path: &Vec<String>, master_url: &str, patch_url: &str) -> (r: PatchTarget)
    ensures
        r == target_spec(folder@, string_views(path@), master_url@, patch_url@),
{
    let list = path.len() == 1 && same_text(path[0].as_str(), "patchlist.txt");
    proof {
        if path@.len() == 1 {
            assert(string_views(path@)[0] == path@[0]@);
        }
    }
    if same_text(folder, master_url) {
        if list { PatchTarget::MasterList } else { PatchTarget::MasterFile }
    } else if same_text(folder, patch_url) {
        if list { PatchTarget::PatchList } else { PatchTarget::PatchFile }
    } else {
        PatchTarget::Forbidden
    }
}

// ---------------------------------------------------------------------------
// Patch lists and the management file
// ---------------------------------------------------------------------------

/// What the patch server knows of a served file.
pub struct FileInfo {
    /// Hash of the file's path, by which it is found again.
    pub path_hash: u64,
    pub path: String,
    /// The MD5 digest of the file, in uppercase hexadecimal.
    pub hash: String,
    pub size: u64,
    /// When the file was last modified, in nanoseconds since the epoch.
    pub modify_date: u128,
}

/// The patch list line of a file: path, digest and size separated by tabs,
/// then `p`.
pub open spec fn patch_line(f: FileInfo) -> Seq<char> {
    f.path@ + "\t"@ + f.hash@ + "\t"@ + decimal(f.size as nat) + "\tp\n"@
}

/// The patch list of `files`, one line each, in order.
pub open spec fn patch_list(files: Seq<FileInfo>) -> Seq<char>
    decreases files.len(),
{
    if files.len() == 0 {
        Seq::empty()
    } else {
        patch_list(files.drop_last()) + patch_line(files.last())
    }
}

/// Writes the patch list of `files` (see [`patch_list`]).
pub fn print_patchlist(files: &Vec<FileInfo>) -> (r: String)
    ensures
        r@ == patch_list(files@),
{
    let mut out = String::new();
    let mut i: usize = 0;
    while i < files.len()
        invariant
            i <= files@.len(),
            out@ == patch_list(files@.take(i as int)),
        decreases files@.len() - i,
    {
        proof {
            assert(files@.take(i + 1).drop_last() =~= files@.take(i as int));
        }
        let f = &files[i];
        push_text(&mut out, f.path.as_str());
        push_text(&mut out, "\t");
        push_text(&mut out, f.hash.as_str());
        push_text(&mut out, "\t");
        push_decimal(&mut out, f.size);
        push_text(&mut out, "\tp\n");
        i = i + 1;
        proof {
            assert(out@ =~= patch_list(files@.take(i as int)));
        }
    }
    proof {
        assert(files@.take(i as int) =~= files@);
    }
    out
}

/// The settings the management file is made from.
pub struct PatchSettings {
    pub domain: String,
    pub master_url: String,
    pub patch_url: String,
    pub port: Option<u16>,
    /// Whether the port is written after the domain.
    pub output_port: bool,
}

/// The host the client is told: the domain, with `:port` (4040 when none is
/// set) when the port is to be written.
pub open spec fn host_spec(s: PatchSettings) -> Seq<char> {
    if s.output_port {
        s.domain@ + ":"@ + decimal(
            match s.port {
                Some(p) => p as nat,
                None => 4040,
            },
        )
    } else {
        s.domain@
    }
}

/// The fixed lines that open the management file.
pub open spec fn management_head() -> Seq<char> {
    "IsInMaintenance=0\nIsExpired=0\nIsLeavePrecede=1\nIsThread=0\nThreadNum=1\nTimeOut=30000\nParallelFileSize=10485760\nParallelThreadNum=1\nCrcThreadNum=1\nFileCacheSize=10485760\nRetryNum=10\nIsPGO=1\nCloudThreadControl=1\nMemoryOptimize=1\nIsWin10StoreUpdateEnable=0\n"@
}

/// The fixed lines that close the management file.
pub open spec fn management_tail() -> Seq<char> {
    "ForceBootParamMSStore=0\nForceBootParamEpic=0\nForceBootParam=1\nForceBootParamSteam=0\n"@
}

/// The management file: the fixed settings, the URLs of the master and
/// patch folders on the host, and the boot parameters.
pub open spec fn management_spec(s: PatchSettings) -> Seq<char> {
    management_head() + "MasterURL=http://"@ + host_spec(s) + "/patch_prod/"@ + s.master_url@
        + "/patches/\n"@ + "PatchURL=http://"@ + host_spec(s) + "/patch_prod/"@ + s.patch_url@
        + "/patches/\n"@ + management_tail()
}

/// Writes the management file (see [`management_spec`]).
pub fn management_file(s: &PatchSettings) -> (r: String)
    ensures
        r@ == management_spec(*s),
{
    let mut host = String::new();
    push_text(&mut host, s.domain.as_str());
    if s.output_port {
        push_text(&mut host, ":");
        let port: u16 = match s.port {
            Some(p) => p,
            None => 4040,
        };
        push_decimal(&mut host, port as u64);
    }
    proof {
        assert(host@ =~= host_spec(*s));
    }
    let mut out = String::from_str(
        "IsInMaintenance=0\nIsExpired=0\nIsLeavePrecede=1\nIsThread=0\nThreadNum=1\nTimeOut=30000\nParallelFileSize=10485760\nParallelThreadNum=1\nCrcThreadNum=1\nFileCacheSize=10485760\nRetryNum=10\nIsPGO=1\nCloudThreadControl=1\nMemoryOptimize=1\nIsWin10StoreUpdateEnable=0\n",
    );
    push_text(&mut out, "MasterURL=http://");
    push_text(&mut out, host.as_str());
    push_text(&mut out, "/patch_prod/");
    push_text(&mut out, s.master_url.as_str());
    push_text(&mut out, "/patches/\n");
    push_text(&mut out, "PatchURL=http://");
    push_text(&mut out, host.as_str());
    push_text(&mut out, "/patch_prod/");
    push_text(&mut out, s.patch_url.as_str());
    push_text(&mut out, "/patches/\n");
    push_text(&mut out, "ForceBootParamMSStore=0\nForceBootParamEpic=0\nForceBootParam=1\nForceBootParamSteam=0\n");
    proof {
        assert(out@ =~= management_spec(*s));
    }
    out
}

// ---------------------------------------------------------------------------
// Keeping the file list up to date
// ---------------------------------------------------------------------------

/// The MD5 digest of `data` in uppercase hexadecimal, as the `md5` crate and
/// `{:X}` formatting give it.
pub uninterp spec fn md5_upper_hex(data: Seq<u8>) -> Seq<char>;

/// The MD5 digest of `data` in uppercase hexadecimal, by `md5::compute`.
#[verifier::external_body]
fn md5_hex(data: &[u8]) -> (r: String)
    ensures
        r@ == md5_upper_hex(data@),
{
    format!("{:X}", md5::compute(data))
}

/// The entry of a file read from disk: its path and path hash, the MD5 digest
/// and size of its contents, and its modification time.
pub fn file_info(path_hash: u64, path: String, data: &[u8], modify_date: u128) -> (r: FileInfo)
    ensures
        r.path_hash == path_hash,
        r.path@ == path@,
        r.hash@ == md5_upper_hex(data@),
        r.size == data@.len(),
        r.modify_date == modify_date,
{
    let hash = md5_hex(data);
    FileInfo { path_hash, path, hash, size: data.len() as u64, modify_date }
}

/// What to do with a file found on disk.
#[derive(Clone, Copy, Debug, PartialEq, Eq, Structural)]
pub enum FileUpdate {
    /// The entry at this position is up to date.
    Unchanged(usize),
    /// The entry at this position must be rebuilt.
    Replace(usize),
    /// The file is new: a new entry goes at the end.
    Append,
}

/// `pos` is the first entry with path hash `hash`.
pub open spec fn is_first_hash(files: Seq<FileInfo>, pos: int, hash: u64) -> bool {
    &&& 0 <= pos < files.len()
    &&& files[pos].path_hash == hash
    &&& forall|j: int| 0 <= j < pos ==> (#[trigger] files[j]).path_hash != hash
}

/// Decides what to do with a file found on disk: the first entry with the
/// same path hash is kept when its modification time and path are the same,
/// and rebuilt otherwise; a file without an entry gets a new one.
pub fn file_update(files: &Vec<FileInfo>, path_hash: u64, path: &str, modify_date: u128) -> (r: FileUpdate)
    ensures
        r matches FileUpdate::Unchanged(p) ==> is_first_hash(files@, p as int, path_hash)
            && files@[p as int].modify_date == modify_date && files@[p as int].path@ == path@,
        r matches FileUpdate::Replace(p) ==> is_first_hash(files@, p as int, path_hash)
            && !(files@[p as int].modify_date == modify_date && files@[p as int].path@ == path@),
        r is Append ==> forall|j: int| 0 <= j < files@.len() ==> (#[trigger] files@[j]).path_hash != path_hash,
{
    let mut i: usize = 0;
    while i < files.len()
        invariant
            i <= files@.len(),
            forall|j: int| 0 <= j < i ==> (#[trigger] files@[j]).path_hash != path_hash,
        decreases files@.len() - i,
    {
        if files[i].path_hash == path_hash {
            if files[i].modify_date == modify_date && same_text(files[i].path.as_str(), path) {
                return FileUpdate::Unchanged(i);
            }
            return FileUpdate::Replace(i);
        }
        i = i + 1;
    }
    FileUpdate::Append
}

} // verus!
