//! Storage: the media metadata that naming patterns are expanded with, the
//! record of a processed file, local mounts and the manager that holds the
//! mounts, the rules and the naming engine.
//!
//! Files are read, copied and removed outside the library; what stands
//! here is which paths are allowed, which mounts and rules a configuration
//! yields, which rules apply to a download and which files it holds.

use vstd::prelude::*;
use std::path::PathBuf;
use std::sync::Arc;
use crate::config::{MountType, StorageConfig, StorageRule, MountConfig};
use crate::error::AppError;
use crate::models::{Album, Artist, Episode, MediaType, Movie, Track, TvShow};
use crate::naming::NamingEngine;
use crate::text::{append_chars, chars_eq, chars_of, string_of};

verus! {

/// Media metadata for naming pattern expansion.
pub enum MediaInfo {
    Movie { movie: Box<Movie>, quality: String },
    Episode { show: Box<TvShow>, episode: Box<Episode>, quality: String },
    Album { artist: Box<Artist>, album: Box<Album> },
    Track { artist: Box<Artist>, album: Box<Album>, track: Box<Track> },
}

impl MediaInfo {
    /// The media type of the metadata.
    pub open spec fn media_type_spec(&self) -> MediaType {
        match self {
            MediaInfo::Movie { .. } => MediaType::Movie,
            MediaInfo::Episode { .. } => MediaType::Episode,
            MediaInfo::Album { .. } => MediaType::Album,
            MediaInfo::Track { .. } => MediaType::Track,
        }
    }

    /// The media type of the metadata.
    pub fn media_type(&self) -> (r: MediaType)
        ensures
            r == self.media_type_spec(),
    {
        match self {
            MediaInfo::Movie { .. } => MediaType::Movie,
            MediaInfo::Episode { .. } => MediaType::Episode,
            MediaInfo::Album { .. } => MediaType::Album,
            MediaInfo::Track { .. } => MediaType::Track,
        }
    }
}

/// Result of processing a completed download.
pub struct ProcessedFile {
    /// The original source file path.
    pub source: PathBuf,
    /// The final destination path after processing.
    pub destination: PathBuf,
    /// The mount name where the file was stored.
    pub mount_name: String,
    /// Size of the file in bytes.
    pub size: u64,
}

// ---------------------------------------------------------------------------
// Paths inside a mount
// ---------------------------------------------------------------------------

/// A component of a path, as `Path::components` yields them.
pub enum PathPart {
    /// The root directory (`/`).
    Root,
    /// A `.` at the start of the path.
    CurDir,
    /// A `..`.
    ParentDir,
    /// A name.
    Normal(String),
}

/// The view of a path component.
pub enum PartView {
    Root,
    CurDir,
    ParentDir,
    Normal(Seq<char>),
}

/// The views of path components.
pub open spec fn part_views(parts: Seq<PathPart>) -> Seq<PartView> {
    parts.map_values(|p: PathPart| match p {
        PathPart::Root => PartView::Root,
        PathPart::CurDir => PartView::CurDir,
        PathPart::ParentDir => PartView::ParentDir,
        PathPart::Normal(s) => PartView::Normal(s@),
    })
}

/// What `std::path::Path::components` yields for a path string (on Unix:
/// slashes collapsed, `.` dropped but at the start).
pub uninterp spec fn components_of(path: Seq<char>) -> Seq<PartView>;

/// `std::path::Path::components` of a path string, read as names. The
/// contract names the result only. (A prefix component exists on Windows
/// only and is read as the root.)
#[verifier::external_body]
pub(crate) fn path_components(path: &str) -> (r: Vec<PathPart>)
    ensures
        part_views(r@) == components_of(path@),
{
    std::path::Path::new(path).components().map(|c| match c {
        std::path::Component::Prefix(_) | std::path::Component::RootDir => PathPart::Root,
        std::path::Component::CurDir => PathPart::CurDir,
        std::path::Component::ParentDir => PathPart::ParentDir,
        std::path::Component::Normal(s) => PathPart::Normal(s.to_string_lossy().into_owned()),
    }).collect()
}

/// The refusal of a path inside a mount, if it is refused: any `..`; else
/// a root (an absolute path).
pub open spec fn path_error(parts: Seq<PartView>) -> Option<Seq<char>> {
    if exists|i: int| 0 <= i < parts.len() && parts[i] is ParentDir {
        Some("Path cannot contain parent directory references (..)"@)
    } else if exists|i: int| 0 <= i < parts.len() && parts[i] is Root {
        Some("Invalid path component: RootDir"@)
    } else {
        None
    }
}

/// The names of a path's components, in order.
pub open spec fn normal_names(parts: Seq<PartView>) -> Seq<Seq<char>>
    decreases parts.len(),
{
    if parts.len() == 0 {
        Seq::empty()
    } else {
        normal_names(parts.drop_last()) + match parts.last() {
            PartView::Normal(s) => seq![s],
            _ => Seq::empty(),
        }
    }
}

/// Checks that a path stays inside a mount's root: no `..` and no root.
/// Returns the names along it, which are then looked at one by one for
/// symbolic links that leave the root.
pub fn check_mount_path(path: &str) -> (r: Result<Vec<String>, AppError>)
    ensures
        path_error(components_of(path@)) matches Some(m) ==> (r matches Err(AppError::BadRequest(x))
            && x@ == m),
        path_error(components_of(path@)) is None ==> (r matches Ok(names) && names@.map_values(
            |s: String| s@,
        ) == normal_names(components_of(path@))),
{
    let parts = path_components(path);
    let ghost pv = part_views(parts@);
    assert(pv == components_of(path@));
    let mut i: usize = 0;
    while i < parts.len()
        invariant
            pv == part_views(parts@),
            pv == components_of(path@),
            i <= parts@.len(),
            forall|j: int| 0 <= j < i ==> !(pv[j] is ParentDir),
        decreases parts@.len() - i,
    {
        match &parts[i] {
            PathPart::ParentDir => {
                assert(pv[i as int] is ParentDir);
                assert(path_error(pv) == Some(
                    "Path cannot contain parent directory references (..)"@,
                ));
                return Err(
                    AppError::BadRequest(
                        "Path cannot contain parent directory references (..)".to_owned(),
                    ),
                );
            },
            _ => {},
        }
        i = i + 1;
    }
    let mut names: Vec<String> = Vec::new();
    let mut k: usize = 0;
    while k < parts.len()
        invariant
            pv == part_views(parts@),
            pv == components_of(path@),
            k <= parts@.len(),
            forall|j: int| 0 <= j < parts@.len() ==> !(pv[j] is ParentDir),
            forall|j: int| 0 <= j < k ==> !(pv[j] is Root),
            names@.map_values(|s: String| s@) == normal_names(pv.take(k as int)),
        decreases parts@.len() - k,
    {
        assert(pv.take(k + 1).drop_last() =~= pv.take(k as int));
        match &parts[k] {
            PathPart::Normal(s) => {
                let ghost before = names@.map_values(|s: String| s@);
                names.push(s.clone());
                assert(names@.map_values(|s: String| s@) =~= before + seq![s@]);
            },
            PathPart::CurDir => {
                assert(normal_names(pv.take(k + 1)) =~= normal_names(pv.take(k as int)));
            },
            PathPart::Root => {
                assert(pv[k as int] is Root);
                assert(!(exists|j: int| 0 <= j < pv.len() && pv[j] is ParentDir));
                assert(path_error(pv) == Some("Invalid path component: RootDir"@));
                return Err(AppError::BadRequest("Invalid path component: RootDir".to_owned()));
            },
            PathPart::ParentDir => {
                assert(pv[k as int] is ParentDir);
            },
        }
        k = k + 1;
    }
    assert(pv.take(k as int) =~= pv);
    assert(path_error(pv) is None);
    Ok(names)
}

/// What a storage backend is known by: its name and its kind. (Its file
/// operations are made outside the library.)
pub trait Mount {
    /// The mount's unique name.
    fn name(&self) -> &str;

    /// The kind of mount (`local`, `smb`).
    fn mount_type(&self) -> &'static str;
}

/// Local filesystem mount.
pub struct LocalMount {
    name: String,
    root: PathBuf,
}

impl LocalMount {
    /// The mount's name.
    pub closed spec fn name_spec(&self) -> Seq<char> {
        self.name@
    }

    /// The mount's root directory.
    pub closed spec fn root_spec(&self) -> PathBuf {
        self.root
    }

    /// Creates a local mount with the given name and root path.
    pub fn new(name: String, root: PathBuf) -> (r: Self)
        ensures
            r.name_spec() == name@,
            r.root_spec() == root,
    {
        LocalMount { name, root }
    }

    /// The mount's name.
    pub fn name(&self) -> (r: &str)
        ensures
            r@ == self.name_spec(),
    {
        self.name.as_str()
    }

    /// The kind of mount: `local`.
    pub fn mount_type(&self) -> (r: &'static str)
        ensures
            r@ == "local"@,
    {
        "local"
    }

    /// The mount's root directory.
    pub fn root(&self) -> (r: &PathBuf)
        ensures
            *r == self.root_spec(),
    {
        &self.root
    }
}

impl Mount for LocalMount {
    fn name(&self) -> (r: &str)
        ensures
            r@ == self.name_spec(),
    {
        LocalMount::name(self)
    }

    fn mount_type(&self) -> (r: &'static str)
        ensures
            r@ == "local"@,
    {
        LocalMount::mount_type(self)
    }
}

// ---------------------------------------------------------------------------
// The storage manager
// ---------------------------------------------------------------------------

/// The mounts a list of mount configurations registers, by name (a later
/// mount replaces an earlier one of the same name): each enabled local
/// mount; disabled and SMB mounts are left out; an enabled local mount
/// without a path is an error.
pub open spec fn configured_mounts(cs: Seq<MountConfig>) -> Result<Map<Seq<char>, PathBuf>, Seq<char>>
    decreases cs.len(),
{
    if cs.len() == 0 {
        Ok(Map::empty())
    } else {
        match configured_mounts(cs.drop_last()) {
            Err(e) => Err(e),
            Ok(m) => {
                let c = cs.last();
                if !c.enabled || c.mount_type == MountType::Smb {
                    Ok(m)
                } else {
                    match c.path {
                        None => Err(
                            "Local mount '"@ + c.name@ + "' missing required 'path' field"@,
                        ),
                        Some(p) => Ok(m.insert(c.name@, p)),
                    }
                }
            },
        }
    }
}

/// The first rule whose destination is not a mount, if any.
pub open spec fn unknown_destination(rules: Seq<StorageRule>, m: Map<Seq<char>, PathBuf>) -> Option<
    Seq<char>,
> {
    if exists|i: int| 0 <= i < rules.len() && !m.contains_key(rules[i].destination@) {
        let i = choose|i: int|
            0 <= i < rules.len() && !m.contains_key(rules[i].destination@) && forall|j: int|
                0 <= j < i ==> m.contains_key(#[trigger] rules[j].destination@);
        Some(rules[i].destination@)
    } else {
        None
    }
}

/// The map of a list of mounts with distinct names.
pub open spec fn mounts_map(v: Seq<LocalMount>) -> Map<Seq<char>, PathBuf>
    decreases v.len(),
{
    if v.len() == 0 {
        Map::empty()
    } else {
        mounts_map(v.drop_last()).insert(v.last().name_spec(), v.last().root_spec())
    }
}

/// Names in a list of mounts are distinct.
pub open spec fn distinct_names(v: Seq<LocalMount>) -> bool {
    forall|a: int, b: int| 0 <= a < b < v.len() ==> #[trigger] v[a].name_spec() != #[trigger] v[b].name_spec()
}

proof fn lemma_mounts_map_keys(v: Seq<LocalMount>, k: Seq<char>)
    ensures
        mounts_map(v).contains_key(k) <==> exists|i: int| 0 <= i < v.len() && v[i].name_spec() == k,
    decreases v.len(),
{
    if v.len() > 0 {
        lemma_mounts_map_keys(v.drop_last(), k);
        if mounts_map(v.drop_last()).contains_key(k) {
            let i = choose|i: int| 0 <= i < v.drop_last().len() && v.drop_last()[i].name_spec() == k;
            assert(v[i] == v.drop_last()[i]);
        }
        if exists|i: int| 0 <= i < v.len() && v[i].name_spec() == k {
            let i = choose|i: int| 0 <= i < v.len() && v[i].name_spec() == k;
            if i < v.len() - 1 {
                assert(v.drop_last()[i] == v[i]);
            }
        }
    }
}

proof fn lemma_mounts_map_at(v: Seq<LocalMount>, j: int)
    requires
        distinct_names(v),
        0 <= j < v.len(),
    ensures
        mounts_map(v).contains_key(v[j].name_spec()),
        mounts_map(v)[v[j].name_spec()] == v[j].root_spec(),
    decreases v.len(),
{
    if j < v.len() - 1 {
        assert(v.drop_last()[j] == v[j]);
        lemma_mounts_map_at(v.drop_last(), j);
        assert(v.last().name_spec() != v[j].name_spec());
    }
}

proof fn lemma_mounts_map_update(v: Seq<LocalMount>, j: int, x: LocalMount)
    requires
        distinct_names(v),
        0 <= j < v.len(),
        v[j].name_spec() == x.name_spec(),
    ensures
        mounts_map(v.update(j, x)) == mounts_map(v).insert(x.name_spec(), x.root_spec()),
    decreases v.len(),
{
    let w = v.update(j, x);
    if j == v.len() - 1 {
        assert(w.drop_last() =~= v.drop_last());
        assert(mounts_map(w) =~= mounts_map(v).insert(x.name_spec(), x.root_spec()));
    } else {
        assert(w.drop_last() =~= v.drop_last().update(j, x));
        lemma_mounts_map_update(v.drop_last(), j, x);
        assert(v.last().name_spec() != x.name_spec());
        assert(mounts_map(w) =~= mounts_map(v).insert(x.name_spec(), x.root_spec()));
    }
}

/// The position of the mount named `name`, if any.
fn find_mount(mounts: &Vec<LocalMount>, name: &[char]) -> (r: Option<usize>)
    ensures
        r matches Some(j) ==> j < mounts@.len() && mounts@[j as int].name_spec() == name@,
        r is None ==> forall|q: int| 0 <= q < mounts@.len() ==> mounts@[q].name_spec() != name@,
{
    let mut j: usize = 0;
    while j < mounts.len()
        invariant
            j <= mounts@.len(),
            forall|q: int| 0 <= q < j ==> mounts@[q].name_spec() != name@,
        decreases mounts@.len() - j,
    {
        if chars_eq(chars_of(mounts[j].name()).as_slice(), name) {
            return Some(j);
        }
        j = j + 1;
    }
    None
}

/// Manages the storage mounts, the post-download rules and the naming
/// engine.
pub struct StorageManager {
    mounts: Vec<LocalMount>,
    rules: Vec<StorageRule>,
    naming: NamingEngine,
}

impl StorageManager {
    /// The well-formedness of a manager: its mounts have distinct names.
    #[verifier::type_invariant]
    pub closed spec fn wf(&self) -> bool {
        distinct_names(self.mounts@)
    }

    /// The mounts, by name.
    pub closed spec fn mounts_spec(&self) -> Map<Seq<char>, PathBuf> {
        mounts_map(self.mounts@)
    }

    /// The rules, in order.
    pub closed spec fn rules_spec(&self) -> Seq<StorageRule> {
        self.rules@
    }

    /// The naming engine.
    pub closed spec fn naming_spec(&self) -> NamingEngine {
        self.naming
    }

    /// Creates a manager from configuration: the mounts the configuration
    /// registers, its rules and naming patterns. A configuration with an
    /// enabled local mount without a path, or with a rule whose destination
    /// is not a registered mount, is refused.
    pub fn new(config: StorageConfig) -> (r: Result<Self, AppError>)
        ensures
            configured_mounts(config.mounts@) matches Err(m) ==> (r matches Err(AppError::Internal(x))
                && x@ == m),
            configured_mounts(config.mounts@) matches Ok(mm) ==> match unknown_destination(
                config.rules@,
                mm,
            ) {
                Some(d) => r matches Err(AppError::Internal(x)) && x@
                    == "Storage rule references unknown mount: '"@ + d + "'"@,
                None => r matches Ok(s) && s.wf() && s.mounts_spec() == mm && s.rules_spec()
                    == config.rules@ && s.naming_spec().movie_pattern_spec()
                    == config.naming.movie_pattern@ && s.naming_spec().tv_pattern_spec()
                    == config.naming.tv_pattern@ && s.naming_spec().music_pattern_spec()
                    == config.naming.music_pattern@,
            },
    {
        let ghost cs = config.mounts@;
        let mut mounts: Vec<LocalMount> = Vec::new();
        let mut rest = config.mounts;
        let n = rest.len();
        let mut i: usize = 0;
        assert(cs.skip(0) =~= cs);
        while rest.len() > 0
            invariant
                cs == config.mounts@,
                n == cs.len(),
                rest@.len() + i == n,
                rest@ == cs.skip(i as int),
                distinct_names(mounts@),
                configured_mounts(cs.take(i as int)) matches Ok(m) && m == mounts_map(mounts@),
            decreases rest.len(),
        {
            let c = rest.remove(0);
            assert(c == cs[i as int]);
            assert(rest@ =~= cs.skip(i + 1));
            assert(cs.take(i + 1).drop_last() =~= cs.take(i as int));
            assert(cs.take(i + 1).last() == c);
            if c.enabled && c.mount_type == MountType::Local {
                let name = chars_of(c.name.as_str());
                match c.path {
                    None => {
                        let mut m = chars_of("Local mount '");
                        append_chars(&mut m, name.as_slice());
                        append_chars(&mut m, chars_of("' missing required 'path' field").as_slice());
                        proof {
                            lemma_configured_mounts_err(cs, i + 1);
                        }
                        return Err(AppError::Internal(string_of(m.as_slice())));
                    },
                    Some(p) => {
                        let mount = LocalMount::new(c.name, p);
                        let found = find_mount(&mounts, name.as_slice());
                        let ghost old_m = mounts@;
                        if let Some(j) = found {
                            mounts.set(j, mount);
                            proof {
                                lemma_mounts_map_update(old_m, j as int, mount);
                                assert(mounts@ == old_m.update(j as int, mount));
                                assert forall|a: int, b: int| 0 <= a < b < mounts@.len() implies #[trigger] mounts@[a].name_spec()
                                    != #[trigger] mounts@[b].name_spec() by {
                                    assert(old_m[a].name_spec() != old_m[b].name_spec());
                                }
                            }
                        } else {
                            mounts.push(mount);
                            proof {
                                assert(mounts@.drop_last() =~= old_m);
                                assert forall|a: int, b: int| 0 <= a < b < mounts@.len() implies #[trigger] mounts@[a].name_spec()
                                    != #[trigger] mounts@[b].name_spec() by {
                                    if b < old_m.len() {
                                        assert(old_m[a].name_spec() != old_m[b].name_spec());
                                    } else {
                                        assert(mounts@[a] == old_m[a]);
                                    }
                                }
                            }
                        }
                    },
                }
            }
            i = i + 1;
        }
        assert(cs.take(i as int) =~= cs);
        let ghost mm = mounts_map(mounts@);
        let mut k: usize = 0;
        while k < config.rules.len()
            invariant
                cs == config.mounts@,
                configured_mounts(cs) matches Ok(m) && m == mm,
                k <= config.rules@.len(),
                mm == mounts_map(mounts@),
                distinct_names(mounts@),
                forall|q: int| 0 <= q < k ==> mm.contains_key(#[trigger] config.rules@[q].destination@),
            decreases config.rules@.len() - k,
        {
            let dest = chars_of(config.rules[k].destination.as_str());
            let known = find_mount(&mounts, dest.as_slice());
            proof {
                lemma_mounts_map_keys(mounts@, dest@);
            }
            if known.is_none() {
                let mut m = chars_of("Storage rule references unknown mount: '");
                append_chars(&mut m, dest.as_slice());
                append_chars(&mut m, chars_of("'").as_slice());
                proof {
                    lemma_first_unknown(config.rules@, mm, k as int);
                }
                return Err(AppError::Internal(string_of(m.as_slice())));
            }
            k = k + 1;
        }
        let naming = NamingEngine::new(config.naming);
        Ok(StorageManager { mounts, rules: config.rules, naming })
    }

    /// Creates a shared manager from configuration.
    pub fn new_shared(config: StorageConfig) -> (r: Result<Arc<Self>, AppError>)
        ensures
            configured_mounts(config.mounts@) matches Err(m) ==> (r matches Err(AppError::Internal(x))
                && x@ == m),
            configured_mounts(config.mounts@) matches Ok(mm) ==> match unknown_destination(
                config.rules@,
                mm,
            ) {
                Some(d) => r matches Err(AppError::Internal(x)) && x@
                    == "Storage rule references unknown mount: '"@ + d + "'"@,
                None => r matches Ok(s) && s.wf() && s.mounts_spec() == mm && s.rules_spec()
                    == config.rules@,
            },
    {
        match Self::new(config) {
            Ok(s) => Ok(Arc::new(s)),
            Err(e) => Err(e),
        }
    }

    /// The mount of the given name.
    pub fn get_mount(&self, name: &str) -> (r: Option<&LocalMount>)
        ensures
            self.mounts_spec().contains_key(name@) <==> r is Some,
            r matches Some(m) ==> m.name_spec() == name@ && m.root_spec() == self.mounts_spec()[name@],
    {
        proof {
            use_type_invariant(self);
        }
        let n = chars_of(name);
        match find_mount(&self.mounts, n.as_slice()) {
            Some(j) => {
                proof {
                    lemma_mounts_map_at(self.mounts@, j as int);
                }
                Some(&self.mounts[j])
            },
            None => {
                proof {
                    lemma_mounts_map_keys(self.mounts@, name@);
                }
                None
            },
        }
    }

    /// The names of the registered mounts, each once.
    pub fn list_mounts(&self) -> (r: Vec<&str>)
        ensures
            forall|k: Seq<char>| self.mounts_spec().contains_key(k) <==> exists|i: int|
                0 <= i < r@.len() && (#[trigger] r@[i])@ == k,
            forall|a: int, b: int| 0 <= a < b < r@.len() ==> (#[trigger] r@[a])@ != (#[trigger] r@[b])@,
    {
        proof {
            use_type_invariant(self);
        }
        let mut r: Vec<&str> = Vec::new();
        let mut j: usize = 0;
        while j < self.mounts.len()
            invariant
                j <= self.mounts@.len(),
                distinct_names(self.mounts@),
                r@.len() == j,
                forall|q: int| 0 <= q < j ==> (#[trigger] r@[q])@ == self.mounts@[q].name_spec(),
            decreases self.mounts@.len() - j,
        {
            r.push(self.mounts[j].name());
            j = j + 1;
        }
        proof {
            assert forall|k: Seq<char>| self.mounts_spec().contains_key(k) <==> exists|i: int|
                0 <= i < r@.len() && (#[trigger] r@[i])@ == k by {
                lemma_mounts_map_keys(self.mounts@, k);
                if exists|i: int| 0 <= i < self.mounts@.len() && self.mounts@[i].name_spec() == k {
                    let i = choose|i: int| 0 <= i < self.mounts@.len() && self.mounts@[i].name_spec() == k;
                    assert(r@[i]@ == k);
                }
            }
            assert forall|a: int, b: int| 0 <= a < b < r@.len() implies (#[trigger] r@[a])@ != (
            #[trigger] r@[b])@ by {
                assert(self.mounts@[a].name_spec() != self.mounts@[b].name_spec());
            }
        }
        r
    }

    /// The naming engine.
    pub fn naming(&self) -> (r: &NamingEngine)
        ensures
            *r == self.naming_spec(),
    {
        &self.naming
    }

    /// The rules, in order.
    pub fn rules(&self) -> (r: &Vec<StorageRule>)
        ensures
            r@ == self.rules_spec(),
    {
        &self.rules
    }
}

proof fn lemma_first_unknown(rs: Seq<StorageRule>, mm: Map<Seq<char>, PathBuf>, k: int)
    requires
        0 <= k < rs.len(),
        !mm.contains_key(rs[k].destination@),
        forall|q: int| 0 <= q < k ==> mm.contains_key(#[trigger] rs[q].destination@),
    ensures
        unknown_destination(rs, mm) == Some(rs[k].destination@),
{
    let c = choose|c: int|
        0 <= c < rs.len() && !mm.contains_key(rs[c].destination@) && forall|q: int|
            0 <= q < c ==> mm.contains_key(#[trigger] rs[q].destination@);
    if c < k {
        assert(mm.contains_key(rs[c].destination@));
    }
    if c > k {
        assert(mm.contains_key(rs[k].destination@));
    }
}

proof fn lemma_configured_mounts_err(cs: Seq<MountConfig>, n: int)
    requires
        0 < n <= cs.len(),
        configured_mounts(cs.take(n - 1)) is Ok,
        cs[n - 1].enabled,
        cs[n - 1].mount_type == MountType::Local,
        cs[n - 1].path is None,
    ensures
        configured_mounts(cs) == Err::<Map<Seq<char>, PathBuf>, Seq<char>>(
            "Local mount '"@ + cs[n - 1].name@ + "' missing required 'path' field"@,
        ),
    decreases cs.len(),
{
    if n == cs.len() {
        assert(cs.drop_last() =~= cs.take(n - 1));
    } else {
        assert(cs.drop_last().take(n - 1) =~= cs.take(n - 1));
        lemma_configured_mounts_err(cs.drop_last(), n);
    }
}

// ---------------------------------------------------------------------------
// Which rules and files apply to a download
// ---------------------------------------------------------------------------

/// ASCII lowercase of a character.
pub open spec fn ascii_lower(c: char) -> char {
    if 'A' <= c && c <= 'Z' {
        ((c as u32) + 32) as char
    } else {
        c
    }
}

/// `str::eq_ignore_ascii_case`: equal once ASCII letters are lowercased.
pub open spec fn eq_ignore_ascii_case(a: Seq<char>, b: Seq<char>) -> bool {
    a.len() == b.len() && forall|i: int| 0 <= i < a.len() ==> ascii_lower(#[trigger] a[i]) == ascii_lower(b[i])
}

fn lower_char(c: char) -> (r: char)
    ensures
        r == ascii_lower(c),
{
    if 'A' <= c && c <= 'Z' {
        let b = (c as u8) + 32;
        b as char
    } else {
        c
    }
}

/// Whether two strings are equal but for ASCII letter case.
pub fn same_ignoring_ascii_case(a: &[char], b: &[char]) -> (r: bool)
    ensures
        r == eq_ignore_ascii_case(a@, b@),
{
    if a.len() != b.len() {
        return false;
    }
    let mut i: usize = 0;
    while i < a.len()
        invariant
            a@.len() == b@.len(),
            i <= a@.len(),
            forall|j: int| 0 <= j < i ==> ascii_lower(#[trigger] a@[j]) == ascii_lower(b@[j]),
        decreases a@.len() - i,
    {
        if lower_char(a[i]) != lower_char(b[i]) {
            return false;
        }
        i = i + 1;
    }
    true
}

/// Whether a rule applies to a media type: it names no type, or names it
/// in any ASCII case.
pub open spec fn rule_applies(rule: StorageRule, media_type: MediaType) -> bool {
    rule.media_types@.len() == 0 || exists|i: int|
        0 <= i < rule.media_types@.len() && eq_ignore_ascii_case(
            #[trigger] rule.media_types@[i]@,
            media_type.name_spec(),
        )
}

impl StorageManager {
    /// The indices of the rules that apply to a media type, in order.
    pub fn applicable_rules(&self, media_type: MediaType) -> (r: Vec<usize>)
        ensures
            forall|j: int| 0 <= j < r@.len() ==> r@[j] < self.rules_spec().len() && rule_applies(
                self.rules_spec()[r@[j] as int],
                media_type,
            ),
            forall|i: int|
                0 <= i < self.rules_spec().len() && rule_applies(self.rules_spec()[i], media_type)
                    ==> exists|j: int| 0 <= j < r@.len() && r@[j] == i,
            forall|a: int, b: int| 0 <= a < b < r@.len() ==> r@[a] < r@[b],
    {
        let name = chars_of(media_type.as_str());
        let mut r: Vec<usize> = Vec::new();
        let mut i: usize = 0;
        while i < self.rules.len()
            invariant
                name@ == media_type.name_spec(),
                i <= self.rules@.len(),
                forall|j: int| 0 <= j < r@.len() ==> r@[j] < i && rule_applies(
                    self.rules@[r@[j] as int],
                    media_type,
                ),
                forall|q: int|
                    0 <= q < i && rule_applies(self.rules@[q], media_type) ==> exists|j: int|
                        0 <= j < r@.len() && r@[j] == q,
                forall|a: int, b: int| 0 <= a < b < r@.len() ==> r@[a] < r@[b],
            decreases self.rules@.len() - i,
        {
            let rule = &self.rules[i];
            let applies = applies_to(rule, name.as_slice(), media_type);
            let ghost old_r = r@;
            if applies {
                r.push(i);
                proof {
                    assert forall|q: int|
                        0 <= q < i + 1 && rule_applies(self.rules@[q], media_type) implies exists|j: int|
                            0 <= j < r@.len() && r@[j] == q by {
                        if q < i {
                            let j = choose|j: int| 0 <= j < old_r.len() && old_r[j] == q;
                            assert(r@[j] == q);
                        } else {
                            assert(r@[r@.len() - 1] == q);
                        }
                    }
                }
            }
            i = i + 1;
        }
        r
    }
}

/// Whether a rule applies to a media type whose name is `name`.
fn applies_to(rule: &StorageRule, name: &[char], media_type: MediaType) -> (r: bool)
    requires
        name@ == media_type.name_spec(),
    ensures
        r == rule_applies(*rule, media_type),
{
    let mut applies = rule.media_types.len() == 0;
    let mut t: usize = 0;
    while t < rule.media_types.len() && !applies
        invariant
            t <= rule.media_types@.len(),
            name@ == media_type.name_spec(),
            applies ==> rule_applies(*rule, media_type),
            !applies ==> rule.media_types@.len() > 0 && forall|q: int|
                0 <= q < t ==> !eq_ignore_ascii_case(
                    #[trigger] rule.media_types@[q]@,
                    media_type.name_spec(),
                ),
        decreases rule.media_types@.len() - t,
    {
        if same_ignoring_ascii_case(chars_of(rule.media_types[t].as_str()).as_slice(), name) {
            applies = true;
        }
        t = t + 1;
    }
    applies
}

/// The error for a rule whose destination names no mount.
pub open spec fn missing_mount_text(destination: Seq<char>) -> Seq<char> {
    "Mount '"@ + destination + "' not found for rule"@
}

/// Which rule a media file of a type is stored by, looking at the rules
/// from the `i`-th on, in order, given whether each rule's mount is
/// available (`available[k]` for the `k`-th rule; a rule past its end
/// counts as unavailable): the first rule that applies and whose mount is
/// available; none when no rule is left; the missing mount's text when an
/// applicable rule met before names a mount that does not exist.
pub open spec fn rule_choice(
    mounts: Map<Seq<char>, PathBuf>,
    rules: Seq<StorageRule>,
    media_type: MediaType,
    available: Seq<bool>,
    i: int,
) -> Result<Option<int>, Seq<char>>
    decreases rules.len() - i,
{
    if i < 0 || i >= rules.len() {
        Ok(None)
    } else if !rule_applies(rules[i], media_type) {
        rule_choice(mounts, rules, media_type, available, i + 1)
    } else if !mounts.contains_key(rules[i].destination@) {
        Err(missing_mount_text(rules[i].destination@))
    } else if i < available.len() && available[i] {
        Ok(Some(i))
    } else {
        rule_choice(mounts, rules, media_type, available, i + 1)
    }
}

impl StorageManager {
    /// The index of the rule a media file of the given type is stored by,
    /// given whether each rule's mount is available (`available[k]` for the
    /// `k`-th rule, read only where the rule applies and its mount exists):
    /// the first applicable rule whose mount is available, or none; an
    /// internal error `Mount '<name>' not found for rule` when an
    /// applicable rule met first names no mount.
    pub fn choose_rule(&self, media_type: MediaType, available: &[bool]) -> (r: Result<
        Option<usize>,
        AppError,
    >)
        ensures
            match rule_choice(self.mounts_spec(), self.rules_spec(), media_type, available@, 0) {
                Ok(Some(i)) => r == Ok::<Option<usize>, AppError>(Some(i as usize)),
                Ok(None) => r == Ok::<Option<usize>, AppError>(None),
                Err(m) => r matches Err(AppError::Internal(x)) && x@ == m,
            },
    {
        let name = chars_of(media_type.as_str());
        let mut i: usize = 0;
        while i < self.rules.len()
            invariant
                name@ == media_type.name_spec(),
                i <= self.rules@.len(),
                rule_choice(self.mounts_spec(), self.rules@, media_type, available@, 0)
                    == rule_choice(self.mounts_spec(), self.rules@, media_type, available@, i as int),
            decreases self.rules@.len() - i,
        {
            let rule = &self.rules[i];
            if applies_to(rule, name.as_slice(), media_type) {
                match self.get_mount(rule.destination.as_str()) {
                    None => {
                        let mut m = chars_of("Mount '");
                        append_chars(&mut m, chars_of(rule.destination.as_str()).as_slice());
                        append_chars(&mut m, chars_of("' not found for rule").as_slice());
                        assert(m@ =~= missing_mount_text(rule.destination@));
                        return Err(AppError::Internal(string_of(m.as_slice())));
                    },
                    Some(_) => {
                        if i < available.len() && available[i] {
                            return Ok(Some(i));
                        }
                    },
                }
            }
            i = i + 1;
        }
        Ok(None)
    }
}

/// The extensions of the files a media type is made of: video files for
/// movies and episodes, audio files for albums and tracks.
pub open spec fn media_extensions(media_type: MediaType) -> Seq<Seq<char>> {
    match media_type {
        MediaType::Movie | MediaType::Episode => seq![
            "mkv"@,
            "mp4"@,
            "avi"@,
            "m4v"@,
            "wmv"@,
            "mov"@,
            "webm"@,
        ],
        MediaType::Album | MediaType::Track => seq![
            "flac"@,
            "mp3"@,
            "m4a"@,
            "ogg"@,
            "wav"@,
            "aac"@,
            "opus"@,
            "alac"@,
        ],
    }
}

/// Movies and episodes are made of the same video files, albums and
/// tracks of the same audio files; no extension is both video and audio;
/// every audio extension of a download is one that a Soulseek album counts
/// as audio, and so is every lossless format's name.
pub proof fn lemma_media_extensions_partition(e: Seq<char>)
    ensures
        media_extensions(MediaType::Movie) == media_extensions(MediaType::Episode),
        media_extensions(MediaType::Album) == media_extensions(MediaType::Track),
        !(media_extensions(MediaType::Movie).contains(e) && media_extensions(MediaType::Album).contains(
            e,
        )),
        media_extensions(MediaType::Album).contains(e) ==> crate::api::music::audio_extension(e),
        crate::api::music::is_lossless_name(e) ==> crate::api::music::audio_extension(e),
{
    reveal_strlit("mkv");
    assert("mkv"@ =~= seq!['m', 'k', 'v']);
    reveal_strlit("mp4");
    assert("mp4"@ =~= seq!['m', 'p', '4']);
    reveal_strlit("avi");
    assert("avi"@ =~= seq!['a', 'v', 'i']);
    reveal_strlit("m4v");
    assert("m4v"@ =~= seq!['m', '4', 'v']);
    reveal_strlit("wmv");
    assert("wmv"@ =~= seq!['w', 'm', 'v']);
    reveal_strlit("mov");
    assert("mov"@ =~= seq!['m', 'o', 'v']);
    reveal_strlit("webm");
    assert("webm"@ =~= seq!['w', 'e', 'b', 'm']);
    reveal_strlit("flac");
    assert("flac"@ =~= seq!['f', 'l', 'a', 'c']);
    reveal_strlit("mp3");
    assert("mp3"@ =~= seq!['m', 'p', '3']);
    reveal_strlit("m4a");
    assert("m4a"@ =~= seq!['m', '4', 'a']);
    reveal_strlit("ogg");
    assert("ogg"@ =~= seq!['o', 'g', 'g']);
    reveal_strlit("wav");
    assert("wav"@ =~= seq!['w', 'a', 'v']);
    reveal_strlit("aac");
    assert("aac"@ =~= seq!['a', 'a', 'c']);
    reveal_strlit("opus");
    assert("opus"@ =~= seq!['o', 'p', 'u', 's']);
    reveal_strlit("alac");
    assert("alac"@ =~= seq!['a', 'l', 'a', 'c']);
    reveal_strlit("ape");
    assert("ape"@ =~= seq!['a', 'p', 'e']);
    reveal_strlit("wma");
    assert("wma"@ =~= seq!['w', 'm', 'a']);
    let v = media_extensions(MediaType::Movie);
    let a = media_extensions(MediaType::Album);
    if v.contains(e) && a.contains(e) {
        let i = choose|i: int| 0 <= i < v.len() && v[i] == e;
        let j = choose|j: int| 0 <= j < a.len() && a[j] == e;
        assert(v[i] != a[j]);
    }
    if a.contains(e) {
        let j = choose|j: int| 0 <= j < a.len() && a[j] == e;
        assert(crate::api::music::audio_extension(a[j]));
    }
}

/// Whether a file with the given extension belongs to a download of the
/// given media type (extensions compared in any ASCII case).
pub fn is_media_extension(ext: &str, media_type: MediaType) -> (r: bool)
    ensures
        r == exists|i: int|
            0 <= i < media_extensions(media_type).len() && eq_ignore_ascii_case(
                #[trigger] media_extensions(media_type)[i],
                ext@,
            ),
{
    let exts: Vec<&str> = match media_type {
        MediaType::Movie | MediaType::Episode => vec!["mkv", "mp4", "avi", "m4v", "wmv", "mov", "webm"],
        MediaType::Album | MediaType::Track => vec!["flac", "mp3", "m4a", "ogg", "wav", "aac", "opus", "alac"],
    };
    assert(exts@.map_values(|s: &str| s@) =~= media_extensions(media_type));
    let e = chars_of(ext);
    let mut i: usize = 0;
    while i < exts.len()
        invariant
            exts@.map_values(|s: &str| s@) == media_extensions(media_type),
            i <= exts@.len(),
            forall|j: int| 0 <= j < i ==> !eq_ignore_ascii_case(#[trigger] media_extensions(media_type)[j], ext@),
            e@ == ext@,
        decreases exts@.len() - i,
    {
        assert(media_extensions(media_type)[i as int] == exts@[i as int]@);
        if same_ignoring_ascii_case(chars_of(exts[i]).as_slice(), e.as_slice()) {
            return true;
        }
        i = i + 1;
    }
    false
}

/// A configuration that is accepted has every rule's destination among
/// its mounts.
pub proof fn lemma_rules_reference_mounts(config: StorageConfig)
    requires
        configured_mounts(config.mounts@) is Ok,
        unknown_destination(config.rules@, configured_mounts(config.mounts@)->Ok_0) is None,
    ensures
        forall|i: int|
            0 <= i < config.rules@.len() ==> configured_mounts(config.mounts@)->Ok_0.contains_key(
                #[trigger] config.rules@[i].destination@,
            ),
{
}

} // verus!
