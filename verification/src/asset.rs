//! The asset registry and its hot-reload bookkeeping.
//!
//! The registry maps asset ids to their metadata and paths back to ids. The
//! file watcher keeps a modification stamp per watched path; the caller
//! polls the file system and hands the observations in, and the watcher
//! reports which watched paths changed or disappeared. Stamps are opaque
//! monotone numbers (for instance nanoseconds since some epoch).

use vstd::prelude::*;

use vstd::string::StringSliceAdditionalSpecFns;

use crate::idmap::IdMap;
use crate::strcoll::StrMap;
use crate::system::lower_byte;

verus! {

/// How far an asset has come.
#[derive(Debug, Clone, Copy, PartialEq, Eq, Hash, Structural)]
pub enum AssetLoadState {
    NotLoaded,
    Loading,
    Loaded,
    Failed,
}

/// An asset's registry identifier.
#[derive(Debug, Clone, Copy, PartialEq, Eq, Hash, Structural)]
pub struct AssetId(pub u64);

impl AssetId {
    pub fn new(id: u64) -> (r: AssetId)
        ensures
            r == AssetId(id),
    {
        AssetId(id)
    }
}

/// Everything the registry records about one asset.
#[derive(Debug, Clone)]
pub struct AssetMeta {
    pub id: AssetId,
    pub path: String,
    pub asset_type: String,
    pub state: AssetLoadState,
    pub last_modified: Option<u64>,
    pub dependencies: Vec<AssetId>,
    pub dependents: Vec<AssetId>,
}

impl AssetMeta {
    /// A freshly registered asset: not loaded, no stamp, no dependencies.
    pub fn new(id: AssetId, path: String, asset_type: String) -> (r: AssetMeta)
        ensures
            r.id == id,
            r.path@ == path@,
            r.asset_type@ == asset_type@,
            r.state == AssetLoadState::NotLoaded,
            r.last_modified is None,
            r.dependencies@ == Seq::<AssetId>::empty(),
            r.dependents@ == Seq::<AssetId>::empty(),
    {
        AssetMeta {
            id,
            path,
            asset_type,
            state: AssetLoadState::NotLoaded,
            last_modified: None,
            dependencies: Vec::new(),
            dependents: Vec::new(),
        }
    }
}

/// How a watched file changed.
#[derive(Debug, Clone, Copy, PartialEq, Eq, Structural)]
pub enum AssetChangeType {
    Created,
    Modified,
    Deleted,
}

/// One reported change of a registered asset.
#[derive(Debug, Clone)]
pub struct AssetChangeEvent {
    pub id: AssetId,
    pub path: String,
    pub change_type: AssetChangeType,
}

/// One poll result for one path: its current modification stamp, or nothing
/// when the file is gone.
#[derive(Debug, Clone)]
pub struct FileObservation {
    pub path: String,
    pub modified: Option<u64>,
}

/// The watcher's stamps after applying one observation: a vanished watched
/// file is dropped, a newer stamp is recorded, anything else is kept.
pub open spec fn watch_step(w: Map<Seq<char>, u64>, o: FileObservation) -> Map<Seq<char>, u64> {
    if !w.dom().contains(o.path@) {
        w
    } else {
        match o.modified {
            None => w.remove(o.path@),
            Some(m) => if m > w[o.path@] {
                w.insert(o.path@, m)
            } else {
                w
            },
        }
    }
}

/// The watcher's stamps after a whole observation batch, first observation
/// first.
pub open spec fn watch_after(w: Map<Seq<char>, u64>, obs: Seq<FileObservation>) -> Map<
    Seq<char>,
    u64,
>
    decreases obs.len(),
{
    if obs.len() == 0 {
        w
    } else {
        watch_after(watch_step(w, obs[0]), obs.subrange(1, obs.len() as int))
    }
}

/// The change one observation reports for the watched stamps `w`, if any.
pub open spec fn change_of(w: Map<Seq<char>, u64>, o: FileObservation) -> Seq<
    (Seq<char>, AssetChangeType),
> {
    if !w.dom().contains(o.path@) {
        Seq::empty()
    } else {
        match o.modified {
            None => seq![(o.path@, AssetChangeType::Deleted)],
            Some(m) => if m > w[o.path@] {
                seq![(o.path@, AssetChangeType::Modified)]
            } else {
                Seq::empty()
            },
        }
    }
}

/// The changes a whole observation batch reports, in observation order.
pub open spec fn changes_of(w: Map<Seq<char>, u64>, obs: Seq<FileObservation>) -> Seq<
    (Seq<char>, AssetChangeType),
>
    decreases obs.len(),
{
    if obs.len() == 0 {
        Seq::empty()
    } else {
        change_of(w, obs[0]) + changes_of(watch_step(w, obs[0]), obs.subrange(1, obs.len() as int))
    }
}

/// The views of a sequence of reported changes.
pub open spec fn change_views(s: Seq<(String, AssetChangeType)>) -> Seq<
    (Seq<char>, AssetChangeType),
> {
    s.map_values(|e: (String, AssetChangeType)| (e.0@, e.1))
}

/// A byte string folded to ASCII lower case.
pub open spec fn lower_bytes(b: Seq<u8>) -> Seq<u8> {
    b.map_values(|x: u8| lower_byte(x))
}

/// The set of byte strings in a sequence.
pub open spec fn byte_set_of(s: Seq<Vec<u8>>) -> Set<Seq<u8>>
    decreases s.len(),
{
    if s.len() == 0 {
        Set::empty()
    } else {
        byte_set_of(s.drop_last()).insert(s.last()@)
    }
}

proof fn lemma_byte_set_of_contains(s: Seq<Vec<u8>>, k: Seq<u8>)
    ensures
        byte_set_of(s).contains(k) <==> exists|i: int| 0 <= i < s.len() && s[i]@ == k,
    decreases s.len(),
{
    if s.len() == 0 {
    } else {
        lemma_byte_set_of_contains(s.drop_last(), k);
        if s.last()@ == k {
            assert(s[s.len() - 1]@ == k);
        } else if byte_set_of(s).contains(k) {
            let i = choose|i: int| 0 <= i < s.drop_last().len() && s.drop_last()[i]@ == k;
            assert(s[i]@ == k);
        } else if exists|i: int| 0 <= i < s.len() && s[i]@ == k {
            let i = choose|i: int| 0 <= i < s.len() && s[i]@ == k;
            assert(s.drop_last()[i]@ == k);
        }
    }
}

proof fn lemma_byte_set_of_len(s: Seq<Vec<u8>>)
    requires
        forall|i: int, j: int| 0 <= i < j < s.len() ==> s[i]@ != s[j]@,
    ensures
        byte_set_of(s).finite(),
        byte_set_of(s).len() == s.len(),
    decreases s.len(),
{
    if s.len() > 0 {
        lemma_byte_set_of_len(s.drop_last());
        lemma_byte_set_of_contains(s.drop_last(), s.last()@);
        if byte_set_of(s.drop_last()).contains(s.last()@) {
            let i = choose|i: int|
                0 <= i < s.drop_last().len() && s.drop_last()[i]@ == s.last()@;
            assert(s[i]@ == s[s.len() - 1]@);
            assert(false);
        }
    }
}

/// The bytes of `s` folded to ASCII lower case.
fn ascii_lower(s: &str) -> (r: Vec<u8>)
    ensures
        r@ == lower_bytes(s.spec_bytes()),
{
    let sb = s.as_bytes();
    let n = sb.len();
    let mut r: Vec<u8> = Vec::new();
    let mut i: usize = 0;
    while i < n
        invariant
            n == sb@.len(),
            sb@ == s.spec_bytes(),
            i <= n,
            r@.len() == i,
            forall|j: int| 0 <= j < i ==> r@[j] == lower_byte(#[trigger] sb@[j]),
        decreases n - i,
    {
        let b = sb[i];
        if 65 <= b && b <= 90 {
            r.push(b + 32);
        } else {
            r.push(b);
        }
        i = i + 1;
    }
    proof {
        assert(r@ =~= lower_bytes(s.spec_bytes()));
    }
    r
}

/// Whether two byte strings are equal.
fn bytes_eq(a: &Vec<u8>, b: &Vec<u8>) -> (e: bool)
    ensures
        e == (a@ == b@),
{
    let n = a.len();
    if n != b.len() {
        return false;
    }
    let mut i: usize = 0;
    while i < n
        invariant
            n == a@.len(),
            n == b@.len(),
            i <= n,
            forall|j: int| 0 <= j < i ==> a@[j] == b@[j],
        decreases n - i,
    {
        if a[i] != b[i] {
            return false;
        }
        i = i + 1;
    }
    proof {
        assert(a@ =~= b@);
    }
    true
}

/// Watches files by keeping one modification stamp per path. The caller
/// polls the file system; the watcher only diffs stamps.
pub struct FileWatcher {
    watched_paths: StrMap<u64>,
    base_paths: Vec<String>,
    extensions: Vec<Vec<u8>>,
}

impl FileWatcher {
    /// The stamp recorded per watched path.
    pub closed spec fn watched(&self) -> Map<Seq<char>, u64> {
        self.watched_paths@
    }

    /// The registered base paths, in order.
    pub closed spec fn bases(&self) -> Seq<String> {
        self.base_paths@
    }

    /// The file extensions of interest, each folded to ASCII lower case and
    /// held once, as byte strings.
    pub closed spec fn exts(&self) -> Set<Seq<u8>> {
        byte_set_of(self.extensions@)
    }

    pub closed spec fn wf(&self) -> bool {
        &&& self.watched_paths.wf()
        &&& (forall|i: int, j: int|
            0 <= i < j < self.extensions@.len() ==> self.extensions@[i]@ != self.extensions@[j]@)
    }

    pub fn new() -> (r: FileWatcher)
        ensures
            r.wf(),
            r.watched() == Map::<Seq<char>, u64>::empty(),
            r.bases() == Seq::<String>::empty(),
            r.exts() == Set::<Seq<u8>>::empty(),
    {
        FileWatcher {
            watched_paths: StrMap::new(),
            base_paths: Vec::new(),
            extensions: Vec::new(),
        }
    }

    /// Registers a directory to scan for assets.
    pub fn add_base_path(&mut self, path: String)
        requires
            old(self).wf(),
        ensures
            final(self).wf(),
            final(self).bases() == old(self).bases().push(path),
            final(self).watched() == old(self).watched(),
            final(self).exts() == old(self).exts(),
    {
        self.base_paths.push(path);
    }

    /// Registers a file extension of interest, folded to ASCII lower case:
    /// two spellings of one extension that differ only in ASCII case leave
    /// one entry, and repeating a registration changes nothing.
    pub fn add_extension(&mut self, ext: String)
        requires
            old(self).wf(),
        ensures
            final(self).wf(),
            final(self).exts() == old(self).exts().insert(
                lower_bytes(vstd::utf8::encode_utf8(ext@)),
            ),
            final(self).watched() == old(self).watched(),
            final(self).bases() == old(self).bases(),
    {
        let lowered = ascii_lower(ext.as_str());
        let n = self.extensions.len();
        let mut i: usize = 0;
        while i < n
            invariant
                *self == *old(self),
                old(self).wf(),
                n == self.extensions@.len(),
                i <= n,
                lowered@ == lower_bytes(vstd::utf8::encode_utf8(ext@)),
                forall|j: int| 0 <= j < i ==> self.extensions@[j]@ != lowered@,
            decreases n - i,
        {
            if bytes_eq(&self.extensions[i], &lowered) {
                proof {
                    lemma_byte_set_of_contains(self.extensions@, lowered@);
                    assert(self.exts() =~= old(self).exts().insert(lowered@));
                }
                return ;
            }
            i = i + 1;
        }
        self.extensions.push(lowered);
        proof {
            assert(self.extensions@.drop_last() =~= old(self).extensions@);
        }
    }

    /// Starts watching a path at the given modification stamp.
    pub fn watch(&mut self, path: &str, modified: u64) -> (r: bool)
        requires
            old(self).wf(),
        ensures
            final(self).wf(),
            r,
            final(self).watched() == old(self).watched().insert(path@, modified),
            final(self).bases() == old(self).bases(),
            final(self).exts() == old(self).exts(),
    {
        self.watched_paths.insert(path.to_owned(), modified);
        true
    }

    /// Stops watching a path.
    pub fn unwatch(&mut self, path: &str)
        requires
            old(self).wf(),
        ensures
            final(self).wf(),
            final(self).watched() == old(self).watched().remove(path@),
            final(self).bases() == old(self).bases(),
            final(self).exts() == old(self).exts(),
    {
        self.watched_paths.remove(path);
    }

    /// How many distinct extensions are registered, after case folding.
    pub fn extension_count(&self) -> (n: usize)
        requires
            self.wf(),
        ensures
            n == self.exts().len(),
    {
        proof {
            lemma_byte_set_of_len(self.extensions@);
        }
        self.extensions.len()
    }

    /// How many paths are being watched.
    pub fn watched_count(&self) -> (n: usize)
        requires
            self.wf(),
        ensures
            n == self.watched().dom().len(),
    {
        self.watched_paths.len()
    }

    /// Diffs a batch of fresh observations against the recorded stamps, in
    /// observation order: a watched path that vanished is reported deleted
    /// and dropped; one with a newer stamp is reported modified and its
    /// stamp updated; unobserved and unwatched paths are untouched.
    pub fn check_changes(&mut self, observed: &Vec<FileObservation>) -> (r: Vec<
        (String, AssetChangeType),
    >)
        requires
            old(self).wf(),
        ensures
            final(self).wf(),
            final(self).watched() == watch_after(old(self).watched(), observed@),
            final(self).bases() == old(self).bases(),
            final(self).exts() == old(self).exts(),
            r@.len() == changes_of(old(self).watched(), observed@).len(),
            forall|i: int|
                0 <= i < r@.len() ==> (#[trigger] r@[i].0)@ == changes_of(
                    old(self).watched(),
                    observed@,
                )[i].0 && r@[i].1 == changes_of(old(self).watched(), observed@)[i].1,
    {
        let ghost w0 = self.watched_paths@;
        let ghost full = changes_of(w0, observed@);
        let mut r: Vec<(String, AssetChangeType)> = Vec::new();
        let n = observed.len();
        let mut i: usize = 0;
        proof {
            assert(observed@.subrange(0, n as int) =~= observed@);
        }
        while i < n
            invariant
                self.wf(),
                self.base_paths@ == old(self).base_paths@,
                self.extensions == old(self).extensions,
                n == observed@.len(),
                i <= n,
                full == changes_of(w0, observed@),
                watch_after(w0, observed@) == watch_after(
                    self.watched_paths@,
                    observed@.subrange(i as int, n as int),
                ),
                full == change_views(r@) + changes_of(
                    self.watched_paths@,
                    observed@.subrange(i as int, n as int),
                ),
            decreases n - i,
        {
            let ghost w_pre = self.watched_paths@;
            let ghost rest = observed@.subrange(i as int, n as int);
            proof {
                assert(rest[0] == observed@[i as int]);
                assert(rest.subrange(1, rest.len() as int) =~= observed@.subrange(
                    i as int + 1,
                    n as int,
                ));
            }
            let ghost pre_r = r@;
            let o = &observed[i];
            let watched_stamp: Option<u64> = match self.watched_paths.get(o.path.as_str()) {
                Some(st) => Some(*st),
                None => None,
            };
            match watched_stamp {
                Some(stamp) => {
                    match o.modified {
                        None => {
                            self.watched_paths.remove(o.path.as_str());
                            r.push((o.path.clone(), AssetChangeType::Deleted));
                        },
                        Some(m) => {
                            if m > stamp {
                                self.watched_paths.insert(o.path.clone(), m);
                                r.push((o.path.clone(), AssetChangeType::Modified));
                            }
                        },
                    }
                },
                None => {},
            }
            proof {
                let c0 = change_of(w_pre, rest[0]);
                let rest2 = rest.subrange(1, rest.len() as int);
                let crest = changes_of(self.watched_paths@, rest2);
                assert(self.watched_paths@ =~= watch_step(w_pre, rest[0]));
                assert(changes_of(w_pre, rest) == c0 + crest);
                assert(change_views(r@) =~= change_views(pre_r) + c0);
                assert(change_views(pre_r) + (c0 + crest) =~= (change_views(pre_r) + c0)
                    + crest);
            }
            i = i + 1;
        }
        proof {
            assert(observed@.subrange(n as int, n as int) =~= Seq::<FileObservation>::empty());
            assert(full =~= change_views(r@) + Seq::<(Seq<char>, AssetChangeType)>::empty());
            assert(full =~= change_views(r@));
        }
        r
    }
}

impl Default for FileWatcher {
    /// The same empty watcher `new` builds.
    fn default() -> (r: FileWatcher)
        ensures
            r.wf(),
            r.watched() == Map::<Seq<char>, u64>::empty(),
    {
        FileWatcher::new()
    }
}

/// Whether `x` is in the vector.
fn id_vec_contains(v: &Vec<AssetId>, x: AssetId) -> (b: bool)
    ensures
        b == v@.contains(x),
{
    let n = v.len();
    let mut i: usize = 0;
    while i < n
        invariant
            n == v@.len(),
            i <= n,
            forall|j: int| 0 <= j < i ==> v@[j] != x,
        decreases n - i,
    {
        if v[i] == x {
            return true;
        }
        i = i + 1;
    }
    proof {
        if v@.contains(x) {
            let j = choose|j: int| 0 <= j < v@.len() && v@[j] == x;
            assert(false);
        }
    }
    false
}

/// Appends `x` unless it is already there.
fn push_unique(v: &mut Vec<AssetId>, x: AssetId)
    ensures
        old(v)@.contains(x) ==> final(v)@ == old(v)@,
        !old(v)@.contains(x) ==> final(v)@ == old(v)@.push(x),
        old(v)@.no_duplicates() ==> final(v)@.no_duplicates(),
{
    if !id_vec_contains(v, x) {
        v.push(x);
        proof {
            if old(v)@.no_duplicates() {
                assert forall|i: int, j: int|
                    0 <= i < j < v@.len() implies v@[i] != v@[j] by {
                    if j == v@.len() - 1 {
                        assert(v@[i] == old(v)@[i]);
                        if old(v)@[i] == x {
                            assert(old(v)@.contains(x));
                        }
                    }
                }
            }
        }
    }
}

/// Every dependent id any asset lists, in entry order.
pub open spec fn dep_seq(entries: Seq<(u64, AssetMeta)>) -> Seq<AssetId>
    decreases entries.len(),
{
    if entries.len() == 0 {
        Seq::empty()
    } else {
        dep_seq(entries.drop_last()) + entries.last().1.dependents@
    }
}

proof fn lemma_dep_seq_contains(entries: Seq<(u64, AssetMeta)>, i: int, t: int)
    requires
        0 <= i < entries.len(),
        0 <= t < entries[i].1.dependents@.len(),
    ensures
        dep_seq(entries).contains(entries[i].1.dependents@[t]),
    decreases entries.len(),
{
    if i == entries.len() - 1 {
        let d = dep_seq(entries.drop_last());
        assert(dep_seq(entries)[d.len() + t] == entries[i].1.dependents@[t]);
    } else {
        assert(entries.drop_last()[i] == entries[i]);
        lemma_dep_seq_contains(entries.drop_last(), i, t);
        let j = choose|j: int|
            0 <= j < dep_seq(entries.drop_last()).len() && dep_seq(entries.drop_last())[j]
                == entries[i].1.dependents@[t];
        assert(dep_seq(entries)[j] == entries[i].1.dependents@[t]);
    }
}

/// The change events for the registered paths among the reported changes,
/// in order: the asset id, the path, and how it changed.
pub open spec fn events_of(
    paths: Map<Seq<char>, u64>,
    cs: Seq<(Seq<char>, AssetChangeType)>,
) -> Seq<(u64, Seq<char>, AssetChangeType)>
    decreases cs.len(),
{
    if cs.len() == 0 {
        Seq::empty()
    } else {
        let head: Seq<(u64, Seq<char>, AssetChangeType)> = if paths.dom().contains(cs[0].0) {
            seq![(paths[cs[0].0], cs[0].0, cs[0].1)]
        } else {
            Seq::empty()
        };
        head + events_of(paths, cs.subrange(1, cs.len() as int))
    }
}

/// The views of a sequence of change events.
pub open spec fn event_views(s: Seq<AssetChangeEvent>) -> Seq<(u64, Seq<char>, AssetChangeType)> {
    s.map_values(|e: AssetChangeEvent| (e.id.0, e.path@, e.change_type))
}

/// `b` is a direct dependent of `a` in the registry's asset map.
pub open spec fn depends_on(assets: Map<u64, AssetMeta>, a: AssetId, b: AssetId) -> bool {
    assets.dom().contains(a.0) && assets[a.0].dependents@.contains(b)
}

/// The assets registered for the engine, keyed by id and reachable by path,
/// with optional hot-reload file watching.
pub struct AssetRegistry {
    assets: IdMap<AssetMeta>,
    path_to_id: StrMap<u64>,
    next_id: u64,
    file_watcher: FileWatcher,
    hot_reload_enabled: bool,
}

impl AssetRegistry {
    /// The registered assets: id number to metadata.
    pub closed spec fn assets(&self) -> Map<u64, AssetMeta> {
        self.assets@
    }

    /// The path index: path to id number.
    pub closed spec fn paths(&self) -> Map<Seq<char>, u64> {
        self.path_to_id@
    }

    /// The id the next registration will take.
    pub closed spec fn spec_next(&self) -> u64 {
        self.next_id
    }

    /// The watcher's recorded stamps.
    pub closed spec fn watched(&self) -> Map<Seq<char>, u64> {
        self.file_watcher.watched()
    }

    /// Whether changed files are being watched for.
    pub closed spec fn hot(&self) -> bool {
        self.hot_reload_enabled
    }

    /// Well-formed: the collections hold their invariants; every registered
    /// id sits below the counter and its metadata carries that id; the path
    /// index and the metadata paths agree both ways; and no dependency or
    /// dependent is listed twice.
    pub closed spec fn wf(&self) -> bool {
        &&& self.assets.wf()
        &&& self.path_to_id.wf()
        &&& self.file_watcher.wf()
        &&& (forall|k: u64| #[trigger] self.assets@.dom().contains(k) ==> k < self.next_id)
        &&& (forall|k: u64| #[trigger]
            self.assets@.dom().contains(k) ==> self.assets@[k].id == AssetId(k))
        &&& (forall|k: u64| #[trigger]
            self.assets@.dom().contains(k) ==> self.path_to_id@.dom().contains(
                self.assets@[k].path@,
            ) && self.path_to_id@[self.assets@[k].path@] == k)
        &&& (forall|p: Seq<char>| #[trigger]
            self.path_to_id@.dom().contains(p) ==> self.assets@.dom().contains(
                self.path_to_id@[p],
            ) && self.assets@[self.path_to_id@[p]].path@ == p)
        &&& (forall|k: u64| #[trigger]
            self.assets@.dom().contains(k) ==> self.assets@[k].dependencies@.no_duplicates()
                && self.assets@[k].dependents@.no_duplicates())
    }

    /// An empty registry with hot reload off.
    pub fn new() -> (r: AssetRegistry)
        ensures
            r.wf(),
            r.assets() == Map::<u64, AssetMeta>::empty(),
            r.paths() == Map::<Seq<char>, u64>::empty(),
            r.spec_next() == 0,
            r.watched() == Map::<Seq<char>, u64>::empty(),
            !r.hot(),
    {
        AssetRegistry {
            assets: IdMap::new(),
            path_to_id: StrMap::new(),
            next_id: 0,
            file_watcher: FileWatcher::new(),
            hot_reload_enabled: false,
        }
    }

    pub fn enable_hot_reload(&mut self)
        requires
            old(self).wf(),
        ensures
            final(self).wf(),
            final(self).hot(),
            final(self).assets() == old(self).assets(),
            final(self).paths() == old(self).paths(),
            final(self).spec_next() == old(self).spec_next(),
            final(self).watched() == old(self).watched(),
    {
        self.hot_reload_enabled = true;
    }

    pub fn disable_hot_reload(&mut self)
        requires
            old(self).wf(),
        ensures
            final(self).wf(),
            !final(self).hot(),
            final(self).assets() == old(self).assets(),
            final(self).paths() == old(self).paths(),
            final(self).spec_next() == old(self).spec_next(),
            final(self).watched() == old(self).watched(),
    {
        self.hot_reload_enabled = false;
    }

    pub fn is_hot_reload_enabled(&self) -> (b: bool)
        ensures
            b == self.hot(),
    {
        self.hot_reload_enabled
    }

    /// Registers a path, or returns the id it already has. A new asset takes
    /// the next id, starts unloaded, and — when hot reload is on and a stamp
    /// was observed — is watched from that stamp.
    pub fn register(&mut self, path: String, asset_type: String, modified: Option<u64>) -> (r:
        AssetId)
        requires
            old(self).wf(),
            old(self).spec_next() < u64::MAX,
        ensures
            final(self).wf(),
            final(self).hot() == old(self).hot(),
            old(self).paths().dom().contains(path@) ==> {
                &&& r == AssetId(old(self).paths()[path@])
                &&& final(self).assets() == old(self).assets()
                &&& final(self).paths() == old(self).paths()
                &&& final(self).spec_next() == old(self).spec_next()
                &&& final(self).watched() == old(self).watched()
            },
            !old(self).paths().dom().contains(path@) ==> {
                &&& r == AssetId(old(self).spec_next())
                &&& final(self).spec_next() == old(self).spec_next() + 1
                &&& final(self).paths() == old(self).paths().insert(
                    path@,
                    old(self).spec_next(),
                )
                &&& final(self).assets().dom() == old(self).assets().dom().insert(
                    old(self).spec_next(),
                )
                &&& (forall|k: u64|
                    k != old(self).spec_next() && old(self).assets().dom().contains(k)
                        ==> final(self).assets()[k] == old(self).assets()[k])
                &&& final(self).assets()[old(self).spec_next()].id == r
                &&& final(self).assets()[old(self).spec_next()].path@ == path@
                &&& final(self).assets()[old(self).spec_next()].asset_type@ == asset_type@
                &&& final(self).assets()[old(self).spec_next()].state
                    == AssetLoadState::NotLoaded
                &&& final(self).assets()[old(self).spec_next()].last_modified is None
                &&& final(self).assets()[old(self).spec_next()].dependencies@ == Seq::<
                    AssetId,
                >::empty()
                &&& final(self).assets()[old(self).spec_next()].dependents@ == Seq::<
                    AssetId,
                >::empty()
                &&& final(self).watched() == (match modified {
                    Some(m) => if old(self).hot() {
                        old(self).watched().insert(path@, m)
                    } else {
                        old(self).watched()
                    },
                    None => old(self).watched(),
                })
            },
    {
        let existing: Option<u64> = match self.path_to_id.get(path.as_str()) {
            Some(id) => Some(*id),
            None => None,
        };
        match existing {
            Some(id) => AssetId(id),
            None => {
                let id = AssetId(self.next_id);
                self.next_id = self.next_id + 1;
                let meta = AssetMeta::new(id, path.clone(), asset_type);
                self.assets.insert(id.0, meta);
                self.path_to_id.insert(path.clone(), id.0);
                if self.hot_reload_enabled {
                    match modified {
                        Some(m) => {
                            self.file_watcher.watch(path.as_str(), m);
                        },
                        None => {},
                    }
                }
                id
            },
        }
    }

    /// Drops an asset and its path index entry; when hot reload is on, its
    /// path stops being watched. Unknown ids are a no-op.
    pub fn unregister(&mut self, id: AssetId)
        requires
            old(self).wf(),
        ensures
            final(self).wf(),
            final(self).hot() == old(self).hot(),
            final(self).spec_next() == old(self).spec_next(),
            !old(self).assets().dom().contains(id.0) ==> {
                &&& final(self).assets() == old(self).assets()
                &&& final(self).paths() == old(self).paths()
                &&& final(self).watched() == old(self).watched()
            },
            old(self).assets().dom().contains(id.0) ==> {
                &&& final(self).assets() == old(self).assets().remove(id.0)
                &&& final(self).paths() == old(self).paths().remove(
                    old(self).assets()[id.0].path@,
                )
                &&& final(self).watched() == (if old(self).hot() {
                    old(self).watched().remove(old(self).assets()[id.0].path@)
                } else {
                    old(self).watched()
                })
            },
    {
        match self.assets.remove(id.0) {
            Some(meta) => {
                self.path_to_id.remove(meta.path.as_str());
                if self.hot_reload_enabled {
                    self.file_watcher.unwatch(meta.path.as_str());
                }
            },
            None => {},
        }
    }

    /// The metadata of a registered asset.
    pub fn get(&self, id: AssetId) -> (r: Option<&AssetMeta>)
        requires
            self.wf(),
        ensures
            match r {
                Some(m) => self.assets().dom().contains(id.0) && *m == self.assets()[id.0],
                None => !self.assets().dom().contains(id.0),
            },
    {
        self.assets.get(id.0)
    }

    /// The metadata of a registered asset, mutably: the caller reads what
    /// is stored, and whatever it leaves behind is what the id keeps. The
    /// registry stays well-formed as long as the caller leaves the id, the
    /// path and the duplicate-freeness of the dependency lists as it found
    /// them; the path index is not adjusted.
    pub fn get_mut(&mut self, id: AssetId) -> (r: Option<&mut AssetMeta>)
        requires
            old(self).wf(),
        ensures
            match r {
                Some(m) => {
                    &&& old(self).assets().dom().contains(id.0)
                    &&& *m == old(self).assets()[id.0]
                    &&& final(self).assets() == old(self).assets().insert(id.0, *final(m))
                    &&& final(self).paths() == old(self).paths()
                    &&& final(self).watched() == old(self).watched()
                    &&& final(self).spec_next() == old(self).spec_next()
                    &&& final(self).hot() == old(self).hot()
                    &&& (((*final(m)).id == AssetId(id.0) && (*final(m)).path@ == old(
                        self,
                    ).assets()[id.0].path@ && (*final(m)).dependencies@.no_duplicates()
                        && (*final(m)).dependents@.no_duplicates()) ==> final(self).wf())
                },
                None => !old(self).assets().dom().contains(id.0) && *final(self) == *old(self),
            },
    {
        self.assets.get_mut(id.0)
    }

    /// The metadata registered under a path.
    pub fn get_by_path(&self, path: &str) -> (r: Option<&AssetMeta>)
        requires
            self.wf(),
        ensures
            match r {
                Some(m) => self.paths().dom().contains(path@) && self.assets().dom().contains(
                    self.paths()[path@],
                ) && *m == self.assets()[self.paths()[path@]] && m.path@ == path@,
                None => !self.paths().dom().contains(path@) || !self.assets().dom().contains(
                    self.paths()[path@],
                ),
            },
    {
        match self.path_to_id.get(path) {
            Some(id) => self.assets.get(*id),
            None => None,
        }
    }

    /// Sets an asset's load state; reaching `Loaded` also records the
    /// observed modification stamp. Unknown ids are a no-op.
    pub fn set_state(&mut self, id: AssetId, state: AssetLoadState, modified: Option<u64>)
        requires
            old(self).wf(),
        ensures
            final(self).wf(),
            final(self).hot() == old(self).hot(),
            final(self).spec_next() == old(self).spec_next(),
            final(self).paths() == old(self).paths(),
            final(self).watched() == old(self).watched(),
            !old(self).assets().dom().contains(id.0) ==> final(self).assets() == old(
                self,
            ).assets(),
            old(self).assets().dom().contains(id.0) ==> {
                &&& final(self).assets().dom() == old(self).assets().dom()
                &&& (forall|k: u64|
                    k != id.0 && old(self).assets().dom().contains(k) ==> final(self).assets()[k]
                        == old(self).assets()[k])
                &&& final(self).assets()[id.0].state == state
                &&& final(self).assets()[id.0].last_modified == (if state
                    == AssetLoadState::Loaded {
                    modified
                } else {
                    old(self).assets()[id.0].last_modified
                })
                &&& final(self).assets()[id.0].id == old(self).assets()[id.0].id
                &&& final(self).assets()[id.0].path == old(self).assets()[id.0].path
                &&& final(self).assets()[id.0].asset_type == old(self).assets()[id.0].asset_type
                &&& final(self).assets()[id.0].dependencies == old(
                    self,
                ).assets()[id.0].dependencies
                &&& final(self).assets()[id.0].dependents == old(self).assets()[id.0].dependents
            },
    {
        match self.assets.remove(id.0) {
            Some(meta) => {
                let mut meta = meta;
                meta.state = state;
                if state == AssetLoadState::Loaded {
                    meta.last_modified = modified;
                }
                self.assets.insert(id.0, meta);
                proof {
                    assert(self.assets@.dom() =~= old(self).assets@.dom());
                }
            },
            None => {
                proof {
                    assert(self.assets@ =~= old(self).assets@);
                }
            },
        }
    }

    /// Records that `asset_id` depends on `dependency_id`: the dependency is
    /// added to the asset's dependency list and the asset to the
    /// dependency's dependent list, each only if absent, and each only when
    /// the respective asset is registered.
    pub fn add_dependency(&mut self, asset_id: AssetId, dependency_id: AssetId)
        requires
            old(self).wf(),
        ensures
            final(self).wf(),
            final(self).hot() == old(self).hot(),
            final(self).spec_next() == old(self).spec_next(),
            final(self).paths() == old(self).paths(),
            final(self).watched() == old(self).watched(),
            final(self).assets().dom() == old(self).assets().dom(),
            forall|k: u64|
                k != asset_id.0 && k != dependency_id.0 && old(self).assets().dom().contains(k)
                    ==> final(self).assets()[k] == old(self).assets()[k],
            old(self).assets().dom().contains(asset_id.0) ==> {
                &&& final(self).assets()[asset_id.0].dependencies@ == (if old(
                    self,
                ).assets()[asset_id.0].dependencies@.contains(dependency_id) {
                    old(self).assets()[asset_id.0].dependencies@
                } else {
                    old(self).assets()[asset_id.0].dependencies@.push(dependency_id)
                })
                &&& final(self).assets()[asset_id.0].dependents@ == (if asset_id.0
                    == dependency_id.0 && !old(self).assets()[asset_id.0].dependents@.contains(
                    asset_id,
                ) {
                    old(self).assets()[asset_id.0].dependents@.push(asset_id)
                } else {
                    old(self).assets()[asset_id.0].dependents@
                })
                &&& final(self).assets()[asset_id.0].id == old(self).assets()[asset_id.0].id
                &&& final(self).assets()[asset_id.0].path == old(self).assets()[asset_id.0].path
                &&& final(self).assets()[asset_id.0].asset_type == old(
                    self,
                ).assets()[asset_id.0].asset_type
                &&& final(self).assets()[asset_id.0].state == old(self).assets()[asset_id.0].state
                &&& final(self).assets()[asset_id.0].last_modified == old(
                    self,
                ).assets()[asset_id.0].last_modified
            },
            asset_id.0 != dependency_id.0 && old(self).assets().dom().contains(dependency_id.0)
                ==> {
                &&& final(self).assets()[dependency_id.0].dependents@ == (if old(
                    self,
                ).assets()[dependency_id.0].dependents@.contains(asset_id) {
                    old(self).assets()[dependency_id.0].dependents@
                } else {
                    old(self).assets()[dependency_id.0].dependents@.push(asset_id)
                })
                &&& final(self).assets()[dependency_id.0].dependencies == old(
                    self,
                ).assets()[dependency_id.0].dependencies
                &&& final(self).assets()[dependency_id.0].id == old(
                    self,
                ).assets()[dependency_id.0].id
                &&& final(self).assets()[dependency_id.0].path == old(
                    self,
                ).assets()[dependency_id.0].path
                &&& final(self).assets()[dependency_id.0].asset_type == old(
                    self,
                ).assets()[dependency_id.0].asset_type
                &&& final(self).assets()[dependency_id.0].state == old(
                    self,
                ).assets()[dependency_id.0].state
                &&& final(self).assets()[dependency_id.0].last_modified == old(
                    self,
                ).assets()[dependency_id.0].last_modified
            },
    {
        if asset_id.0 == dependency_id.0 {
            match self.assets.remove(asset_id.0) {
                Some(meta) => {
                    let mut meta = meta;
                    push_unique(&mut meta.dependencies, dependency_id);
                    push_unique(&mut meta.dependents, asset_id);
                    self.assets.insert(asset_id.0, meta);
                    proof {
                        assert(self.assets@.dom() =~= old(self).assets@.dom());
                    }
                },
                None => {
                    proof {
                        assert(self.assets@ =~= old(self).assets@);
                    }
                },
            }
        } else {
            match self.assets.remove(asset_id.0) {
                Some(meta) => {
                    let mut meta = meta;
                    push_unique(&mut meta.dependencies, dependency_id);
                    self.assets.insert(asset_id.0, meta);
                },
                None => {},
            }
            match self.assets.remove(dependency_id.0) {
                Some(meta) => {
                    let mut meta = meta;
                    push_unique(&mut meta.dependents, asset_id);
                    self.assets.insert(dependency_id.0, meta);
                },
                None => {},
            }
            proof {
                assert(self.assets@.dom() =~= old(self).assets@.dom());
            }
        }
    }

    /// The direct dependents of an asset; empty for an unknown id.
    pub fn get_dependents(&self, id: AssetId) -> (r: Vec<AssetId>)
        requires
            self.wf(),
        ensures
            self.assets().dom().contains(id.0) ==> r@ == self.assets()[id.0].dependents@,
            !self.assets().dom().contains(id.0) ==> r@ == Seq::<AssetId>::empty(),
    {
        match self.assets.get(id.0) {
            Some(meta) => {
                let n = meta.dependents.len();
                let mut r: Vec<AssetId> = Vec::new();
                let mut i: usize = 0;
                while i < n
                    invariant
                        n == meta.dependents@.len(),
                        i <= n,
                        r@.len() == i,
                        forall|j: int| 0 <= j < i ==> r@[j] == meta.dependents@[j],
                    decreases n - i,
                {
                    r.push(meta.dependents[i]);
                    i = i + 1;
                }
                proof {
                    assert(r@ =~= meta.dependents@);
                }
                r
            },
            None => Vec::new(),
        }
    }

    /// Everything that must reload when `changed_id` changes: the id itself
    /// first, then every transitive dependent, each exactly once. The result
    /// is closed — it holds every dependent of everything it holds — and
    /// everything after the head got in by being a dependent of an earlier
    /// element.
    #[verifier::loop_isolation(false)]
    pub fn get_reload_list(&self, changed_id: AssetId) -> (r: Vec<AssetId>)
        requires
            self.wf(),
        ensures
            r@.len() >= 1,
            r@[0] == changed_id,
            r@.no_duplicates(),
            forall|j: int|
                1 <= j < r@.len() ==> exists|k: int|
                    0 <= k < j && depends_on(self.assets(), r@[k], #[trigger] r@[j]),
            forall|k: int, d: AssetId|
                0 <= k < r@.len() && #[trigger] depends_on(self.assets(), r@[k], d)
                    ==> r@.contains(d),
    {
        proof {
            self.assets.lemma_view_entries();
        }
        let ghost entries = self.assets.entries_seq();
        let ghost u_seq = seq![changed_id] + dep_seq(entries);
        let ghost u_set = u_seq.to_set();
        proof {
            broadcast use vstd::seq_lib::seq_to_set_is_finite;

            assert(u_set.contains(u_seq[0]));
            seq![changed_id].unique_seq_to_set();
            u_seq.lemma_cardinality_of_set();
        }
        let mut r: Vec<AssetId> = Vec::new();
        r.push(changed_id);
        let mut cursor: usize = 0;
        proof {
            assert(r@.no_duplicates());
            assert(forall|j: int| 0 <= j < r@.len() ==> u_set.contains(#[trigger] r@[j]));
            r@.unique_seq_to_set();
            assert forall|x: AssetId| r@.to_set().contains(x) implies u_set.contains(x) by {}
            vstd::set_lib::lemma_len_subset(r@.to_set(), u_set);
        }
        while cursor < r.len()
            invariant
                self.wf(),
                entries == self.assets.entries_seq(),
                self.assets() == crate::idmap::map_of(entries),
                u_set == (seq![changed_id] + dep_seq(entries)).to_set(),
                u_set.finite(),
                r@.len() >= 1,
                r@[0] == changed_id,
                cursor <= r@.len(),
                r@.no_duplicates(),
                forall|j: int| 0 <= j < r@.len() ==> u_set.contains(#[trigger] r@[j]),
                r@.len() <= u_set.len(),
                forall|j: int|
                    1 <= j < r@.len() ==> exists|k: int|
                        0 <= k < j && depends_on(self.assets(), r@[k], #[trigger] r@[j]),
                forall|k: int, d: AssetId|
                    0 <= k < cursor && #[trigger] depends_on(self.assets(), r@[k], d)
                        ==> r@.contains(d),
            decreases u_set.len() - cursor,
        {
            let id = r[cursor];
            let deps = self.get_dependents(id);
            let m = deps.len();
            let mut di: usize = 0;
            while di < m
                invariant
                    self.wf(),
                    entries == self.assets.entries_seq(),
                    self.assets() == crate::idmap::map_of(entries),
                    u_set == (seq![changed_id] + dep_seq(entries)).to_set(),
                    u_set.finite(),
                    cursor < r@.len(),
                    id == r@[cursor as int],
                    m == deps@.len(),
                    di <= m,
                    m > 0 ==> self.assets().dom().contains(id.0) && deps@
                        == self.assets()[id.0].dependents@,
                    r@.len() >= 1,
                    r@[0] == changed_id,
                    r@.no_duplicates(),
                    forall|j: int| 0 <= j < r@.len() ==> u_set.contains(#[trigger] r@[j]),
                    r@.len() <= u_set.len(),
                    forall|j: int|
                        1 <= j < r@.len() ==> exists|k: int|
                            0 <= k < j && depends_on(self.assets(), r@[k], #[trigger] r@[j]),
                    forall|k: int, d: AssetId|
                        0 <= k < cursor && #[trigger] depends_on(self.assets(), r@[k], d)
                            ==> r@.contains(d),
                    forall|t: int| 0 <= t < di ==> r@.contains(#[trigger] deps@[t]),
                decreases m - di,
            {
                let d = deps[di];
                let ghost pre = r@;
                if !id_vec_contains(&r, d) {
                    proof {
                        // The new id is a listed dependent, so it is in the
                        // universe of ids the traversal can ever visit.
                        self.assets.lemma_view_entries();
                        crate::idmap::lemma_map_of_contains(entries, id.0);
                        let ei = choose|ei: int|
                            0 <= ei < entries.len() && entries[ei].0 == id.0;
                        crate::idmap::lemma_map_of_get(entries, ei);
                        assert(entries[ei].1 == self.assets()[id.0]);
                        lemma_dep_seq_contains(entries, ei, di as int);
                        let w = choose|w: int|
                            0 <= w < dep_seq(entries).len() && dep_seq(entries)[w] == d;
                        assert(u_seq == seq![changed_id] + dep_seq(entries));
                        assert(seq![changed_id].len() == 1);
                        assert(u_seq[1 + w] == d);
                        assert(u_seq.contains(d));
                        assert(u_set == u_seq.to_set());
                        assert(u_set.contains(d));
                    }
                    r.push(d);
                    proof {
                        assert forall|j: int|
                            0 <= j < r@.len() implies u_set.contains(#[trigger] r@[j]) by {
                            if j < pre.len() {
                                assert(r@[j] == pre[j]);
                            }
                        }
                        r@.unique_seq_to_set();
                        assert forall|x: AssetId| r@.to_set().contains(x) implies u_set.contains(
                            x,
                        ) by {
                            let j = choose|j: int| 0 <= j < r@.len() && r@[j] == x;
                        }
                        vstd::set_lib::lemma_len_subset(r@.to_set(), u_set);
                        assert forall|j: int|
                            1 <= j < r@.len() implies exists|k: int|
                            0 <= k < j && depends_on(self.assets(), r@[k], #[trigger] r@[j]) by {
                            if j < pre.len() {
                                assert(r@[j] == pre[j]);
                                let k = choose|k: int|
                                    0 <= k < j && depends_on(self.assets(), pre[k], pre[j]);
                                assert(depends_on(self.assets(), r@[k], r@[j]));
                            } else {
                                assert(r@[j] == d);
                                assert(depends_on(self.assets(), r@[cursor as int], r@[j]));
                            }
                        }
                        assert forall|k: int, dd: AssetId|
                            0 <= k < cursor && #[trigger] depends_on(self.assets(), r@[k], dd)
                                implies r@.contains(dd) by {
                            assert(r@[k] == pre[k]);
                            assert(pre.contains(dd));
                            let j = choose|j: int| 0 <= j < pre.len() && pre[j] == dd;
                            assert(r@[j] == dd);
                        }
                        assert forall|t: int|
                            0 <= t <= di implies r@.contains(#[trigger] deps@[t]) by {
                            if t < di {
                                assert(pre.contains(deps@[t]));
                                let j = choose|j: int| 0 <= j < pre.len() && pre[j] == deps@[t];
                                assert(r@[j] == deps@[t]);
                            } else {
                                assert(r@[r@.len() - 1] == d);
                            }
                        }
                    }
                } else {
                    proof {
                        assert(r@.contains(d));
                    }
                }
                di = di + 1;
            }
            proof {
                // Everything this element points at is now present.
                assert forall|k: int, dd: AssetId|
                    0 <= k < cursor + 1 && #[trigger] depends_on(self.assets(), r@[k], dd)
                        implies r@.contains(dd) by {
                    if k == cursor {
                        let t = choose|t: int|
                            0 <= t < self.assets()[r@[k].0].dependents@.len()
                                && self.assets()[r@[k].0].dependents@[t] == dd;
                        assert(deps@[t] == dd);
                    }
                }
            }
            cursor = cursor + 1;
        }
        r
    }

    /// Diffs fresh file observations against the watched stamps and reports
    /// a change event for each changed path that names a registered asset,
    /// in observation order. With hot reload off, nothing happens.
    #[verifier::loop_isolation(false)]
    pub fn check_for_changes(&mut self, observed: &Vec<FileObservation>) -> (r: Vec<
        AssetChangeEvent,
    >)
        requires
            old(self).wf(),
        ensures
            final(self).wf(),
            final(self).hot() == old(self).hot(),
            final(self).assets() == old(self).assets(),
            final(self).paths() == old(self).paths(),
            final(self).spec_next() == old(self).spec_next(),
            !old(self).hot() ==> r@ == Seq::<AssetChangeEvent>::empty() && final(self).watched()
                == old(self).watched(),
            old(self).hot() ==> {
                &&& final(self).watched() == watch_after(old(self).watched(), observed@)
                &&& event_views(r@) == events_of(
                    old(self).paths(),
                    changes_of(old(self).watched(), observed@),
                )
            },
    {
        if !self.hot_reload_enabled {
            return Vec::new();
        }
        let changes = self.file_watcher.check_changes(observed);
        let ghost cv = changes_of(old(self).watched(), observed@);
        proof {
            assert(change_views(changes@) =~= cv);
        }
        let mut r: Vec<AssetChangeEvent> = Vec::new();
        let n = changes.len();
        let mut i: usize = 0;
        proof {
            assert(cv.subrange(0, n as int) =~= cv);
            assert(event_views(r@) + events_of(self.path_to_id@, cv) =~= events_of(
                self.path_to_id@,
                cv,
            ));
        }
        while i < n
            invariant
                i <= n,
                events_of(self.path_to_id@, cv) == event_views(r@) + events_of(
                    self.path_to_id@,
                    cv.subrange(i as int, n as int),
                ),
            decreases n - i,
        {
            let ghost rest = cv.subrange(i as int, n as int);
            let ghost pre = r@;
            proof {
                assert(rest[0] == cv[i as int]);
                assert(cv[i as int] == (changes@[i as int].0@, changes@[i as int].1));
                assert(rest.subrange(1, rest.len() as int) =~= cv.subrange(
                    i as int + 1,
                    n as int,
                ));
            }
            match self.path_to_id.get(changes[i].0.as_str()) {
                Some(id) => {
                    let ev = AssetChangeEvent {
                        id: AssetId(*id),
                        path: changes[i].0.clone(),
                        change_type: changes[i].1,
                    };
                    r.push(ev);
                    proof {
                        assert(event_views(r@) =~= event_views(pre).push(
                            (self.path_to_id@[cv[i as int].0], cv[i as int].0, cv[i as int].1),
                        ));
                        assert(events_of(self.path_to_id@, rest) =~= seq![
                            (self.path_to_id@[cv[i as int].0], cv[i as int].0, cv[i as int].1),
                        ] + events_of(self.path_to_id@, rest.subrange(1, rest.len() as int)));
                        assert(event_views(pre) + events_of(self.path_to_id@, rest)
                            =~= event_views(r@) + events_of(
                            self.path_to_id@,
                            rest.subrange(1, rest.len() as int),
                        ));
                    }
                },
                None => {
                    proof {
                        assert(events_of(self.path_to_id@, rest) =~= events_of(
                            self.path_to_id@,
                            rest.subrange(1, rest.len() as int),
                        ));
                    }
                },
            }
            i = i + 1;
        }
        proof {
            assert(cv.subrange(n as int, n as int) =~= Seq::<
                (Seq<char>, AssetChangeType),
            >::empty());
            assert(event_views(r@) + Seq::<(u64, Seq<char>, AssetChangeType)>::empty()
                =~= event_views(r@));
        }
        r
    }

    /// The ids of every registered asset, each once.
    pub fn all_ids(&self) -> (r: Vec<AssetId>)
        requires
            self.wf(),
        ensures
            forall|k: u64| self.assets().dom().contains(k) <==> r@.contains(AssetId(k)),
            forall|i: int, j: int| 0 <= i < j < r@.len() ==> r@[i] != r@[j],
    {
        let keys = self.assets.keys();
        let n = keys.len();
        let mut r: Vec<AssetId> = Vec::new();
        let mut i: usize = 0;
        while i < n
            invariant
                n == keys@.len(),
                i <= n,
                r@.len() == i,
                forall|j: int| 0 <= j < i ==> r@[j] == AssetId(keys@[j]),
            decreases n - i,
        {
            r.push(AssetId(keys[i]));
            i = i + 1;
        }
        proof {
            assert forall|k: u64| self.assets().dom().contains(k) implies r@.contains(
                AssetId(k),
            ) by {
                assert(keys@.contains(k));
                let j = choose|j: int| 0 <= j < keys@.len() && keys@[j] == k;
                assert(r@[j] == AssetId(k));
            }
            assert forall|k: u64| r@.contains(AssetId(k)) implies self.assets().dom().contains(
                k,
            ) by {
                let j = choose|j: int| 0 <= j < r@.len() && r@[j] == AssetId(k);
                assert(keys@[j] == k);
                assert(keys@.contains(k));
            }
        }
        r
    }

    /// How many assets are registered.
    pub fn count(&self) -> (n: usize)
        requires
            self.wf(),
        ensures
            n == self.assets().dom().len(),
    {
        self.assets.len()
    }
}

impl Default for AssetRegistry {
    /// The same empty registry `new` builds.
    fn default() -> (r: AssetRegistry)
        ensures
            r.wf(),
            r.assets() == Map::<u64, AssetMeta>::empty(),
            !r.hot(),
    {
        AssetRegistry::new()
    }
}

/// One queued request to load an asset.
#[derive(Debug, Clone)]
pub struct AssetLoadRequest {
    pub id: AssetId,
    pub path: String,
    pub asset_type: String,
    pub priority: i32,
}

/// Where a new request of the given priority goes: after every request with
/// the same or higher priority, before the first strictly lower one.
pub open spec fn insert_pos(s: Seq<AssetLoadRequest>, priority: i32) -> int
    decreases s.len(),
{
    if s.len() == 0 {
        0
    } else if s[0].priority < priority {
        0
    } else {
        1 + insert_pos(s.subrange(1, s.len() as int), priority)
    }
}

/// A queue of load requests, highest priority first; requests of equal
/// priority keep their arrival order.
pub struct AssetLoadQueue {
    requests: Vec<AssetLoadRequest>,
}

impl AssetLoadQueue {
    /// The queued requests, next to serve first.
    pub closed spec fn queue(&self) -> Seq<AssetLoadRequest> {
        self.requests@
    }

    /// Priorities never rise along the queue.
    pub closed spec fn wf(&self) -> bool {
        forall|i: int, j: int|
            0 <= i < j < self.requests@.len() ==> self.requests@[i].priority
                >= self.requests@[j].priority
    }

    pub fn new() -> (r: AssetLoadQueue)
        ensures
            r.wf(),
            r.queue() == Seq::<AssetLoadRequest>::empty(),
    {
        AssetLoadQueue { requests: Vec::new() }
    }

    /// Queues a request after every request of the same or higher priority
    /// and before the first of strictly lower priority.
    pub fn enqueue(&mut self, request: AssetLoadRequest)
        requires
            old(self).wf(),
        ensures
            final(self).wf(),
            final(self).queue() == old(self).queue().insert(
                insert_pos(old(self).queue(), request.priority),
                request,
            ),
    {
        let n = self.requests.len();
        let mut i: usize = 0;
        proof {
            assert(self.requests@.subrange(0, n as int) =~= self.requests@);
        }
        while i < n && self.requests[i].priority >= request.priority
            invariant
                old(self) == self,
                n == self.requests@.len(),
                i <= n,
                insert_pos(self.requests@, request.priority) == i + insert_pos(
                    self.requests@.subrange(i as int, n as int),
                    request.priority,
                ),
                forall|j: int| 0 <= j < i ==> self.requests@[j].priority >= request.priority,
            decreases n - i,
        {
            let ghost rest = self.requests@.subrange(i as int, n as int);
            proof {
                assert(rest[0] == self.requests@[i as int]);
                assert(rest.subrange(1, rest.len() as int) =~= self.requests@.subrange(
                    i as int + 1,
                    n as int,
                ));
            }
            i = i + 1;
        }
        proof {
            let rest = self.requests@.subrange(i as int, n as int);
            if i < n {
                assert(rest[0] == self.requests@[i as int]);
                assert(insert_pos(rest, request.priority) == 0);
            } else {
                assert(rest =~= Seq::<AssetLoadRequest>::empty());
                assert(insert_pos(rest, request.priority) == 0);
            }
            assert(insert_pos(self.requests@, request.priority) == i as int);
        }
        self.requests.insert(i, request);
    }

    /// Serves the front request, if any.
    pub fn dequeue(&mut self) -> (r: Option<AssetLoadRequest>)
        requires
            old(self).wf(),
        ensures
            final(self).wf(),
            old(self).queue().len() == 0 ==> r is None && final(self).queue() == old(
                self,
            ).queue(),
            old(self).queue().len() > 0 ==> (match r {
                Some(req) => req == old(self).queue()[0] && final(self).queue() == old(
                    self,
                ).queue().subrange(1, old(self).queue().len() as int),
                None => false,
            }),
    {
        if self.requests.len() == 0 {
            None
        } else {
            let req = self.requests.remove(0);
            proof {
                assert(self.requests@ =~= old(self).requests@.subrange(
                    1,
                    old(self).requests@.len() as int,
                ));
            }
            Some(req)
        }
    }

    /// The front request without removing it.
    pub fn peek(&self) -> (r: Option<&AssetLoadRequest>)
        ensures
            self.queue().len() == 0 ==> r is None,
            self.queue().len() > 0 ==> (match r {
                Some(req) => *req == self.queue()[0],
                None => false,
            }),
    {
        if self.requests.len() == 0 {
            None
        } else {
            Some(&self.requests[0])
        }
    }

    pub fn is_empty(&self) -> (b: bool)
        ensures
            b == (self.queue().len() == 0),
    {
        self.requests.len() == 0
    }

    pub fn len(&self) -> (n: usize)
        ensures
            n == self.queue().len(),
    {
        self.requests.len()
    }

    pub fn clear(&mut self)
        ensures
            final(self).wf(),
            final(self).queue() == Seq::<AssetLoadRequest>::empty(),
    {
        self.requests.clear();
    }
}

impl Default for AssetLoadQueue {
    /// The same empty queue `new` builds.
    fn default() -> (r: AssetLoadQueue)
        ensures
            r.wf(),
            r.queue() == Seq::<AssetLoadRequest>::empty(),
    {
        AssetLoadQueue::new()
    }
}

} // verus!
