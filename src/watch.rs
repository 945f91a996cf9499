//! The decisions of the watch loop: seeding the store, which observed files
//! trigger an action, and which action that is.
use vstd::prelude::*;
use vstd::string::StringExecFns;

use crate::command::{MoniExecuteCommand, MONI_MARK};
use crate::searcher::{lemma_scan_distinct, wf_listing, Entry, FileSearcher};
use crate::store::{FileSize, FileStore};
use crate::text::{replace_spec, views};

verus! {

/// The views of observed `(path, size)` pairs.
pub open spec fn obs_views(obs: Seq<(String, FileSize)>) -> Seq<(Seq<char>, FileSize)> {
    obs.map_values(|o: (String, FileSize)| (o.0@, o.1))
}

/// Whether observing `size` for `path` is a change: the path is new, or is
/// stored with another size.
pub open spec fn is_change(m: Map<Seq<char>, FileSize>, path: Seq<char>, size: FileSize) -> bool {
    !m.contains_key(path) || m[path] != size
}

/// The store after seeding it with `obs` in order: each path is inserted
/// where it is new.
pub open spec fn seed_spec(m: Map<Seq<char>, FileSize>, obs: Seq<(Seq<char>, FileSize)>) -> Map<
    Seq<char>,
    FileSize,
>
    decreases obs.len(),
{
    if obs.len() == 0 {
        m
    } else {
        let m1 = seed_spec(m, obs.drop_last());
        let (p, v) = obs.last();
        if m1.contains_key(p) {
            m1
        } else {
            m1.insert(p, v)
        }
    }
}

/// One polling cycle over `obs` in order: the store after it, and the paths
/// whose action runs, in the order they run. Each change triggers its action
/// and then records the new size.
pub open spec fn cycle_spec(m: Map<Seq<char>, FileSize>, obs: Seq<(Seq<char>, FileSize)>) -> (
    Map<Seq<char>, FileSize>,
    Seq<Seq<char>>,
)
    decreases obs.len(),
{
    if obs.len() == 0 {
        (m, Seq::empty())
    } else {
        let (m1, d1) = cycle_spec(m, obs.drop_last());
        let (p, v) = obs.last();
        if is_change(m1, p, v) {
            (m1.insert(p, v), d1.push(p))
        } else {
            (m1, d1)
        }
    }
}

/// No path is observed twice.
pub open spec fn distinct_paths(obs: Seq<(Seq<char>, FileSize)>) -> bool {
    forall|i: int, j: int| 0 <= i < j < obs.len() ==> obs[i].0 != obs[j].0
}

/// `d` is made of entries of `paths` taken in their order.
pub open spec fn in_order_of(d: Seq<Seq<char>>, paths: Seq<Seq<char>>) -> bool {
    exists|idx: Seq<int>|
        idx.len() == d.len() && (forall|k: int|
            0 <= k < d.len() ==> 0 <= #[trigger] idx[k] < paths.len() && d[k] == paths[idx[k]])
            && (forall|k: int, l: int| 0 <= k < l < d.len() ==> idx[k] < idx[l])
}

proof fn lemma_seed_holds_each(obs: Seq<(Seq<char>, FileSize)>)
    requires
        distinct_paths(obs),
    ensures
        forall|k: Seq<char>| #[trigger]
            seed_spec(Map::empty(), obs).contains_key(k) ==> exists|i: int|
                0 <= i < obs.len() && obs[i].0 == k,
        forall|i: int|
            0 <= i < obs.len() ==> #[trigger] seed_spec(Map::empty(), obs).contains_key(obs[i].0)
                && seed_spec(Map::empty(), obs)[obs[i].0] == obs[i].1,
    decreases obs.len(),
{
    if obs.len() > 0 {
        let init = obs.drop_last();
        lemma_seed_holds_each(init);
        let m1 = seed_spec(Map::empty(), init);
        let last = obs.last();
        assert(!m1.contains_key(last.0)) by {
            if m1.contains_key(last.0) {
                let i = choose|i: int| 0 <= i < init.len() && init[i].0 == last.0;
                assert(obs[i].0 == obs[obs.len() - 1].0);
            }
        }
        assert forall|k: Seq<char>| #[trigger]
            seed_spec(Map::empty(), obs).contains_key(k) implies exists|i: int|
                0 <= i < obs.len() && obs[i].0 == k by {
            if k == last.0 {
                assert(obs[obs.len() - 1].0 == k);
            } else {
                let i = choose|i: int| 0 <= i < init.len() && init[i].0 == k;
                assert(obs[i].0 == k);
            }
        }
        assert forall|i: int| 0 <= i < obs.len() implies #[trigger] seed_spec(
            Map::empty(),
            obs,
        ).contains_key(obs[i].0) && seed_spec(Map::empty(), obs)[obs[i].0] == obs[i].1 by {
            if i < obs.len() - 1 {
                assert(init[i] == obs[i]);
                assert(obs[i].0 != last.0);
            }
        }
    }
}

proof fn lemma_cycle_quiet(m: Map<Seq<char>, FileSize>, obs: Seq<(Seq<char>, FileSize)>)
    requires
        forall|i: int|
            0 <= i < obs.len() ==> #[trigger] m.contains_key(obs[i].0) && m[obs[i].0] == obs[i].1,
    ensures
        cycle_spec(m, obs) == (m, Seq::<Seq<char>>::empty()),
    decreases obs.len(),
{
    if obs.len() > 0 {
        let init = obs.drop_last();
        assert forall|i: int| 0 <= i < init.len() implies #[trigger] m.contains_key(init[i].0)
            && m[init[i].0] == init[i].1 by {
            assert(init[i] == obs[i]);
        }
        lemma_cycle_quiet(m, init);
        assert(m.contains_key(obs[obs.len() - 1].0));
    }
}

/// Seeding an empty store from a scan and then polling the same, unchanged
/// files triggers no action and leaves the store as seeded.
pub proof fn lemma_first_cycle_after_seed_is_quiet(obs: Seq<(Seq<char>, FileSize)>)
    requires
        distinct_paths(obs),
    ensures
        cycle_spec(seed_spec(Map::empty(), obs), obs) == (
            seed_spec(Map::empty(), obs),
            Seq::<Seq<char>>::empty(),
        ),
{
    lemma_seed_holds_each(obs);
    lemma_cycle_quiet(seed_spec(Map::empty(), obs), obs);
}

/// The paths of observations.
pub open spec fn obs_paths(obs: Seq<(Seq<char>, FileSize)>) -> Seq<Seq<char>> {
    obs.map_values(|o: (Seq<char>, FileSize)| o.0)
}

proof fn dispatch_indices(m: Map<Seq<char>, FileSize>, obs: Seq<(Seq<char>, FileSize)>) -> (idx:
    Seq<int>)
    ensures
        idx.len() == cycle_spec(m, obs).1.len(),
        forall|k: int|
            0 <= k < idx.len() ==> 0 <= #[trigger] idx[k] < obs.len() && cycle_spec(m, obs).1[k]
                == obs_paths(obs)[idx[k]],
        forall|k: int, l: int| 0 <= k < l < idx.len() ==> idx[k] < idx[l],
    decreases obs.len(),
{
    if obs.len() == 0 {
        Seq::empty()
    } else {
        let init = obs.drop_last();
        let prev = dispatch_indices(m, init);
        let (m1, d1) = cycle_spec(m, init);
        let (p, v) = obs.last();
        assert forall|k: int| 0 <= k < prev.len() implies obs_paths(init)[prev[k]] == obs_paths(
            obs,
        )[prev[k]] by {
            assert(init[prev[k]] == obs[prev[k]]);
        }
        if is_change(m1, p, v) {
            let idx = prev.push(obs.len() - 1);
            assert forall|k: int| 0 <= k < idx.len() implies 0 <= #[trigger] idx[k] < obs.len()
                && cycle_spec(m, obs).1[k] == obs_paths(obs)[idx[k]] by {
                if k < prev.len() {
                    assert(idx[k] == prev[k]);
                }
            }
            idx
        } else {
            prev
        }
    }
}

/// The actions of one cycle run in the order in which the scan returned their
/// paths.
pub proof fn lemma_dispatch_in_scan_order(
    m: Map<Seq<char>, FileSize>,
    obs: Seq<(Seq<char>, FileSize)>,
)
    ensures
        in_order_of(cycle_spec(m, obs).1, obs_paths(obs)),
{
    let idx = dispatch_indices(m, obs);
    assert(idx.len() == cycle_spec(m, obs).1.len());
}

proof fn lemma_cycle_keeps_unobserved(
    m: Map<Seq<char>, FileSize>,
    obs: Seq<(Seq<char>, FileSize)>,
    k: Seq<char>,
)
    requires
        forall|i: int| 0 <= i < obs.len() ==> obs[i].0 != k,
    ensures
        cycle_spec(m, obs).0.contains_key(k) == m.contains_key(k),
        m.contains_key(k) ==> cycle_spec(m, obs).0[k] == m[k],
    decreases obs.len(),
{
    if obs.len() > 0 {
        let init = obs.drop_last();
        assert forall|i: int| 0 <= i < init.len() implies init[i].0 != k by {
            assert(init[i] == obs[i]);
        }
        lemma_cycle_keeps_unobserved(m, init, k);
        assert(obs[obs.len() - 1].0 != k);
    }
}

/// Where a scan lists each path once, each observation that is a change for
/// the store as it stood before the cycle has its action run exactly once in
/// that cycle, and no other path has one.
pub proof fn lemma_each_change_dispatched_once(
    m: Map<Seq<char>, FileSize>,
    obs: Seq<(Seq<char>, FileSize)>,
)
    requires
        distinct_paths(obs),
    ensures
        forall|i: int|
            0 <= i < obs.len() && is_change(m, obs[i].0, obs[i].1) ==> #[trigger] cycle_spec(
                m,
                obs,
            ).1.contains(obs[i].0),
        forall|k: int|
            0 <= k < cycle_spec(m, obs).1.len() ==> exists|i: int|
                0 <= i < obs.len() && obs[i].0 == #[trigger] cycle_spec(m, obs).1[k] && is_change(
                    m,
                    obs[i].0,
                    obs[i].1,
                ),
        cycle_spec(m, obs).1.no_duplicates(),
    decreases obs.len(),
{
    if obs.len() > 0 {
        let init = obs.drop_last();
        let n = obs.len() - 1;
        assert forall|i: int, j: int| 0 <= i < j < init.len() implies init[i].0 != init[j].0 by {
            assert(init[i] == obs[i] && init[j] == obs[j]);
        }
        lemma_each_change_dispatched_once(m, init);
        let (m1, d1) = cycle_spec(m, init);
        let (p, v) = obs[n];
        assert forall|i: int| 0 <= i < init.len() implies init[i].0 != p by {
            assert(init[i] == obs[i]);
        }
        lemma_cycle_keeps_unobserved(m, init, p);
        assert(is_change(m1, p, v) == is_change(m, p, v));
        let d = cycle_spec(m, obs).1;
        assert forall|i: int|
            0 <= i < obs.len() && is_change(m, obs[i].0, obs[i].1) implies #[trigger] cycle_spec(
            m,
            obs,
        ).1.contains(obs[i].0) by {
            if i < n {
                assert(init[i] == obs[i]);
                assert(d1.contains(init[i].0));
                let k = choose|k: int| 0 <= k < d1.len() && d1[k] == init[i].0;
                assert(d[k] == d1[k]);
            } else {
                assert(d[d.len() - 1] == p);
            }
        }
        assert forall|k: int| 0 <= k < d.len() implies exists|i: int|
            0 <= i < obs.len() && obs[i].0 == #[trigger] d[k] && is_change(
                m,
                obs[i].0,
                obs[i].1,
            ) by {
            if k < d1.len() {
                assert(d[k] == d1[k]);
                let i = choose|i: int|
                    0 <= i < init.len() && init[i].0 == d1[k] && is_change(m, init[i].0, init[i].1);
                assert(init[i] == obs[i]);
            } else {
                assert(obs[n].0 == d[k]);
            }
        }
        if is_change(m1, p, v) {
            assert(!d1.contains(p)) by {
                if d1.contains(p) {
                    let k = choose|k: int| 0 <= k < d1.len() && d1[k] == p;
                    let i = choose|i: int|
                        0 <= i < init.len() && init[i].0 == d1[k] && is_change(
                            m,
                            init[i].0,
                            init[i].1,
                        );
                }
            }
            assert forall|a: int, b: int| 0 <= a < d.len() && 0 <= b < d.len() && a != b implies d[a]
                != d[b] by {
                if a < d1.len() && b < d1.len() {
                    assert(d[a] == d1[a] && d[b] == d1[b]);
                } else if a < d1.len() {
                    assert(d[a] == d1[a]);
                } else if b < d1.len() {
                    assert(d[b] == d1[b]);
                }
            }
        }
    }
}

/// The views of `(path, size read)` pairs.
pub open spec fn read_views(read: Seq<(String, Option<FileSize>)>) -> Seq<
    (Seq<char>, Option<FileSize>),
> {
    read.map_values(|o: (String, Option<FileSize>)| (o.0@, o.1))
}

/// The paths of `(path, size read)` pairs.
pub open spec fn read_paths(read: Seq<(Seq<char>, Option<FileSize>)>) -> Seq<Seq<char>> {
    read.map_values(|o: (Seq<char>, Option<FileSize>)| o.0)
}

/// The observations of a cycle: the scanned paths whose size could be read,
/// in scan order, each with its size.
pub open spec fn observed_spec(read: Seq<(Seq<char>, Option<FileSize>)>) -> Seq<(Seq<char>, FileSize)>
    decreases read.len(),
{
    if read.len() == 0 {
        Seq::empty()
    } else {
        let rest = observed_spec(read.drop_last());
        match read.last().1 {
            Some(v) => rest.push((read.last().0, v)),
            None => rest,
        }
    }
}

proof fn lemma_observed_from_read(read: Seq<(Seq<char>, Option<FileSize>)>)
    ensures
        forall|k: int|
            0 <= k < observed_spec(read).len() ==> exists|i: int|
                0 <= i < read.len() && read[i].0 == #[trigger] observed_spec(read)[k].0,
        read_paths(read).no_duplicates() ==> distinct_paths(observed_spec(read)),
    decreases read.len(),
{
    if read.len() > 0 {
        let init = read.drop_last();
        let n = read.len() - 1;
        lemma_observed_from_read(init);
        let rest = observed_spec(init);
        let o = observed_spec(read);
        assert forall|k: int| 0 <= k < o.len() implies exists|i: int|
            0 <= i < read.len() && read[i].0 == #[trigger] o[k].0 by {
            if k < rest.len() {
                assert(o[k] == rest[k]);
                let i = choose|i: int| 0 <= i < init.len() && init[i].0 == rest[k].0;
                assert(read[i] == init[i]);
            } else {
                assert(read[n].0 == o[k].0);
            }
        }
        if read_paths(read).no_duplicates() {
            assert(read_paths(init).no_duplicates()) by {
                assert forall|a: int, b: int|
                    0 <= a < init.len() && 0 <= b < init.len() && a != b implies read_paths(init)[a]
                    != read_paths(init)[b] by {
                    assert(read_paths(init)[a] == read_paths(read)[a]);
                    assert(read_paths(init)[b] == read_paths(read)[b]);
                }
            }
            assert forall|a: int, b: int| 0 <= a < b < o.len() implies o[a].0 != o[b].0 by {
                if b < rest.len() {
                    assert(o[a] == rest[a] && o[b] == rest[b]);
                } else {
                    assert(o[a] == rest[a]);
                    let i = choose|i: int| 0 <= i < init.len() && init[i].0 == rest[a].0;
                    assert(read_paths(read)[i] == read[i].0);
                    assert(read_paths(read)[n] == read[n].0);
                    assert(read[i] == init[i]);
                }
            }
        }
    }
}

/// The observations of a cycle from the scanned paths, each paired with its
/// size where it could be read: the unread ones are dropped, the order is
/// kept. Where the scan listed each path once, so do the observations.
pub fn observations(read: &Vec<(String, Option<FileSize>)>) -> (r: Vec<(String, FileSize)>)
    ensures
        obs_views(r@) == observed_spec(read_views(read@)),
        read_paths(read_views(read@)).no_duplicates() ==> distinct_paths(obs_views(r@)),
{
    let ghost rv = read_views(read@);
    let mut out: Vec<(String, FileSize)> = Vec::new();
    let mut i: usize = 0;
    assert(obs_views(out@) =~= observed_spec(rv.subrange(0, 0)));
    while i < read.len()
        invariant
            i <= read@.len() == rv.len(),
            rv == read_views(read@),
            obs_views(out@) == observed_spec(rv.subrange(0, i as int)),
        decreases read@.len() - i,
    {
        let ghost pre = rv.subrange(0, i + 1);
        assert(pre.drop_last() =~= rv.subrange(0, i as int));
        assert(pre.last() == rv[i as int]);
        let ghost before = obs_views(out@);
        match read[i].1 {
            Some(v) => {
                let path = read[i].0.clone();
                out.push((path, v));
                assert(obs_views(out@) =~= before.push((rv[i as int].0, v)));
            },
            None => {},
        }
        i = i + 1;
    }
    assert(rv.subrange(0, i as int) =~= rv);
    proof {
        lemma_observed_from_read(rv);
    }
    out
}

/// The observations made from a scan of a listing as a directory gives it
/// list each path once, so the laws on seeding and on one cycle's dispatch
/// apply to them.
pub proof fn lemma_scan_observations_distinct(
    f: &FileSearcher,
    listing: Seq<Entry>,
    read: Seq<(Seq<char>, Option<FileSize>)>,
)
    requires
        wf_listing(listing),
        read_paths(read) == f.scan_spec(f.spec_root(), listing),
    ensures
        distinct_paths(observed_spec(read)),
{
    lemma_scan_distinct(f, f.spec_root(), listing);
    lemma_observed_from_read(read);
}

/// The action for a changed file.
#[derive(Debug, PartialEq, Eq)]
pub enum Dispatch {
    /// Call the caller-supplied function with this path.
    Callback(String),
    /// Run this shell command.
    Command(String),
    /// No action is configured.
    Nothing,
}

/// The state of a watch: its filter, its action, its store, and the polling
/// interval.
pub struct Moni {
    exe_command: Option<MoniExecuteCommand>,
    use_callback: bool,
    filestore: FileStore,
    searcher: FileSearcher,
    around_secs: u64,
    around_nanos: u32,
}

impl Moni {
    /// The store's contents.
    pub closed spec fn store(&self) -> Map<Seq<char>, FileSize> {
        self.filestore@
    }

    /// Whether a callback is configured.
    pub closed spec fn spec_use_callback(&self) -> bool {
        self.use_callback
    }

    /// The command template, if one is configured.
    pub closed spec fn spec_command(&self) -> Option<Seq<char>> {
        match self.exe_command {
            Some(c) => Some(c.template()),
            None => None,
        }
    }

    /// The filter.
    pub closed spec fn spec_searcher(&self) -> &FileSearcher {
        &self.searcher
    }

    /// A watch with an empty store that polls every 100 milliseconds. A
    /// callback, where `use_callback` says one is configured, takes
    /// precedence over the command.
    pub fn new(searcher: FileSearcher, exe_command: Option<MoniExecuteCommand>, use_callback: bool) -> (r: Moni)
        ensures
            r.store() == Map::<Seq<char>, FileSize>::empty(),
            r.spec_use_callback() == use_callback,
            r.spec_command() == match exe_command {
                Some(c) => Some(c.template()),
                None => None::<Seq<char>>,
            },
            *r.spec_searcher() == searcher,
            r.interval() == (0u64, 100_000_000u32),
    {
        Moni {
            exe_command,
            use_callback,
            filestore: FileStore::new(),
            searcher,
            around_secs: 0,
            around_nanos: 100_000_000,
        }
    }

    /// The polling interval as seconds and nanoseconds.
    pub closed spec fn interval(&self) -> (u64, u32) {
        (self.around_secs, self.around_nanos)
    }

    /// The polling interval as seconds and nanoseconds.
    pub fn around(&self) -> (r: (u64, u32))
        ensures
            r == self.interval(),
    {
        (self.around_secs, self.around_nanos)
    }

    /// The filter.
    pub fn searcher(&self) -> (r: &FileSearcher)
        ensures
            r == self.spec_searcher(),
    {
        &self.searcher
    }

    /// The action for the changed file `path`.
    pub fn dispatch_for(&self, path: &str) -> (r: Dispatch)
        ensures
            match r {
                Dispatch::Callback(p) => self.spec_use_callback() && p@ == path@,
                Dispatch::Command(c) => !self.spec_use_callback() && self.spec_command() is Some
                    && c@ == replace_spec(self.spec_command()->Some_0, MONI_MARK@, path@),
                Dispatch::Nothing => !self.spec_use_callback() && self.spec_command() is None,
            },
    {
        if self.use_callback {
            Dispatch::Callback(String::from_str(path))
        } else {
            match &self.exe_command {
                Some(c) => Dispatch::Command(c.to_execute_command(path)),
                None => Dispatch::Nothing,
            }
        }
    }

    /// Seeds the store before the first cycle: each observed path is inserted
    /// where it is new, so that files already there do not count as changes.
    pub fn seed(&mut self, observed: &Vec<(String, FileSize)>)
        ensures
            final(self).store() == seed_spec(old(self).store(), obs_views(observed@)),
            final(self).spec_use_callback() == old(self).spec_use_callback(),
            final(self).spec_command() == old(self).spec_command(),
            final(self).spec_searcher() == old(self).spec_searcher(),
            final(self).interval() == old(self).interval(),
    {
        let mut i: usize = 0;
        while i < observed.len()
            invariant
                i <= observed@.len(),
                self.store() == seed_spec(
                    old(self).store(),
                    obs_views(observed@).subrange(0, i as int),
                ),
                self.spec_use_callback() == old(self).spec_use_callback(),
                self.spec_command() == old(self).spec_command(),
                self.spec_searcher() == old(self).spec_searcher(),
                self.interval() == old(self).interval(),
            decreases observed@.len() - i,
        {
            let ghost pre = obs_views(observed@).subrange(0, i + 1);
            assert(pre.drop_last() =~= obs_views(observed@).subrange(0, i as int));
            let path = observed[i].0.clone();
            let size = observed[i].1;
            self.filestore.insert(path, size);
            i = i + 1;
        }
        assert(obs_views(observed@).subrange(0, observed@.len() as int) =~= obs_views(observed@));
    }

    /// Handles one observation: where it is a change, records it and returns
    /// true (its action is due); else returns false and changes nothing.
    pub fn observe(&mut self, path: String, size: FileSize) -> (r: bool)
        ensures
            r == is_change(old(self).store(), path@, size),
            final(self).store() == if r {
                old(self).store().insert(path@, size)
            } else {
                old(self).store()
            },
            final(self).spec_use_callback() == old(self).spec_use_callback(),
            final(self).spec_command() == old(self).spec_command(),
            final(self).spec_searcher() == old(self).spec_searcher(),
            final(self).interval() == old(self).interval(),
    {
        if self.filestore.is_modify(path.as_str(), size) {
            self.filestore.update(path, size);
            return true;
        }
        if self.filestore.is_new(path.as_str()) {
            self.filestore.insert(path, size);
            return true;
        }
        false
    }

    /// One polling cycle over the observed files, in scan order: the paths
    /// whose action is due, in the order the actions are to run, one after
    /// the other.
    pub fn poll_cycle(&mut self, observed: &Vec<(String, FileSize)>) -> (r: Vec<String>)
        ensures
            (final(self).store(), views(r@)) == cycle_spec(old(self).store(), obs_views(observed@)),
            final(self).spec_use_callback() == old(self).spec_use_callback(),
            final(self).spec_command() == old(self).spec_command(),
            final(self).spec_searcher() == old(self).spec_searcher(),
            final(self).interval() == old(self).interval(),
    {
        let mut due: Vec<String> = Vec::new();
        let mut i: usize = 0;
        while i < observed.len()
            invariant
                i <= observed@.len(),
                (self.store(), views(due@)) == cycle_spec(
                    old(self).store(),
                    obs_views(observed@).subrange(0, i as int),
                ),
                self.spec_use_callback() == old(self).spec_use_callback(),
                self.spec_command() == old(self).spec_command(),
                self.spec_searcher() == old(self).spec_searcher(),
                self.interval() == old(self).interval(),
            decreases observed@.len() - i,
        {
            let ghost pre = obs_views(observed@).subrange(0, i + 1);
            assert(pre.drop_last() =~= obs_views(observed@).subrange(0, i as int));
            let ghost before = views(due@);
            let path = observed[i].0.clone();
            let size = observed[i].1;
            if self.observe(path.clone(), size) {
                due.push(path);
                assert(views(due@) =~= before.push(pre.last().0));
            }
            i = i + 1;
        }
        assert(obs_views(observed@).subrange(0, observed@.len() as int) =~= obs_views(observed@));
        due
    }
}

/// A notification for the reporting sink.
#[derive(Debug, PartialEq, Eq)]
pub enum Report {
    /// Watching starts.
    Start,
    /// This command is about to run.
    CommandAbout(String),
    /// An action succeeded with this output.
    Success(String),
    /// An action failed with this output.
    Error(String),
    /// The end of an action's output.
    Separator,
}

/// What a run of a command gave.
#[derive(Debug, PartialEq, Eq)]
pub enum CommandRun {
    /// The command ran to its end, with its exit status zero or not, and its
    /// captured standard output and standard error.
    Exited { success: bool, stdout: String, stderr: String },
    /// The command could not be started, for this reason.
    SpawnFailed(String),
}

/// The notifications for a callback's result: success with its message, or
/// failure with its message, then a separator.
pub fn callback_reports(result: Result<String, String>) -> (r: Vec<Report>)
    ensures
        r@.len() == 2,
        r@[1] == Report::Separator,
        match result {
            Ok(m) => r@[0] matches Report::Success(o) && o@ == m@,
            Err(e) => r@[0] matches Report::Error(o) && o@ == e@,
        },
{
    let first = match result {
        Ok(m) => Report::Success(m),
        Err(e) => Report::Error(e),
    };
    let mut r: Vec<Report> = Vec::new();
    r.push(first);
    r.push(Report::Separator);
    r
}

/// The notifications for a command's outcome, shown after the command has
/// been announced with `Report::CommandAbout` and run: its standard output
/// where it exited with status zero, its standard error where it exited
/// otherwise, each followed by a separator; where it could not be started,
/// the reason.
pub fn command_reports(run: CommandRun) -> (r: Vec<Report>)
    ensures
        match run {
            CommandRun::Exited { success, stdout, stderr } => r@.len() == 2 && r@[1]
                == Report::Separator && if success {
                (r@[0] matches Report::Success(o) && o@ == stdout@)
            } else {
                (r@[0] matches Report::Error(o) && o@ == stderr@)
            },
            CommandRun::SpawnFailed(e) => r@.len() == 1 && (r@[0] matches Report::Error(o) && o@
                == e@),
        },
{
    let mut r: Vec<Report> = Vec::new();
    match run {
        CommandRun::Exited { success, stdout, stderr } => {
            if success {
                r.push(Report::Success(stdout));
            } else {
                r.push(Report::Error(stderr));
            }
            r.push(Report::Separator);
        },
        CommandRun::SpawnFailed(e) => {
            r.push(Report::Error(e));
        },
    }
    r
}

} // verus!
