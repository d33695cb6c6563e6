use vstd::prelude::*;

use crate::store::SnapshotStore;

verus! {

/// What a change reported for `path` writes back: the path's baseline, if
/// one was captured, and nothing otherwise.
pub open spec fn restore_content(store: Map<Seq<char>, Seq<char>>, path: Seq<char>) -> Option<
    Seq<char>,
> {
    if store.contains_key(path) {
        Some(store[path])
    } else {
        None
    }
}

/// File contents by path after `write` (if any) replaced the whole file at
/// `path`. A path that is not a key holds no file.
pub open spec fn apply_write(
    files: Map<Seq<char>, Seq<char>>,
    path: Seq<char>,
    write: Option<Seq<char>>,
) -> Map<Seq<char>, Seq<char>> {
    match write {
        Some(c) => files.insert(path, c),
        None => files,
    }
}

/// Files and watched paths after a change reported for `path` was handled:
/// the baseline, if any, is written back, and `path` is watched again.
pub open spec fn handle_change(
    store: Map<Seq<char>, Seq<char>>,
    files: Map<Seq<char>, Seq<char>>,
    watched: Set<Seq<char>>,
    path: Seq<char>,
) -> (Map<Seq<char>, Seq<char>>, Set<Seq<char>>) {
    (apply_write(files, path, restore_content(store, path)), watched.insert(path))
}

/// Files and watched paths after the changes reported for `paths` were
/// handled one after another, in order.
pub open spec fn handle_changes(
    store: Map<Seq<char>, Seq<char>>,
    files: Map<Seq<char>, Seq<char>>,
    watched: Set<Seq<char>>,
    paths: Seq<Seq<char>>,
) -> (Map<Seq<char>, Seq<char>>, Set<Seq<char>>)
    decreases paths.len(),
{
    if paths.len() == 0 {
        (files, watched)
    } else {
        let prev = handle_changes(store, files, watched, paths.drop_last());
        handle_change(store, prev.0, prev.1, paths.last())
    }
}

/// What to do for one reported change: write `write_back` (when present) over
/// the whole file at `path`, then register a watch on `path` in every case.
#[derive(Debug)]
pub struct RestorePlan {
    pub path: String,
    pub write_back: Option<String>,
}

impl RestorePlan {
    pub open spec fn write_model(&self) -> Option<Seq<char>> {
        match self.write_back {
            Some(c) => Some(c@),
            None => None,
        }
    }

    /// The plan is the one owed to a change reported for `path`.
    pub open spec fn follows(&self, store: Map<Seq<char>, Seq<char>>, path: Seq<char>) -> bool {
        &&& self.path@ == path
        &&& self.write_model() == restore_content(store, path)
    }

    /// Files and watched paths once the plan was carried out.
    pub open spec fn apply(
        &self,
        files: Map<Seq<char>, Seq<char>>,
        watched: Set<Seq<char>>,
    ) -> (Map<Seq<char>, Seq<char>>, Set<Seq<char>>) {
        (apply_write(files, self.path@, self.write_model()), watched.insert(self.path@))
    }
}

/// Decides what to do with one reported change, given the path it names.
/// A change whose path could not be read as a string (`None`) is skipped.
pub fn plan_event(store: &SnapshotStore, event_path: Option<String>) -> (r: Option<RestorePlan>)
    requires
        store.well_formed(),
    ensures
        match event_path {
            None => r is None,
            Some(p) => r is Some && r->0.follows(store@, p@),
        },
{
    match event_path {
        None => None,
        Some(path) => {
            let write_back = match store.get(&path) {
                Some(c) => Some(c.clone()),
                None => None,
            };
            Some(RestorePlan { path, write_back })
        },
    }
}

/// Decides, in delivery order, what to do with each change of a batch.
pub fn plan_batch(store: &SnapshotStore, event_paths: &Vec<Option<String>>) -> (r: Vec<
    Option<RestorePlan>,
>)
    requires
        store.well_formed(),
    ensures
        r@.len() == event_paths@.len(),
        forall|i: int|
            0 <= i < r@.len() ==> match #[trigger] event_paths@[i] {
                None => r@[i] is None,
                Some(p) => r@[i] is Some && r@[i]->0.follows(store@, p@),
            },
{
    let mut plans: Vec<Option<RestorePlan>> = Vec::new();
    let n = event_paths.len();
    let mut i: usize = 0;
    while i < n
        invariant
            n == event_paths@.len(),
            i <= n,
            store.well_formed(),
            plans@.len() == i,
            forall|j: int|
                0 <= j < i ==> match #[trigger] event_paths@[j] {
                    None => plans@[j] is None,
                    Some(p) => plans@[j] is Some && plans@[j]->0.follows(store@, p@),
                },
        decreases n - i,
    {
        let path = match &event_paths[i] {
            Some(p) => Some(p.clone()),
            None => None,
        };
        let plan = plan_event(store, path);
        plans.push(plan);
        i = i + 1;
    }
    plans
}

/// Outcome of capturing one configured path at startup: the path to watch,
/// which is watched whether or not it could be read, and whether a baseline
/// was captured for it.
#[derive(Debug)]
pub struct CacheOutcome {
    pub watch_path: String,
    pub captured: bool,
}

/// Captures the baseline of a configured path from what reading it gave
/// (`None` when it could not be read). An unreadable path gets no baseline
/// but is still to be watched.
pub fn initialize_cache(store: &mut SnapshotStore, path: &String, content: Option<String>) -> (r:
    CacheOutcome)
    requires
        old(store).well_formed(),
    ensures
        final(store).well_formed(),
        r.watch_path@ == path@,
        r.captured == content is Some,
        match content {
            Some(c) => final(store)@ == old(store)@.insert(path@, c@),
            None => final(store)@ == old(store)@,
        },
{
    let captured = match content {
        Some(c) => {
            store.insert(path.clone(), c);
            true
        },
        None => false,
    };
    CacheOutcome { watch_path: path.clone(), captured }
}

} // verus!
