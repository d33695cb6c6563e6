use vstd::prelude::*;

use crate::engine::{handle_change, handle_changes, restore_content, RestorePlan};

verus! {

/// A file with a baseline that was changed to anything else holds its
/// baseline again once the change has been handled.
pub proof fn baseline_fidelity(
    store: Map<Seq<char>, Seq<char>>,
    files: Map<Seq<char>, Seq<char>>,
    watched: Set<Seq<char>>,
    path: Seq<char>,
    changed: Seq<char>,
)
    requires
        store.contains_key(path),
        changed != store[path],
    ensures
        handle_change(store, files.insert(path, changed), watched, path).0.contains_key(path),
        handle_change(store, files.insert(path, changed), watched, path).0[path] == store[path],
{
}

/// Restoring a file that already holds its baseline changes no file.
pub proof fn restore_idempotent(
    store: Map<Seq<char>, Seq<char>>,
    files: Map<Seq<char>, Seq<char>>,
    watched: Set<Seq<char>>,
    path: Seq<char>,
)
    requires
        store.contains_key(path),
        files.contains_key(path),
        files[path] == store[path],
    ensures
        handle_change(store, files, watched, path).0 == files,
{
    assert(files.insert(path, store[path]) =~= files);
}

/// Handling the same change a second time, as happens when the write-back
/// itself is reported, changes neither the files nor the watched paths.
pub proof fn repeated_change_is_noop(
    store: Map<Seq<char>, Seq<char>>,
    files: Map<Seq<char>, Seq<char>>,
    watched: Set<Seq<char>>,
    path: Seq<char>,
)
    ensures
        ({
            let once = handle_change(store, files, watched, path);
            handle_change(store, once.0, once.1, path) == once
        }),
{
    let once = handle_change(store, files, watched, path);
    if store.contains_key(path) {
        assert(once.0.insert(path, store[path]) =~= once.0);
    }
    assert(once.1.insert(path) =~= once.1);
}

/// A change reported for a path without a baseline writes to no file.
pub proof fn no_baseline_no_write_back(
    store: Map<Seq<char>, Seq<char>>,
    files: Map<Seq<char>, Seq<char>>,
    watched: Set<Seq<char>>,
    path: Seq<char>,
)
    requires
        !store.contains_key(path),
    ensures
        restore_content(store, path) is None,
        handle_change(store, files, watched, path).0 == files,
{
}

/// A path that is deleted and then created again with other content holds
/// its baseline once the changes reported for it were handled; it is still
/// watched, so a later modification is reported and restored as well.
pub proof fn recreate_then_modify_restored(
    store: Map<Seq<char>, Seq<char>>,
    files: Map<Seq<char>, Seq<char>>,
    watched: Set<Seq<char>>,
    path: Seq<char>,
    recreated: Seq<char>,
    reported: nat,
    modified: Seq<char>,
)
    requires
        store.contains_key(path),
        reported > 0,
    ensures
        ({
            let after = handle_changes(
                store,
                files.remove(path).insert(path, recreated),
                watched,
                Seq::new(reported, |i: int| path),
            );
            &&& after.0.contains_key(path)
            &&& after.0[path] == store[path]
            &&& after.1.contains(path)
            &&& handle_change(store, after.0.insert(path, modified), after.1, path).0[path]
                == store[path]
        }),
{
    let paths = Seq::new(reported, |i: int| path);
    assert(paths.last() == path);
}

/// Carrying out a plan made for a reported path changes the files and the
/// watched paths exactly as handling that change does.
pub proof fn plan_realizes_change(
    plan: RestorePlan,
    store: Map<Seq<char>, Seq<char>>,
    files: Map<Seq<char>, Seq<char>>,
    watched: Set<Seq<char>>,
    path: Seq<char>,
)
    requires
        plan.follows(store, path),
    ensures
        plan.apply(files, watched) == handle_change(store, files, watched, path),
{
}

} // verus!
