use vstd::prelude::*;

verus! {

/// One captured baseline: a watched path and the content it must keep.
#[derive(Debug)]
pub struct Baseline {
    pub path: String,
    pub content: String,
}

/// Baseline content of each watched path, captured once at startup.
///
/// Its model is a map from path to content. Capturing a path a second time
/// replaces its content, as a map insertion does; nothing is ever removed.
pub struct SnapshotStore {
    entries: Vec<Baseline>,
    model: Ghost<Map<Seq<char>, Seq<char>>>,
}

impl View for SnapshotStore {
    type V = Map<Seq<char>, Seq<char>>;

    closed spec fn view(&self) -> Map<Seq<char>, Seq<char>> {
        self.model@
    }
}

impl SnapshotStore {
    /// Each path occurs in one entry at most, and the entries are exactly the
    /// pairs of the model.
    pub closed spec fn well_formed(&self) -> bool {
        &&& forall|i: int, j: int|
            0 <= i < j < self.entries@.len() ==> self.entries@[i].path@
                != self.entries@[j].path@
        &&& forall|i: int|
            0 <= i < self.entries@.len() ==> #[trigger] self.model@.contains_key(
                self.entries@[i].path@,
            ) && self.model@[self.entries@[i].path@] == self.entries@[i].content@
        &&& forall|k: Seq<char>|
            #[trigger] self.model@.contains_key(k) ==> exists|i: int|
                0 <= i < self.entries@.len() && self.entries@[i].path@ == k
    }

    /// An empty store.
    pub fn new() -> (r: SnapshotStore)
        ensures
            r.well_formed(),
            r@ == Map::<Seq<char>, Seq<char>>::empty(),
    {
        SnapshotStore { entries: Vec::new(), model: Ghost(Map::empty()) }
    }

    /// Index of the entry for `path`, if there is one.
    fn position(&self, path: &String) -> (r: Option<usize>)
        requires
            self.well_formed(),
        ensures
            match r {
                Some(i) => i < self.entries@.len() && self.entries@[i as int].path@ == path@,
                None => !self@.contains_key(path@),
            },
    {
        let n = self.entries.len();
        let mut i: usize = 0;
        while i < n
            invariant
                n == self.entries@.len(),
                i <= n,
                forall|j: int| 0 <= j < i ==> self.entries@[j].path@ != path@,
            decreases n - i,
        {
            if self.entries[i].path == *path {
                return Some(i);
            }
            i = i + 1;
        }
        None
    }

    /// Whether a baseline was captured for `path`.
    pub fn contains(&self, path: &String) -> (r: bool)
        requires
            self.well_formed(),
        ensures
            r == self@.contains_key(path@),
    {
        match self.position(path) {
            Some(_) => true,
            None => false,
        }
    }

    /// The baseline captured for `path`, if any.
    pub fn get(&self, path: &String) -> (r: Option<&String>)
        requires
            self.well_formed(),
        ensures
            match r {
                Some(c) => self@.contains_key(path@) && c@ == self@[path@],
                None => !self@.contains_key(path@),
            },
    {
        match self.position(path) {
            Some(i) => {
                proof {
                    assert(self.model@.contains_key(self.entries@[i as int].path@));
                }
                Some(&self.entries[i].content)
            },
            None => None,
        }
    }

    /// Number of paths with a baseline.
    pub fn len(&self) -> (r: usize)
        requires
            self.well_formed(),
        ensures
            r == self@.len(),
    {
        proof {
            lemma_model_len(self);
        }
        self.entries.len()
    }

    /// Records `content` as the baseline of `path`, replacing an earlier one.
    pub fn insert(&mut self, path: String, content: String)
        requires
            old(self).well_formed(),
        ensures
            final(self).well_formed(),
            final(self)@ == old(self)@.insert(path@, content@),
    {
        match self.position(&path) {
            Some(i) => {
                let ghost m = self.model@.insert(path@, content@);
                let ghost old_entries = self.entries@;
                self.entries.set(i, Baseline { path, content });
                self.model = Ghost(m);
                assert forall|a: int, b: int|
                    0 <= a < b < self.entries@.len() implies self.entries@[a].path@
                    != self.entries@[b].path@ by {
                    assert(old_entries[a].path@ != old_entries[b].path@);
                }
                assert forall|a: int| 0 <= a < self.entries@.len() implies #[trigger] m.contains_key(
                    self.entries@[a].path@,
                ) && m[self.entries@[a].path@] == self.entries@[a].content@ by {
                    if a != i {
                        assert(old_entries[a].path@ != old_entries[i as int].path@);
                        assert(old(self).model@.contains_key(old_entries[a].path@));
                    }
                }
                assert forall|k: Seq<char>| #[trigger] m.contains_key(k) implies exists|j: int|
                    0 <= j < self.entries@.len() && self.entries@[j].path@ == k by {
                    if k != self.entries@[i as int].path@ {
                        let j = choose|j: int|
                            0 <= j < old_entries.len() && old_entries[j].path@ == k;
                        assert(self.entries@[j] == old_entries[j]);
                    }
                }
            },
            None => {
                let ghost m = self.model@.insert(path@, content@);
                let ghost old_entries = self.entries@;
                self.entries.push(Baseline { path, content });
                self.model = Ghost(m);
                assert forall|a: int, b: int|
                    0 <= a < b < self.entries@.len() implies self.entries@[a].path@
                    != self.entries@[b].path@ by {
                    if b < old_entries.len() {
                        assert(old_entries[a].path@ != old_entries[b].path@);
                    } else {
                        assert(old(self).model@.contains_key(old_entries[a].path@));
                    }
                }
                assert forall|a: int| 0 <= a < self.entries@.len() implies #[trigger] m.contains_key(
                    self.entries@[a].path@,
                ) && m[self.entries@[a].path@] == self.entries@[a].content@ by {
                    if a < old_entries.len() {
                        assert(old(self).model@.contains_key(old_entries[a].path@));
                    }
                }
                assert forall|k: Seq<char>| #[trigger] m.contains_key(k) implies exists|j: int|
                    0 <= j < self.entries@.len() && self.entries@[j].path@ == k by {
                    if k != self.entries@.last().path@ {
                        let j = choose|j: int|
                            0 <= j < old_entries.len() && old_entries[j].path@ == k;
                        assert(self.entries@[j] == old_entries[j]);
                    }
                }
            },
        }
    }
}

/// The model holds one key for each entry.
proof fn lemma_model_len(s: &SnapshotStore)
    requires
        s.well_formed(),
    ensures
        s.model@.len() == s.entries@.len(),
{
    let keys = s.entries@.map_values(|b: Baseline| b.path@);
    assert(keys.no_duplicates()) by {
        assert forall|i: int, j: int|
            0 <= i < keys.len() && 0 <= j < keys.len() && i != j implies keys[i] != keys[j] by {
            if i < j {
                assert(s.entries@[i].path@ != s.entries@[j].path@);
            } else {
                assert(s.entries@[j].path@ != s.entries@[i].path@);
            }
        }
    }
    keys.unique_seq_to_set();
    assert(s.model@.dom() =~= keys.to_set()) by {
        assert forall|k: Seq<char>| s.model@.dom().contains(k) implies keys.to_set().contains(k) by {
            assert(s.model@.contains_key(k));
            let i = choose|i: int| 0 <= i < s.entries@.len() && s.entries@[i].path@ == k;
            assert(keys[i] == k);
        }
        assert forall|k: Seq<char>| keys.to_set().contains(k) implies s.model@.dom().contains(k) by {
            let i = choose|i: int| 0 <= i < keys.len() && keys[i] == k;
            assert(s.model@.contains_key(s.entries@[i].path@));
        }
    }
}

} // verus!
