//! The state that every request handler reads.

use vstd::prelude::*;
use vstd::string::StringExecFns;

verus! {

/// Whether the list `allowed` holds the name `name`.
pub open spec fn allows(allowed: Seq<String>, name: Seq<char>) -> bool {
    exists|i: int| 0 <= i < allowed.len() && (#[trigger] allowed[i])@ == name
}

/// Whether no name stands twice in `names`.
pub open spec fn distinct_names(names: Seq<String>) -> bool {
    forall|i: int, j: int|
        0 <= i < j < names.len() ==> (#[trigger] names[i])@ != (#[trigger] names[j])@
}

/// The texts of the strings of `s`.
pub open spec fn texts(s: Seq<String>) -> Seq<Seq<char>> {
    s.map_values(|t: String| t@)
}

/// A list holds a name exactly where its texts contain it.
pub proof fn lemma_allows_is_contains(s: Seq<String>, name: Seq<char>)
    ensures
        allows(s, name) == texts(s).contains(name),
{
    if allows(s, name) {
        let i = choose|i: int| 0 <= i < s.len() && s[i]@ == name;
        assert(texts(s)[i] == name);
    }
    if texts(s).contains(name) {
        let i = choose|i: int| 0 <= i < texts(s).len() && texts(s)[i] == name;
        assert(s[i]@ == name);
    }
}

/// The names of `names`, each once, in the order in which they first
/// stand there.
pub open spec fn first_occurrences(names: Seq<Seq<char>>) -> Seq<Seq<char>>
    decreases names.len(),
{
    if names.len() == 0 {
        Seq::empty()
    } else {
        let rest = first_occurrences(names.drop_last());
        if rest.contains(names.last()) {
            rest
        } else {
            rest.push(names.last())
        }
    }
}

/// Whether `allowed` holds `name`.
pub fn holds_name(allowed: &Vec<String>, name: &str) -> (b: bool)
    ensures
        b == allows(allowed@, name@),
{
    let wanted = String::from_str(name);
    let mut i: usize = 0;
    while i < allowed.len()
        invariant
            i <= allowed.len(),
            wanted@ == name@,
            forall|j: int| 0 <= j < i ==> (#[trigger] allowed@[j])@ != name@,
        decreases allowed.len() - i,
    {
        if allowed[i] == wanted {
            return true;
        }
        i += 1;
    }
    false
}

/// The state shared by the request handlers: the buckets that may be used.
#[derive(Debug)]
pub struct AppState {
    pub buckets: Vec<String>,
}

impl AppState {
    /// Whether no bucket is listed twice.
    pub open spec fn well_formed(&self) -> bool {
        distinct_names(self.buckets@)
    }

    /// The state that allows the names in `buckets`, each once, in the
    /// order in which they first stand there.
    pub fn new(buckets: Vec<String>) -> (state: AppState)
        ensures
            state.well_formed(),
            texts(state.buckets@) == first_occurrences(texts(buckets@)),
            forall|name: Seq<char>| allows(state.buckets@, name) == allows(buckets@, name),
    {
        let mut kept: Vec<String> = Vec::new();
        let mut i: usize = 0;
        assert(texts(kept@) =~= first_occurrences(texts(buckets@).take(0)));
        while i < buckets.len()
            invariant
                i <= buckets.len(),
                distinct_names(kept@),
                texts(kept@) == first_occurrences(texts(buckets@).take(i as int)),
                forall|name: Seq<char>|
                    allows(kept@, name) == allows(buckets@.take(i as int), name),
            decreases buckets.len() - i,
        {
            let ghost before = kept@;
            let fresh = !holds_name(&kept, buckets[i].as_str());
            if fresh {
                kept.push(buckets[i].clone());
            }
            proof {
                let all = texts(buckets@);
                lemma_allows_is_contains(before, buckets@[i as int]@);
                assert(all.take(i + 1).drop_last() =~= all.take(i as int));
                assert(all.take(i + 1).last() == buckets@[i as int]@);
                if fresh {
                    assert(texts(kept@) =~= texts(before).push(buckets@[i as int]@));
                }
            }
            proof {
                let seen = buckets@.take(i as int);
                let next = buckets@.take(i + 1);
                let added = buckets@[i as int]@;
                assert forall|name: Seq<char>| allows(kept@, name) == allows(next, name) by {
                    if allows(next, name) {
                        let k = choose|k: int| 0 <= k < next.len() && next[k]@ == name;
                        if k < i {
                            assert(seen[k]@ == name);
                            assert(allows(before, name));
                        } else {
                            assert(name == added);
                        }
                        if allows(before, name) {
                            let m = choose|m: int| 0 <= m < before.len() && before[m]@ == name;
                            assert(kept@[m]@ == name);
                        } else {
                            assert(fresh);
                            assert(kept@[kept@.len() - 1]@ == name);
                        }
                    }
                    if allows(kept@, name) {
                        let m = choose|m: int| 0 <= m < kept@.len() && kept@[m]@ == name;
                        if m < before.len() {
                            assert(before[m]@ == name);
                            assert(allows(before, name));
                            assert(allows(seen, name));
                            let k = choose|k: int| 0 <= k < seen.len() && seen[k]@ == name;
                            assert(next[k]@ == name);
                        } else {
                            assert(next[i as int]@ == name);
                        }
                    }
                }
            }
            i += 1;
        }
        assert(buckets@.take(i as int) =~= buckets@);
        assert(texts(buckets@).take(i as int) =~= texts(buckets@));
        AppState { buckets: kept }
    }
}

} // verus!
