//! Persisted-state bookkeeping: which experiments are enabled and which
//! targets are managed. The transforms here are pure; reading and writing
//! the state file is the caller's job.

use vstd::prelude::*;

use crate::strutil::str_eq;

verus! {

/// The persisted state: enabled experiments and managed target paths, plus
/// the timestamp of the last save (set by the caller at save time).
pub struct State {
    pub enabled_experiments: Vec<String>,
    pub managed_targets: Vec<String>,
    pub timestamp: String,
}

impl State {
    pub open spec fn enabled_view(&self) -> Seq<Seq<char>> {
        self.enabled_experiments.deep_view()
    }

    pub open spec fn managed_view(&self) -> Seq<Seq<char>> {
        self.managed_targets.deep_view()
    }

    /// The empty state.
    pub fn new() -> (r: State)
        ensures
            r.enabled_view() == Seq::<Seq<char>>::empty(),
            r.managed_view() == Seq::<Seq<char>>::empty(),
            r.timestamp@ == Seq::<char>::empty(),
    {
        let r = State {
            enabled_experiments: Vec::new(),
            managed_targets: Vec::new(),
            timestamp: String::new(),
        };
        proof {
            assert(r.enabled_view() =~= Seq::<Seq<char>>::empty());
            assert(r.managed_view() =~= Seq::<Seq<char>>::empty());
        }
        r
    }
}

/// Append an element unless it is already present.
pub open spec fn spec_push_unique(s: Seq<Seq<char>>, x: Seq<char>) -> Seq<Seq<char>> {
    if s.contains(x) {
        s
    } else {
        s.push(x)
    }
}

/// Merge each element in turn, keeping first occurrences.
pub open spec fn spec_merge_unique(s: Seq<Seq<char>>, xs: Seq<Seq<char>>) -> Seq<Seq<char>>
    decreases xs.len(),
{
    if xs.len() == 0 {
        s
    } else {
        spec_push_unique(spec_merge_unique(s, xs.drop_last()), xs.last())
    }
}

/// Drop every occurrence of one element.
pub open spec fn spec_remove_all(s: Seq<Seq<char>>, x: Seq<char>) -> Seq<Seq<char>>
    decreases s.len(),
{
    if s.len() == 0 {
        s
    } else {
        let prefix = spec_remove_all(s.drop_last(), x);
        if s.last() == x {
            prefix
        } else {
            prefix.push(s.last())
        }
    }
}

/// Drop every occurrence of each element of `xs`.
pub open spec fn spec_remove_each(s: Seq<Seq<char>>, xs: Seq<Seq<char>>) -> Seq<Seq<char>>
    decreases xs.len(),
{
    if xs.len() == 0 {
        s
    } else {
        spec_remove_all(spec_remove_each(s, xs.drop_last()), xs.last())
    }
}

/// Whether a vector of strings holds one equal to `x`.
fn contains_str(v: &Vec<String>, x: &str) -> (r: bool)
    ensures
        r == v.deep_view().contains(x@),
{
    let mut i: usize = 0;
    while i < v.len()
        invariant
            i <= v.len(),
            forall|j: int| 0 <= j < i ==> v.deep_view()[j] != x@,
        decreases v.len() - i,
    {
        if str_eq(v[i].as_str(), x) {
            proof {
                assert(v.deep_view()[i as int] == x@);
            }
            return true;
        }
        i += 1;
    }
    proof {
        if v.deep_view().contains(x@) {
            let w = choose|j: int| 0 <= j < v.deep_view().len() && v.deep_view()[j] == x@;
            assert(v.deep_view()[w] != x@);
        }
    }
    false
}

/// Remove every string equal to `x` from a vector.
fn remove_all_str(v: &Vec<String>, x: &str) -> (r: Vec<String>)
    ensures
        r.deep_view() == spec_remove_all(v.deep_view(), x@),
{
    let ghost gv = v.deep_view();
    let mut out: Vec<String> = Vec::new();
    let mut i: usize = 0;
    proof {
        assert(gv.take(0) =~= Seq::<Seq<char>>::empty());
        assert(out.deep_view() =~= spec_remove_all(gv.take(0), x@));
    }
    while i < v.len()
        invariant
            i <= v.len(),
            gv == v.deep_view(),
            out.deep_view() == spec_remove_all(gv.take(i as int), x@),
        decreases v.len() - i,
    {
        proof {
            assert(gv.take(i + 1).drop_last() =~= gv.take(i as int));
            assert(gv.take(i + 1).last() == gv[i as int]);
        }
        if !str_eq(v[i].as_str(), x) {
            out.push(v[i].clone());
            proof {
                assert(out.deep_view() =~= spec_remove_all(gv.take(i as int), x@).push(
                    gv[i as int],
                ));
            }
        }
        i += 1;
    }
    proof {
        assert(gv.take(v@.len() as int) =~= gv);
    }
    out
}

/// Update the persisted state for one experiment. Enabling records the
/// experiment's name (once) and merges its managed targets without
/// duplicates; disabling removes the name and the given targets. The
/// timestamp is untouched: the caller stamps it at save time.
pub fn set_enabled(st: State, name: &str, enabled: bool, managed: &Vec<String>) -> (r: State)
    ensures
        enabled ==> r.enabled_view() == spec_push_unique(st.enabled_view(), name@),
        enabled ==> r.managed_view() == spec_merge_unique(st.managed_view(), managed.deep_view()),
        !enabled ==> r.enabled_view() == spec_remove_all(st.enabled_view(), name@),
        !enabled ==> r.managed_view() == spec_remove_each(st.managed_view(), managed.deep_view()),
        r.timestamp@ == st.timestamp@,
{
    let ghost gmanaged = managed.deep_view();
    let State { enabled_experiments, managed_targets, timestamp } = st;
    if enabled {
        let mut enabled_experiments = enabled_experiments;
        if !contains_str(&enabled_experiments, name) {
            enabled_experiments.push(name.to_owned());
            proof {
                assert(enabled_experiments.deep_view() =~= spec_push_unique(
                    st.enabled_view(),
                    name@,
                ));
            }
        }
        let mut managed_targets = managed_targets;
        let mut i: usize = 0;
        proof {
            assert(gmanaged.take(0) =~= Seq::<Seq<char>>::empty());
        }
        while i < managed.len()
            invariant
                i <= managed.len(),
                gmanaged == managed.deep_view(),
                managed_targets.deep_view() == spec_merge_unique(
                    st.managed_view(),
                    gmanaged.take(i as int),
                ),
            decreases managed.len() - i,
        {
            proof {
                assert(gmanaged.take(i + 1).drop_last() =~= gmanaged.take(i as int));
                assert(gmanaged.take(i + 1).last() == gmanaged[i as int]);
            }
            if !contains_str(&managed_targets, managed[i].as_str()) {
                managed_targets.push(managed[i].clone());
                proof {
                    assert(managed_targets.deep_view() =~= spec_merge_unique(
                        st.managed_view(),
                        gmanaged.take(i as int),
                    ).push(gmanaged[i as int]));
                }
            }
            i += 1;
        }
        proof {
            assert(gmanaged.take(managed@.len() as int) =~= gmanaged);
        }
        State { enabled_experiments, managed_targets, timestamp }
    } else {
        let enabled_experiments = remove_all_str(&enabled_experiments, name);
        let mut managed_targets = managed_targets;
        let mut i: usize = 0;
        proof {
            assert(gmanaged.take(0) =~= Seq::<Seq<char>>::empty());
        }
        while i < managed.len()
            invariant
                i <= managed.len(),
                gmanaged == managed.deep_view(),
                managed_targets.deep_view() == spec_remove_each(
                    st.managed_view(),
                    gmanaged.take(i as int),
                ),
            decreases managed.len() - i,
        {
            proof {
                assert(gmanaged.take(i + 1).drop_last() =~= gmanaged.take(i as int));
                assert(gmanaged.take(i + 1).last() == gmanaged[i as int]);
            }
            managed_targets = remove_all_str(&managed_targets, managed[i].as_str());
            i += 1;
        }
        proof {
            assert(gmanaged.take(managed@.len() as int) =~= gmanaged);
        }
        State { enabled_experiments, managed_targets, timestamp }
    }
}

/// The state directory: the override when given, the default otherwise.
pub fn state_dir_or(default_override: &Option<String>) -> (r: String)
    ensures
        match default_override {
            Some(p) => r@ == p@,
            None => r@ == "/var/lib/oxidizr-arch"@,
        },
{
    match default_override {
        Some(p) => p.clone(),
        None => "/var/lib/oxidizr-arch".to_owned(),
    }
}

} // verus!
