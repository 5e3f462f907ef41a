//! Link and restore requests, and the plan builder that deduplicates them.

use vstd::prelude::*;

use crate::paths::SafePath;
use crate::strutil::str_eq;

verus! {

/// "Target should become a symlink pointing at source."
pub struct LinkRequest {
    pub source: SafePath,
    pub target: SafePath,
}

/// The mathematical value of a [`LinkRequest`]: the two resolved paths.
#[verifier::ext_equal]
pub struct LinkV {
    pub source: Seq<char>,
    pub target: Seq<char>,
}

impl View for LinkRequest {
    type V = LinkV;

    open spec fn view(&self) -> LinkV {
        LinkV { source: self.source@, target: self.target@ }
    }
}

impl LinkRequest {
    pub open spec fn wf(&self) -> bool {
        self.source.wf() && self.target.wf()
    }

    /// An exact copy of the request.
    pub fn duplicate(&self) -> (r: LinkRequest)
        ensures
            r@ == self@,
            r.wf() == self.wf(),
    {
        LinkRequest { source: self.source.duplicate(), target: self.target.duplicate() }
    }
}

/// "Target should be restored from its backup."
pub struct RestoreRequest {
    pub target: SafePath,
}

/// The mathematical value of a [`RestoreRequest`].
#[verifier::ext_equal]
pub struct RestoreV {
    pub target: Seq<char>,
}

impl View for RestoreRequest {
    type V = RestoreV;

    open spec fn view(&self) -> RestoreV {
        RestoreV { target: self.target@ }
    }
}

impl RestoreRequest {
    pub open spec fn wf(&self) -> bool {
        self.target.wf()
    }

    /// An exact copy of the request.
    pub fn duplicate(&self) -> (r: RestoreRequest)
        ensures
            r@ == self@,
            r.wf() == self.wf(),
    {
        RestoreRequest { target: self.target.duplicate() }
    }
}

/// The raw requests handed to the plan builder.
pub struct PlanInput {
    pub link: Vec<LinkRequest>,
    pub restore: Vec<RestoreRequest>,
}

impl PlanInput {
    pub open spec fn links_view(&self) -> Seq<LinkV> {
        Seq::new(self.link@.len(), |i: int| self.link@[i]@)
    }

    pub open spec fn restores_view(&self) -> Seq<RestoreV> {
        Seq::new(self.restore@.len(), |i: int| self.restore@[i]@)
    }

    pub open spec fn wf(&self) -> bool {
        &&& forall|i: int| 0 <= i < self.link@.len() ==> (#[trigger] self.link@[i]).wf()
        &&& forall|i: int| 0 <= i < self.restore@.len() ==> (#[trigger] self.restore@[i]).wf()
    }

    /// An input with no requests.
    pub fn new() -> (r: PlanInput)
        ensures
            r.links_view() == Seq::<LinkV>::empty(),
            r.restores_view() == Seq::<RestoreV>::empty(),
            r.wf(),
    {
        let r = PlanInput { link: Vec::new(), restore: Vec::new() };
        proof {
            assert(r.links_view() =~= Seq::<LinkV>::empty());
            assert(r.restores_view() =~= Seq::<RestoreV>::empty());
        }
        r
    }
}

/// Some earlier request in `s` already names this target.
pub open spec fn link_target_seen(s: Seq<LinkV>, t: Seq<char>) -> bool {
    exists|i: int| 0 <= i < s.len() && (#[trigger] s[i]).target == t
}

/// Keep only the first request for each target, in order: first-write-wins.
pub open spec fn dedup_links(s: Seq<LinkV>) -> Seq<LinkV>
    decreases s.len(),
{
    if s.len() == 0 {
        s
    } else {
        let prefix = dedup_links(s.drop_last());
        if link_target_seen(s.drop_last(), s.last().target) {
            prefix
        } else {
            prefix.push(s.last())
        }
    }
}

/// Some earlier restore in `s` already names this target.
pub open spec fn restore_target_seen(s: Seq<RestoreV>, t: Seq<char>) -> bool {
    exists|i: int| 0 <= i < s.len() && (#[trigger] s[i]).target == t
}

/// Keep only the first restore for each target, in order.
pub open spec fn dedup_restores(s: Seq<RestoreV>) -> Seq<RestoreV>
    decreases s.len(),
{
    if s.len() == 0 {
        s
    } else {
        let prefix = dedup_restores(s.drop_last());
        if restore_target_seen(s.drop_last(), s.last().target) {
            prefix
        } else {
            prefix.push(s.last())
        }
    }
}

/// An immutable, deduplicated batch of link and restore intents. Order within
/// each list is preserved and defines application order.
pub struct Plan {
    links: Vec<LinkRequest>,
    restores: Vec<RestoreRequest>,
}

impl Plan {
    pub closed spec fn links_view(&self) -> Seq<LinkV> {
        Seq::new(self.links@.len(), |i: int| self.links@[i]@)
    }

    pub closed spec fn restores_view(&self) -> Seq<RestoreV> {
        Seq::new(self.restores@.len(), |i: int| self.restores@[i]@)
    }

    pub closed spec fn wf(&self) -> bool {
        &&& forall|i: int| 0 <= i < self.links@.len() ==> (#[trigger] self.links@[i]).wf()
        &&& forall|i: int|
            0 <= i < self.restores@.len() ==> (#[trigger] self.restores@[i]).wf()
    }

    /// The link requests, in application order.
    pub fn link_at(&self, i: usize) -> (r: &LinkRequest)
        requires
            i < self.links_view().len(),
        ensures
            r@ == self.links_view()[i as int],
            self.wf() ==> r.wf(),
    {
        &self.links[i]
    }

    /// The restore requests, in application order.
    pub fn restore_at(&self, i: usize) -> (r: &RestoreRequest)
        requires
            i < self.restores_view().len(),
        ensures
            r@ == self.restores_view()[i as int],
            self.wf() ==> r.wf(),
    {
        &self.restores[i]
    }

    /// How many link requests the plan holds.
    pub fn link_count(&self) -> (r: usize)
        ensures
            r == self.links_view().len(),
    {
        self.links.len()
    }

    /// How many restore requests the plan holds.
    pub fn restore_count(&self) -> (r: usize)
        ensures
            r == self.restores_view().len(),
    {
        self.restores.len()
    }
}

/// Build a validated, deduplicated plan from raw requests. Pure data
/// assembly: a target appearing twice keeps only its first request
/// (first-write-wins), order is otherwise preserved, and the filesystem is
/// never consulted.
pub fn plan(input: &PlanInput) -> (r: Plan)
    requires
        input.wf(),
    ensures
        r.links_view() == dedup_links(input.links_view()),
        r.restores_view() == dedup_restores(input.restores_view()),
        r.wf(),
{
    let ghost glinks = input.links_view();
    let ghost grestores = input.restores_view();
    let mut links: Vec<LinkRequest> = Vec::new();
    let mut i: usize = 0;
    proof {
        assert(glinks.take(0) =~= Seq::<LinkV>::empty());
        assert(links.len() == 0);
        assert(Seq::new(links@.len(), |x: int| links@[x]@) =~= dedup_links(glinks.take(0)));
    }
    while i < input.link.len()
        invariant
            i <= input.link.len(),
            glinks == input.links_view(),
            input.wf(),
            Seq::new(links@.len(), |x: int| links@[x]@) == dedup_links(glinks.take(i as int)),
            forall|x: int| 0 <= x < links@.len() ==> (#[trigger] links@[x]).wf(),
        decreases input.link.len() - i,
    {
        proof {
            assert(glinks.take(i + 1).drop_last() =~= glinks.take(i as int));
            assert(glinks.take(i + 1).last() == glinks[i as int]);
        }
        let mut seen = false;
        let mut j: usize = 0;
        while j < i
            invariant
                j <= i,
                i < input.link.len(),
                glinks == input.links_view(),
                seen ==> link_target_seen(glinks.take(i as int), glinks[i as int].target),
                !seen ==> forall|y: int|
                    0 <= y < j ==> (#[trigger] glinks.take(i as int)[y]).target != glinks[
                        i as int
                    ].target,
            decreases i - j,
        {
            if str_eq(input.link[j].target.as_str(), input.link[i].target.as_str()) {
                proof {
                    assert(glinks.take(i as int)[j as int].target == glinks[i as int].target);
                }
                seen = true;
            }
            j += 1;
        }
        proof {
            if !seen && link_target_seen(glinks.take(i as int), glinks[i as int].target) {
                let w = choose|y: int|
                    0 <= y < glinks.take(i as int).len() && (#[trigger] glinks.take(i as int)[
                        y
                    ]).target == glinks[i as int].target;
                assert((glinks.take(i as int)[w]).target != glinks[i as int].target);
            }
        }
        if !seen {
            let req = input.link[i].duplicate();
            links.push(req);
            proof {
                assert(Seq::new(links@.len(), |x: int| links@[x]@) =~= dedup_links(
                    glinks.take(i + 1),
                ));
            }
        } else {
            proof {
                assert(Seq::new(links@.len(), |x: int| links@[x]@) =~= dedup_links(
                    glinks.take(i + 1),
                ));
            }
        }
        i += 1;
    }
    proof {
        assert(glinks.take(input.link@.len() as int) =~= glinks);
    }
    let mut restores: Vec<RestoreRequest> = Vec::new();
    let mut k: usize = 0;
    proof {
        assert(grestores.take(0) =~= Seq::<RestoreV>::empty());
        assert(Seq::new(restores@.len(), |x: int| restores@[x]@) =~= dedup_restores(
            grestores.take(0),
        ));
    }
    while k < input.restore.len()
        invariant
            k <= input.restore.len(),
            grestores == input.restores_view(),
            input.wf(),
            Seq::new(restores@.len(), |x: int| restores@[x]@) == dedup_restores(
                grestores.take(k as int),
            ),
            forall|x: int| 0 <= x < restores@.len() ==> (#[trigger] restores@[x]).wf(),
        decreases input.restore.len() - k,
    {
        proof {
            assert(grestores.take(k + 1).drop_last() =~= grestores.take(k as int));
            assert(grestores.take(k + 1).last() == grestores[k as int]);
        }
        let mut seen = false;
        let mut j: usize = 0;
        while j < k
            invariant
                j <= k,
                k < input.restore.len(),
                grestores == input.restores_view(),
                seen ==> restore_target_seen(grestores.take(k as int), grestores[k as int].target),
                !seen ==> forall|y: int|
                    0 <= y < j ==> (#[trigger] grestores.take(k as int)[y]).target != grestores[
                        k as int
                    ].target,
            decreases k - j,
        {
            if str_eq(input.restore[j].target.as_str(), input.restore[k].target.as_str()) {
                proof {
                    assert(grestores.take(k as int)[j as int].target == grestores[
                        k as int
                    ].target);
                }
                seen = true;
            }
            j += 1;
        }
        proof {
            if !seen && restore_target_seen(grestores.take(k as int), grestores[k as int].target) {
                let w = choose|y: int|
                    0 <= y < grestores.take(k as int).len() && (#[trigger] grestores.take(
                        k as int,
                    )[y]).target == grestores[k as int].target;
                assert((grestores.take(k as int)[w]).target != grestores[k as int].target);
            }
        }
        if !seen {
            let req = input.restore[k].duplicate();
            restores.push(req);
            proof {
                assert(Seq::new(restores@.len(), |x: int| restores@[x]@) =~= dedup_restores(
                    grestores.take(k + 1),
                ));
            }
        } else {
            proof {
                assert(Seq::new(restores@.len(), |x: int| restores@[x]@) =~= dedup_restores(
                    grestores.take(k + 1),
                ));
            }
        }
        k += 1;
    }
    proof {
        assert(grestores.take(input.restore@.len() as int) =~= grestores);
    }
    let r = Plan { links, restores };
    r
}

} // verus!
