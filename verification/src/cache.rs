//! The engines built from templates, one for each template identity.
//!
//! An engine is built when the first job asks for its template and is kept
//! from then on: nothing is ever taken out or replaced.

use std::collections::HashMap;
use vstd::prelude::*;

verus! {

broadcast use vstd::std_specs::hash::group_hash_axioms;

/// The engines that have been built, by template identity.
#[derive(Debug)]
pub struct TemplateCache<E> {
    engines: HashMap<u64, E>,
}

impl<E> View for TemplateCache<E> {
    type V = Map<u64, E>;

    closed spec fn view(&self) -> Map<u64, E> {
        self.engines@
    }
}

/// What asking for the engine of `id` does to the identities that have one:
/// the identities afterwards, and whether an engine had to be built.
pub open spec fn resolution(cached: Set<u64>, id: u64) -> (Set<u64>, bool) {
    (cached.insert(id), !cached.contains(id))
}

/// What asking for the engines of `ids`, one after the other, does: the
/// identities that have an engine afterwards, and how many engines were built.
pub open spec fn resolutions(cached: Set<u64>, ids: Seq<u64>) -> (Set<u64>, nat)
    decreases ids.len(),
{
    if ids.len() == 0 {
        (cached, 0)
    } else {
        let before = resolutions(cached, ids.drop_last());
        let step = resolution(before.0, ids.last());
        (
            step.0,
            if step.1 {
                before.1 + 1
            } else {
                before.1
            },
        )
    }
}

impl<E> TemplateCache<E> {
    /// A cache without engines.
    pub fn new() -> (cache: Self)
        ensures
            cache@ == Map::<u64, E>::empty(),
    {
        TemplateCache { engines: HashMap::new() }
    }

    /// The number of engines.
    pub fn len(&self) -> (n: usize)
        ensures
            n == self@.len(),
    {
        self.engines.len()
    }

    /// Whether the template `id` has an engine.
    pub fn contains(&self, id: u64) -> (found: bool)
        ensures
            found == self@.contains_key(id),
    {
        self.engines.contains_key(&id)
    }

    /// The engine of the template `id`.
    pub fn get(&self, id: u64) -> (engine: Option<&E>)
        ensures
            match engine {
                Some(e) => self@.contains_key(id) && *e == self@[id],
                None => !self@.contains_key(id),
            },
    {
        self.engines.get(&id)
    }

    /// Keeps `engine` for the template `id`, unless the template has an
    /// engine already: that one stays. Tells whether the engine was kept.
    pub fn insert(&mut self, id: u64, engine: E) -> (kept: bool)
        ensures
            kept == !old(self)@.contains_key(id),
            final(self)@ == if kept {
                old(self)@.insert(id, engine)
            } else {
                old(self)@
            },
    {
        if self.engines.contains_key(&id) {
            false
        } else {
            self.engines.insert(id, engine);
            true
        }
    }

    /// Makes sure that the template `id` has an engine: `build` is called
    /// where it has none yet, and not otherwise. Tells whether it was called.
    pub fn resolve<F: FnOnce() -> E>(&mut self, id: u64, build: F) -> (built: bool)
        requires
            call_requires(build, ()),
        ensures
            (final(self)@.dom(), built) == resolution(old(self)@.dom(), id),
            built ==> call_ensures(build, (), final(self)@[id]),
            final(self)@ == if built {
                old(self)@.insert(id, final(self)@[id])
            } else {
                old(self)@
            },
    {
        if self.engines.contains_key(&id) {
            assert(old(self)@.dom().insert(id) =~= old(self)@.dom());
            false
        } else {
            let engine = build();
            self.engines.insert(id, engine);
            true
        }
    }
}

/// Asking for engines only ever adds identities, and exactly the ones asked
/// for.
pub proof fn lemma_resolutions_cover(cached: Set<u64>, ids: Seq<u64>)
    ensures
        resolutions(cached, ids).0 == cached.union(ids.to_set()),
    decreases ids.len(),
{
    if ids.len() == 0 {
        assert(ids.to_set() =~= Set::<u64>::empty());
        assert(cached.union(ids.to_set()) =~= cached);
    } else {
        let init = ids.drop_last();
        lemma_resolutions_cover(cached, init);
        assert forall|x: u64| ids.to_set().contains(x) <==> (init.to_set().contains(x) || x
            == ids.last()) by {
            if ids.contains(x) {
                let i = choose|i: int| 0 <= i < ids.len() && ids[i] == x;
                if i < init.len() {
                    assert(init[i] == x);
                }
            }
            if init.contains(x) {
                let i = choose|i: int| 0 <= i < init.len() && init[i] == x;
                assert(ids[i] == x);
            }
            assert(ids[ids.len() - 1] == ids.last());
        }
        assert(resolutions(cached, ids).0 =~= cached.union(ids.to_set()));
    }
}

/// No engine is built twice: the number of engines built is the number of
/// identities that have one afterwards and had none before.
pub proof fn lemma_one_build_per_identity(cached: Set<u64>, ids: Seq<u64>)
    requires
        cached.finite(),
    ensures
        resolutions(cached, ids).0.finite(),
        resolutions(cached, ids).0.len() == cached.len() + resolutions(cached, ids).1,
    decreases ids.len(),
{
    if ids.len() > 0 {
        lemma_one_build_per_identity(cached, ids.drop_last());
    }
}

/// However many jobs ask for one and the same template, its engine is built
/// once where it had none, and not at all where it had one.
pub proof fn lemma_single_identity_builds_once(cached: Set<u64>, ids: Seq<u64>, id: u64)
    requires
        ids.len() > 0,
        forall|i: int| 0 <= i < ids.len() ==> ids[i] == id,
    ensures
        resolutions(cached, ids).0 == cached.insert(id),
        resolutions(cached, ids).1 == if cached.contains(id) {
            0nat
        } else {
            1nat
        },
    decreases ids.len(),
{
    let init = ids.drop_last();
    if init.len() > 0 {
        assert forall|i: int| 0 <= i < init.len() implies init[i] == id by {
            assert(init[i] == ids[i]);
        }
        lemma_single_identity_builds_once(cached, init, id);
        assert(cached.insert(id).insert(id) =~= cached.insert(id));
    } else {
        assert(resolutions(cached, init) == (cached, 0nat));
    }
}

} // verus!
