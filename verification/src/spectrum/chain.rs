//! The ordered chain of transforms a spectrum passes through.
//!
//! Position in the chain is the order of application. The [`TransformId`]
//! rides along so an entry can be matched with the config that describes it
//! and the control that edits it; it has no bearing on order.
//!
//! The chain holds the frequency grid it was last given, so a transform added
//! to an established chain is handed the grid on arrival, and a bypassed
//! stage is skipped without being touched.

use std::sync::Arc;
use vstd::prelude::*;

use crate::config::TransformEntry;

verus! {

/// Identifies a transform across the config that describes it, the chain
/// that runs it, and the control that edits it.
#[derive(Debug, Clone, Copy, PartialEq, Eq, Hash, PartialOrd, Ord, Structural)]
pub struct TransformId(pub u64);

impl From<u64> for TransformId {
    fn from(id: u64) -> (transform_id: TransformId) {
        TransformId(id)
    }
}

impl vstd::std_specs::convert::FromSpecImpl<u64> for TransformId {
    open spec fn obeys_from_spec() -> bool {
        true
    }

    open spec fn from_spec(id: u64) -> TransformId {
        TransformId(id)
    }
}

/// One stage of the chain: the id it is addressed by, whether it runs, and
/// the transform itself.
#[derive(Debug)]
pub struct Stage<T> {
    pub id: TransformId,
    pub enabled: bool,
    pub transform: T,
}

/// A step a spectrum passes through.
///
/// `P` is the frequency grid the spectra are sampled on. A transform whose
/// output depends only on the values it is handed keeps the default
/// [`set_params`](Self::set_params), which does nothing.
pub trait SpectrumTransform<P> {
    type Spectrum;

    /// Applies the transform to `spectrum`.
    fn transform(&mut self, spectrum: Self::Spectrum) -> Self::Spectrum;

    /// Rebuilds whatever the transform derives from the frequency grid.
    ///
    /// Called when the grid changes, and once when the transform joins a
    /// chain that has one.
    fn set_params(&mut self, _params: &Arc<P>) {
    }
}

/// Whether `index` is where `id` first occurs in `stages`.
pub open spec fn is_first_with<T>(stages: Seq<Stage<T>>, id: TransformId, index: int) -> bool {
    &&& 0 <= index < stages.len()
    &&& stages[index].id == id
    &&& forall|j: int| 0 <= j < index ==> stages[j].id != id
}

/// Whether `stages` holds `id` at all.
pub open spec fn holds_id<T>(stages: Seq<Stage<T>>, id: TransformId) -> bool {
    exists|index: int| 0 <= index < stages.len() && stages[index].id == id
}

/// The first position of `id` in `stages`, when it holds it.
pub open spec fn first_index<T>(stages: Seq<Stage<T>>, id: TransformId) -> int {
    choose|index: int| is_first_with(stages, id, index)
}

/// Whether `after` has the stages of `before`, with the same ids in the same
/// order and the same bypass switches, whatever became of the transforms.
pub open spec fn same_layout<T>(after: Seq<Stage<T>>, before: Seq<Stage<T>>) -> bool {
    &&& after.len() == before.len()
    &&& forall|i: int|
        0 <= i < before.len() ==> #[trigger] after[i].id == before[i].id && after[i].enabled
            == before[i].enabled
}

/// Whether a call of `transform` on a transform in the state `before`,
/// handed `input`, may give `output`: all that a transform's own contract
/// says of it.
pub open spec fn transformed<P, T: SpectrumTransform<P>>(
    before: T,
    input: T::Spectrum,
    output: T::Spectrum,
) -> bool {
    exists|call: &mut T| *call == before && #[trigger] call_ensures(T::transform, (call, input), output)
}

/// One stage's part in a pass: a running stage, in the state it was in
/// before the pass, transforms `input` into `output`; a bypassed one passes
/// `input` on and is left as it was.
pub open spec fn stage_step<P, T: SpectrumTransform<P>>(
    before: Stage<T>,
    after: Stage<T>,
    input: T::Spectrum,
    output: T::Spectrum,
) -> bool {
    if before.enabled {
        transformed(before.transform, input, output)
    } else {
        after == before && output == input
    }
}

/// Whether `trace` records a spectrum's pass through the stages `before`,
/// which the pass left as `after`: `trace[i]` is what stage `i` was handed,
/// and its last entry what came out of the last stage.
pub open spec fn passes_through<P, T: SpectrumTransform<P>>(
    before: Seq<Stage<T>>,
    after: Seq<Stage<T>>,
    trace: Seq<T::Spectrum>,
) -> bool {
    &&& trace.len() == before.len() + 1
    &&& same_layout(after, before)
    &&& forall|i: int|
        #![trigger before[i]]
        0 <= i < before.len() ==> stage_step(before[i], after[i], trace[i], trace[i + 1])
}

/// Runs one transform on `spectrum`, through its `transform`.
fn run_stage<P, T: SpectrumTransform<P>>(transform: &mut T, spectrum: T::Spectrum) -> (output:
    T::Spectrum)
    ensures
        transformed(*old(transform), spectrum, output),
        exists|call: &mut T|
            *call == *old(transform) && *final(call) == *final(transform) && #[trigger] call_ensures(
                T::transform,
                (call, spectrum),
                output,
            ),
{
    let run = T::transform;
    run(transform, spectrum)
}

/// Hands `params` to one transform, through its `set_params`.
fn hand_grid<P, T: SpectrumTransform<P>>(transform: &mut T, params: &Arc<P>)
    ensures
        exists|call: &mut T|
            *call == *old(transform) && *final(call) == *final(transform) && #[trigger] call_ensures(
                T::set_params,
                (call, params),
                (),
            ),
{
    let hand = T::set_params;
    hand(transform, params)
}

/// An id that occurs has exactly one first position.
pub proof fn lemma_first_index<T>(stages: Seq<Stage<T>>, id: TransformId)
    requires
        holds_id(stages, id),
    ensures
        is_first_with(stages, id, first_index(stages, id)),
        forall|i: int| is_first_with(stages, id, i) ==> i == first_index(stages, id),
    decreases stages.len(),
{
    assert(stages.len() > 0);
    if stages[0].id == id {
        assert(is_first_with(stages, id, 0));
    } else {
        let rest = stages.drop_first();
        let k = choose|index: int| 0 <= index < stages.len() && stages[index].id == id;
        assert(rest[k - 1].id == id);
        lemma_first_index(rest, id);
        let i = first_index(rest, id);
        assert forall|j: int| 0 <= j < i + 1 implies stages[j].id != id by {
            if j > 0 {
                assert(stages[j] == rest[j - 1]);
            }
        }
        assert(stages[i + 1] == rest[i]);
        assert(is_first_with(stages, id, i + 1));
    }
    let f = first_index(stages, id);
    assert forall|i: int| is_first_with(stages, id, i) implies i == f by {
        if i < f {
            assert(stages[i].id != id);
        } else if f < i {
            assert(stages[f].id != id);
        }
    }
}

/// Whether `a` and `b` are one allocation, by `Arc::ptr_eq`.
///
/// Claims only that one allocation holds one grid; two allocations may hold
/// equal grids, and then the answer is `false`.
#[verifier::external_body]
fn same_allocation<P>(a: &Arc<P>, b: &Arc<P>) -> (same: bool)
    ensures
        same ==> a == b,
{
    Arc::ptr_eq(a, b)
}

/// Another handle on the grid `params` points to, by `Arc::clone`, which
/// shares the allocation rather than copying it.
#[verifier::external_body]
fn share<P>(params: &Arc<P>) -> (shared: Arc<P>)
    ensures
        shared == *params,
{
    Arc::clone(params)
}

/// The chain of transforms, each with its id and bypass switch, in the order
/// they run, and the frequency grid they were last handed.
#[derive(Debug)]
pub struct TransformChain<T, P> {
    stages: Vec<Stage<T>>,
    params: Option<Arc<P>>,
}

impl<T, P> View for TransformChain<T, P> {
    type V = Seq<Stage<T>>;

    closed spec fn view(&self) -> Seq<Stage<T>> {
        self.stages@
    }
}

impl<T, P> TransformChain<T, P> {
    /// The frequency grid the chain was last handed, if any.
    pub closed spec fn grid(&self) -> Option<Arc<P>> {
        self.params
    }

    /// A chain with no transforms and no grid.
    pub fn new() -> (chain: Self)
        ensures
            chain@ == Seq::<Stage<T>>::empty(),
            chain.grid() is None,
    {
        TransformChain { stages: Vec::new(), params: None }
    }

    /// A chain of `entries`, in the order they are given, every one of them
    /// running.
    pub fn from_entries(entries: Vec<(TransformId, T)>) -> (chain: Self)
        ensures
            chain@.len() == entries@.len(),
            forall|i: int|
                0 <= i < entries@.len() ==> #[trigger] chain@[i] == (Stage {
                    id: entries@[i].0,
                    enabled: true,
                    transform: entries@[i].1,
                }),
            chain.grid() is None,
    {
        let mut entries = entries;
        let ghost given = entries@;
        let mut stages: Vec<Stage<T>> = Vec::new();
        while entries.len() > 0
            invariant
                stages@.len() + entries@.len() == given.len(),
                entries@ == given.skip(stages@.len() as int),
                forall|i: int|
                    0 <= i < stages@.len() ==> #[trigger] stages@[i] == (Stage {
                        id: given[i].0,
                        enabled: true,
                        transform: given[i].1,
                    }),
            decreases entries@.len(),
        {
            let (id, transform) = entries.remove(0);
            proof {
                assert(given.skip(stages@.len() as int + 1) =~= given.skip(stages@.len() as int).drop_first());
            }
            stages.push(Stage { id, enabled: true, transform });
        }
        TransformChain { stages, params: None }
    }

    /// Where `id` first occurs in the chain, or `None` if it holds no such id.
    pub fn index_of(&self, id: TransformId) -> (index: Option<usize>)
        ensures
            match index {
                Some(i) => is_first_with(self@, id, i as int),
                None => !holds_id(self@, id),
            },
    {
        let mut i: usize = 0;
        while i < self.stages.len()
            invariant
                i <= self.stages.len(),
                forall|j: int| 0 <= j < i ==> self@[j].id != id,
            decreases self.stages.len() - i,
        {
            if self.stages[i].id == id {
                return Some(i);
            }
            i = i + 1;
        }
        None
    }

    /// Takes the transform identified by `id` out of the chain, closing the
    /// gap, or leaves the chain alone if it holds no such id.
    pub fn remove(&mut self, id: TransformId) -> (removed: Option<T>)
        ensures
            holds_id(old(self)@, id) ==> removed == Some(
                old(self)@[first_index(old(self)@, id)].transform,
            ) && final(self)@ == old(self)@.remove(first_index(old(self)@, id)),
            !holds_id(old(self)@, id) ==> removed is None && final(self)@ == old(self)@,
            final(self).grid() == old(self).grid(),
    {
        match self.index_of(id) {
            Some(index) => {
                proof {
                    lemma_first_index(self@, id);
                }
                let stage = self.stages.remove(index);
                Some(stage.transform)
            },
            None => None,
        }
    }

    /// Moves the transform at `from` to `to`, shifting the ones in between.
    pub fn reorder(&mut self, from: usize, to: usize)
        requires
            from < old(self)@.len(),
            to < old(self)@.len(),
        ensures
            final(self)@ == old(self)@.remove(from as int).insert(to as int, old(self)@[from as int]),
            final(self).grid() == old(self).grid(),
    {
        let stage = self.stages.remove(from);
        self.stages.insert(to, stage);
    }

    /// Runs or bypasses the transform identified by `id`, or leaves the chain
    /// alone if it holds no such id.
    pub fn set_enabled(&mut self, id: TransformId, enabled: bool)
        ensures
            holds_id(old(self)@, id) ==> final(self)@ == old(self)@.update(
                first_index(old(self)@, id),
                Stage { enabled, ..old(self)@[first_index(old(self)@, id)] },
            ),
            !holds_id(old(self)@, id) ==> final(self)@ == old(self)@,
            final(self).grid() == old(self).grid(),
    {
        match self.index_of(id) {
            Some(index) => {
                proof {
                    lemma_first_index(self@, id);
                }
                let ghost before = self@;
                self.stages[index].enabled = enabled;
                proof {
                    assert(self@ =~= before.update(
                        index as int,
                        Stage { enabled, ..before[index as int] },
                    ));
                }
            },
            None => {},
        }
    }

    /// The transform identified by `id`, or `None` if the chain holds no such id.
    pub fn get(&self, id: TransformId) -> (transform: Option<&T>)
        ensures
            holds_id(self@, id) ==> transform == Some(&self@[first_index(self@, id)].transform),
            !holds_id(self@, id) ==> transform is None,
    {
        match self.index_of(id) {
            Some(index) => {
                proof {
                    lemma_first_index(self@, id);
                }
                Some(&self.stages[index].transform)
            },
            None => None,
        }
    }

    /// The transform identified by `id`, to reconfigure in place, or `None` if
    /// the chain holds no such id.
    pub fn get_mut(&mut self, id: TransformId) -> (transform: Option<&mut T>)
        ensures
            holds_id(old(self)@, id) ==> transform is Some && *(transform->0) == old(self)@[first_index(
                old(self)@,
                id,
            )].transform && final(self)@ == old(self)@.update(
                first_index(old(self)@, id),
                Stage {
                    transform: *final(transform->0),
                    ..old(self)@[first_index(old(self)@, id)]
                },
            ),
            !holds_id(old(self)@, id) ==> transform is None && final(self)@ == old(self)@,
            final(self).grid() == old(self).grid(),
    {
        match self.index_of(id) {
            Some(index) => {
                proof {
                    lemma_first_index(self@, id);
                }
                Some(self.get_mut_at(index))
            },
            None => None,
        }
    }

    /// The transform at `index`, to run or reconfigure in place.
    pub fn get_mut_at(&mut self, index: usize) -> (transform: &mut T)
        requires
            index < old(self)@.len(),
        ensures
            *transform == old(self)@[index as int].transform,
            final(self)@ == old(self)@.update(
                index as int,
                Stage { transform: *final(transform), ..old(self)@[index as int] },
            ),
            final(self).grid() == old(self).grid(),
    {
        &mut self.stages[index].transform
    }

    /// The ids of the transforms, in chain order.
    pub fn ids(&self) -> (ids: Vec<TransformId>)
        ensures
            ids@ == self@.map_values(|stage: Stage<T>| stage.id),
    {
        let mut ids: Vec<TransformId> = Vec::new();
        let mut i: usize = 0;
        while i < self.stages.len()
            invariant
                i <= self.stages.len(),
                ids@ == self@.take(i as int).map_values(|stage: Stage<T>| stage.id),
            decreases self.stages.len() - i,
        {
            ids.push(self.stages[i].id);
            proof {
                assert(self@.take(i + 1).map_values(|stage: Stage<T>| stage.id) =~= self@.take(
                    i as int,
                ).map_values(|stage: Stage<T>| stage.id).push(self@[i as int].id));
            }
            i = i + 1;
        }
        proof {
            assert(self@.take(self@.len() as int) =~= self@);
        }
        ids
    }

    /// The number of transforms in the chain.
    pub fn len(&self) -> (len: usize)
        ensures
            len == self@.len(),
    {
        self.stages.len()
    }

    /// Whether the chain holds no transform.
    pub fn is_empty(&self) -> (empty: bool)
        ensures
            empty == (self@.len() == 0),
    {
        self.stages.len() == 0
    }
}

impl<T: SpectrumTransform<P>, P> TransformChain<T, P> {
    /// Adds `transform` at `index`, running, and hands it the chain's grid if
    /// the chain has one.
    pub fn insert(&mut self, index: usize, id: TransformId, transform: T)
        requires
            index <= old(self)@.len(),
        ensures
            final(self)@ == old(self)@.insert(
                index as int,
                Stage { id, enabled: true, transform: final(self)@[index as int].transform },
            ),
            old(self).grid() is None ==> final(self)@[index as int].transform == transform,
            old(self).grid() matches Some(grid) ==> exists|call: &mut T|
                *call == transform && *final(call) == final(self)@[index as int].transform
                    && #[trigger] call_ensures(T::set_params, (call, &grid), ()),
            final(self).grid() == old(self).grid(),
    {
        let mut transform = transform;
        match &self.params {
            Some(params) => hand_grid(&mut transform, params),
            None => {},
        }
        self.stages.insert(index, Stage { id, enabled: true, transform });
    }

    /// The chain the configuration `entries` describe, in the order they are
    /// given, each transform made by `create` from its configuration and
    /// bypassed where its entry says so.
    pub fn from_config<C, F: Fn(C) -> T>(entries: Vec<TransformEntry<C>>, create: F) -> (chain: Self)
        requires
            forall|config: C| create.requires((config,)),
        ensures
            chain@.len() == entries@.len(),
            forall|i: int|
                0 <= i < entries@.len() ==> #[trigger] chain@[i].id == entries@[i].id
                    && chain@[i].enabled == entries@[i].enabled && create.ensures(
                    (entries@[i].config,),
                    chain@[i].transform,
                ),
            chain.grid() is None,
    {
        let mut entries = entries;
        let ghost given = entries@;
        let mut stages: Vec<Stage<T>> = Vec::new();
        while entries.len() > 0
            invariant
                forall|config: C| create.requires((config,)),
                stages@.len() + entries@.len() == given.len(),
                entries@ == given.skip(stages@.len() as int),
                forall|i: int|
                    0 <= i < stages@.len() ==> #[trigger] stages@[i].id == given[i].id
                        && stages@[i].enabled == given[i].enabled && create.ensures(
                        (given[i].config,),
                        stages@[i].transform,
                    ),
            decreases entries@.len(),
        {
            let entry = entries.remove(0);
            proof {
                assert(given.skip(stages@.len() as int + 1) =~= given.skip(
                    stages@.len() as int,
                ).drop_first());
            }
            let transform = create(entry.config);
            stages.push(Stage { id: entry.id, enabled: entry.enabled, transform });
        }
        TransformChain { stages, params: None }
    }

    /// Hands `params` to every transform, running or bypassed, unless it is
    /// the very grid the chain already holds.
    ///
    /// The grid is compared by allocation, so a grid that has not changed
    /// reaches the transforms once, however often it is handed over.
    pub fn set_params(&mut self, params: &Arc<P>)
        ensures
            final(self).grid() == Some(*params),
            same_layout(final(self)@, old(self)@),
            old(self).grid() != Some(*params) ==> forall|i: int|
                #![trigger old(self)@[i]]
                0 <= i < old(self)@.len() ==> exists|call: &mut T|
                    *call == old(self)@[i].transform && *final(call) == final(self)@[i].transform
                        && #[trigger] call_ensures(T::set_params, (call, params), ()),
            (forall|i: int|
                #![trigger old(self)@[i]]
                0 <= i < old(self)@.len() ==> exists|call: &mut T|
                    *call == old(self)@[i].transform && *final(call) == final(self)@[i].transform
                        && #[trigger] call_ensures(T::set_params, (call, params), ()))
                || final(self)@ == old(self)@,
    {
        let unchanged = match &self.params {
            Some(current) => same_allocation(current, params),
            None => false,
        };
        if unchanged {
            assert(old(self).grid() == Some(*params));
            return;
        }
        self.params = Some(share(params));
        if self.stages.len() > 0 {
            let ghost before = self@;
            hand_grid(&mut self.stages[0].transform, params);
            let ghost mid = self@;
            assert(exists|call: &mut T|
                *call == before[0].transform && *final(call) == mid[0].transform
                    && #[trigger] call_ensures(T::set_params, (call, params), ()));
            assert(same_layout(mid, before));
            assert(forall|j: int| 0 < j < mid.len() ==> mid[j] == before[j]);
            self.hand_grid_from(1, params);
            assert(forall|j: int| 0 <= j < before.len() ==> #[trigger] self@[j].id == before[j].id
                && self@[j].enabled == before[j].enabled);
        }
    }

    /// Hands `params` to the transforms from position `from` on, in order,
    /// each through its `set_params`, leaving the ones before alone.
    fn hand_grid_from(&mut self, from: usize, params: &Arc<P>)
        requires
            from <= old(self)@.len(),
        ensures
            final(self).grid() == old(self).grid(),
            same_layout(final(self)@, old(self)@),
            forall|j: int| 0 <= j < from ==> #[trigger] final(self)@[j] == old(self)@[j],
            forall|j: int|
                #![trigger old(self)@[j]]
                from <= j < old(self)@.len() ==> exists|call: &mut T|
                    *call == old(self)@[j].transform && *final(call) == final(self)@[j].transform
                        && #[trigger] call_ensures(T::set_params, (call, params), ()),
        decreases old(self)@.len() - from,
    {
        if from < self.stages.len() {
            let ghost before = self@;
            hand_grid(&mut self.stages[from].transform, params);
            let ghost mid = self@;
            assert(exists|call: &mut T|
                *call == before[from as int].transform && *final(call) == mid[from as int].transform
                    && #[trigger] call_ensures(T::set_params, (call, params), ()));
            assert(same_layout(mid, before));
            assert(forall|j: int| 0 <= j < mid.len() && j != from ==> mid[j] == before[j]);
            self.hand_grid_from(from + 1, params);
        }
    }

    /// Runs `spectrum` through every running transform, in chain order.
    ///
    /// A bypassed stage is skipped and left as it was, so a chain whose every
    /// stage is bypassed gives back the spectrum it is handed.
    pub fn apply(&mut self, spectrum: T::Spectrum) -> (result: T::Spectrum)
        ensures
            exists|trace: Seq<T::Spectrum>|
                {
                    &&& passes_through(old(self)@, final(self)@, trace)
                    &&& trace[0] == spectrum
                    &&& trace.last() == result
                    &&& forall|i: int|
                        #![trigger old(self)@[i]]
                        0 <= i < old(self)@.len() && old(self)@[i].enabled ==> exists|call: &mut T|
                            *call == old(self)@[i].transform && *final(call) == final(self)@[i].transform
                                && #[trigger] call_ensures(T::transform, (call, trace[i]), trace[i + 1])
                },
            same_layout(final(self)@, old(self)@),
            forall|i: int|
                0 <= i < old(self)@.len() && !old(self)@[i].enabled ==> #[trigger] final(self)@[i]
                    == old(self)@[i],
            (forall|i: int| 0 <= i < old(self)@.len() ==> !(#[trigger] old(self)@[i]).enabled)
                ==> result == spectrum,
            final(self).grid() == old(self).grid(),
    {
        let mut result = spectrum;
        let ghost mut trace: Seq<T::Spectrum> = seq![spectrum];
        let mut i: usize = 0;
        while i < self.stages.len()
            invariant
                i <= self.stages.len(),
                self@.len() == old(self)@.len(),
                same_layout(self@, old(self)@),
                forall|j: int|
                    0 <= j < old(self)@.len() && !old(self)@[j].enabled ==> #[trigger] self@[j]
                        == old(self)@[j],
                forall|j: int| i <= j < self@.len() ==> #[trigger] self@[j] == old(self)@[j],
                trace.len() == i + 1,
                trace[0] == spectrum,
                trace[i as int] == result,
                forall|j: int|
                    #![trigger old(self)@[j]]
                    0 <= j < i ==> stage_step(old(self)@[j], self@[j], trace[j], trace[j + 1]),
                forall|j: int|
                    #![trigger old(self)@[j]]
                    0 <= j < i && old(self)@[j].enabled ==> exists|call: &mut T|
                        *call == old(self)@[j].transform && *final(call) == self@[j].transform
                            && #[trigger] call_ensures(T::transform, (call, trace[j]), trace[j + 1]),
                (forall|j: int| 0 <= j < i ==> !(#[trigger] old(self)@[j]).enabled) ==> result
                    == spectrum,
                self.params == old(self).params,
            decreases self.stages.len() - i,
        {
            let ghost before = self@;
            let ghost before_trace = trace;
            if self.stages[i].enabled {
                result = run_stage(&mut self.stages[i].transform, result);
            }
            proof {
                assert(same_layout(self@, before));
                assert(forall|j: int| 0 <= j < self@.len() && j != i ==> self@[j] == before[j]);
                trace = trace.push(result);
                assert(stage_step(old(self)@[i as int], self@[i as int], trace[i as int], trace[i + 1]));
                assert forall|j: int|
                    #![trigger old(self)@[j]]
                    0 <= j < i + 1 && old(self)@[j].enabled implies exists|call: &mut T|
                        *call == old(self)@[j].transform && *final(call) == self@[j].transform
                            && #[trigger] call_ensures(T::transform, (call, trace[j]), trace[j + 1]) by {
                    if j < i {
                        assert(self@[j] == before[j]);
                        assert(trace[j] == before_trace[j]);
                        assert(trace[j + 1] == before_trace[j + 1]);
                    }
                }
            }
            i = i + 1;
        }
        proof {
            assert(passes_through(old(self)@, self@, trace));
            assert(trace.last() == result);
        }
        result
    }
}

/// Moving a transform to another position keeps every transform in the
/// chain: only the order changes.
pub proof fn law_reorder_keeps_every_transform<T>(stages: Seq<Stage<T>>, from: int, to: int)
    requires
        0 <= from < stages.len(),
        0 <= to < stages.len(),
    ensures
        stages.remove(from).insert(to, stages[from]).len() == stages.len(),
        stages.remove(from).insert(to, stages[from]).to_multiset() =~= stages.to_multiset(),
        stages.remove(from).insert(to, stages[from])[to] == stages[from],
{
    broadcast use vstd::seq_lib::group_to_multiset_ensures, vstd::multiset::group_multiset_axioms;

    let removed = stages.remove(from);
    vstd::seq_lib::to_multiset_insert(removed, to, stages[from]);
    assert(stages.contains(stages[from]));
    assert(stages.to_multiset().count(stages[from]) > 0);
    assert(stages.to_multiset().remove(stages[from]).insert(stages[from]) =~= stages.to_multiset());
}

/// A transform added under an id the chain did not hold, then removed by
/// that id, leaves the chain as it was.
pub proof fn law_insert_then_remove<T>(stages: Seq<Stage<T>>, index: int, stage: Stage<T>)
    requires
        0 <= index <= stages.len(),
        !holds_id(stages, stage.id),
    ensures
        holds_id(stages.insert(index, stage), stage.id),
        first_index(stages.insert(index, stage), stage.id) == index,
        stages.insert(index, stage).remove(index) =~= stages,
{
    let grown = stages.insert(index, stage);
    assert(grown[index].id == stage.id);
    assert forall|j: int| 0 <= j < index implies grown[j].id != stage.id by {
        assert(grown[j] == stages[j]);
    }
    assert(is_first_with(grown, stage.id, index));
    lemma_first_index(grown, stage.id);
}

impl<T, P> Default for TransformChain<T, P> {
    fn default() -> (chain: Self)
        ensures
            chain@ == Seq::<Stage<T>>::empty(),
            chain.grid() is None,
    {
        TransformChain::new()
    }
}

} // verus!
