//! The entity join and the encode loop.

use vstd::prelude::*;
use crate::encoding::binding::Binding;
use crate::scalar::Slot;

verus! {

/// The component bindings that an encoder declares as its inputs.
///
/// For every entity the bindings give a tuple of views, one per binding and each of them
/// present or absent on its own.
pub trait ComponentBindings {
    /// The tuple of views of one entity.
    type Views;

    /// The views of one entity.
    spec fn spec_views(&self, entity: int) -> Self::Views;

    /// Whether at least one view of the tuple is present.
    spec fn any_present(views: Self::Views) -> bool;

    /// A bound beyond which no entity has any of the bindings present.
    spec fn spec_extent(&self) -> nat;

    /// Beyond the extent every view is absent.
    proof fn lemma_absent_beyond_extent(&self, entity: int)
        requires
            entity >= self.spec_extent(),
        ensures
            !Self::any_present(self.spec_views(entity)),
    ;

    /// A bound beyond which no entity has any of the bindings present.
    fn extent(&self) -> (n: usize)
        ensures
            n == self.spec_extent(),
    ;

    /// The views of one entity.
    fn views(&self, entity: usize) -> (v: Self::Views)
        ensures
            v == self.spec_views(entity as int),
    ;

    /// Whether the entity has at least one of the bindings present.
    fn has_any(&self, entity: usize) -> (b: bool)
        ensures
            b == Self::any_present(self.spec_views(entity as int)),
    ;
}

impl<'a, A: Copy> ComponentBindings for (&'a Binding<A>,) {
    type Views = (Option<A>,);

    open spec fn spec_views(&self, entity: int) -> (Option<A>,) {
        (self.0.spec_get(entity),)
    }

    open spec fn any_present(views: (Option<A>,)) -> bool {
        views.0 is Some
    }

    open spec fn spec_extent(&self) -> nat {
        self.0.slots@.len()
    }

    proof fn lemma_absent_beyond_extent(&self, entity: int) {
    }

    fn extent(&self) -> (n: usize) {
        self.0.extent()
    }

    fn views(&self, entity: usize) -> (v: (Option<A>,)) {
        (self.0.get(entity),)
    }

    fn has_any(&self, entity: usize) -> (b: bool) {
        self.0.contains(entity)
    }
}

impl<'a, A: Copy, B: Copy> ComponentBindings for (&'a Binding<A>, &'a Binding<B>) {
    type Views = (Option<A>, Option<B>);

    open spec fn spec_views(&self, entity: int) -> (Option<A>, Option<B>) {
        (self.0.spec_get(entity), self.1.spec_get(entity))
    }

    open spec fn any_present(views: (Option<A>, Option<B>)) -> bool {
        views.0 is Some || views.1 is Some
    }

    open spec fn spec_extent(&self) -> nat {
        if self.0.slots@.len() >= self.1.slots@.len() {
            self.0.slots@.len()
        } else {
            self.1.slots@.len()
        }
    }

    proof fn lemma_absent_beyond_extent(&self, entity: int) {
    }

    fn extent(&self) -> (n: usize) {
        let first: usize = self.0.extent();
        let second: usize = self.1.extent();
        if first >= second {
            first
        } else {
            second
        }
    }

    fn views(&self, entity: usize) -> (v: (Option<A>, Option<B>)) {
        (self.0.get(entity), self.1.get(entity))
    }

    fn has_any(&self, entity: usize) -> (b: bool) {
        self.0.contains(entity) || self.1.contains(entity)
    }
}

/// Whether the indices are in strictly ascending order.
pub open spec fn strictly_ascending(entities: Seq<usize>) -> bool {
    forall|i: int, j: int| 0 <= i < j < entities.len() ==> entities[i] < entities[j]
}

/// Whether `entities` is the join of the bindings: exactly the entities that have at
/// least one of the bindings present, each once, in ascending order of their index.
pub open spec fn is_join_of<C: ComponentBindings>(entities: Seq<usize>, components: C) -> bool {
    &&& strictly_ascending(entities)
    &&& forall|i: int|
        0 <= i < entities.len() ==> C::any_present(#[trigger] components.spec_views(entities[i] as int))
    &&& forall|entity: int|
        0 <= entity && C::any_present(#[trigger] components.spec_views(entity)) ==> exists|i: int|
            0 <= i < entities.len() && #[trigger] entities[i] == entity
}

/// The results of one encoder for one frame: a row of `N` slots, one per declared
/// property, for every entity that the loop visited, in the order of the visits.
#[derive(Clone, Debug, PartialEq, Eq)]
pub struct EncodedRows<const N: usize> {
    /// The visited entities, in order.
    pub entities: Vec<usize>,
    /// `rows[i]` holds what the encoder returned for `entities[i]`.
    pub rows: Vec<[Slot; N]>,
}

impl<const N: usize> EncodedRows<N> {
    /// Every visited entity has its row.
    pub open spec fn wf(&self) -> bool {
        self.rows@.len() == self.entities@.len()
    }

    /// The buffer of one declared property: for each visited entity, in order, what the
    /// encoder returned for that property.
    pub open spec fn spec_column(&self, k: int) -> Seq<Slot> {
        Seq::new(self.rows@.len(), |i: int| self.rows@[i][k])
    }

    /// The number of visited entities.
    pub fn len(&self) -> (n: usize)
        ensures
            n == self.rows@.len(),
    {
        self.rows.len()
    }

    /// The buffer of the `k`-th declared property, or `None` where the encoder declares
    /// no more than `k` properties.
    pub fn column(&self, k: usize) -> (r: Option<Vec<Slot>>)
        ensures
            k < N ==> r is Some && r->Some_0@ == self.spec_column(k as int),
            k >= N ==> r is None,
    {
        if k >= N {
            return None;
        }
        let mut column: Vec<Slot> = Vec::new();
        let mut i: usize = 0;
        while i < self.rows.len()
            invariant
                k < N,
                i <= self.rows@.len(),
                column@.len() == i,
                forall|j: int| 0 <= j < i ==> column@[j] == self.rows@[j][k as int],
            decreases self.rows@.len() - i,
        {
            let row: &[Slot; N] = &self.rows[i];
            column.push(row[k]);
            i += 1;
        }
        assert(column@ =~= self.spec_column(k as int));
        Some(column)
    }
}

/// Whether `encoded` is what a run of `for_each` over the entities gives: the entities
/// themselves, in their order, and for each of them a row that `for_each` returns for
/// the views of that entity.
pub open spec fn is_run_of<C: ComponentBindings, const N: usize, F: Fn(C::Views) -> [Slot; N]>(
    entities: Seq<usize>,
    components: C,
    for_each: F,
    encoded: EncodedRows<N>,
) -> bool {
    &&& encoded.wf()
    &&& encoded.entities@ == entities
    &&& forall|i: int|
        0 <= i < entities.len() ==> call_ensures(
            for_each,
            (components.spec_views(entities[i] as int),),
            #[trigger] encoded.rows@[i],
        )
}

/// Whether the function value returns the same row whenever it is given the same views.
pub open spec fn is_functional<V, const N: usize, F: Fn(V) -> [Slot; N]>(for_each: F) -> bool {
    forall|views: V, first: [Slot; N], second: [Slot; N]|
        call_ensures(for_each, (views,), first) && call_ensures(for_each, (views,), second) ==> first == second
}

/// One run of an encoder over the entities of a frame: the entities to visit, in order,
/// and the bindings whose views each visit presents.
#[derive(Clone, Debug)]
pub struct EncodeLoop<C: ComponentBindings> {
    /// The entities that the loop visits, in the order in which it visits them.
    pub entities: Vec<usize>,
    /// The declared bindings.
    pub components: C,
}

impl<C: ComponentBindings> EncodeLoop<C> {
    /// Joins the entities against the declared bindings. The loop visits an entity if
    /// at least one of the bindings is present for it, so an entity that lacks some of
    /// them is still visited; the order is that of the entity indices.
    pub fn join(components: C) -> (r: Self)
        ensures
            r.components == components,
            is_join_of(r.entities@, components),
    {
        let n: usize = components.extent();
        let mut entities: Vec<usize> = Vec::new();
        let mut entity: usize = 0;
        while entity < n
            invariant
                entity <= n,
                n == components.spec_extent(),
                strictly_ascending(entities@),
                forall|i: int| 0 <= i < entities@.len() ==> entities@[i] < entity,
                forall|i: int|
                    0 <= i < entities@.len() ==> C::any_present(
                        #[trigger] components.spec_views(entities@[i] as int),
                    ),
                forall|e: int|
                    0 <= e < entity && C::any_present(#[trigger] components.spec_views(e))
                        ==> exists|i: int| 0 <= i < entities@.len() && #[trigger] entities@[i] == e,
            decreases n - entity,
        {
            let ghost before = entities@;
            if components.has_any(entity) {
                entities.push(entity);
                assert(entities@[before.len() as int] == entity);
            }
            assert forall|e: int|
                0 <= e < entity + 1 && C::any_present(
                    #[trigger] components.spec_views(e),
                ) implies exists|i: int| 0 <= i < entities@.len() && #[trigger] entities@[i] == e by {
                if e < entity {
                    let i = choose|i: int| 0 <= i < before.len() && #[trigger] before[i] == e;
                    assert(entities@[i] == e);
                } else {
                    assert(entities@[before.len() as int] == e);
                }
            }
            entity += 1;
        }
        proof {
            assert forall|e: int|
                0 <= e && C::any_present(#[trigger] components.spec_views(e)) implies exists|i: int|
                0 <= i < entities@.len() && #[trigger] entities@[i] == e by {
                if e >= n {
                    components.lemma_absent_beyond_extent(e);
                }
            }
        }
        EncodeLoop { entities, components }
    }

    /// Runs the per-entity function over the entities of the loop, in order, and
    /// collects what it returns: one row of `N` slots per entity. The function gets the
    /// views of the entity's components and answers for each declared property with a
    /// value or with "no value". It has to be callable on the views of the loop's
    /// entities, and on no others.
    pub fn run<const N: usize, F: Fn(C::Views) -> [Slot; N]>(self, for_each: F) -> (r: EncodedRows<N>)
        requires
            forall|i: int|
                0 <= i < self.entities@.len() ==> call_requires(
                    for_each,
                    (#[trigger] self.components.spec_views(self.entities@[i] as int),),
                ),
        ensures
            is_run_of(self.entities@, self.components, for_each, r),
            forall|i: int| 0 <= i < r.rows@.len() ==> (#[trigger] r.rows@[i])@.len() == N,
    {
        let mut rows: Vec<[Slot; N]> = Vec::new();
        let mut i: usize = 0;
        while i < self.entities.len()
            invariant
                i <= self.entities@.len(),
                rows@.len() == i,
                forall|j: int|
                    0 <= j < self.entities@.len() ==> call_requires(
                        for_each,
                        (#[trigger] self.components.spec_views(self.entities@[j] as int),),
                    ),
                forall|j: int|
                    0 <= j < i ==> call_ensures(
                        for_each,
                        (self.components.spec_views(self.entities@[j] as int),),
                        #[trigger] rows@[j],
                    ),
            decreases self.entities@.len() - i,
        {
            let views = self.components.views(self.entities[i]);
            let row: [Slot; N] = for_each(views);
            rows.push(row);
            i += 1;
        }
        EncodedRows { entities: self.entities, rows }
    }
}

/// Every row has as many slots as the encoder declares properties: never more, never
/// fewer.
pub proof fn lemma_rows_have_declared_arity<const N: usize, P>(encoded: EncodedRows<N>, declared: [P; N], i: int)
    ensures
        encoded.rows@[i]@.len() == declared@.len(),
        encoded.rows@[i]@.len() == N,
{
}

/// Running the same function over the same entities and bindings again gives the same
/// rows in the same order, provided that the function itself returns the same row for
/// the same views.
pub proof fn lemma_run_is_deterministic<C: ComponentBindings, const N: usize, F: Fn(C::Views) -> [Slot; N]>(
    entities: Seq<usize>,
    components: C,
    for_each: F,
    first: EncodedRows<N>,
    second: EncodedRows<N>,
)
    requires
        is_functional::<C::Views, N, F>(for_each),
        is_run_of(entities, components, for_each, first),
        is_run_of(entities, components, for_each, second),
    ensures
        first.entities@ == second.entities@,
        first.rows@ == second.rows@,
{
    assert forall|i: int| 0 <= i < entities.len() implies first.rows@[i] == second.rows@[i] by {
        let views = components.spec_views(entities[i] as int);
        assert(call_ensures(for_each, (views,), first.rows@[i]));
        assert(call_ensures(for_each, (views,), second.rows@[i]));
    }
    assert(first.rows@ =~= second.rows@);
}

/// Two joins of the same bindings visit the same entities in the same order.
pub proof fn lemma_join_is_unique<C: ComponentBindings>(first: Seq<usize>, second: Seq<usize>, components: C)
    requires
        is_join_of(first, components),
        is_join_of(second, components),
    ensures
        first == second,
{
    lemma_join_prefix(first, second, components, first.len() as int);
    lemma_join_prefix(second, first, components, second.len() as int);
    assert(first =~= second);
}

/// The first `n` entities of one join are the first `n` entities of any other join of
/// the same bindings.
proof fn lemma_join_prefix<C: ComponentBindings>(first: Seq<usize>, second: Seq<usize>, components: C, n: int)
    requires
        is_join_of(first, components),
        is_join_of(second, components),
        0 <= n <= first.len(),
    ensures
        n <= second.len(),
        forall|i: int| 0 <= i < n ==> first[i] == second[i],
    decreases n,
{
    if n > 0 {
        lemma_join_prefix(first, second, components, n - 1);
        let e = first[n - 1];
        assert(C::any_present(components.spec_views(first[n - 1] as int)));
        let j = choose|j: int| 0 <= j < second.len() && #[trigger] second[j] == e;
        // `e` stands in `second` at `j`; it cannot stand before `n - 1`, where `second`
        // agrees with `first`, nor after it, since what stands at `n - 1` in `second`
        // stands in `first` too, and would have to stand before `e` there.
        if j < n - 1 {
            assert(first[j] == second[j]);
            assert(first[j] < first[n - 1]);
        }
        if j > n - 1 {
            let d = second[n - 1];
            assert(C::any_present(components.spec_views(second[n - 1] as int)));
            let k = choose|k: int| 0 <= k < first.len() && #[trigger] first[k] == d;
            assert(second[n - 1] < second[j]);
            if k < n - 1 {
                assert(first[k] == second[k]);
                assert(second[k] < second[n - 1]);
            } else if k > n - 1 {
                assert(first[n - 1] < first[k]);
            }
        }
    }
}

} // verus!
