//! A share-nothing sharded runtime.
//!
//! Items are routed to shards by key. Every shard has a queue and a state of
//! its own and folds the items of its queue into that state, one after the
//! other, in the order in which they were submitted. Items with one routing
//! key reach one shard, so they are folded in that order whatever else is
//! submitted between them.
//!
//! What stands here is the runtime's result: which shard gets which item, and
//! the states that the shards end in. It runs the shards one after the other.
//! Since no shard sees another's state, shards that run at the same time, each
//! on a core of its own, end in the same states.

use std::marker::PhantomData;
use vstd::prelude::*;

verus! {

/// Allows a type to select which shard it should be submitted to.
pub trait Shardable {
    /// The shard, of `num_shards`, that gets the item. It is the same whenever
    /// the item and `num_shards` are the same, so that the items of one
    /// routing key share a shard.
    fn shard_id(&self, num_shards: u8) -> (shard: usize)
        requires
            num_shards > 0,
        ensures
            shard < num_shards,
    ;
}

/// `shards[i]` is the shard, of `num_shards`, that `Shardable::shard_id`
/// selected for `items[i]`.
pub open spec fn routes<T: Shardable>(items: Seq<T>, num_shards: u8, shards: Seq<usize>) -> bool {
    &&& shards.len() == items.len()
    &&& forall|i: int|
        0 <= i < items.len() ==> call_ensures(
            T::shard_id,
            (&#[trigger] items[i], num_shards),
            shards[i],
        )
}

/// The items of `items` that shard `shard` gets, in their order, where
/// `items[i]` goes to shard `shards[i]`.
pub open spec fn shard_queue<T>(items: Seq<T>, shards: Seq<usize>, shard: int) -> Seq<T>
    recommends
        shards.len() == items.len(),
    decreases items.len(),
{
    if items.len() == 0 || shards.len() != items.len() {
        Seq::empty()
    } else if shards.last() == shard {
        shard_queue(items.drop_last(), shards.drop_last(), shard).push(items.last())
    } else {
        shard_queue(items.drop_last(), shards.drop_last(), shard)
    }
}

/// The queues of `num_shards` shards, in the order of the shards, where
/// `items[i]` goes to shard `shards[i]`.
pub open spec fn shard_queues<T>(items: Seq<T>, shards: Seq<usize>, num_shards: u8) -> Seq<Seq<T>> {
    Seq::new(num_shards as nat, |shard: int| shard_queue(items, shards, shard))
}

/// `steps` and `states` are a fold of `items` with `func`: `func` was called
/// once for each item, in order; `steps[i]` is the borrow of the state that
/// was handed to it with `items[i]`, `states[i]` the state at the start of
/// that call and `states[i + 1]` the state that the borrow ended in; and
/// `states[0]` is a state that `S::default` makes.
///
/// `end_of` gives the state that a borrow ends in. Only a contract or a proof
/// can write that down, so every use hands in `|step: &mut S| *final(step)`.
pub open spec fn fold_trace<T, F: Fn(&mut S, T), S: Default>(
    func: F,
    items: Seq<T>,
    steps: Seq<&mut S>,
    states: Seq<S>,
    end_of: spec_fn(&mut S) -> S,
) -> bool {
    &&& steps.len() == items.len()
    &&& states.len() == items.len() + 1
    &&& call_ensures(S::default, (), states[0])
    &&& forall|i: int|
        0 <= i < steps.len() ==> {
            &&& call_ensures(func, (#[trigger] steps[i], items[i]), ())
            &&& *steps[i] == states[i]
            &&& end_of(steps[i]) == states[i + 1]
        }
}

/// `state` is what a fold of `items` with `func` ends in: there is such a
/// fold, from a state that `S::default` makes, and `state` is its last state.
pub open spec fn folded<T, F: Fn(&mut S, T), S: Default>(
    func: F,
    items: Seq<T>,
    state: S,
    end_of: spec_fn(&mut S) -> S,
) -> bool {
    exists|steps: Seq<&mut S>, states: Seq<S>|
        #[trigger] fold_trace(func, items, steps, states, end_of) && state == states.last()
}

/// `result` holds, for each of `queues` and in their order, what a fold of
/// that queue with `func` ends in.
pub open spec fn all_folded<T, F: Fn(&mut S, T), S: Default>(
    func: F,
    queues: Seq<Seq<T>>,
    result: Seq<S>,
    end_of: spec_fn(&mut S) -> S,
) -> bool {
    &&& result.len() == queues.len()
    &&& forall|shard: int|
        0 <= shard < queues.len() ==> folded(func, queues[shard], #[trigger] result[shard], end_of)
}

/// The items that `results` hold, where each is an `Ok`.
pub open spec fn ok_items<T, E>(results: Seq<Result<T, E>>) -> Seq<T> {
    results.map_values(|result: Result<T, E>| result->Ok_0)
}

/// A shard's work: folds the items of `queue` into a new state.
fn run_shard<T, F: Fn(&mut S, T), S: Default>(queue: Vec<T>, func: &F) -> (state: S)
    requires
        forall|state: &mut S, item: T| call_requires(*func, (state, item)),
    ensures
        folded(*func, queue@, state, |step: &mut S| *final(step)),
{
    let mut state = S::default();
    proof {
        assert(fold_trace(
            *func,
            queue@.take(0),
            Seq::<&mut S>::empty(),
            seq![state],
            |step: &mut S| *final(step),
        ));
    }
    for item in it: queue
        invariant
            forall|state: &mut S, item: T| call_requires(*func, (state, item)),
            folded(*func, queue@.take(it.index()), state, |step: &mut S| *final(step)),
    {
        let ghost before = state;
        func(&mut state, item);
        proof {
            let done = it.index();
            let end_of = |step: &mut S| *final(step);
            let (steps, states) = choose|steps: Seq<&mut S>, states: Seq<S>|
                #[trigger] fold_trace(*func, queue@.take(done), steps, states, end_of) && before
                    == states.last();
            let step = choose|step: &mut S|
                *step == before && *final(step) == state && call_ensures(*func, (step, item), ());
            assert(fold_trace(
                *func,
                queue@.take(done + 1),
                steps.push(step),
                states.push(state),
                end_of,
            ));
        }
    }
    proof {
        assert(queue@.take(queue@.len() as int) == queue@);
    }
    state
}

/// A sharded runtime for items of type `T`, which are folded into states of
/// type `S` by a function of type `F`. `Shardable` selects the shard of an
/// item, and every shard has a state of its own.
///
/// A runtime is made with `new`, takes items with `process_item`, and is
/// ended with `finish`, which hands out the states; `try_fold` does all three.
/// The items of one routing key are folded in the order in which they were
/// submitted. Nothing bounds the queues.
pub struct ShardedThreadPerCoreRuntime<T, F, S> {
    shards: Vec<Vec<T>>,
    func: F,
    _s: PhantomData<S>,
}

impl<T, F, S> ShardedThreadPerCoreRuntime<T, F, S> {
    /// The shards can be counted in a `u8`.
    #[verifier::type_invariant]
    spec fn well_formed(&self) -> bool {
        self.shards@.len() <= u8::MAX
    }
}

impl<T, F, S> ShardedThreadPerCoreRuntime<T, F, S> where
    T: Send + Shardable + 'static,
    F: Fn(&mut S, T) + Send + 'static,
    S: Default + Send + 'static,
{
    /// The queues of the shards, in the order of the shards: what was
    /// submitted to each and is not folded yet.
    pub closed spec fn queues(&self) -> Seq<Seq<T>> {
        self.shards@.map_values(|queue: Vec<T>| queue@)
    }

    /// The function that folds the items.
    pub closed spec fn func(&self) -> F {
        self.func
    }

    /// A runtime of `max_threads` shards with nothing submitted.
    pub fn new(max_threads: u8, func: F) -> (rt: Self)
        ensures
            rt.func() == func,
            rt.queues() == Seq::new(max_threads as nat, |shard: int| Seq::<T>::empty()),
    {
        let mut shards: Vec<Vec<T>> = Vec::with_capacity(max_threads as usize);
        let mut shard: u8 = 0;
        while shard < max_threads
            invariant
                shard <= max_threads,
                shards@.len() == shard,
                forall|k: int| 0 <= k < shard ==> (#[trigger] shards@[k])@ == Seq::<T>::empty(),
            decreases max_threads - shard,
        {
            shards.push(Vec::new());
            shard += 1;
        }
        let rt = Self { shards, func, _s: PhantomData };
        rt
    }

    /// Submits `item`: puts it at the end of the queue of the shard that
    /// `Shardable::shard_id` selects for it, and leaves the other queues as
    /// they are. There has to be a shard.
    pub fn process_item(&mut self, item: T)
        requires
            old(self).queues().len() > 0,
        ensures
            final(self).func() == old(self).func(),
            exists|shard: usize|
                {
                    &&& call_ensures(T::shard_id, (&item, old(self).queues().len() as u8), shard)
                    &&& final(self).queues() == #[trigger] old(self).queues().update(
                        shard as int,
                        old(self).queues()[shard as int].push(item),
                    )
                },
    {
        proof {
            use_type_invariant(&*self);
        }
        let mut shards: Vec<Vec<T>> = Vec::new();
        std::mem::swap(&mut shards, &mut self.shards);
        let shard_id = item.shard_id(shards.len() as u8);
        shards[shard_id].push(item);
        self.shards = shards;
        assert(self.queues() =~= old(self).queues().update(
            shard_id as int,
            old(self).queues()[shard_id as int].push(item),
        ));
    }

    /// Ends the run: every shard folds the items of its queue into a new
    /// state, and the states come back in the order of the shards.
    pub fn finish(self) -> (result: Vec<S>)
        requires
            forall|state: &mut S, item: T| call_requires(self.func(), (state, item)),
        ensures
            all_folded(self.func(), self.queues(), result@, |step: &mut S| *final(step)),
    {
        let Self { shards, func, _s } = self;
        let mut result: Vec<S> = Vec::with_capacity(shards.len());
        proof {
            assert(func == self.func());
        }
        for queue in it: shards
            invariant
                forall|state: &mut S, item: T| call_requires(func, (state, item)),
                func == self.func(),
                shards == self.shards,
                all_folded(
                    func,
                    self.queues().take(it.index()),
                    result@,
                    |step: &mut S| *final(step),
                ),
        {
            let ghost done = result@;
            let state = run_shard(queue, &func);
            result.push(state);
            proof {
                assert forall|shard: int| 0 <= shard < result@.len() implies folded(
                    func,
                    self.queues()[shard],
                    #[trigger] result@[shard],
                    |step: &mut S| *final(step),
                ) by {
                    if shard < done.len() {
                        assert(result@[shard] == done[shard]);
                    } else {
                        assert(self.queues()[shard] == queue@);
                    }
                }
            }
        }
        result
    }

    /// Folds `items` into the states of `max_threads` shards with `func`, and
    /// returns the states in the order of the shards. Every item goes to the
    /// shard that `Shardable` selects for it, and every shard folds its items
    /// into a state that starts as `S::default()`, in the order in which the
    /// items stand in `items`.
    ///
    /// # Errors
    /// The first `Err` among `items`, where there is one: nothing is folded then.
    pub fn try_fold<E>(max_threads: u8, func: F, items: Vec<Result<T, E>>) -> (result: Result<
        Vec<S>,
        E,
    >)
        requires
            max_threads > 0 || items@.len() == 0 || items@[0] is Err,
            forall|state: &mut S, item: T| call_requires(func, (state, item)),
        ensures
            match result {
                Ok(result) => {
                    &&& forall|i: int| 0 <= i < items@.len() ==> items@[i] is Ok
                    &&& exists|shards: Seq<usize>|
                        {
                            &&& #[trigger] routes(ok_items(items@), max_threads, shards)
                            &&& all_folded(
                                func,
                                shard_queues(ok_items(items@), shards, max_threads),
                                result@,
                                |step: &mut S| *final(step),
                            )
                        }
                },
                Err(error) => exists|i: int|
                    {
                        &&& 0 <= i < items@.len()
                        &&& #[trigger] items@[i] == Err::<T, E>(error)
                        &&& forall|j: int| 0 <= j < i ==> items@[j] is Ok
                    },
            },
    {
        let mut rt = Self::new(max_threads, func);
        let ghost mut shards: Seq<usize> = Seq::empty();
        for item in it: items
            invariant
                forall|state: &mut S, item: T| call_requires(func, (state, item)),
                max_threads > 0 || items@.len() == 0 || items@[0] is Err,
                rt.func() == func,
                rt.queues().len() == max_threads,
                forall|j: int| 0 <= j < it.index() ==> items@[j] is Ok,
                routes(ok_items(items@.take(it.index())), max_threads, shards),
                forall|shard: int|
                    0 <= shard < max_threads ==> #[trigger] rt.queues()[shard] == shard_queue(
                        ok_items(items@.take(it.index())),
                        shards,
                        shard,
                    ),
        {
            let ghost done = it.index();
            match item {
                Ok(item) => {
                    let ghost queues = rt.queues();
                    rt.process_item(item);
                    proof {
                        let shard = choose|shard: usize|
                            {
                                &&& call_ensures(T::shard_id, (&item, max_threads), shard)
                                &&& rt.queues() == #[trigger] queues.update(
                                    shard as int,
                                    queues[shard as int].push(item),
                                )
                            };
                        let submitted = ok_items(items@.take(done));
                        assert(ok_items(items@.take(done + 1)) =~= submitted.push(item));
                        assert(submitted.push(item).drop_last() == submitted);
                        assert(shards.push(shard).drop_last() == shards);
                        shards = shards.push(shard);
                    }
                },
                Err(error) => {
                    return Err(error);
                },
            }
        }
        proof {
            assert(items@.take(items@.len() as int) == items@);
        }
        Ok(rt.finish())
    }
}

/// `core_affinity::get_core_ids`: the ids of the cores on which the current
/// thread may run, or `None` where the host does not tell. Nothing is stated
/// of the ids: they are the host's.
#[verifier::external_body]
fn available_core_ids() -> (core_ids: Option<Vec<usize>>) {
    core_affinity::get_core_ids().map(|ids| ids.into_iter().map(|core| core.id).collect())
}

/// The core for each of `max_threads` shards, where the cores at hand are
/// `core_ids`: shard `k` is pinned to `core_ids[k]`, and the shards for which
/// no core is left are not pinned.
pub open spec fn assigned_cores(max_threads: u8, core_ids: Seq<usize>) -> Seq<Option<usize>> {
    Seq::new(
        max_threads as nat,
        |shard: int|
            if shard < core_ids.len() {
                Some(core_ids[shard])
            } else {
                None
            },
    )
}

/// Gives each of `max_threads` shards its core, of `core_ids`, or `None`
/// where the cores are not known: a runtime whose shards are to run on cores
/// of their own cannot start then.
pub fn assign_cores(max_threads: u8, core_ids: Option<Vec<usize>>) -> (cores: Option<
    Vec<Option<usize>>,
>)
    ensures
        match core_ids {
            Some(core_ids) => cores is Some && cores->Some_0@ == assigned_cores(
                max_threads,
                core_ids@,
            ),
            None => cores is None,
        },
{
    let core_ids = match core_ids {
        Some(core_ids) => core_ids,
        None => {
            return None;
        },
    };
    let mut cores: Vec<Option<usize>> = Vec::with_capacity(max_threads as usize);
    let mut shard: usize = 0;
    while shard < max_threads as usize
        invariant
            shard <= max_threads,
            cores@ == assigned_cores(max_threads, core_ids@).take(shard as int),
        decreases max_threads - shard,
    {
        cores.push(
            if shard < core_ids.len() {
                Some(core_ids[shard])
            } else {
                None
            },
        );
        shard += 1;
    }
    Some(cores)
}

/// The core for each of `max_threads` shards on this host, as `assign_cores`
/// gives them for the cores that the host reports, or `None` where the host
/// reports none.
pub fn host_cores(max_threads: u8) -> (cores: Option<Vec<Option<usize>>>)
    ensures
        cores matches Some(cores) ==> exists|core_ids: Seq<usize>|
            cores@ == #[trigger] assigned_cores(max_threads, core_ids),
{
    assign_cores(max_threads, available_core_ids())
}

} // verus!
