//! Capturing and replaying device graphs.
//!
//! A graph records the work of one training step and is replayed on later steps
//! with the same key. What is to be done next is decided here; the caller does it
//! on the device and hands back what came of it.

use std::collections::HashMap;

use vstd::prelude::*;

verus! {

/// The graphs recorded so far, by the key of their step.
pub struct GraphCache<G> {
    graphs: HashMap<u64, G>,
}

impl<G> View for GraphCache<G> {
    type V = Map<u64, G>;

    closed spec fn view(&self) -> Map<u64, G> {
        self.graphs@
    }
}

/// What the device is to do next.
#[derive(Clone, Copy, Debug, PartialEq, Eq, Structural)]
pub enum GraphAction {
    /// Replay the graph that the cache holds for the key.
    Launch,
    /// Begin to record what is issued on the stream.
    BeginCapture,
    /// Issue the work of the step.
    RunBody,
    /// End the recording.
    EndCapture,
    /// Upload the recorded graph.
    Upload,
    /// Nothing: the step is over.
    Nothing,
}

/// What came of an action.
pub enum GraphEvent<G, E> {
    /// The outcome of an action other than the end of a recording.
    Outcome(Result<(), E>),
    /// The outcome of the end of a recording: the recorded graph, if there is one.
    Recorded(Result<Option<G>, E>),
}

/// How far a step has come.
pub enum GraphRun<G, E> {
    /// The graph of an earlier step is replayed.
    Replaying,
    /// The recording is about to begin.
    Beginning,
    /// The work of the step is being recorded.
    Recording,
    /// The work is issued, with this outcome, and the recording is about to end.
    Ending(Result<(), E>),
    /// The graph is recorded and about to be uploaded.
    Uploading(G),
    /// The step is over, with this outcome.
    Finished(Result<(), E>),
}

impl<G, E> GraphRun<G, E> {
    /// The step with the key `key` starts by a replay if a graph is recorded for it.
    pub open spec fn started(cache: Map<u64, G>, key: u64) -> GraphRun<G, E> {
        if cache.contains_key(key) {
            GraphRun::Replaying
        } else {
            GraphRun::Beginning
        }
    }

    /// What is to be done next.
    pub open spec fn spec_action(self) -> GraphAction {
        match self {
            GraphRun::Replaying => GraphAction::Launch,
            GraphRun::Beginning => GraphAction::BeginCapture,
            GraphRun::Recording => GraphAction::RunBody,
            GraphRun::Ending(_) => GraphAction::EndCapture,
            GraphRun::Uploading(_) => GraphAction::Upload,
            GraphRun::Finished(_) => GraphAction::Nothing,
        }
    }

    /// `event` can follow: something is to be done, and a recorded graph is handed
    /// in exactly where a recording is to end.
    pub open spec fn awaits(self, event: GraphEvent<G, E>) -> bool {
        match self {
            GraphRun::Finished(_) => false,
            GraphRun::Ending(_) => event is Recorded,
            _ => event is Outcome,
        }
    }

    /// How far the step has come after `event`.
    ///
    /// A recording that began is ended whatever came of the work. If the end fails,
    /// its failure is that of the step; otherwise a failure of the work is.
    pub open spec fn after(self, event: GraphEvent<G, E>) -> GraphRun<G, E> {
        match (self, event) {
            (GraphRun::Replaying, GraphEvent::Outcome(r)) => GraphRun::Finished(r),
            (GraphRun::Beginning, GraphEvent::Outcome(Ok(_))) => GraphRun::Recording,
            (GraphRun::Beginning, GraphEvent::Outcome(Err(e))) => GraphRun::Finished(Err(e)),
            (GraphRun::Recording, GraphEvent::Outcome(r)) => GraphRun::Ending(r),
            (GraphRun::Ending(_), GraphEvent::Recorded(Err(e))) => GraphRun::Finished(Err(e)),
            (GraphRun::Ending(Err(e)), GraphEvent::Recorded(Ok(_))) => GraphRun::Finished(Err(e)),
            (GraphRun::Ending(Ok(_)), GraphEvent::Recorded(Ok(None))) => GraphRun::Finished(Ok(())),
            (GraphRun::Ending(Ok(_)), GraphEvent::Recorded(Ok(Some(g)))) => GraphRun::Uploading(g),
            (GraphRun::Uploading(_), GraphEvent::Outcome(r)) => GraphRun::Finished(r),
            _ => self,
        }
    }

    /// What the cache holds after `event`: the graph is kept once it is uploaded.
    pub open spec fn cache_after(
        self,
        event: GraphEvent<G, E>,
        cache: Map<u64, G>,
        key: u64,
    ) -> Map<u64, G> {
        match (self, event) {
            (GraphRun::Uploading(g), GraphEvent::Outcome(Ok(_))) => cache.insert(key, g),
            _ => cache,
        }
    }

    /// What is to be done next.
    pub fn action(&self) -> (r: GraphAction)
        ensures
            r == self.spec_action(),
    {
        match self {
            GraphRun::Replaying => GraphAction::Launch,
            GraphRun::Beginning => GraphAction::BeginCapture,
            GraphRun::Recording => GraphAction::RunBody,
            GraphRun::Ending(_) => GraphAction::EndCapture,
            GraphRun::Uploading(_) => GraphAction::Upload,
            GraphRun::Finished(_) => GraphAction::Nothing,
        }
    }
}

impl<G> GraphCache<G> {
    /// A cache without graphs.
    pub fn new() -> (r: GraphCache<G>)
        ensures
            r@ == Map::<u64, G>::empty(),
    {
        GraphCache { graphs: HashMap::new() }
    }

    /// The graph that is recorded for a key.
    pub fn get(&self, key: u64) -> (r: Option<&G>)
        ensures
            match r {
                Some(g) => self@.contains_key(key) && *g == self@[key],
                None => !self@.contains_key(key),
            },
    {
        broadcast use vstd::std_specs::hash::group_hash_axioms;

        self.graphs.get(&key)
    }

    /// Starts a step: its graph is replayed if there is one, and recorded otherwise.
    pub fn start<E>(&self, cache_key: u64) -> (r: GraphRun<G, E>)
        ensures
            r == GraphRun::<G, E>::started(self@, cache_key),
    {
        match self.get(cache_key) {
            Some(_) => GraphRun::Replaying,
            None => GraphRun::Beginning,
        }
    }

    /// Takes what came of the action that a step called for.
    pub fn step<E>(&mut self, cache_key: u64, run: GraphRun<G, E>, event: GraphEvent<G, E>) -> (r:
        GraphRun<G, E>)
        requires
            run.awaits(event),
        ensures
            r == run.after(event),
            final(self)@ == run.cache_after(event, old(self)@, cache_key),
    {
        broadcast use vstd::std_specs::hash::group_hash_axioms;

        match (run, event) {
            (GraphRun::Replaying, GraphEvent::Outcome(r)) => GraphRun::Finished(r),
            (GraphRun::Beginning, GraphEvent::Outcome(Ok(_))) => GraphRun::Recording,
            (GraphRun::Beginning, GraphEvent::Outcome(Err(e))) => GraphRun::Finished(Err(e)),
            (GraphRun::Recording, GraphEvent::Outcome(r)) => GraphRun::Ending(r),
            (GraphRun::Ending(_), GraphEvent::Recorded(Err(e))) => GraphRun::Finished(Err(e)),
            (GraphRun::Ending(Err(e)), GraphEvent::Recorded(Ok(_))) => GraphRun::Finished(Err(e)),
            (GraphRun::Ending(Ok(_)), GraphEvent::Recorded(Ok(None))) => GraphRun::Finished(Ok(())),
            (GraphRun::Ending(Ok(_)), GraphEvent::Recorded(Ok(Some(g)))) => GraphRun::Uploading(g),
            (GraphRun::Uploading(g), GraphEvent::Outcome(Ok(done))) => {
                self.graphs.insert(cache_key, g);
                GraphRun::Finished(Ok(done))
            },
            (GraphRun::Uploading(_), GraphEvent::Outcome(Err(e))) => GraphRun::Finished(Err(e)),
            (run, _) => run,
        }
    }

    /// Forgets the graph of a key, so that the next step with it records anew.
    pub fn remove(&mut self, cache_key: u64)
        ensures
            final(self)@ == old(self)@.remove(cache_key),
    {
        broadcast use vstd::std_specs::hash::group_hash_axioms;

        self.graphs.remove(&cache_key);
        assert(self@ =~= old(self)@.remove(cache_key));
    }

    /// Forgets all graphs.
    pub fn clear(&mut self)
        ensures
            final(self)@ == Map::<u64, G>::empty(),
    {
        self.graphs.clear();
    }
}

/// The outcomes of all actions that a step may call for.
pub ghost struct StepOutcomes<G, E> {
    pub launch: Result<(), E>,
    pub begin: Result<(), E>,
    pub body: Result<(), E>,
    pub end: Result<Option<G>, E>,
    pub upload: Result<(), E>,
}

impl<G, E> StepOutcomes<G, E> {
    /// What comes of the action that `run` calls for.
    pub open spec fn of(self, run: GraphRun<G, E>) -> GraphEvent<G, E> {
        match run {
            GraphRun::Replaying => GraphEvent::Outcome(self.launch),
            GraphRun::Beginning => GraphEvent::Outcome(self.begin),
            GraphRun::Recording => GraphEvent::Outcome(self.body),
            GraphRun::Ending(_) => GraphEvent::Recorded(self.end),
            _ => GraphEvent::Outcome(self.upload),
        }
    }

    /// How far a step has come, and what the cache holds, after `n` actions.
    pub open spec fn run(self, cache: Map<u64, G>, key: u64, n: nat) -> (
        GraphRun<G, E>,
        Map<u64, G>,
    )
        decreases n,
    {
        if n == 0 {
            (GraphRun::started(cache, key), cache)
        } else {
            let (run, held) = self.run(cache, key, (n - 1) as nat);
            if run is Finished {
                (run, held)
            } else {
                (run.after(self.of(run)), run.cache_after(self.of(run), held, key))
            }
        }
    }

    /// The outcome of a whole step.
    pub open spec fn result(self, cache: Map<u64, G>, key: u64) -> Result<(), E> {
        if cache.contains_key(key) {
            self.launch
        } else if self.begin is Err {
            self.begin
        } else if self.end is Err {
            Err(self.end->Err_0)
        } else if self.body is Err {
            self.body
        } else if self.end->Ok_0 is Some {
            self.upload
        } else {
            Ok(())
        }
    }

    /// What the cache holds after a whole step.
    pub open spec fn cache(self, cache: Map<u64, G>, key: u64) -> Map<u64, G> {
        if !cache.contains_key(key) && self.begin is Ok && self.body is Ok && self.upload is Ok
            && self.end is Ok && self.end->Ok_0 is Some {
            cache.insert(key, self.end->Ok_0->Some_0)
        } else {
            cache
        }
    }
}

/// A step is over after four actions at most. Its outcome is that of the replay
/// where a graph was held, and otherwise the first failure of the recording, except
/// that a failure to end the recording goes before one of the work. A graph is
/// added to the cache, under the key of the step, exactly if the recording gave one
/// and nothing failed.
pub proof fn law_step_outcome<G, E>(outcomes: StepOutcomes<G, E>, cache: Map<u64, G>, key: u64)
    ensures
        outcomes.run(cache, key, 4).0 == GraphRun::<G, E>::Finished(outcomes.result(cache, key)),
        outcomes.run(cache, key, 4).1 == outcomes.cache(cache, key),
{
    reveal_with_fuel(StepOutcomes::run, 5);
}

/// A recording that began is always ended: once the work of the step has been
/// issued, whatever came of it, the next action is to end the recording.
pub proof fn law_recording_is_ended<G, E>(
    outcomes: StepOutcomes<G, E>,
    cache: Map<u64, G>,
    key: u64,
)
    requires
        !cache.contains_key(key),
        outcomes.begin is Ok,
    ensures
        outcomes.run(cache, key, 1).0.spec_action() == GraphAction::RunBody,
        outcomes.run(cache, key, 2).0.spec_action() == GraphAction::EndCapture,
{
    reveal_with_fuel(StepOutcomes::run, 3);
}

/// After a step that kept its graph, the next step with the same key replays that
/// graph and calls for nothing else, and it does so until the key is invalidated.
pub proof fn law_replay_after_recording<G, E>(
    first: StepOutcomes<G, E>,
    second: StepOutcomes<G, E>,
    cache: Map<u64, G>,
    key: u64,
)
    requires
        !cache.contains_key(key),
        first.begin is Ok,
        first.body is Ok,
        first.end matches Ok(Some(_)),
        first.upload is Ok,
    ensures
        ({
            let held = first.run(cache, key, 4).1;
            &&& held.contains_key(key)
            &&& held[key] == first.end->Ok_0->Some_0
            &&& second.run(held, key, 0).0.spec_action() == GraphAction::Launch
            &&& second.run(held, key, 1) == (GraphRun::<G, E>::Finished(second.launch), held)
            &&& second.run(held.remove(key), key, 0).0.spec_action() == GraphAction::BeginCapture
        }),
{
    law_step_outcome(first, cache, key);
    reveal_with_fuel(StepOutcomes::run, 2);
}

/// A step leaves the graphs of all other keys as they were.
pub proof fn law_other_keys_untouched<G, E>(
    outcomes: StepOutcomes<G, E>,
    cache: Map<u64, G>,
    key: u64,
    other: u64,
)
    requires
        other != key,
    ensures
        outcomes.run(cache, key, 4).1.contains_key(other) == cache.contains_key(other),
        outcomes.run(cache, key, 4).1[other] == cache[other],
{
    law_step_outcome(outcomes, cache, key);
}

/// The first step with a key issues its work once, while the device records it, and
/// calls for no replay: what is issued during a recording is recorded rather than
/// executed, so that the device carries the work out from the second step on.
pub proof fn law_first_step_records<G, E>(
    outcomes: StepOutcomes<G, E>,
    cache: Map<u64, G>,
    key: u64,
    n: nat,
)
    requires
        !cache.contains_key(key),
    ensures
        outcomes.run(cache, key, n).0.spec_action() != GraphAction::Launch,
        outcomes.run(cache, key, n).0.spec_action() == GraphAction::RunBody <==> n == 1
            && outcomes.begin is Ok,
    decreases n,
{
    reveal_with_fuel(StepOutcomes::run, 6);
    if n > 4 {
        law_first_step_records(outcomes, cache, key, (n - 1) as nat);
        lemma_over_after_four(outcomes, cache, key, (n - 1) as nat);
    }
}

/// A later step with the key replays the graph once and issues no work.
pub proof fn law_later_step_replays<G, E>(
    outcomes: StepOutcomes<G, E>,
    cache: Map<u64, G>,
    key: u64,
    n: nat,
)
    requires
        cache.contains_key(key),
    ensures
        outcomes.run(cache, key, n).0.spec_action() == if n == 0 {
            GraphAction::Launch
        } else {
            GraphAction::Nothing
        },
    decreases n,
{
    reveal_with_fuel(StepOutcomes::run, 2);
    if n > 1 {
        law_later_step_replays(outcomes, cache, key, (n - 1) as nat);
    }
}

proof fn lemma_over_after_four<G, E>(
    outcomes: StepOutcomes<G, E>,
    cache: Map<u64, G>,
    key: u64,
    n: nat,
)
    requires
        n >= 4,
    ensures
        outcomes.run(cache, key, n).0 is Finished,
    decreases n,
{
    if n == 4 {
        law_step_outcome(outcomes, cache, key);
    } else {
        lemma_over_after_four(outcomes, cache, key, (n - 1) as nat);
    }
}

/// A step starts by a replay exactly if the cache gives a graph for its key, and by a
/// recording otherwise.
pub proof fn law_step_starts_by_the_cache<G, E>(
    cache: GraphCache<G>,
    key: u64,
    held: Option<&G>,
    run: GraphRun<G, E>,
    action: GraphAction,
)
    requires
        call_ensures(GraphCache::<G>::get, (&cache, key), held),
        call_ensures(GraphCache::<G>::start::<E>, (&cache, key), run),
        call_ensures(GraphRun::<G, E>::action, (&run,), action),
    ensures
        held is Some <==> cache@.contains_key(key),
        held matches Some(g) ==> *g == cache@[key],
        held is Some ==> run is Replaying && action == GraphAction::Launch,
        held is None ==> run is Beginning && action == GraphAction::BeginCapture,
{
}

/// What each stage of a step calls for.
pub proof fn law_stage_actions<G, E>(run: GraphRun<G, E>, action: GraphAction)
    requires
        call_ensures(GraphRun::<G, E>::action, (&run,), action),
    ensures
        run is Replaying <==> action == GraphAction::Launch,
        run is Beginning <==> action == GraphAction::BeginCapture,
        run is Recording <==> action == GraphAction::RunBody,
        run is Ending <==> action == GraphAction::EndCapture,
        run is Uploading <==> action == GraphAction::Upload,
        run is Finished <==> action == GraphAction::Nothing,
{
}

/// How a step goes on after what came of an action. A failure of any action but the work
/// itself is the outcome of the step at once; the work is followed by the end of the
/// recording whatever came of it; a failure of the work is the outcome unless ending fails.
pub proof fn law_step_goes_on<G, E>(
    cache: &mut GraphCache<G>,
    key: u64,
    run: GraphRun<G, E>,
    event: GraphEvent<G, E>,
    next: GraphRun<G, E>,
)
    requires
        call_ensures(GraphCache::<G>::step::<E>, (cache, key, run, event), next),
    ensures
        event matches GraphEvent::Outcome(Err(e)) ==> {
            &&& run is Replaying || run is Beginning || run is Uploading ==> (next
                matches GraphRun::Finished(r) && r == Err::<(), E>(e))
            &&& run is Recording ==> (next matches GraphRun::Ending(r) && r == Err::<(), E>(e))
        },
        event matches GraphEvent::Outcome(Ok(_)) ==> {
            &&& run is Replaying || run is Uploading ==> (next matches GraphRun::Finished(r) && r
                is Ok)
            &&& run is Beginning ==> next is Recording
            &&& run is Recording ==> (next matches GraphRun::Ending(r) && r is Ok)
        },
        event matches GraphEvent::Recorded(Err(e)) ==> (run is Ending ==> (next
            matches GraphRun::Finished(r) && r == Err::<(), E>(e))),
        event matches GraphEvent::Recorded(Ok(g)) ==> {
            &&& run matches GraphRun::Ending(Err(e)) ==> (next matches GraphRun::Finished(r) && r
                == Err::<(), E>(e))
            &&& run matches GraphRun::Ending(Ok(_)) ==> match g {
                Some(g) => next matches GraphRun::Uploading(h) && h == g,
                None => next matches GraphRun::Finished(r) && r is Ok,
            }
        },
{
}

/// The cache changes only where an upload succeeds: it then holds the uploaded graph for the
/// key of the step, and for every other key what it held.
pub proof fn law_cache_keeps_uploaded_graphs<G, E>(
    cache: &mut GraphCache<G>,
    key: u64,
    run: GraphRun<G, E>,
    event: GraphEvent<G, E>,
    next: GraphRun<G, E>,
    other: u64,
)
    requires
        call_ensures(GraphCache::<G>::step::<E>, (cache, key, run, event), next),
    ensures
        run matches GraphRun::Uploading(g) ==> (event matches GraphEvent::Outcome(Ok(_)) ==> {
            &&& final(cache)@.contains_key(key)
            &&& final(cache)@[key] == g
        }),
        !(run is Uploading && event matches GraphEvent::Outcome(Ok(_))) ==> {
            final(cache)@ == old(cache)@
        },
        other != key ==> {
            &&& final(cache)@.contains_key(other) == old(cache)@.contains_key(other)
            &&& final(cache)@[other] == old(cache)@[other]
        },
{
}

/// Forgetting the graph of a key leaves none for the key and all others as they were;
/// forgetting all leaves none for any key, and a new cache holds none.
pub proof fn law_forgotten_graphs<G>(
    one: &mut GraphCache<G>,
    all: &mut GraphCache<G>,
    new: GraphCache<G>,
    key: u64,
    other: u64,
)
    requires
        call_ensures(GraphCache::<G>::remove, (one, key), ()),
        call_ensures(GraphCache::<G>::clear, (all,), ()),
        call_ensures(GraphCache::<G>::new, (), new),
        other != key,
    ensures
        !final(one)@.contains_key(key),
        final(one)@.contains_key(other) == old(one)@.contains_key(other),
        old(one)@.contains_key(other) ==> final(one)@[other] == old(one)@[other],
        !final(all)@.contains_key(key),
        !new@.contains_key(key),
{
}

/// What a whole step comes to, by the outcomes of its actions, one after the other.
pub proof fn law_whole_step<G, E>(outcomes: StepOutcomes<G, E>, cache: Map<u64, G>, key: u64)
    ensures
        ({
            let (run, held) = outcomes.run(cache, key, 4);
            let o = outcomes;
            &&& cache.contains_key(key) ==> run == GraphRun::<G, E>::Finished(o.launch) && held
                == cache
            &&& !cache.contains_key(key) ==> match (o.begin, o.body, o.end, o.upload) {
                (Err(e), _, _, _) => run == GraphRun::<G, E>::Finished(Err(e)) && held == cache,
                (Ok(_), _, Err(e), _) => run == GraphRun::<G, E>::Finished(Err(e)) && held == cache,
                (Ok(_), Err(e), Ok(_), _) => {
                    &&& run == GraphRun::<G, E>::Finished(Err(e))
                    &&& held == cache
                },
                (Ok(_), Ok(_), Ok(None), _) => {
                    &&& run matches GraphRun::Finished(r) && r is Ok
                    &&& held == cache
                },
                (Ok(_), Ok(_), Ok(Some(_)), Err(e)) => {
                    &&& run == GraphRun::<G, E>::Finished(Err(e))
                    &&& held == cache
                },
                (Ok(_), Ok(_), Ok(Some(g)), Ok(_)) => {
                    &&& run matches GraphRun::Finished(r) && r is Ok
                    &&& held == cache.insert(key, g)
                },
            }
        }),
{
    reveal_with_fuel(StepOutcomes::run, 5);
}

/// A step that is over awaits nothing; the end of a recording is answered by what was
/// recorded, and every other action by its outcome.
pub proof fn law_awaited_events<G, E>(
    run: GraphRun<G, E>,
    event: GraphEvent<G, E>,
    action: GraphAction,
)
    requires
        call_ensures(GraphRun::<G, E>::action, (&run,), action),
    ensures
        run.awaits(event) <==> action != GraphAction::Nothing && (event is Recorded <==> action
            == GraphAction::EndCapture),
{
}

} // verus!
