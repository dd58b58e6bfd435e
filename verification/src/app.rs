//! Driving a whole event stream through an engine.
//!
//! The surrounding reader turns rows into events and hands the stream
//! here; this module applies it in order and reports each event's
//! outcome, so the caller can log partner errors and carry on.

use vstd::prelude::*;

use crate::engine::errors::EngineError;
use crate::engine::events::Event;
use crate::engine::machine::apply_post;
use crate::engine::machine::Engine;
use crate::ledger::Ledger;

verus! {

/// The engines `states` link `pre` to `post` by applying `events` one
/// by one, with `results` the outcome of each application.
pub open spec fn applied_chain<L: Ledger>(
    pre: Engine<L>,
    post: Engine<L>,
    states: Seq<Engine<L>>,
    events: Seq<Event>,
    results: Seq<Result<(), EngineError>>,
) -> bool {
    &&& states.len() == events.len() + 1
    &&& states[0] == pre
    &&& states[events.len() as int] == post
    &&& results.len() == events.len()
    &&& forall|i: int|
        0 <= i < events.len() ==> #[trigger] apply_post(
            states[i],
            states[i + 1],
            events[i],
            results[i],
        )
}

/// The stream driver.
pub struct App {}

impl App {
    /// A fresh driver.
    pub fn new() -> (r: Self) {
        App {}
    }

    /// Applies `events` to the engine in order and returns the outcome
    /// of each one, so the caller can report partner errors and carry
    /// on. Stops early, with the flag set, before the first event that
    /// would push a balance beyond the representable maximum.
    pub fn process_events<L: Ledger>(
        &self,
        engine: &mut Engine<L>,
        events: &Vec<Event>,
    ) -> (r: (Vec<Result<(), EngineError>>, bool))
        requires
            old(engine).inv(),
        ensures
            final(engine).inv(),
            r.0@.len() <= events@.len(),
            !r.1 ==> r.0@.len() == events@.len(),
            r.1 ==> r.0@.len() < events@.len() && !final(engine).fits(
                events@[r.0@.len() as int],
            ),
            exists|states: Seq<Engine<L>>| #[trigger] applied_chain(
                *old(engine),
                *final(engine),
                states,
                events@.take(r.0@.len() as int),
                r.0@,
            ),
    {
        let mut results: Vec<Result<(), EngineError>> = Vec::new();
        let mut overflow = false;
        let mut idx: usize = 0;
        let ghost mut states: Seq<Engine<L>> = seq![*engine];
        while idx < events.len() && !overflow
            invariant
                engine.inv(),
                idx <= events@.len(),
                results@.len() == idx,
                states.len() == idx + 1,
                states[0] == *old(engine),
                states[idx as int] == *engine,
                forall|i: int|
                    0 <= i < idx as int ==> #[trigger] apply_post(
                        states[i],
                        states[i + 1],
                        events@[i],
                        results@[i],
                    ),
                overflow ==> idx < events@.len() && !engine.fits(events@[idx as int]),
            decreases events@.len() - idx, (if overflow {
                0int
            } else {
                1int
            }),
        {
            let event = events[idx];
            if !engine.event_fits(&event) {
                overflow = true;
            } else {
                let outcome = engine.apply(event);
                results.push(outcome);
                proof {
                    states = states.push(*engine);
                }
                idx += 1;
            }
        }
        proof {
            assert(events@.take(idx as int) =~= events@.subrange(0, idx as int));
            assert forall|i: int|
                0 <= i < idx as int implies #[trigger] apply_post(
                states[i],
                states[i + 1],
                events@.take(idx as int)[i],
                results@[i],
            ) by {
                assert(events@.take(idx as int)[i] == events@[i]);
            }
            assert(applied_chain(
                *old(engine),
                *engine,
                states,
                events@.take(idx as int),
                results@,
            ));
        }
        (results, overflow)
    }
}

} // verus!
