//! Folding a whole sequence of decoded records into a final game state.

use vstd::prelude::*;

use crate::event::Chunk;
use crate::state::{initial_view, step_chunk, GameState, GameView, SimError};

verus! {

/// The state after every record of `chunks` in order, or the first fault raised.
pub open spec fn run(s: GameView, chunks: Seq<Chunk>) -> Result<GameView, SimError>
    decreases chunks.len(),
{
    if chunks.len() == 0 {
        Ok(s)
    } else {
        match step_chunk(s, chunks[0]) {
            Ok(t) => run(t, chunks.drop_first()),
            Err(e) => Err(e),
        }
    }
}

/// Running a sequence of records one after the other is running the first
/// part, then the second from where the first ended.
pub proof fn lemma_run_append(s: GameView, a: Seq<Chunk>, b: Seq<Chunk>)
    ensures
        run(s, a + b) == match run(s, a) {
            Ok(t) => run(t, b),
            Err(e) => Err(e),
        },
    decreases a.len(),
{
    if a.len() == 0 {
        assert(a + b =~= b);
    } else {
        assert((a + b).drop_first() =~= a.drop_first() + b);
        match step_chunk(s, a[0]) {
            Ok(t) => lemma_run_append(t, a.drop_first(), b),
            Err(e) => {},
        }
    }
}

/// Replays decoded records from the empty state; the final state, or the
/// first protocol fault met.
pub fn simulate(chunks: Vec<Chunk>) -> (r: Result<GameState, SimError>)
    ensures
        match run(initial_view(), chunks@) {
            Ok(v) => r matches Ok(g) && g@ == v && g.wf(),
            Err(e) => r matches Err(x) && x == e,
        },
{
    let ghost all = chunks@;
    let n = chunks.len();
    let mut rest = chunks;
    let mut rev: Vec<Chunk> = Vec::new();
    while rest.len() > 0
        invariant
            n == all.len(),
            all == chunks@,
            rest@.len() + rev@.len() == n,
            rest@ == all.subrange(0, rest@.len() as int),
            forall|j: int| 0 <= j < rev@.len() ==> rev@[j] == all[n - 1 - j],
        decreases rest@.len(),
    {
        match rest.pop() {
            Some(c) => rev.push(c),
            None => {},
        }
    }
    let mut state = GameState::new();
    while rev.len() > 0
        invariant
            n == all.len(),
            all == chunks@,
            rev@.len() <= n,
            forall|j: int| 0 <= j < rev@.len() ==> rev@[j] == all[n - 1 - j],
            state.wf(),
            run(initial_view(), all) == run(state@, all.subrange(n - rev@.len(), n as int)),
        decreases rev@.len(),
    {
        let ghost k = n - rev@.len();
        let c = match rev.pop() {
            Some(c) => c,
            None => return Ok(state),
        };
        assert(c == all[k]);
        assert(all.subrange(k, n as int).drop_first() =~= all.subrange(k + 1, n as int));
        assert(all.subrange(k, n as int)[0] == c);
        let ghost before = state@;
        state = match state.apply(c) {
            Ok(g) => g,
            Err(e) => {
                assert(run(before, all.subrange(k, n as int)) == Err::<GameView, SimError>(e));
                return Err(e);
            },
        };
    }
    assert(all.subrange(n as int, n as int) =~= Seq::<Chunk>::empty());
    Ok(state)
}

} // verus!
