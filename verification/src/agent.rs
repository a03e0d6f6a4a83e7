//! The agent's streaming pipeline: frame decoding, event parsing, the
//! conversation reducer, and the bounded round loop.
pub mod events;
pub mod handler;
pub mod stream;

use vstd::prelude::*;

verus! {

/// One request/stream/reduce cycle is a round; a run performs rounds
/// until a round requests no tool call, or the hard ceiling is reached.
pub struct AgentLoop {
    rounds_used: u64,
    max_rounds: u64,
    done: bool,
}

/// Ghost model of the loop state.
pub struct AgentLoopModel {
    pub rounds_used: nat,
    pub max_rounds: nat,
    pub done: bool,
}

impl View for AgentLoop {
    type V = AgentLoopModel;

    closed spec fn view(&self) -> AgentLoopModel {
        AgentLoopModel {
            rounds_used: self.rounds_used as nat,
            max_rounds: self.max_rounds as nat,
            done: self.done,
        }
    }
}

/// The loop state as it stands before any round has run.
pub open spec fn loop_init(max_rounds: nat) -> AgentLoopModel {
    AgentLoopModel { rounds_used: 0, max_rounds, done: false }
}

/// How finishing one round changes the loop state: the round is counted,
/// and a round without tool calls ends the run.
pub open spec fn loop_step(m: AgentLoopModel, had_tool_calls: bool) -> AgentLoopModel {
    AgentLoopModel {
        rounds_used: m.rounds_used + 1,
        max_rounds: m.max_rounds,
        done: m.done || !had_tool_calls,
    }
}

/// The loop never counts more rounds than its ceiling allows.
pub open spec fn loop_inv(m: AgentLoopModel) -> bool {
    m.rounds_used <= m.max_rounds
}

impl AgentLoop {
    pub fn new(max_rounds: u64) -> (r: Self)
        ensures
            r@ == loop_init(max_rounds as nat),
            loop_inv(r@),
    {
        AgentLoop { rounds_used: 0, max_rounds, done: false }
    }

    /// Whether another streaming request may be issued: the run is not
    /// done and the round ceiling has not been reached.
    pub fn should_request(&self) -> (r: bool)
        ensures
            r == (!self@.done && self@.rounds_used < self@.max_rounds),
    {
        !self.done && self.rounds_used < self.max_rounds
    }

    /// Record the outcome of one finished round.
    pub fn round_done(&mut self, had_tool_calls: bool)
        requires
            old(self)@.rounds_used < old(self)@.max_rounds,
        ensures
            final(self)@ == loop_step(old(self)@, had_tool_calls),
            loop_inv(old(self)@) ==> loop_inv(final(self)@),
    {
        self.rounds_used = self.rounds_used + 1;
        if !had_tool_calls {
            self.done = true;
        }
    }

    pub fn rounds_used(&self) -> (r: u64)
        ensures
            r as nat == self@.rounds_used,
    {
        self.rounds_used
    }

    pub fn is_done(&self) -> (r: bool)
        ensures
            r == self@.done,
    {
        self.done
    }
}

/// A whole run of the loop against a script: each element of `outcomes`
/// says whether the corresponding round requested a tool call, and the
/// run stops when a round requests none or the ceiling is reached.
pub open spec fn loop_run(m: AgentLoopModel, outcomes: Seq<bool>) -> AgentLoopModel
    decreases outcomes.len(),
{
    if outcomes.len() == 0 || m.done || m.rounds_used >= m.max_rounds {
        m
    } else {
        loop_run(loop_step(m, outcomes[0]), outcomes.drop_first())
    }
}

/// However many tool calls a server keeps requesting, a run of the loop
/// never performs more than `max_rounds` rounds.
pub proof fn lemma_round_ceiling(m: AgentLoopModel, outcomes: Seq<bool>)
    requires
        loop_inv(m),
    ensures
        loop_inv(loop_run(m, outcomes)),
        loop_run(m, outcomes).max_rounds == m.max_rounds,
    decreases outcomes.len(),
{
    if !(outcomes.len() == 0 || m.done || m.rounds_used >= m.max_rounds) {
        lemma_round_ceiling(loop_step(m, outcomes[0]), outcomes.drop_first());
    }
}

/// A run whose first round requests one tool call and whose second round
/// requests none performs exactly two rounds and ends done, whatever the
/// script would have offered afterwards.
pub proof fn lemma_two_round_run(max_rounds: nat, outcomes: Seq<bool>)
    requires
        max_rounds >= 2,
        outcomes.len() >= 2,
        outcomes[0] == true,
        outcomes[1] == false,
    ensures
        loop_run(loop_init(max_rounds), outcomes).done,
        loop_run(loop_init(max_rounds), outcomes).rounds_used == 2,
{
    let m0 = loop_init(max_rounds);
    let m1 = loop_step(m0, true);
    let m2 = loop_step(m1, false);
    assert(loop_run(m0, outcomes) == loop_run(m1, outcomes.drop_first()));
    assert(outcomes.drop_first()[0] == false);
    assert(loop_run(m1, outcomes.drop_first()) == loop_run(
        m2,
        outcomes.drop_first().drop_first(),
    ));
    assert(m2.done);
}

} // verus!
