//! The decisions of the test controller.
//!
//! The controller runs one test: it walks the test through its states,
//! accounts for the data streams and gathers their results. The program that
//! drives it performs the actions that it returns (sending on the control
//! socket, connecting and starting streams) and hands back what happened.
use crate::common::control::{
    ClientMessage,
    NetperfError,
    ServerMessage,
    State,
    StreamStats,
    TestResults,
};
use crate::common::data::Role;
use crate::common::perf_test::{spec_stream_sends, PerfTest, StreamAssignment};
use std::collections::HashMap;
use vstd::prelude::*;

verus! {

broadcast use vstd::std_specs::hash::group_hash_axioms;

/// What the controller does next, at the head of its loop.
#[derive(Debug)]
pub enum ControllerAction {
    /// Enter this state (a server announces it to the client first), then
    /// decide again.
    SetState(State),
    /// Connect data streams to the server until all of them exist.
    CreateStreams,
    /// Print the report header and tell every stream to start the load.
    StartLoad,
    /// Tell every stream to terminate, collect the results, exchange them
    /// with the peer, print them and end the test.
    FinishTest,
    /// Nothing to do but to wait for the next event.
    Wait,
}

/// The decision at the head of the controller loop, from the current state,
/// the state seen at the previous turn, the role and the test's cookie.
pub open spec fn spec_next_action(state: State, old_state: State, role: Role, cookie: String) -> ControllerAction {
    match state {
        State::TestStart => if role == Role::Server {
            ControllerAction::SetState(State::CreateStreams { cookie })
        } else {
            ControllerAction::Wait
        },
        State::CreateStreams { .. } => if role == Role::Client {
            ControllerAction::CreateStreams
        } else {
            ControllerAction::Wait
        },
        State::Running => if !(old_state is Running) {
            ControllerAction::StartLoad
        } else {
            ControllerAction::Wait
        },
        State::ExchangeResults => ControllerAction::FinishTest,
        State::DisplayResults => ControllerAction::Wait,
    }
}

/// The load starts once per entry into `Running`: the turn that starts it
/// marks `Running` as seen, so the next turn in `Running` only waits.
pub proof fn lemma_start_load_once(old_state: State, role: Role, cookie: String)
    ensures
        spec_next_action(State::Running, old_state, role, cookie) is StartLoad <==> !(old_state is Running),
        spec_next_action(State::Running, State::Running, role, cookie) is Wait,
{
}

/// The load starts only in `Running`, and only on entering it: a server
/// that waits for its data streams (in `CreateStreams`) only waits, whatever
/// it saw before, and no other state ever starts the load.
pub proof fn lemma_load_starts_only_when_running(s: State, old_state: State, role: Role, cookie: String)
    ensures
        spec_next_action(s, old_state, role, cookie) is StartLoad ==> (s is Running && !(old_state is Running)),
        s is CreateStreams ==> spec_next_action(s, old_state, Role::Server, cookie) is Wait,
        s is CreateStreams ==> spec_next_action(s, old_state, Role::Client, cookie) is CreateStreams,
{
}

/// Only the server opens a test: in `TestStart` it asks the client for data
/// streams, authenticated by the test's cookie, while a client waits to be
/// told; only the client connects streams; every role finishes in
/// `ExchangeResults`.
pub proof fn lemma_roles_in_the_life_cycle(old_state: State, cookie: String, s: State)
    ensures
        spec_next_action(State::TestStart, old_state, Role::Server, cookie)
            == ControllerAction::SetState(State::CreateStreams { cookie }),
        spec_next_action(State::TestStart, old_state, Role::Client, cookie) is Wait,
        (spec_next_action(s, old_state, Role::Server, cookie) is CreateStreams) == false,
        spec_next_action(State::ExchangeResults, old_state, Role::Server, cookie) is FinishTest,
        spec_next_action(State::ExchangeResults, old_state, Role::Client, cookie) is FinishTest,
{
}

/// The results map after recording the outcomes of streams, in order: a
/// stream that ended with stats has them recorded, one that failed is skipped.
pub open spec fn spec_record_outcomes(
    results: Map<usize, StreamStats>,
    outcomes: Seq<(usize, Option<StreamStats>)>,
) -> Map<usize, StreamStats>
    decreases outcomes.len(),
{
    if outcomes.len() == 0 {
        results
    } else {
        let last = outcomes.last();
        let before = spec_record_outcomes(results, outcomes.drop_last());
        match last.1 {
            Some(s) => before.insert(last.0, s),
            None => before,
        }
    }
}

/// Whether the outcome at `i` is the last one that carries stats for its
/// stream.
pub open spec fn last_stats_for(outcomes: Seq<(usize, Option<StreamStats>)>, i: int) -> bool {
    &&& 0 <= i < outcomes.len()
    &&& outcomes[i].1 is Some
    &&& forall|j: int|
        #![trigger outcomes[j]]
        i < j < outcomes.len() ==> outcomes[j].0 != outcomes[i].0 || outcomes[j].1 is None
}

/// Whether some outcome carries stats for stream `id`.
pub open spec fn has_stats_for(outcomes: Seq<(usize, Option<StreamStats>)>, id: usize) -> bool {
    exists|i: int| 0 <= i < outcomes.len() && #[trigger] outcomes[i].0 == id && outcomes[i].1 is Some
}

/// Recording outcomes keeps every stream that ended with stats: its stats
/// are the last ones reported for it; the recorded streams are the old ones
/// and those that ended with stats; a stream with no stats keeps what it had.
pub proof fn lemma_every_result_recorded(
    results: Map<usize, StreamStats>,
    outcomes: Seq<(usize, Option<StreamStats>)>,
)
    ensures
        forall|i: int|
            #[trigger] last_stats_for(outcomes, i) ==> spec_record_outcomes(results, outcomes).contains_key(
                outcomes[i].0,
            ) && spec_record_outcomes(results, outcomes)[outcomes[i].0] == outcomes[i].1->0,
        forall|id: usize|
            #[trigger] spec_record_outcomes(results, outcomes).contains_key(id) <==> (
            results.contains_key(id) || has_stats_for(outcomes, id)),
        forall|id: usize|
            !has_stats_for(outcomes, id) && #[trigger] results.contains_key(id) ==> spec_record_outcomes(
                results,
                outcomes,
            )[id] == results[id],
    decreases outcomes.len(),
{
    if outcomes.len() > 0 {
        let prev = outcomes.drop_last();
        let last = outcomes.last();
        let n = outcomes.len() - 1;
        lemma_every_result_recorded(results, prev);
        let before = spec_record_outcomes(results, prev);
        let after = spec_record_outcomes(results, outcomes);
        assert forall|i: int| #[trigger] last_stats_for(outcomes, i) implies after.contains_key(
            outcomes[i].0,
        ) && after[outcomes[i].0] == outcomes[i].1->0 by {
            if i < n {
                assert(prev[i] == outcomes[i]);
                assert forall|j: int| i < j < prev.len() implies prev[j].0 != prev[i].0
                    || prev[j].1 is None by {
                    assert(prev[j] == outcomes[j]);
                }
                assert(last_stats_for(prev, i));
                assert(outcomes[n] == last);
            }
        }
        assert forall|id: usize| #[trigger] after.contains_key(id) <==> (results.contains_key(id)
            || has_stats_for(outcomes, id)) by {
            if has_stats_for(prev, id) {
                let i = choose|i: int| 0 <= i < prev.len() && #[trigger] prev[i].0 == id && prev[i].1 is Some;
                assert(outcomes[i] == prev[i]);
            }
            if has_stats_for(outcomes, id) {
                let i = choose|i: int| 0 <= i < outcomes.len() && #[trigger] outcomes[i].0 == id && outcomes[i].1 is Some;
                if i < n {
                    assert(prev[i] == outcomes[i]);
                }
            }
            if last.1 is Some && last.0 == id {
                assert(outcomes[n] == last);
            }
        }
        assert forall|id: usize| !has_stats_for(outcomes, id) && #[trigger] results.contains_key(id)
            implies after[id] == results[id] by {
            if has_stats_for(prev, id) {
                let i = choose|i: int| 0 <= i < prev.len() && #[trigger] prev[i].0 == id && prev[i].1 is Some;
                assert(outcomes[i] == prev[i]);
            }
            if last.1 is Some && last.0 == id {
                assert(outcomes[n] == last);
            }
        }
    }
}

/// The test controller: the test, the state it saw last and the results of
/// the streams that have ended.
pub struct TestController {
    pub test: PerfTest,
    pub stream_results: HashMap<usize, StreamStats>,
    pub old_state: State,
}

impl TestController {
    /// The test is well formed.
    pub open spec fn wf(&self) -> bool {
        self.test.wf()
    }

    /// A controller for `test`, with no results yet.
    pub fn new(test: PerfTest) -> (c: Self)
        requires
            test.wf(),
        ensures
            c.wf(),
            c.test == test,
            c.old_state == test.state,
            c.stream_results@ == Map::<usize, StreamStats>::empty(),
    {
        let old_state = test.get_state_clone();
        TestController { test, stream_results: HashMap::new(), old_state }
    }

    /// Decides the next step from the current state. Every decision but
    /// `SetState` marks the current state as seen.
    pub fn next_action(&mut self) -> (a: ControllerAction)
        requires
            old(self).wf(),
        ensures
            final(self).wf(),
            a == spec_next_action(
                old(self).test.state,
                old(self).old_state,
                old(self).test.role,
                old(self).test.cookie,
            ),
            a is StartLoad ==> old(self).test.state is Running && !(old(self).old_state is Running),
            (old(self).test.state is CreateStreams && old(self).test.role == Role::Server) ==> a is Wait,
            final(self).test == old(self).test,
            final(self).stream_results@ == old(self).stream_results@,
            final(self).old_state == (if a is SetState {
                old(self).old_state
            } else {
                old(self).test.state
            }),
    {
        let state = self.test.get_state_clone();
        let role = self.test.role;
        let action = match &state {
            State::TestStart => if role == Role::Server {
                ControllerAction::SetState(State::CreateStreams { cookie: self.test.cookie.clone() })
            } else {
                ControllerAction::Wait
            },
            State::CreateStreams { .. } => if role == Role::Client {
                ControllerAction::CreateStreams
            } else {
                ControllerAction::Wait
            },
            State::Running => if !self.old_state.is_running() {
                ControllerAction::StartLoad
            } else {
                ControllerAction::Wait
            },
            State::ExchangeResults => ControllerAction::FinishTest,
            State::DisplayResults => ControllerAction::Wait,
        };
        match action {
            ControllerAction::SetState(_) => {},
            _ => {
                self.old_state = state;
            },
        }
        action
    }

    /// Whether the client still has data streams to connect.
    pub fn needs_more_streams(&self) -> (b: bool)
        requires
            self.wf(),
            self.test.spec_total() <= u16::MAX,
        ensures
            b == (self.test.streams@.len() < self.test.spec_total()),
    {
        self.test.streams.len() < self.test.total_streams()
    }

    /// On the server: registers a data stream that the client connected and
    /// authenticated. Once all streams are there, the test moves to `Running`.
    pub fn accept_stream(&mut self) -> (res: (StreamAssignment, Option<State>))
        requires
            old(self).wf(),
            old(self).test.role == Role::Server,
            old(self).test.spec_total() <= u16::MAX,
        ensures
            final(self).wf(),
            res.0.id == old(self).test.streams@.len(),
            res.0.is_sending == spec_stream_sends(
                old(self).test.role,
                old(self).test.params,
                res.0.id as int,
            ),
            final(self).test.streams@ == old(self).test.streams@.insert(res.0.id),
            res.1 is Some <==> final(self).test.streams@.len() == old(self).test.spec_total(),
            res.1 matches Some(s) ==> s is Running,
            final(self).test.state == old(self).test.state,
            final(self).test.params == old(self).test.params,
            final(self).test.role == old(self).test.role,
            final(self).stream_results@ == old(self).stream_results@,
            final(self).old_state == old(self).old_state,
    {
        let total_needed_streams = self.test.total_streams();
        let assignment = self.test.register_stream();
        if self.test.streams.len() == total_needed_streams {
            (assignment, Some(State::Running))
        } else {
            (assignment, None)
        }
    }

    /// On the client: registers a data stream that it connected.
    pub fn register_stream(&mut self) -> (a: StreamAssignment)
        requires
            old(self).wf(),
        ensures
            final(self).wf(),
            a.id == old(self).test.streams@.len(),
            a.is_sending == spec_stream_sends(old(self).test.role, old(self).test.params, a.id as int),
            final(self).test.streams@ == old(self).test.streams@.insert(a.id),
            final(self).test.state == old(self).test.state,
            final(self).test.params == old(self).test.params,
            final(self).test.role == old(self).test.role,
            final(self).stream_results@ == old(self).stream_results@,
            final(self).old_state == old(self).old_state,
    {
        self.test.register_stream()
    }

    /// A data stream ended; `outcome` holds its stats if it was registered
    /// and ended well. When the last stream of a server ends, the test moves
    /// on to exchanging results.
    pub fn on_stream_terminated(&mut self, id: usize, outcome: Option<StreamStats>) -> (next: Option<
        State,
    >)
        requires
            old(self).wf(),
        ensures
            final(self).wf(),
            final(self).test.streams@ == old(self).test.streams@.remove(id),
            final(self).stream_results@ == (if old(self).test.streams@.contains(id)
                && outcome is Some {
                old(self).stream_results@.insert(id, outcome->0)
            } else {
                old(self).stream_results@
            }),
            next is Some <==> (final(self).test.streams@.is_empty() && old(self).test.role
                == Role::Server),
            next matches Some(s) ==> s is ExchangeResults,
            final(self).test.state == old(self).test.state,
            final(self).test.params == old(self).test.params,
            final(self).test.role == old(self).test.role,
            final(self).old_state == old(self).old_state,
    {
        let was_present = self.test.remove_stream(id);
        if was_present {
            match outcome {
                Some(stats) => {
                    self.stream_results.insert(id, stats);
                },
                None => {},
            }
        }
        if self.test.streams.is_empty() && self.test.role == Role::Server {
            Some(State::ExchangeResults)
        } else {
            None
        }
    }

    /// Joins all remaining streams: records the stats of those that ended
    /// well, forgets all of them, and returns all results gathered so far.
    pub fn collect_test_result(&mut self, outcomes: Vec<(usize, Option<StreamStats>)>) -> (res:
        TestResults)
        requires
            old(self).wf(),
        ensures
            final(self).wf(),
            final(self).test.streams@ == Set::<usize>::empty(),
            final(self).stream_results@ == spec_record_outcomes(
                old(self).stream_results@,
                outcomes@,
            ),
            res.streams@ == final(self).stream_results@,
            forall|i: int|
                #[trigger] last_stats_for(outcomes@, i) ==> res.streams@.contains_key(outcomes@[i].0)
                    && res.streams@[outcomes@[i].0] == outcomes@[i].1->0,
            forall|id: usize|
                #[trigger] res.streams@.contains_key(id) <==> (old(self).stream_results@.contains_key(id)
                    || has_stats_for(outcomes@, id)),
            final(self).test.state == old(self).test.state,
            final(self).test.params == old(self).test.params,
            final(self).test.role == old(self).test.role,
            final(self).old_state == old(self).old_state,
    {
        let n = outcomes.len();
        let mut i: usize = 0;
        while i < n
            invariant
                n == outcomes@.len(),
                i <= n,
                self.stream_results@ == spec_record_outcomes(
                    old(self).stream_results@,
                    outcomes@.take(i as int),
                ),
                self.test == old(self).test,
                self.old_state == old(self).old_state,
            decreases n - i,
        {
            let (id, outcome) = outcomes[i];
            assert(outcomes@.take(i as int + 1).drop_last() =~= outcomes@.take(i as int));
            match outcome {
                Some(stats) => {
                    self.stream_results.insert(id, stats);
                },
                None => {},
            }
            i = i + 1;
        }
        assert(outcomes@.take(n as int) =~= outcomes@);
        proof {
            lemma_every_result_recorded(old(self).stream_results@, outcomes@);
        }
        self.test.streams.clear();
        TestResults { streams: self.stream_results.clone() }
    }

    /// What the client makes of a message on the control socket while the
    /// test runs: a state change is entered, any other message is handed
    /// back as unexpected, and a broken control socket ends the test.
    pub fn process_server_message(&mut self, message: Result<ServerMessage, NetperfError>) -> (res:
        Result<Option<ServerMessage>, NetperfError>)
        requires
            old(self).wf(),
        ensures
            final(self).wf(),
            final(self).test.streams@ == old(self).test.streams@,
            final(self).test.params == old(self).test.params,
            final(self).test.role == old(self).test.role,
            final(self).stream_results@ == old(self).stream_results@,
            final(self).old_state == old(self).old_state,
            match message {
                Err(e) => res matches Err(NetperfError::Context(_, inner)) && *inner == e
                    && final(self).test.state == old(self).test.state,
                Ok(ServerMessage::SetState(s)) => res == Ok::<
                    Option<ServerMessage>,
                    NetperfError,
                >(None) && final(self).test.state == s,
                Ok(m) => res == Ok::<Option<ServerMessage>, NetperfError>(Some(m))
                    && final(self).test.state == old(self).test.state,
            },
    {
        match message {
            Err(e) => Err(
                NetperfError::Context(String::from_str("Server terminated!"), Box::new(e)),
            ),
            Ok(ServerMessage::SetState(state)) => {
                self.test.set_state(state);
                Ok(None)
            },
            Ok(m) => Ok(Some(m)),
        }
    }
}

/// What the client expects from the server when results are exchanged.
pub fn expect_server_results(message: ServerMessage) -> (res: Result<TestResults, NetperfError>)
    ensures
        match message {
            ServerMessage::SendResults(r) => res matches Ok(got) && got.streams@ == r.streams@,
            m => res == Err::<TestResults, NetperfError>(NetperfError::UnexpectedServerMessage(m)),
        },
{
    match message {
        ServerMessage::SendResults(results) => Ok(results),
        m => Err(NetperfError::UnexpectedServerMessage(m)),
    }
}

/// What the server expects from the client when results are exchanged.
pub fn expect_client_results(message: ClientMessage) -> (res: Result<TestResults, NetperfError>)
    ensures
        match message {
            ClientMessage::SendResults(r) => res matches Ok(got) && got.streams@ == r.streams@,
            m => res == Err::<TestResults, NetperfError>(NetperfError::UnexpectedClientMessage(m)),
        },
{
    match message {
        ClientMessage::SendResults(results) => Ok(results),
        m => Err(NetperfError::UnexpectedClientMessage(m)),
    }
}

} // verus!
