//! What a quorum is, and what the swarm decides, from what was observed.
//!
//! The laws here speak of the votes and failures themselves: which vehicles voted for the
//! mission that they are to fly, and which are gone. They say in plain numbers when the
//! swarm starts, holds and aborts.
use vstd::prelude::*;
use crate::config;
use crate::consensus::{
    QuorumPolicy, ReadinessVote, ReadinessVoteView, SwarmDecision, SwarmDecisionView, TrackerView,
    VoteOutcome, VoteOutcomeView,
};
use crate::mavlink_client::SwarmErrorView;
use crate::names;
use crate::text;

verus! {

/// Whether `ready` of `total` vehicles are enough.
pub open spec fn enough(policy: QuorumPolicy, ready: nat, total: nat) -> bool {
    match policy {
        QuorumPolicy::RequireAll => ready >= total,
        QuorumPolicy::Majority => 2 * ready > total,
        QuorumPolicy::AtLeast(count) => ready >= count || ready >= total,
    }
}

/// The number of votes that a policy needs is the least that is enough: all of the vehicles,
/// more than half of them, or the configured count where there are as many vehicles, and
/// otherwise all.
pub proof fn law_threshold_is_the_least_that_is_enough(
    policy: QuorumPolicy,
    total: nat,
    ready: nat,
)
    ensures
        policy is RequireAll ==> policy.required(total) == total,
        policy is Majority ==> 2 * policy.required(total) > total && 2 * (policy.required(total)
            - 1) <= total,
        policy matches QuorumPolicy::AtLeast(count) ==> {
            &&& count <= total ==> policy.required(total) == count
            &&& count >= total ==> policy.required(total) == total
        },
        ready >= policy.required(total) <==> enough(policy, ready, total),
{
}

/// Asking for more vehicles never lowers the number of votes that are needed, and neither do
/// more vehicles.
pub proof fn law_threshold_grows(policy: QuorumPolicy, total: nat, more: nat, a: usize, b: usize)
    requires
        total <= more,
        a <= b,
    ensures
        policy.required(total) <= policy.required(more),
        QuorumPolicy::AtLeast(a).required(total) <= QuorumPolicy::AtLeast(b).required(total),
        QuorumPolicy::AtLeast(a).required(total) <= QuorumPolicy::RequireAll.required(total),
{
}

/// A policy is shown with its word, the number of votes that it needs, and the number of
/// vehicles.
pub proof fn law_policies_are_shown_with_their_numbers(policy: QuorumPolicy, total: nat)
    ensures
        ({
            let numbers = text::decimal(policy.required(total)) + "/"@ + text::decimal(total)
                + ")"@;
            &&& policy is RequireAll ==> policy.shown(total) == "require_all ("@ + numbers
            &&& policy is Majority ==> policy.shown(total) == "majority ("@ + numbers
            &&& policy is AtLeast ==> policy.shown(total) == "at_least ("@ + numbers
        }),
{
    let numbers = text::decimal(policy.required(total)) + "/"@ + text::decimal(total) + ")"@;
    let word = match policy {
        QuorumPolicy::RequireAll => "require_all ("@,
        QuorumPolicy::Majority => "majority ("@,
        QuorumPolicy::AtLeast(n) => "at_least ("@,
    };
    assert(policy.shown(total) =~= word + numbers);
}

/// A tracker's numbers are those of the vehicles that it expects.
pub proof fn law_tracker_counts_its_vehicles(t: TrackerView)
    ensures
        t.total() == t.expected.dom().len(),
        t.threshold() == t.policy.required(t.expected.dom().len()),
        t.policy_label() == t.policy.shown(t.expected.dom().len()),
{
}

/// A vote is a duplicate exactly if one of that vehicle was accepted before; otherwise it is
/// accepted exactly if the vehicle is expected and the vote names the mission that it is to
/// fly. An accepted vote is told how many there now are and how many are needed.
pub proof fn law_votes_are_judged_by_vehicle_and_mission(t: TrackerView, vote: ReadinessVoteView)
    ensures
        t.outcome(vote) is Duplicate <==> t.votes.contains_key(vote.vehicle),
        t.outcome(vote) is Accepted <==> !t.votes.contains_key(vote.vehicle)
            && t.expected.contains_key(vote.vehicle) && t.expected[vote.vehicle]
            == vote.mission_hash,
        t.votes.dom().finite() ==> (t.outcome(vote) matches VoteOutcomeView::Accepted {
            ready_count,
            threshold,
        } ==> ready_count == t.after_vote(vote).votes.len() && threshold == t.policy.required(
            t.expected.len(),
        )),
        t.outcome(vote) matches VoteOutcomeView::Rejected { reason } ==> {
            &&& t.after_vote(vote).rejected.contains_key(vote.vehicle)
            &&& t.after_vote(vote).rejected[vote.vehicle] == reason
            &&& !t.expected.contains_key(vote.vehicle) ==> reason == vote.vehicle
                + " is not part of this mission phase"@
            &&& t.expected.contains_key(vote.vehicle) ==> reason == vote.vehicle
                + " reported mission hash "@ + vote.mission_hash + ", expected "@
                + t.expected[vote.vehicle]
        },
{
}

/// A vote changes only what is known of its own vehicle, and a failure too; neither changes
/// what is expected, nor the policy.
pub proof fn law_observations_change_their_vehicle_only(
    t: TrackerView,
    vote: ReadinessVoteView,
    vehicle: Seq<char>,
    error: Seq<char>,
    other: Seq<char>,
)
    ensures
        ({
            let voted = t.after_vote(vote);
            &&& voted.policy == t.policy
            &&& voted.expected == t.expected
            &&& voted.failed == t.failed
            &&& other != vote.vehicle ==> {
                &&& voted.votes.contains_key(other) == t.votes.contains_key(other)
                &&& voted.votes[other] == t.votes[other]
                &&& voted.rejected.contains_key(other) == t.rejected.contains_key(other)
                &&& voted.rejected[other] == t.rejected[other]
            }
            &&& t.outcome(vote) is Accepted ==> {
                &&& voted.votes.contains_key(vote.vehicle)
                &&& voted.votes[vote.vehicle] == vote
                &&& voted.rejected == t.rejected
            }
            &&& !(t.outcome(vote) is Accepted) ==> voted.votes == t.votes
            &&& t.outcome(vote) is Duplicate ==> voted == t
        }),
        ({
            let failed = t.after_failure(vehicle, error);
            &&& failed.policy == t.policy
            &&& failed.expected == t.expected
            &&& failed.votes == t.votes
            &&& failed.rejected == t.rejected
            &&& failed.failed.contains_key(vehicle)
            &&& failed.failed[vehicle] == error
            &&& other != vehicle ==> failed.failed.contains_key(other) == t.failed.contains_key(
                other,
            ) && failed.failed[other] == t.failed[other]
        }),
{
}

/// A vehicle is lost exactly if it is expected, and it failed, or its votes were rejected and
/// none was accepted.
pub proof fn law_who_is_lost(t: TrackerView, vehicle: Seq<char>)
    ensures
        t.lost().contains(vehicle) <==> t.expected.contains_key(vehicle) && (
        t.failed.contains_key(vehicle) || (t.rejected.contains_key(vehicle)
            && !t.votes.contains_key(vehicle))),
{
}

/// The swarm starts exactly if enough valid votes are there; otherwise it aborts exactly if
/// the vehicles that are not lost are not enough, and else it holds.
pub proof fn law_decision_follows_the_numbers(t: TrackerView)
    requires
        t.inv(),
    ensures
        ({
            let total = t.expected.dom().len();
            let reach = t.expected.dom().difference(t.lost()).len();
            let ready = t.votes.dom().len();
            &&& t.decision() is Start <==> enough(t.policy, ready, total)
            &&& t.decision() is Abort <==> !enough(t.policy, ready, total) && !enough(
                t.policy,
                reach,
                total,
            )
            &&& t.decision() is Hold <==> !enough(t.policy, ready, total) && enough(
                t.policy,
                reach,
                total,
            )
        }),
{
    let expected = t.expected.dom();
    let lost = t.lost();
    vstd::set_lib::lemma_set_disjoint_lens(expected.difference(lost), lost);
    assert(expected.difference(lost).union(lost) =~= expected);
    law_threshold_is_the_least_that_is_enough(t.policy, expected.len(), t.votes.dom().len());
    law_threshold_is_the_least_that_is_enough(
        t.policy,
        expected.len(),
        expected.difference(lost).len(),
    );
}

/// The reason of a decision tells the number of valid votes, the number that is needed, and,
/// for an abort, the number that is still possible.
pub proof fn law_reasons_tell_the_numbers(t: TrackerView)
    requires
        t.inv(),
    ensures
        ({
            let ready = text::decimal(t.votes.dom().len());
            let need = text::decimal(t.policy.required(t.expected.dom().len()));
            let reach = text::decimal(t.expected.dom().difference(t.lost()).len());
            let label = t.policy.shown(t.expected.dom().len());
            &&& t.decision() matches SwarmDecisionView::Start { participants, reason } ==> reason
                == ready + " valid readiness votes satisfy "@ + label && t.decision().reason()
                == reason
            &&& t.decision() matches SwarmDecisionView::Abort { reason } ==> reason
                == "quorum impossible: "@ + ready + " valid votes, at most "@ + reach
                + " possible, need "@ + need + " ("@ + label + ")"@ && t.decision().reason()
                == reason
            &&& t.decision() matches SwarmDecisionView::Hold { reason } ==> reason
                == "waiting for readiness: "@ + ready + " valid votes, need "@ + need + " ("@
                + label + ")"@ && t.decision().reason() == reason
        }),
{
    let expected = t.expected.dom();
    let lost = t.lost();
    vstd::set_lib::lemma_set_disjoint_lens(expected.difference(lost), lost);
    assert(expected.difference(lost).union(lost) =~= expected);
}

/// Something that a tracker observes.
pub enum Observation {
    Vote(ReadinessVoteView),
    Failure { vehicle: Seq<char>, error: Seq<char> },
}

/// What one can look for among observations.
pub enum Sought {
    /// A vote of this vehicle.
    VoteOf(Seq<char>),
    /// A vote of this vehicle for the mission with this hash.
    VoteFor(Seq<char>, Seq<char>),
    /// A failure of this vehicle.
    FailureOf(Seq<char>),
}

/// Whether an observation is what is sought.
pub open spec fn found(observation: Observation, sought: Sought) -> bool {
    match sought {
        Sought::VoteOf(name) => observation matches Observation::Vote(vote) && vote.vehicle
            == name,
        Sought::VoteFor(name, hash) => observation matches Observation::Vote(vote) && vote.vehicle
            == name && vote.mission_hash == hash,
        Sought::FailureOf(name) => observation matches Observation::Failure { vehicle, error }
            && vehicle == name,
    }
}

/// Whether what is sought is among the observations.
pub open spec fn seen(observations: Seq<Observation>, sought: Sought) -> bool {
    exists|i: int| 0 <= i < observations.len() && found(#[trigger] observations[i], sought)
}

proof fn lemma_seen_last(observations: Seq<Observation>, sought: Sought)
    requires
        observations.len() > 0,
    ensures
        seen(observations, sought) <==> seen(observations.drop_last(), sought) || found(
            observations.last(),
            sought,
        ),
{
    let front = observations.drop_last();
    let last = observations.len() - 1;
    if seen(front, sought) {
        let i = choose|i: int| 0 <= i < front.len() && found(#[trigger] front[i], sought);
        assert(found(observations[i], sought));
    }
    if found(observations.last(), sought) {
        assert(found(observations[last], sought));
    }
    if seen(observations, sought) && !found(observations.last(), sought) {
        let i = choose|i: int|
            0 <= i < observations.len() && found(#[trigger] observations[i], sought);
        assert(found(front[i], sought));
    }
}

/// The tracker after all of the observations.
pub open spec fn observed(t: TrackerView, observations: Seq<Observation>) -> TrackerView
    decreases observations.len(),
{
    if observations.len() == 0 {
        t
    } else {
        let before = observed(t, observations.drop_last());
        match observations.last() {
            Observation::Vote(vote) => before.after_vote(vote),
            Observation::Failure { vehicle, error } => before.after_failure(vehicle, error),
        }
    }
}

/// Whether a tracker has observed nothing yet.
pub open spec fn is_new(t: TrackerView) -> bool {
    &&& t.expected.dom().finite()
    &&& t.votes == Map::<Seq<char>, ReadinessVoteView>::empty()
    &&& t.rejected == Map::<Seq<char>, Seq<char>>::empty()
    &&& t.failed == Map::<Seq<char>, Seq<char>>::empty()
}

/// The expected vehicles that have voted for the mission that they are to fly.
pub open spec fn ready_vehicles(
    expected: Map<Seq<char>, Seq<char>>,
    observations: Seq<Observation>,
) -> Set<Seq<char>> {
    expected.dom().filter(
        |name: Seq<char>| seen(observations, Sought::VoteFor(name, expected[name])),
    )
}

/// The expected vehicles that have failed, or have voted, but never for the mission that
/// they are to fly.
pub open spec fn gone_vehicles(
    expected: Map<Seq<char>, Seq<char>>,
    observations: Seq<Observation>,
) -> Set<Seq<char>> {
    expected.dom().filter(
        |name: Seq<char>|
            seen(observations, Sought::FailureOf(name)) || (seen(
                observations,
                Sought::VoteOf(name),
            ) && !seen(observations, Sought::VoteFor(name, expected[name]))),
    )
}

proof fn lemma_history_of(t: TrackerView, observations: Seq<Observation>, name: Seq<char>)
    requires
        is_new(t),
    ensures
        ({
            let now = observed(t, observations);
            &&& now.policy == t.policy
            &&& now.expected == t.expected
            &&& now.votes.contains_key(name) <==> t.expected.contains_key(name) && seen(
                observations,
                Sought::VoteFor(name, t.expected[name]),
            )
            &&& now.failed.contains_key(name) <==> seen(observations, Sought::FailureOf(name))
            &&& now.votes.contains_key(name) || now.rejected.contains_key(name) <==> seen(
                observations,
                Sought::VoteOf(name),
            )
        }),
    decreases observations.len(),
{
    if observations.len() > 0 {
        lemma_history_of(t, observations.drop_last(), name);
        lemma_seen_last(observations, Sought::VoteFor(name, t.expected[name]));
        lemma_seen_last(observations, Sought::FailureOf(name));
        lemma_seen_last(observations, Sought::VoteOf(name));
    }
}

proof fn lemma_history_inv(t: TrackerView, observations: Seq<Observation>)
    requires
        is_new(t),
    ensures
        observed(t, observations).inv(),
    decreases observations.len(),
{
    if observations.len() > 0 {
        lemma_history_inv(t, observations.drop_last());
    }
}

/// What a tracker knows is what was observed: the accepted votes are those of the expected
/// vehicles that voted for their own mission at some time, and the lost vehicles are those
/// that failed, or voted but never for it. In whatever order it was observed, the swarm
/// starts exactly if the first are enough, aborts exactly if otherwise those that are not
/// lost are not enough, and else holds.
pub proof fn law_decision_follows_what_was_observed(
    t: TrackerView,
    observations: Seq<Observation>,
)
    requires
        is_new(t),
    ensures
        ({
            let now = observed(t, observations);
            let total = t.expected.dom().len();
            let ready = ready_vehicles(t.expected, observations);
            let reach = t.expected.dom().difference(gone_vehicles(t.expected, observations));
            &&& now.inv()
            &&& now.policy == t.policy
            &&& now.expected == t.expected
            &&& now.votes.dom() == ready
            &&& now.lost() == gone_vehicles(t.expected, observations)
            &&& now.decision() is Start <==> enough(t.policy, ready.len(), total)
            &&& now.decision() is Abort <==> !enough(t.policy, ready.len(), total) && !enough(
                t.policy,
                reach.len(),
                total,
            )
            &&& now.decision() is Hold <==> !enough(t.policy, ready.len(), total) && enough(
                t.policy,
                reach.len(),
                total,
            )
            &&& now.decision() matches SwarmDecisionView::Start { participants, reason }
                ==> participants.to_set() == ready && participants.len() == ready.len()
        }),
{
    let now = observed(t, observations);
    let ready = ready_vehicles(t.expected, observations);
    let gone = gone_vehicles(t.expected, observations);
    lemma_history_inv(t, observations);
    assert forall|name: Seq<char>| now.votes.dom().contains(name) == ready.contains(name)
        && now.lost().contains(name) == gone.contains(name) && now.expected == t.expected
        && now.policy == t.policy by {
        lemma_history_of(t, observations, name);
        law_who_is_lost(now, name);
        if t.expected.contains_key(name) && seen(
            observations,
            Sought::VoteFor(name, t.expected[name]),
        ) {
            let i = choose|i: int|
                0 <= i < observations.len() && found(
                    #[trigger] observations[i],
                    Sought::VoteFor(name, t.expected[name]),
                );
            assert(found(observations[i], Sought::VoteOf(name)));
        }
    }
    lemma_history_of(t, observations, Seq::empty());
    assert(now.votes.dom() =~= ready);
    assert(now.lost() =~= gone);
    law_decision_follows_the_numbers(now);
    names::lemma_sorted_names(now.votes.dom());
}

/// A start has as many participants as the policy asks for: all expected vehicles, more than
/// half of them, or at least the configured count, where there are as many vehicles.
pub proof fn law_start_has_a_quorum(t: TrackerView)
    requires
        t.inv(),
        t.decision() is Start,
    ensures
        t.policy is RequireAll ==> t.decision()->participants.len() >= t.expected.dom().len(),
        t.policy is Majority ==> 2 * t.decision()->participants.len() > t.expected.dom().len(),
        t.policy matches QuorumPolicy::AtLeast(count) ==> count <= t.expected.dom().len()
            ==> t.decision()->participants.len() >= count,
{
    law_decision_follows_the_numbers(t);
    names::lemma_sorted_names(t.votes.dom());
}

/// What a configured policy stands for: the words for all and for a majority need no count,
/// those for a least number take the configured one and are refused without it, and every
/// other word is refused.
pub proof fn law_policy_words(policy: Seq<char>, count: Option<usize>)
    ensures
        ({
            let word = text::ascii_lower(text::trimmed(policy));
            let all = word == "require_all"@ || word == "all"@;
            let majority = word == "majority"@ || word == "quorum"@;
            let least = word == "at_least"@ || word == "n_of_m"@ || word == "count"@;
            let meant = config::policy_for(policy, count);
            &&& all ==> meant == Ok::<QuorumPolicy, SwarmErrorView>(QuorumPolicy::RequireAll)
            &&& majority ==> meant == Ok::<QuorumPolicy, SwarmErrorView>(QuorumPolicy::Majority)
            &&& least && count is Some ==> meant == Ok::<QuorumPolicy, SwarmErrorView>(
                QuorumPolicy::AtLeast(count->0),
            )
            &&& least && count is None ==> meant == Err::<QuorumPolicy, SwarmErrorView>(
                SwarmErrorView::Other(
                    "consensus.quorum_count is required when quorum_policy is at_least"@,
                ),
            )
            &&& meant is Ok ==> all || majority || least
            &&& !(all || majority || least) ==> meant == Err::<QuorumPolicy, SwarmErrorView>(
                SwarmErrorView::Other(
                    "unsupported consensus.quorum_policy "@ + text::str_debug(word)
                        + "; use require_all, majority, or at_least"@,
                ),
            )
        }),
{
    reveal_strlit("require_all");
    reveal_strlit("all");
    reveal_strlit("majority");
    reveal_strlit("quorum");
    reveal_strlit("at_least");
    reveal_strlit("n_of_m");
    reveal_strlit("count");
    assert("majority"@[0] == 'm' && "at_least"@[0] == 'a');
    assert("quorum"@[0] == 'q' && "n_of_m"@[0] == 'n');
    assert("require_all"@.len() == 11 && "all"@.len() == 3 && "count"@.len() == 5);
    assert("majority"@.len() == 8 && "at_least"@.len() == 8);
    assert("quorum"@.len() == 6 && "n_of_m"@.len() == 6);
}

/// The views of votes, outcomes and decisions show all that these hold.
pub proof fn law_views_of_votes_are_complete(
    vote: ReadinessVote,
    outcome: VoteOutcome,
    decision: SwarmDecision,
)
    ensures
        vote@.vehicle == vote.vehicle@,
        vote@.phase == vote.phase@,
        vote@.mission_hash == vote.mission_hash@,
        vote@.item_count == vote.item_count,
        outcome matches VoteOutcome::Accepted { ready_count, threshold } ==> outcome@
            == (VoteOutcomeView::Accepted {
            ready_count: ready_count as nat,
            threshold: threshold as nat,
        }),
        outcome matches VoteOutcome::Rejected { reason } ==> outcome@
            == (VoteOutcomeView::Rejected { reason: reason@ }),
        outcome is Duplicate ==> outcome@ is Duplicate,
        decision matches SwarmDecision::Start { participants, reason } ==> {
            &&& decision@ is Start
            &&& decision@->Start_reason == reason@
            &&& decision@->participants.len() == participants@.len()
            &&& forall|i: int|
                0 <= i < participants@.len() ==> decision@->participants[i]
                    == (#[trigger] participants@[i])@
        },
        decision matches SwarmDecision::Hold { reason } ==> decision@ == (SwarmDecisionView::Hold {
            reason: reason@,
        }),
        decision matches SwarmDecision::Abort { reason } ==> decision@
            == (SwarmDecisionView::Abort { reason: reason@ }),
{
}

} // verus!
