//! Readiness consensus: which votes count, and when a mission phase may start.
use vstd::prelude::*;
use vstd::string::*;
use crate::names;
use crate::names::{NameMap, NameSet};
use crate::text;
use crate::text::count_text;

verus! {

/// The stages of a mission phase.
#[derive(Debug, Clone, Copy, PartialEq, Eq)]
pub enum MissionPhase {
    Discovering,
    Uploading,
    WaitingForReadiness,
    Executing,
    Complete,
    Failed,
}

/// What the swarm does next.
#[derive(Debug, Clone, PartialEq, Eq)]
pub enum SwarmDecision {
    /// Enough valid readiness votes have arrived. Start these vehicles and
    /// abort any other non-terminal actors for this phase.
    Start { participants: Vec<String>, reason: String },
    /// Keep waiting for more votes or events.
    Hold { reason: String },
    /// The phase can no longer satisfy the configured quorum policy.
    Abort { reason: String },
}

/// A decision over texts.
pub enum SwarmDecisionView {
    Start { participants: Seq<Seq<char>>, reason: Seq<char> },
    Hold { reason: Seq<char> },
    Abort { reason: Seq<char> },
}

impl View for SwarmDecision {
    type V = SwarmDecisionView;

    open spec fn view(&self) -> SwarmDecisionView {
        match *self {
            SwarmDecision::Start { participants, reason } => SwarmDecisionView::Start {
                participants: text::texts(participants@),
                reason: reason@,
            },
            SwarmDecision::Hold { reason } => SwarmDecisionView::Hold { reason: reason@ },
            SwarmDecision::Abort { reason } => SwarmDecisionView::Abort { reason: reason@ },
        }
    }
}

impl SwarmDecisionView {
    /// The reason that the decision gives.
    pub open spec fn reason(self) -> Seq<char> {
        match self {
            SwarmDecisionView::Start { participants, reason } => reason,
            SwarmDecisionView::Hold { reason } => reason,
            SwarmDecisionView::Abort { reason } => reason,
        }
    }
}

/// How many vehicles must be ready.
#[derive(Debug, Clone, Copy, PartialEq, Eq)]
pub enum QuorumPolicy {
    RequireAll,
    Majority,
    AtLeast(usize),
}

impl QuorumPolicy {
    /// The number of votes that `total` vehicles need.
    pub open spec fn required(self, total: nat) -> nat {
        match self {
            QuorumPolicy::RequireAll => total,
            QuorumPolicy::Majority => total / 2 + 1,
            QuorumPolicy::AtLeast(n) => if (n as nat) < total {
                n as nat
            } else {
                total
            },
        }
    }

    /// The policy's name, with the required and the total number of votes.
    pub open spec fn shown(self, total: nat) -> Seq<char> {
        let name = match self {
            QuorumPolicy::RequireAll => "require_all ("@,
            QuorumPolicy::Majority => "majority ("@,
            QuorumPolicy::AtLeast(n) => "at_least ("@,
        };
        name + text::decimal(self.required(total)) + "/"@ + text::decimal(total) + ")"@
    }

    /// The number of votes that `total` vehicles need.
    pub fn threshold(self, total: usize) -> (r: usize)
        ensures
            r == self.required(total as nat),
    {
        match self {
            QuorumPolicy::RequireAll => total,
            QuorumPolicy::Majority => (total / 2) + 1,
            QuorumPolicy::AtLeast(n) => if n < total {
                n
            } else {
                total
            },
        }
    }

    /// The policy's name, with the required and the total number of votes.
    pub fn label(self, total: usize) -> (r: String)
        ensures
            r@ == self.shown(total as nat),
    {
        let name: &str = match self {
            QuorumPolicy::RequireAll => "require_all (",
            QuorumPolicy::Majority => "majority (",
            QuorumPolicy::AtLeast(_) => "at_least (",
        };
        name.to_string().concat(count_text(self.threshold(total)).as_str()).concat("/").concat(
            count_text(total).as_str(),
        ).concat(")")
    }
}

/// A vehicle's claim to be ready for a phase.
#[derive(Debug, Clone, PartialEq, Eq)]
pub struct ReadinessVote {
    pub vehicle: String,
    pub phase: String,
    pub mission_hash: String,
    pub item_count: usize,
}

/// A vote over texts.
pub struct ReadinessVoteView {
    pub vehicle: Seq<char>,
    pub phase: Seq<char>,
    pub mission_hash: Seq<char>,
    pub item_count: usize,
}

impl View for ReadinessVote {
    type V = ReadinessVoteView;

    open spec fn view(&self) -> ReadinessVoteView {
        ReadinessVoteView {
            vehicle: self.vehicle@,
            phase: self.phase@,
            mission_hash: self.mission_hash@,
            item_count: self.item_count,
        }
    }
}

/// What became of a vote.
#[derive(Debug, Clone, PartialEq, Eq)]
pub enum VoteOutcome {
    Accepted { ready_count: usize, threshold: usize },
    Rejected { reason: String },
    Duplicate,
}

/// A vote's outcome over texts.
pub enum VoteOutcomeView {
    Accepted { ready_count: nat, threshold: nat },
    Rejected { reason: Seq<char> },
    Duplicate,
}

impl View for VoteOutcome {
    type V = VoteOutcomeView;

    open spec fn view(&self) -> VoteOutcomeView {
        match *self {
            VoteOutcome::Accepted { ready_count, threshold } => VoteOutcomeView::Accepted {
                ready_count: ready_count as nat,
                threshold: threshold as nat,
            },
            VoteOutcome::Rejected { reason } => VoteOutcomeView::Rejected { reason: reason@ },
            VoteOutcome::Duplicate => VoteOutcomeView::Duplicate,
        }
    }
}

/// The state of the consensus: what is expected, and what has been observed.
pub struct TrackerView {
    pub policy: QuorumPolicy,
    /// The hash of the mission that each vehicle is to fly.
    pub expected: Map<Seq<char>, Seq<char>>,
    /// The accepted votes.
    pub votes: Map<Seq<char>, ReadinessVoteView>,
    /// Why a vehicle's vote was last rejected.
    pub rejected: Map<Seq<char>, Seq<char>>,
    /// Why a vehicle failed.
    pub failed: Map<Seq<char>, Seq<char>>,
}

impl TrackerView {
    /// Every accepted vote is filed under its own vehicle, which is expected, and names
    /// the mission that the vehicle is to fly.
    pub open spec fn inv(self) -> bool {
        &&& self.expected.dom().finite()
        &&& self.votes.dom().finite()
        &&& self.rejected.dom().finite()
        &&& self.failed.dom().finite()
        &&& forall|name: Seq<char>| #[trigger]
            self.votes.contains_key(name) ==> {
                &&& self.votes[name].vehicle == name
                &&& self.expected.contains_key(name)
                &&& self.expected[name] == self.votes[name].mission_hash
            }
    }

    /// The number of expected vehicles.
    pub open spec fn total(self) -> nat {
        self.expected.len()
    }

    /// The number of votes that starting takes.
    pub open spec fn threshold(self) -> nat {
        self.policy.required(self.total())
    }

    /// The policy as it is shown in reasons.
    pub open spec fn policy_label(self) -> Seq<char> {
        self.policy.shown(self.total())
    }

    /// Whether a vote comes from an expected vehicle and names its mission.
    pub open spec fn valid(self, vote: ReadinessVoteView) -> bool {
        self.expected.contains_key(vote.vehicle) && self.expected[vote.vehicle]
            == vote.mission_hash
    }

    /// Why an invalid vote is rejected.
    pub open spec fn rejection(self, vote: ReadinessVoteView) -> Seq<char> {
        if self.expected.contains_key(vote.vehicle) {
            vote.vehicle + " reported mission hash "@ + vote.mission_hash + ", expected "@
                + self.expected[vote.vehicle]
        } else {
            vote.vehicle + " is not part of this mission phase"@
        }
    }

    /// The state after a vote. A second vote of a vehicle that was accepted is ignored.
    pub open spec fn after_vote(self, vote: ReadinessVoteView) -> TrackerView {
        if self.votes.contains_key(vote.vehicle) {
            self
        } else if self.valid(vote) {
            TrackerView { votes: self.votes.insert(vote.vehicle, vote), ..self }
        } else {
            TrackerView {
                rejected: self.rejected.insert(vote.vehicle, self.rejection(vote)),
                ..self
            }
        }
    }

    /// What a vote is answered.
    pub open spec fn outcome(self, vote: ReadinessVoteView) -> VoteOutcomeView {
        if self.votes.contains_key(vote.vehicle) {
            VoteOutcomeView::Duplicate
        } else if self.valid(vote) {
            VoteOutcomeView::Accepted {
                ready_count: self.votes.len() + 1,
                threshold: self.threshold(),
            }
        } else {
            VoteOutcomeView::Rejected { reason: self.rejection(vote) }
        }
    }

    /// The state after a vehicle's failure.
    pub open spec fn after_failure(self, vehicle: Seq<char>, error: Seq<char>) -> TrackerView {
        TrackerView { failed: self.failed.insert(vehicle, error), ..self }
    }

    /// The expected vehicles that are lost: those that failed, and those whose vote was
    /// rejected and not followed by one that was accepted.
    pub open spec fn lost(self) -> Set<Seq<char>> {
        self.expected.dom().intersect(
            self.failed.dom().union(self.rejected.dom().difference(self.votes.dom())),
        )
    }

    /// How many vehicles can be ready at most.
    pub open spec fn possible_ready(self) -> nat {
        (self.total() - self.lost().len()) as nat
    }

    /// What the swarm does in this state.
    pub open spec fn decision(self) -> SwarmDecisionView {
        let ready = self.votes.len();
        let need = self.threshold();
        if ready >= need {
            SwarmDecisionView::Start {
                participants: names::sorted_names(self.votes.dom()),
                reason: text::decimal(ready) + " valid readiness votes satisfy "@
                    + self.policy_label(),
            }
        } else if self.possible_ready() < need {
            SwarmDecisionView::Abort {
                reason: "quorum impossible: "@ + text::decimal(ready) + " valid votes, at most "@
                    + text::decimal(self.possible_ready()) + " possible, need "@
                    + text::decimal(need) + " ("@ + self.policy_label() + ")"@,
            }
        } else {
            SwarmDecisionView::Hold {
                reason: "waiting for readiness: "@ + text::decimal(ready) + " valid votes, need "@
                    + text::decimal(need) + " ("@ + self.policy_label() + ")"@,
            }
        }
    }
}

/// Collects readiness votes and failures, and decides.
#[derive(Debug, Clone)]
pub struct ConsensusTracker {
    policy: QuorumPolicy,
    expected_hashes: NameMap<String>,
    votes: NameMap<ReadinessVote>,
    rejected: NameMap<String>,
    failed: NameMap<String>,
}

impl View for ConsensusTracker {
    type V = TrackerView;

    closed spec fn view(&self) -> TrackerView {
        TrackerView {
            policy: self.policy,
            expected: self.expected_hashes@,
            votes: self.votes@,
            rejected: self.rejected@,
            failed: self.failed@,
        }
    }
}

impl ConsensusTracker {
    /// The collections are well-formed.
    pub closed spec fn maps_wf(&self) -> bool {
        &&& self.expected_hashes.wf()
        &&& self.votes.wf()
        &&& self.rejected.wf()
        &&& self.failed.wf()
    }

    /// The collections are well-formed, and only valid votes have been accepted.
    pub open spec fn wf(&self) -> bool {
        &&& self.maps_wf()
        &&& self@.inv()
    }

    /// A tracker that has observed nothing yet.
    pub fn new(expected_hashes: NameMap<String>, policy: QuorumPolicy) -> (r: ConsensusTracker)
        requires
            expected_hashes.wf(),
        ensures
            r.wf(),
            r@ == (TrackerView {
                policy,
                expected: expected_hashes@,
                votes: Map::empty(),
                rejected: Map::empty(),
                failed: Map::empty(),
            }),
    {
        proof {
            expected_hashes.lemma_finite();
        }
        ConsensusTracker {
            policy,
            expected_hashes,
            votes: NameMap::new(),
            rejected: NameMap::new(),
            failed: NameMap::new(),
        }
    }

    /// The number of expected vehicles.
    pub fn total(&self) -> (r: usize)
        requires
            self.wf(),
        ensures
            r == self@.total(),
    {
        self.expected_hashes.len()
    }

    /// The number of votes that starting takes.
    pub fn threshold(&self) -> (r: usize)
        requires
            self.wf(),
        ensures
            r == self@.threshold(),
    {
        self.policy.threshold(self.total())
    }

    /// The policy as it is shown in reasons.
    pub fn policy_label(&self) -> (r: String)
        requires
            self.wf(),
        ensures
            r@ == self@.policy_label(),
    {
        self.policy.label(self.total())
    }

    /// The expected vehicles, each once, in ascending order.
    pub fn expected_vehicles(&self) -> (r: Vec<String>)
        requires
            self.wf(),
        ensures
            text::texts(r@) == names::sorted_names(self@.expected.dom()),
            text::texts(r@).to_set() == self@.expected.dom(),
            text::texts(r@).no_duplicates(),
    {
        self.expected_hashes.keys().to_names()
    }

    /// Takes a vote into account, and says what became of it.
    pub fn observe_vote(&mut self, vote: ReadinessVote) -> (r: VoteOutcome)
        requires
            old(self).wf(),
        ensures
            final(self).wf(),
            final(self)@ == old(self)@.after_vote(vote@),
            r@ == old(self)@.outcome(vote@),
    {
        if self.votes.contains_key(vote.vehicle.as_str()) {
            return VoteOutcome::Duplicate;
        }
        let reason: String = match self.expected_hashes.get(vote.vehicle.as_str()) {
            None => vote.vehicle.clone().concat(" is not part of this mission phase"),
            Some(expected_hash) => {
                if *expected_hash == vote.mission_hash {
                    self.votes.insert(vote.vehicle.clone(), vote);
                    let outcome = VoteOutcome::Accepted {
                        ready_count: self.votes.len(),
                        threshold: self.threshold(),
                    };
                    return outcome;
                }
                vote.vehicle.clone().concat(" reported mission hash ").concat(
                    vote.mission_hash.as_str(),
                ).concat(", expected ").concat(expected_hash.as_str())
            },
        };
        self.rejected.insert(vote.vehicle, reason.clone());
        VoteOutcome::Rejected { reason }
    }

    /// Records that a vehicle failed, and why.
    pub fn observe_failure(&mut self, vehicle: &str, error: String)
        requires
            old(self).wf(),
        ensures
            final(self).wf(),
            final(self)@ == old(self)@.after_failure(vehicle@, error@),
    {
        self.failed.insert(vehicle.to_string(), error);
    }

    /// The expected vehicles that are lost.
    fn lost_vehicles(&self) -> (r: NameSet)
        requires
            self.wf(),
        ensures
            r.wf(),
            r@ == self@.lost(),
    {
        let vehicles: Vec<String> = self.expected_vehicles();
        let ghost given = text::texts(vehicles@);
        let ghost lost = self@.lost();
        let mut out: NameSet = NameSet::new();
        let mut i: usize = 0;
        assert(given.take(0).to_set().intersect(lost) =~= Set::empty());
        while i < vehicles.len()
            invariant
                i <= vehicles@.len(),
                self.wf(),
                given == text::texts(vehicles@),
                given.to_set() == self@.expected.dom(),
                lost == self@.lost(),
                out.wf(),
                out@ == given.take(i as int).to_set().intersect(lost),
            decreases vehicles.len() - i,
        {
            let name: &str = vehicles[i].as_str();
            proof {
                assert(given[i as int] == name@);
                assert(given.to_set().contains(given[i as int]));
                assert(given.take(i + 1) == given.take(i as int).push(name@));
                given.take(i as int).lemma_push_to_set_commute(name@);
            }
            if self.failed.contains_key(name) || (self.rejected.contains_key(name)
                && !self.votes.contains_key(name)) {
                out.insert(vehicles[i].clone());
            }
            assert(out@ =~= given.take(i + 1).to_set().intersect(lost));
            i = i + 1;
        }
        assert(given.take(given.len() as int) == given);
        assert(out@ =~= lost);
        out
    }

    /// What the swarm does next.
    pub fn decide(&self) -> (r: SwarmDecision)
        requires
            self.wf(),
        ensures
            r@ == self@.decision(),
    {
        let threshold: usize = self.threshold();
        let ready: usize = self.votes.len();
        if ready >= threshold {
            let participants: Vec<String> = self.votes.keys().to_names();
            let reason: String = count_text(ready).concat(
                " valid readiness votes satisfy ",
            ).concat(self.policy_label().as_str());
            return SwarmDecision::Start { participants, reason };
        }
        proof {
            assert(self@.lost().subset_of(self@.expected.dom()));
            vstd::set_lib::lemma_len_subset(self@.lost(), self@.expected.dom());
        }
        let possible_ready: usize = self.total() - self.lost_vehicles().len();
        if possible_ready < threshold {
            let reason: String = "quorum impossible: ".to_string().concat(
                count_text(ready).as_str(),
            ).concat(" valid votes, at most ").concat(count_text(possible_ready).as_str()).concat(
                " possible, need ",
            ).concat(count_text(threshold).as_str()).concat(" (").concat(
                self.policy_label().as_str(),
            ).concat(")");
            return SwarmDecision::Abort { reason };
        }
        let reason: String = "waiting for readiness: ".to_string().concat(
            count_text(ready).as_str(),
        ).concat(" valid votes, need ").concat(count_text(threshold).as_str()).concat(" (").concat(
            self.policy_label().as_str(),
        ).concat(")");
        SwarmDecision::Hold { reason }
    }
}

/// The threshold of "all" and "at least" never exceeds the number of vehicles, that of
/// "majority" is always more than half of them, and all three can be met by a swarm
/// that has a vehicle.
pub proof fn law_threshold_bounds(policy: QuorumPolicy, total: nat)
    ensures
        policy is RequireAll ==> policy.required(total) == total,
        policy is Majority ==> 2 * policy.required(total) > total,
        policy matches QuorumPolicy::AtLeast(n) ==> policy.required(total) <= n,
        total > 0 ==> policy.required(total) <= total,
        !(policy is Majority) ==> policy.required(total) <= total,
{
}

/// Votes and failures keep the invariant: whatever arrives, only valid votes of expected
/// vehicles are ever counted, each vehicle at most once.
pub proof fn law_only_valid_votes_count(
    tracker: TrackerView,
    vote: ReadinessVoteView,
    vehicle: Seq<char>,
    error: Seq<char>,
)
    requires
        tracker.inv(),
    ensures
        tracker.after_vote(vote).inv(),
        tracker.after_failure(vehicle, error).inv(),
        tracker.votes.dom().subset_of(tracker.expected.dom()),
        tracker.votes.len() <= tracker.total(),
{
    vstd::set_lib::lemma_len_subset(tracker.votes.dom(), tracker.expected.dom());
}

/// A vote whose vehicle was accepted before changes nothing, whatever it says, and an
/// accepted vote is a duplicate ever after.
pub proof fn law_vote_counts_once(
    tracker: TrackerView,
    vote: ReadinessVoteView,
    again: ReadinessVoteView,
)
    requires
        tracker.outcome(vote) is Accepted || tracker.outcome(vote) is Duplicate,
        again.vehicle == vote.vehicle,
    ensures
        tracker.after_vote(vote).outcome(again) is Duplicate,
        tracker.after_vote(vote).after_vote(again) == tracker.after_vote(vote),
{
}

/// A rejected vote is not counted, and an accepted one raises the count by one.
pub proof fn law_vote_count(tracker: TrackerView, vote: ReadinessVoteView)
    requires
        tracker.inv(),
    ensures
        tracker.outcome(vote) is Rejected ==> tracker.after_vote(vote).votes == tracker.votes,
        tracker.outcome(vote) is Accepted ==> tracker.after_vote(vote).votes.len()
            == tracker.votes.len() + 1,
        tracker.outcome(vote) is Accepted <==> tracker.valid(vote) && !tracker.votes.contains_key(
            vote.vehicle,
        ),
{
}

/// Once a quorum is there it stays there: no later vote or failure takes back a decision
/// to start, and no participant drops out of it.
pub proof fn law_start_is_stable(
    tracker: TrackerView,
    vote: ReadinessVoteView,
    vehicle: Seq<char>,
    error: Seq<char>,
)
    requires
        tracker.inv(),
        tracker.decision() is Start,
    ensures
        tracker.after_vote(vote).decision() is Start,
        tracker.after_failure(vehicle, error).decision() is Start,
        tracker.votes.dom().subset_of(tracker.after_vote(vote).votes.dom()),
        tracker.after_failure(vehicle, error).votes == tracker.votes,
{
}

/// The participants of a start are the vehicles whose votes were accepted, in ascending
/// order and each once: every one of them is expected and voted for its own mission, and
/// they are as many as the policy asks for.
pub proof fn law_participants_are_ready(tracker: TrackerView)
    requires
        tracker.inv(),
        tracker.decision() is Start,
    ensures
        names::ascending(tracker.decision()->participants),
        tracker.decision()->participants.to_set() == tracker.votes.dom(),
        tracker.decision()->participants.len() == tracker.votes.len(),
        tracker.decision()->participants.len() >= tracker.threshold(),
        forall|i: int|
            0 <= i < tracker.decision()->participants.len() ==> {
                let name = #[trigger] tracker.decision()->participants[i];
                &&& tracker.expected.contains_key(name)
                &&& tracker.votes[name].mission_hash == tracker.expected[name]
            },
{
    let sorted = tracker.decision()->participants;
    names::lemma_sorted_names(tracker.votes.dom());
    assert forall|i: int| 0 <= i < sorted.len() implies tracker.votes.contains_key(
        #[trigger] sorted[i],
    ) by {
        assert(sorted.to_set().contains(sorted[i]));
    }
}

/// Under "require all" a start means that every expected vehicle has voted for its own
/// mission.
pub proof fn law_require_all_starts_everyone(tracker: TrackerView)
    requires
        tracker.inv(),
        tracker.policy is RequireAll,
        tracker.decision() is Start,
    ensures
        tracker.votes.dom() == tracker.expected.dom(),
{
    vstd::set_lib::lemma_len_subset(tracker.votes.dom(), tracker.expected.dom());
    vstd::set_lib::lemma_subset_equality(tracker.votes.dom(), tracker.expected.dom());
}

proof fn lemma_lost_or_not(tracker: TrackerView)
    requires
        tracker.inv(),
    ensures
        tracker.possible_ready() + tracker.lost().len() == tracker.total(),
        tracker.possible_ready() == tracker.expected.dom().difference(tracker.lost()).len(),
        tracker.expected.dom().difference(tracker.lost()).finite(),
{
    let expected = tracker.expected.dom();
    let lost = tracker.lost();
    vstd::set_lib::lemma_set_disjoint_lens(expected.difference(lost), lost);
    assert(expected.difference(lost).union(lost) =~= expected);
}

/// While the decision is to hold, a quorum is still possible: the expected vehicles that
/// are not lost are enough.
pub proof fn law_hold_leaves_a_quorum(tracker: TrackerView)
    requires
        tracker.inv(),
        tracker.decision() is Hold,
    ensures
        tracker.expected.dom().difference(tracker.lost()).len() >= tracker.threshold(),
{
    lemma_lost_or_not(tracker);
}

/// An abort means that the policy can no longer be satisfied: no set of expected vehicles
/// without a lost one reaches the threshold.
pub proof fn law_abort_means_no_quorum(tracker: TrackerView, ready: Set<Seq<char>>)
    requires
        tracker.inv(),
        tracker.decision() is Abort,
        ready.subset_of(tracker.expected.dom()),
        ready.disjoint(tracker.lost()),
    ensures
        ready.len() < tracker.threshold(),
{
    let rest = tracker.expected.dom().difference(tracker.lost());
    lemma_lost_or_not(tracker);
    assert(ready.subset_of(rest));
    vstd::set_lib::lemma_len_subset(ready, rest);
}

/// A name that is not expected decides nothing: neither its votes nor its failures change
/// the decision.
pub proof fn law_outsiders_decide_nothing(
    tracker: TrackerView,
    vote: ReadinessVoteView,
    vehicle: Seq<char>,
    error: Seq<char>,
)
    requires
        tracker.inv(),
    ensures
        !tracker.expected.contains_key(vote.vehicle) ==> tracker.after_vote(vote).decision()
            == tracker.decision(),
        !tracker.expected.contains_key(vehicle) ==> tracker.after_failure(
            vehicle,
            error,
        ).decision() == tracker.decision(),
{
    if !tracker.expected.contains_key(vote.vehicle) {
        assert(tracker.after_vote(vote).lost() =~= tracker.lost());
    }
    if !tracker.expected.contains_key(vehicle) {
        assert(tracker.after_failure(vehicle, error).lost() =~= tracker.lost());
    }
}

/// A rejected vote can be corrected: a vehicle whose vote is accepted is not lost, unless
/// it failed, and no other vehicle becomes lost or found by it.
pub proof fn law_accepted_vote_is_no_loss(tracker: TrackerView, vote: ReadinessVoteView)
    requires
        tracker.inv(),
        tracker.outcome(vote) is Accepted,
    ensures
        tracker.after_vote(vote).lost() == if tracker.failed.contains_key(vote.vehicle) {
            tracker.lost()
        } else {
            tracker.lost().remove(vote.vehicle)
        },
{
    if tracker.failed.contains_key(vote.vehicle) {
        assert(tracker.after_vote(vote).lost() =~= tracker.lost());
    } else {
        assert(tracker.after_vote(vote).lost() =~= tracker.lost().remove(vote.vehicle));
    }
}

/// Further failures and rejected votes never take back an abort.
pub proof fn law_abort_is_stable_under_losses(
    tracker: TrackerView,
    vote: ReadinessVoteView,
    vehicle: Seq<char>,
    error: Seq<char>,
)
    requires
        tracker.inv(),
        tracker.decision() is Abort,
    ensures
        tracker.after_failure(vehicle, error).decision() is Abort,
        !(tracker.outcome(vote) is Accepted) ==> tracker.after_vote(vote).decision() is Abort,
{
    let failed = tracker.after_failure(vehicle, error);
    assert(tracker.lost().subset_of(failed.lost()));
    vstd::set_lib::lemma_len_subset(tracker.lost(), failed.lost());
    lemma_lost_or_not(tracker);
    lemma_lost_or_not(failed);
    if !(tracker.outcome(vote) is Accepted) {
        let voted = tracker.after_vote(vote);
        assert(tracker.lost().subset_of(voted.lost()));
        vstd::set_lib::lemma_len_subset(tracker.lost(), voted.lost());
        lemma_lost_or_not(voted);
    }
}

} // verus!
