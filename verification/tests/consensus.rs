use drone_swarm::consensus::{
    ConsensusTracker, MissionPhase, QuorumPolicy, ReadinessVote, SwarmDecision, VoteOutcome,
};
use drone_swarm::names::NameMap;

fn tracker(vehicles: &[(&str, &str)], policy: QuorumPolicy) -> ConsensusTracker {
    let mut expected: NameMap<String> = NameMap::new();
    for (vehicle, hash) in vehicles {
        expected.insert(vehicle.to_string(), hash.to_string());
    }
    ConsensusTracker::new(expected, policy)
}

fn vote(vehicle: &str, hash: &str) -> ReadinessVote {
    ReadinessVote {
        vehicle: vehicle.to_string(),
        phase: "p".to_string(),
        mission_hash: hash.to_string(),
        item_count: 3,
    }
}

#[test]
fn majority_threshold() {
    assert_eq!(QuorumPolicy::Majority.threshold(0), 1);
    assert_eq!(QuorumPolicy::Majority.threshold(1), 1);
    assert_eq!(QuorumPolicy::Majority.threshold(2), 2);
    assert_eq!(QuorumPolicy::Majority.threshold(5), 3);
    assert_eq!(QuorumPolicy::Majority.threshold(usize::MAX), usize::MAX / 2 + 1);
}

#[test]
fn require_all_threshold_is_the_total() {
    assert_eq!(QuorumPolicy::RequireAll.threshold(0), 0);
    assert_eq!(QuorumPolicy::RequireAll.threshold(4), 4);
}

#[test]
fn at_least_threshold_is_capped() {
    assert_eq!(QuorumPolicy::AtLeast(2).threshold(5), 2);
    assert_eq!(QuorumPolicy::AtLeast(7).threshold(5), 5);
    assert_eq!(QuorumPolicy::AtLeast(0).threshold(5), 0);
}

#[test]
fn labels() {
    assert_eq!(QuorumPolicy::RequireAll.label(12), "require_all (12/12)");
    assert_eq!(QuorumPolicy::Majority.label(10), "majority (6/10)");
    assert_eq!(QuorumPolicy::AtLeast(2).label(3), "at_least (2/3)");
    assert_eq!(QuorumPolicy::AtLeast(9).label(3), "at_least (3/3)");
}

#[test]
fn tracker_reports_its_settings() {
    let t = tracker(&[("b", "hb"), ("a", "ha"), ("c", "hc")], QuorumPolicy::Majority);
    assert_eq!(t.total(), 3);
    assert_eq!(t.threshold(), 2);
    assert_eq!(t.policy_label(), "majority (2/3)");
    assert_eq!(t.expected_vehicles(), vec!["a", "b", "c"]);
}

#[test]
fn valid_votes_are_counted() {
    let mut t = tracker(&[("b", "hb"), ("a", "ha")], QuorumPolicy::RequireAll);
    assert_eq!(
        t.observe_vote(vote("b", "hb")),
        VoteOutcome::Accepted { ready_count: 1, threshold: 2 }
    );
    assert_eq!(
        t.decide(),
        SwarmDecision::Hold {
            reason: "waiting for readiness: 1 valid votes, need 2 (require_all (2/2))".to_string()
        }
    );
    assert_eq!(
        t.observe_vote(vote("a", "ha")),
        VoteOutcome::Accepted { ready_count: 2, threshold: 2 }
    );
    assert_eq!(
        t.decide(),
        SwarmDecision::Start {
            participants: vec!["a".to_string(), "b".to_string()],
            reason: "2 valid readiness votes satisfy require_all (2/2)".to_string(),
        }
    );
}

#[test]
fn second_vote_is_a_duplicate_whatever_it_says() {
    let mut t = tracker(&[("a", "ha"), ("b", "hb")], QuorumPolicy::RequireAll);
    t.observe_vote(vote("a", "ha"));
    let before = t.decide();
    assert_eq!(t.observe_vote(vote("a", "ha")), VoteOutcome::Duplicate);
    assert_eq!(t.observe_vote(vote("a", "wrong")), VoteOutcome::Duplicate);
    assert_eq!(t.decide(), before);
}

#[test]
fn unknown_vehicle_is_rejected() {
    let mut t = tracker(&[("a", "ha"), ("b", "hb")], QuorumPolicy::AtLeast(1));
    assert_eq!(
        t.observe_vote(vote("x", "ha")),
        VoteOutcome::Rejected { reason: "x is not part of this mission phase".to_string() }
    );
    assert_eq!(
        t.decide(),
        SwarmDecision::Hold {
            reason: "waiting for readiness: 0 valid votes, need 1 (at_least (1/2))".to_string()
        }
    );
}

#[test]
fn unknown_vehicle_is_no_loss() {
    let mut t = tracker(&[("a", "ha"), ("b", "hb")], QuorumPolicy::RequireAll);
    t.observe_vote(vote("x", "ha"));
    t.observe_failure("y", "lost".to_string());
    assert_eq!(
        t.decide(),
        SwarmDecision::Hold {
            reason: "waiting for readiness: 0 valid votes, need 2 (require_all (2/2))".to_string()
        }
    );
    t.observe_vote(vote("a", "ha"));
    t.observe_vote(vote("b", "hb"));
    assert!(matches!(t.decide(), SwarmDecision::Start { .. }));
}

#[test]
fn a_corrected_vote_is_no_loss() {
    let mut t = tracker(&[("a", "h"), ("b", "k")], QuorumPolicy::RequireAll);
    assert!(matches!(t.observe_vote(vote("a", "bad")), VoteOutcome::Rejected { .. }));
    assert_eq!(
        t.decide(),
        SwarmDecision::Abort {
            reason: "quorum impossible: 0 valid votes, at most 1 possible, need 2 \
                     (require_all (2/2))"
                .to_string()
        }
    );
    assert_eq!(
        t.observe_vote(vote("a", "h")),
        VoteOutcome::Accepted { ready_count: 1, threshold: 2 }
    );
    assert_eq!(
        t.decide(),
        SwarmDecision::Hold {
            reason: "waiting for readiness: 1 valid votes, need 2 (require_all (2/2))".to_string()
        }
    );
    t.observe_vote(vote("b", "k"));
    assert!(matches!(t.decide(), SwarmDecision::Start { .. }));
}

#[test]
fn a_failure_after_the_vote_is_a_loss() {
    let mut t = tracker(&[("a", "ha"), ("b", "hb")], QuorumPolicy::RequireAll);
    t.observe_vote(vote("a", "ha"));
    t.observe_failure("a", "lost".to_string());
    assert_eq!(
        t.decide(),
        SwarmDecision::Abort {
            reason: "quorum impossible: 1 valid votes, at most 1 possible, need 2 \
                     (require_all (2/2))"
                .to_string()
        }
    );
}

#[test]
fn wrong_hash_is_rejected_and_can_be_corrected() {
    let mut t = tracker(&[("a", "ha")], QuorumPolicy::RequireAll);
    assert_eq!(
        t.observe_vote(vote("a", "hx")),
        VoteOutcome::Rejected { reason: "a reported mission hash hx, expected ha".to_string() }
    );
    assert_eq!(
        t.decide(),
        SwarmDecision::Abort {
            reason: "quorum impossible: 0 valid votes, at most 0 possible, need 1 \
                     (require_all (1/1))"
                .to_string()
        }
    );
    assert_eq!(
        t.observe_vote(vote("a", "ha")),
        VoteOutcome::Accepted { ready_count: 1, threshold: 1 }
    );
    assert!(matches!(t.decide(), SwarmDecision::Start { .. }));
}

#[test]
fn failures_make_a_quorum_impossible() {
    let mut t = tracker(&[("a", "ha"), ("b", "hb"), ("c", "hc")], QuorumPolicy::Majority);
    t.observe_failure("a", "lost".to_string());
    assert!(matches!(t.decide(), SwarmDecision::Hold { .. }));
    t.observe_failure("a", "lost again".to_string());
    assert!(matches!(t.decide(), SwarmDecision::Hold { .. }));
    t.observe_failure("b", "lost".to_string());
    assert_eq!(
        t.decide(),
        SwarmDecision::Abort {
            reason: "quorum impossible: 0 valid votes, at most 1 possible, need 2 (majority (2/3))"
                .to_string()
        }
    );
    t.observe_failure("c", "lost".to_string());
    assert!(matches!(t.decide(), SwarmDecision::Abort { .. }));
    t.observe_failure("d", "never there".to_string());
    assert_eq!(
        t.decide(),
        SwarmDecision::Abort {
            reason: "quorum impossible: 0 valid votes, at most 0 possible, need 2 (majority (2/3))"
                .to_string()
        }
    );
}

#[test]
fn failure_and_rejection_of_one_vehicle_count_once() {
    let mut t = tracker(&[("a", "ha"), ("b", "hb"), ("c", "hc")], QuorumPolicy::Majority);
    t.observe_vote(vote("a", "hx"));
    t.observe_failure("a", "lost".to_string());
    assert!(matches!(t.decide(), SwarmDecision::Hold { .. }));
}

#[test]
fn start_survives_later_failures() {
    let mut t = tracker(&[("a", "ha"), ("b", "hb"), ("c", "hc")], QuorumPolicy::Majority);
    t.observe_vote(vote("c", "hc"));
    t.observe_vote(vote("a", "ha"));
    let started = t.decide();
    assert_eq!(
        started,
        SwarmDecision::Start {
            participants: vec!["a".to_string(), "c".to_string()],
            reason: "2 valid readiness votes satisfy majority (2/3)".to_string(),
        }
    );
    t.observe_failure("a", "lost".to_string());
    assert_eq!(t.decide(), started);
    t.observe_vote(vote("b", "hb"));
    assert_eq!(
        t.decide(),
        SwarmDecision::Start {
            participants: vec!["a".to_string(), "b".to_string(), "c".to_string()],
            reason: "3 valid readiness votes satisfy majority (2/3)".to_string(),
        }
    );
}

#[test]
fn no_vote_is_needed_for_a_quorum_of_zero() {
    let t = tracker(&[("a", "ha")], QuorumPolicy::AtLeast(0));
    assert_eq!(
        t.decide(),
        SwarmDecision::Start {
            participants: vec![],
            reason: "0 valid readiness votes satisfy at_least (0/1)".to_string(),
        }
    );
}

#[test]
fn majority_of_nobody_is_impossible() {
    let t = tracker(&[], QuorumPolicy::Majority);
    assert_eq!(
        t.decide(),
        SwarmDecision::Abort {
            reason: "quorum impossible: 0 valid votes, at most 0 possible, need 1 (majority (1/0))"
                .to_string()
        }
    );
}

#[test]
fn mission_phases_differ() {
    let phases = [
        MissionPhase::Discovering,
        MissionPhase::Uploading,
        MissionPhase::WaitingForReadiness,
        MissionPhase::Executing,
        MissionPhase::Complete,
        MissionPhase::Failed,
    ];
    for (i, a) in phases.iter().enumerate() {
        for (j, b) in phases.iter().enumerate() {
            assert_eq!(a == b, i == j);
        }
    }
}
