use drone_swarm::config::ConsensusConfig;
use drone_swarm::consensus::QuorumPolicy;
use drone_swarm::event_log::EventRecord;
use drone_swarm::fault_injection::FaultMode;
use drone_swarm::mavlink_client::SwarmError;

fn config(policy: &str, count: Option<usize>) -> ConsensusConfig {
    ConsensusConfig {
        quorum_policy: policy.to_string(),
        quorum_count: count,
        ..ConsensusConfig::default()
    }
}

#[test]
fn default_requires_everyone() {
    let default = ConsensusConfig::default();
    assert!(default.enabled);
    assert_eq!(default.quorum_policy, "require_all");
    assert_eq!(default.quorum_count, None);
    assert_eq!(default.readiness_timeout_secs, 90);
    assert_eq!(default.quorum_policy(), Ok(QuorumPolicy::RequireAll));
}

#[test]
fn all_words_are_understood() {
    for word in ["require_all", "all", "ALL", " All\t"] {
        assert_eq!(config(word, None).quorum_policy(), Ok(QuorumPolicy::RequireAll));
    }
    for word in ["majority", "quorum", "\nMaJoRiTy "] {
        assert_eq!(config(word, Some(9)).quorum_policy(), Ok(QuorumPolicy::Majority));
    }
    for word in ["at_least", "n_of_m", "count", "N_OF_M"] {
        assert_eq!(config(word, Some(3)).quorum_policy(), Ok(QuorumPolicy::AtLeast(3)));
    }
}

#[test]
fn every_white_space_character_is_trimmed() {
    for code in 0..=0x10ffff_u32 {
        if let Some(c) = char::from_u32(code) {
            if c.is_whitespace() {
                assert_eq!(
                    config(&format!("{}all{}{}", c, c, c), None).quorum_policy(),
                    Ok(QuorumPolicy::RequireAll)
                );
            }
        }
    }
    let white: Vec<u32> = (0..=0x10ffff_u32)
        .filter(|u| char::from_u32(*u).is_some_and(|c| c.is_whitespace()))
        .collect();
    let mut wanted: Vec<u32> = vec![0x20, 0x85, 0xa0, 0x1680, 0x2028, 0x2029, 0x202f, 0x205f, 0x3000];
    wanted.extend(0x09..=0x0d);
    wanted.extend(0x2000..=0x200a);
    wanted.sort();
    assert_eq!(white, wanted);
}

#[test]
fn other_characters_are_not_trimmed() {
    assert!(config("\u{200b}all", None).quorum_policy().is_err());
    assert!(config("a ll", None).quorum_policy().is_err());
}

#[test]
fn only_ascii_letters_are_lowered() {
    assert_eq!(
        config("\u{c9}A@[Z", None).quorum_policy(),
        Err(SwarmError::Other(
            "unsupported consensus.quorum_policy \"\u{c9}a@[z\"; use require_all, majority, or \
             at_least"
                .to_string()
        ))
    );
}

#[test]
fn a_count_is_required_for_at_least() {
    assert_eq!(
        config("at_least", None).quorum_policy(),
        Err(SwarmError::Other(
            "consensus.quorum_count is required when quorum_policy is at_least".to_string()
        ))
    );
}

#[test]
fn unknown_words_are_quoted() {
    assert_eq!(
        config(" Some\"thing\n\\x ", None).quorum_policy(),
        Err(SwarmError::Other(
            "unsupported consensus.quorum_policy \"some\\\"thing\\n\\\\x\"; use require_all, \
             majority, or at_least"
                .to_string()
        ))
    );
    assert_eq!(
        config("", None).quorum_policy().unwrap_err().message(),
        "unsupported consensus.quorum_policy \"\"; use require_all, majority, or at_least"
    );
}

#[test]
fn vocabulary_of_logs_and_faults() {
    let record = EventRecord {
        seq: 1,
        source: "alpha".to_string(),
        event: "armed".to_string(),
    };
    assert_eq!(record.clone(), record);
    assert_ne!(FaultMode::NoFault, FaultMode::DropLink);
    assert_ne!(FaultMode::DelayAcks, FaultMode::StaleTelemetry);
}
