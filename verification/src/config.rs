//! Mission files: the drones of a phase, and how they agree to start.
use vstd::prelude::*;
use vstd::string::*;
use crate::consensus::QuorumPolicy;
use crate::mavlink_client;
use crate::mavlink_client::{other_err, AnyResult, SwarmErrorView};
use crate::mission::MissionSpec;
use crate::text;
use crate::text::{debug_text, is_text};

verus! {

/// The content of a mission file.
#[derive(Debug, Clone)]
pub struct SwarmConfig {
    pub drones: Vec<DroneConfig>,
    /// Swarm-level readiness and consensus settings. A mission file that has none uses
    /// the default ones, under which every configured vehicle must report ready before
    /// the mission phase is started.
    pub consensus: ConsensusConfig,
}

/// One drone and its mission.
#[derive(Debug, Clone)]
pub struct DroneConfig {
    pub name: String,
    pub endpoint: String,
    pub expected_system_id: Option<u8>,
    pub arm: Option<bool>,
    pub auto_start: Option<bool>,
    pub mission: Vec<MissionSpec>,
}

/// When a phase may start.
#[derive(Debug, Clone)]
pub struct ConsensusConfig {
    /// Turns the readiness gate on or off.
    pub enabled: bool,
    /// Supported values:
    /// - "require_all" / "all"
    /// - "majority" / "quorum"
    /// - "at_least" / "n_of_m" / "count" together with quorum_count
    pub quorum_policy: String,
    /// Used only when quorum_policy is "at_least".
    pub quorum_count: Option<usize>,
    /// How long the supervisor waits for readiness votes before aborting the phase. This
    /// is independent of the MAVLink command timeouts.
    pub readiness_timeout_secs: u64,
}

impl Default for ConsensusConfig {
    fn default() -> (r: ConsensusConfig)
        ensures
            r.enabled,
            r.quorum_policy@ == "require_all"@,
            r.quorum_count is None,
            r.readiness_timeout_secs == 90,
    {
        ConsensusConfig {
            enabled: true,
            quorum_policy: "require_all".to_string(),
            quorum_count: None,
            readiness_timeout_secs: 90,
        }
    }
}

/// The policy that a configured word and count stand for, or why there is none. Case and
/// surrounding white space of the word do not matter.
pub open spec fn policy_for(policy: Seq<char>, count: Option<usize>) -> Result<
    QuorumPolicy,
    SwarmErrorView,
> {
    let word = text::ascii_lower(text::trimmed(policy));
    if word == "require_all"@ || word == "all"@ {
        Ok(QuorumPolicy::RequireAll)
    } else if word == "majority"@ || word == "quorum"@ {
        Ok(QuorumPolicy::Majority)
    } else if word == "at_least"@ || word == "n_of_m"@ || word == "count"@ {
        match count {
            Some(n) => Ok(QuorumPolicy::AtLeast(n)),
            None => Err(
                SwarmErrorView::Other(
                    "consensus.quorum_count is required when quorum_policy is at_least"@,
                ),
            ),
        }
    } else {
        Err(
            SwarmErrorView::Other(
                "unsupported consensus.quorum_policy "@ + text::str_debug(word)
                    + "; use require_all, majority, or at_least"@,
            ),
        )
    }
}

impl ConsensusConfig {
    /// The configured policy.
    pub fn quorum_policy(&self) -> (r: AnyResult<QuorumPolicy>)
        ensures
            mavlink_client::result_view(r) == policy_for(self.quorum_policy@, self.quorum_count),
    {
        let word: String = self.quorum_policy.as_str().trim().to_ascii_lowercase();
        if is_text(&word, "require_all") || is_text(&word, "all") {
            Ok(QuorumPolicy::RequireAll)
        } else if is_text(&word, "majority") || is_text(&word, "quorum") {
            Ok(QuorumPolicy::Majority)
        } else if is_text(&word, "at_least") || is_text(&word, "n_of_m") || is_text(
            &word,
            "count",
        ) {
            match self.quorum_count {
                Some(count) => Ok(QuorumPolicy::AtLeast(count)),
                None => Err(
                    other_err(
                        "consensus.quorum_count is required when quorum_policy is at_least".to_string(),
                    ),
                ),
            }
        } else {
            Err(
                other_err(
                    "unsupported consensus.quorum_policy ".to_string().concat(
                        debug_text(word.as_str()).as_str(),
                    ).concat("; use require_all, majority, or at_least"),
                ),
            )
        }
    }
}

/// A mission file without consensus settings requires every configured vehicle: the
/// default word stands for "require all", with or without a count.
pub proof fn law_default_requires_everyone(count: Option<usize>)
    ensures
        policy_for("require_all"@, count) == Ok::<QuorumPolicy, SwarmErrorView>(
            QuorumPolicy::RequireAll,
        ),
{
    reveal_strlit("require_all");
    let word = "require_all"@;
    assert(text::trimmed_start(word) == word);
    assert(text::trimmed_end(word) == word);
    assert(text::ascii_lower(word) =~= word);
}

/// Neither surrounding white space nor ASCII case changes what a policy word stands for.
pub proof fn law_policy_word_is_normalised(
    word: Seq<char>,
    before: Seq<char>,
    after: Seq<char>,
    count: Option<usize>,
)
    requires
        text::all_white_space(before),
        text::all_white_space(after),
    ensures
        policy_for(before + word + after, count) == policy_for(word, count),
        policy_for(text::ascii_lower(word), count) == policy_for(word, count),
{
    text::lemma_trimmed_padding(before, word, after);
    text::lemma_trimmed_lower(word);
    text::lemma_lower_idempotent(text::trimmed(word));
}

} // verus!
