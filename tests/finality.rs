use ionova_core::finality::{
    ConsensusResult, FinalityConfig, FinalityGadget, Proposal, ValidatorInfo, ValidatorSet, Vote, VoteCollection,
};

fn gadget(stakes: &[(&str, u64, bool)]) -> FinalityGadget {
    let mut set = ValidatorSet::new();
    for (id, stake, active) in stakes {
        set.add_validator(id.to_string(), ValidatorInfo { pub_key: vec![1], stake: *stake, is_active: *active });
    }
    let mut g = FinalityGadget::new(FinalityConfig::default());
    g.init_validators(set);
    g.propose_block(Proposal {
        view: 0,
        block_hash: "h".to_string(),
        parent_hash: "p".to_string(),
        proposer: "v0".to_string(),
        timestamp: 0,
        qc: None,
    });
    g
}

fn commit(id: &str) -> Vote {
    Vote::Commit { view: 0, block_hash: "h".to_string(), validator_id: id.to_string(), signature: vec![0] }
}

#[test]
fn three_of_four_equal_validators_finalize() {
    let mut g = gadget(&[("v0", 100, true), ("v1", 100, true), ("v2", 100, true), ("v3", 100, true)]);
    assert_eq!(g.validators.quorum_threshold(), 267);
    assert!(matches!(g.process_vote(commit("v0")), ConsensusResult::Pending));
    assert!(matches!(g.process_vote(commit("v1")), ConsensusResult::Pending));
    match g.process_vote(commit("v2")) {
        ConsensusResult::Finalized { view, block_hash, qc } => {
            assert_eq!(view, 0);
            assert_eq!(block_hash, "h");
            assert_eq!(qc.aggregated_stake, 300);
            assert_eq!(qc.signatures.len(), 3);
        }
        other => panic!("expected finalization, got {:?}", other),
    }
    assert!(matches!(g.process_vote(commit("v3")), ConsensusResult::Pending));
}

#[test]
fn repeated_votes_count_once() {
    let mut g = gadget(&[("v0", 100, true), ("v1", 100, true), ("v2", 100, true), ("v3", 100, true)]);
    for _ in 0..5 {
        assert!(matches!(g.process_vote(commit("v0")), ConsensusResult::Pending));
    }
    assert!(matches!(g.process_vote(commit("v1")), ConsensusResult::Pending));
}

#[test]
fn unknown_and_inactive_validators_are_ignored() {
    let mut g = gadget(&[("v0", 100, true), ("v1", 100, false), ("v2", 100, true)]);
    assert_eq!(g.validators.total_stake(), 200);
    assert!(matches!(g.process_vote(commit("stranger")), ConsensusResult::Pending));
    assert!(matches!(g.process_vote(commit("v1")), ConsensusResult::Pending));
    assert!(matches!(g.process_vote(commit("v0")), ConsensusResult::Pending));
    assert!(matches!(g.process_vote(commit("v2")), ConsensusResult::Finalized { .. }));
}

#[test]
fn prepare_and_precommit_quorums_are_reported() {
    let mut g = gadget(&[("v0", 1, true), ("v1", 1, true)]);
    let prepare = |id: &str| Vote::Prepare { view: 0, block_hash: "h".to_string(), validator_id: id.to_string(), signature: vec![] };
    assert!(matches!(g.process_vote(prepare("v0")), ConsensusResult::Pending));
    assert!(matches!(g.process_vote(prepare("v1")), ConsensusResult::PrepareQuorum { view: 0, .. }));
    let pre = Vote::PreCommit { view: 0, block_hash: "h".to_string(), validator_id: "v0".to_string(), signature: vec![] };
    assert!(matches!(g.process_vote(pre), ConsensusResult::Pending));
    let pre = Vote::PreCommit { view: 0, block_hash: "h".to_string(), validator_id: "v1".to_string(), signature: vec![] };
    assert!(matches!(g.process_vote(pre), ConsensusResult::PreCommitQuorum { view: 0, .. }));
}

#[test]
fn advancing_the_view_discards_its_votes() {
    let mut g = gadget(&[("v0", 1, true), ("v1", 1, true)]);
    assert!(matches!(g.process_vote(commit("v0")), ConsensusResult::Pending));
    assert_eq!(g.advance_view(), 1);
    assert_eq!(g.get_current_view(), 1);
    assert!(matches!(g.process_vote(commit("v1")), ConsensusResult::Pending));
}

#[test]
fn vote_collection_sums_stake_per_phase() {
    let c = VoteCollection::new();
    assert_eq!(c.total_prepare_stake(), 0);
    assert_eq!(c.total_precommit_stake(), 0);
    assert_eq!(c.total_commit_stake(), 0);
}
