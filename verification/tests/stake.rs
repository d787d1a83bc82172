use auction_engine::stake::action::{
    identity_bytes, read_identity, Delegate, IdentityKey, StakeError, Undelegate,
};
use auction_engine::stake::changes::DelegationChanges;
use auction_engine::stake::proto;

fn key(tag: u8) -> IdentityKey {
    let mut inner = [tag; 32];
    inner[31] = 1;
    IdentityKey { inner }
}

fn delegate(tag: u8) -> Delegate {
    Delegate {
        validator_identity: key(tag),
        epoch_index: tag as u64,
        unbonded_amount: 1000 + tag as u64,
        delegation_amount: 900 + tag as u64,
    }
}

fn undelegate(tag: u8) -> Undelegate {
    Undelegate {
        validator_identity: key(tag),
        epoch_index: tag as u64,
        unbonded_amount: 10 + tag as u64,
        delegation_amount: 9 + tag as u64,
    }
}

#[test]
fn delegation_changes_default_to_none() {
    let changes = DelegationChanges::default();
    assert!(changes.delegations.is_empty());
    assert!(changes.undelegations.is_empty());
    let sent = changes.to_proto();
    assert!(sent.delegations.is_empty());
    assert!(sent.undelegations.is_empty());
}

#[test]
fn delegation_changes_travel_and_come_back() {
    let changes = DelegationChanges {
        delegations: vec![delegate(1), delegate(2), delegate(3)],
        undelegations: vec![undelegate(4)],
    };
    let sent = changes.to_proto();
    assert_eq!(sent.delegations.len(), 3);
    assert_eq!(sent.delegations[1].validator_identity, Some(key(2).inner.to_vec()));
    assert_eq!(sent.delegations[1].unbonded_amount, 1002);
    assert_eq!(sent.undelegations[0].delegation_amount, 13);
    let back = DelegationChanges::try_from_proto(&sent).unwrap();
    assert_eq!(back.delegations, changes.delegations);
    assert_eq!(back.undelegations, changes.undelegations);
}

#[test]
fn delegation_changes_report_the_first_unreadable_action() {
    let good = delegate(1).to_proto();
    let mut nameless = delegate(2).to_proto();
    nameless.validator_identity = None;
    let mut short = delegate(3).to_proto();
    short.validator_identity = Some(vec![1, 2, 3]);
    let mut short_undelegate = undelegate(4).to_proto();
    short_undelegate.validator_identity = Some(vec![0; 33]);

    let sent = proto::DelegationChanges {
        delegations: vec![good.clone(), short.clone(), nameless.clone()],
        undelegations: vec![],
    };
    assert_eq!(
        DelegationChanges::try_from_proto(&sent).map(|c| c.delegations),
        Err(StakeError::InvalidIdentityKey)
    );
    let sent = proto::DelegationChanges {
        delegations: vec![good.clone(), nameless.clone(), short.clone()],
        undelegations: vec![short_undelegate.clone()],
    };
    assert_eq!(
        DelegationChanges::try_from_proto(&sent).map(|c| c.delegations),
        Err(StakeError::MissingValidatorIdentity)
    );
    // delegations are read before undelegations
    let mut nameless_undelegate = undelegate(5).to_proto();
    nameless_undelegate.validator_identity = None;
    let sent = proto::DelegationChanges {
        delegations: vec![good.clone(), short],
        undelegations: vec![nameless_undelegate.clone()],
    };
    assert_eq!(
        DelegationChanges::try_from_proto(&sent).map(|c| c.delegations),
        Err(StakeError::InvalidIdentityKey)
    );
    let sent = proto::DelegationChanges {
        delegations: vec![good],
        undelegations: vec![undelegate(6).to_proto(), nameless_undelegate, short_undelegate],
    };
    assert_eq!(
        DelegationChanges::try_from_proto(&sent).map(|c| c.delegations),
        Err(StakeError::MissingValidatorIdentity)
    );
}

#[test]
fn single_actions_are_read_field_by_field() {
    assert_eq!(Delegate::try_from_proto(&delegate(9).to_proto()), Ok(delegate(9)));
    assert_eq!(Undelegate::try_from_proto(&undelegate(9).to_proto()), Ok(undelegate(9)));
    let sent = proto::Undelegate {
        validator_identity: None,
        epoch_index: 0,
        unbonded_amount: 0,
        delegation_amount: 0,
    };
    assert_eq!(Undelegate::try_from_proto(&sent), Err(StakeError::MissingValidatorIdentity));
}

#[test]
fn identity_keys_are_32_bytes() {
    assert_eq!(read_identity(&None), Err(StakeError::MissingValidatorIdentity));
    assert_eq!(read_identity(&Some(Vec::new())), Err(StakeError::InvalidIdentityKey));
    assert_eq!(read_identity(&Some(vec![0; 31])), Err(StakeError::InvalidIdentityKey));
    assert_eq!(read_identity(&Some(key(5).inner.to_vec())), Ok(key(5)));
    assert_eq!(identity_bytes(&key(5)), key(5).inner.to_vec());
    assert_eq!(StakeError::MissingValidatorIdentity.message(), "missing validator identity");
    assert_eq!(StakeError::InvalidIdentityKey.message(), "invalid identity key length");
}
