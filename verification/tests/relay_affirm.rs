use std::sync::Arc;

use bridger::parcel::{EthereumHeader, EthereumRelayHeaderParcel};
use bridger::result::BridgerError;
use bridger::service::relay::{
    affirm_start, affirm_step, check_affirmations, check_last_confirmed, check_pending,
    large_block_exists, relay_target, AffirmAction, AffirmEvent, AffirmState, Config,
    RelayAffirmation, RelayService, Step,
};

fn parcel(number: u64) -> EthereumRelayHeaderParcel {
    EthereumRelayHeaderParcel {
        header: EthereumHeader { number, hash: Some([number as u8; 32]) },
        mmr_root: [7; 32],
    }
}

fn affirmation(blocks: &[u64]) -> RelayAffirmation {
    RelayAffirmation { relay_header_parcels: blocks.iter().map(|b| parcel(*b)).collect() }
}

fn refusal(action: &AffirmAction) -> String {
    match action {
        AffirmAction::Done(Err(BridgerError::Bridger(m))) => m.clone(),
        _ => panic!("not a refusal"),
    }
}

#[test]
fn new_service_keeps_config_step() {
    let config = Config { step: Step { relay: 30 } };
    let shadow = Arc::new(1u8);
    let darwinia = Arc::new("chain");
    let service = RelayService::new(&config, shadow.clone(), darwinia.clone());
    assert_eq!(service.step(), 30);
    assert_eq!(service.name(), "RELAY");
    assert!(Arc::ptr_eq(&service.shadow, &shadow));
    assert!(Arc::ptr_eq(&service.darwinia, &darwinia));
}

#[test]
fn last_confirmed_check() {
    assert!(check_last_confirmed(11, 10).is_ok());
    let e = check_last_confirmed(10, 10).unwrap_err();
    assert_eq!(e.to_display_string(), "The target block 10 is less than the last_confirmed 10");
    let e = check_last_confirmed(3, 1200).unwrap_err();
    assert_eq!(e.to_display_string(), "The target block 3 is less than the last_confirmed 1200");
}

#[test]
fn pending_check() {
    assert!(check_pending(10, &vec![]).is_ok());
    assert!(check_pending(10, &vec![parcel(8), parcel(9)]).is_ok());
    let e = check_pending(10, &vec![parcel(8), parcel(12)]).unwrap_err();
    assert!(matches!(e, BridgerError::Bridger(ref m) if m == "The target block 10 is pending"));
    assert!(check_pending(10, &vec![parcel(10)]).is_err());
}

#[test]
fn large_block_check() {
    assert!(!large_block_exists(&vec![], 5));
    assert!(!large_block_exists(&vec![affirmation(&[1, 2]), affirmation(&[4])], 5));
    assert!(large_block_exists(&vec![affirmation(&[1, 2]), affirmation(&[4, 5])], 5));
    assert!(!large_block_exists(&vec![affirmation(&[])], 0));
}

#[test]
fn affirmations_check() {
    let games = vec![vec![vec![affirmation(&[3])], vec![]], vec![vec![affirmation(&[1, 2])]]];
    assert!(check_affirmations(4, &games).is_ok());
    let e = check_affirmations(3, &games).unwrap_err();
    assert_eq!(e.to_display_string(), "The target block 3 is in the relayer game");
    assert!(check_affirmations(0, &vec![]).is_ok());
}

#[test]
fn affirm_success_path() {
    let (s, a) = affirm_start(100);
    assert!(matches!(a, AffirmAction::FetchParcel(100)));
    let (s, a) = affirm_step(s, AffirmEvent::Parcel(Ok(parcel(100))));
    assert!(matches!(a, AffirmAction::FetchLastConfirmed));
    let (s, a) = affirm_step(s, AffirmEvent::LastConfirmed(Ok(99)));
    assert!(matches!(a, AffirmAction::FetchPendingHeaders));
    let (s, a) = affirm_step(s, AffirmEvent::PendingHeaders(Ok(vec![parcel(98)])));
    assert!(matches!(a, AffirmAction::FetchAffirmations));
    let (s, a) = affirm_step(s, AffirmEvent::Affirmations(Ok(vec![vec![vec![affirmation(&[99])]]])));
    match a {
        AffirmAction::Affirm(p) => assert_eq!(p.header.number, 100),
        _ => panic!("expected an affirm"),
    }
    assert!(matches!(s, AffirmState::Affirming { target: 100 }));
    let (s, a) = affirm_step(s, AffirmEvent::Affirmed(Ok([5; 32])));
    assert!(matches!(a, AffirmAction::Done(Ok(h)) if h == [5; 32]));
    assert!(matches!(s, AffirmState::Finished));
}

#[test]
fn affirm_refuses_confirmed_target() {
    let (s, _) = affirm_start(5);
    let (s, _) = affirm_step(s, AffirmEvent::Parcel(Ok(parcel(5))));
    let (s, a) = affirm_step(s, AffirmEvent::LastConfirmed(Ok(5)));
    assert_eq!(refusal(&a), "The target block 5 is less than the last_confirmed 5");
    assert!(matches!(s, AffirmState::Finished));
}

#[test]
fn affirm_refuses_pending_target() {
    let (s, _) = affirm_start(5);
    let (s, _) = affirm_step(s, AffirmEvent::Parcel(Ok(parcel(5))));
    let (s, _) = affirm_step(s, AffirmEvent::LastConfirmed(Ok(1)));
    let (s, a) = affirm_step(s, AffirmEvent::PendingHeaders(Ok(vec![parcel(2), parcel(6)])));
    assert_eq!(refusal(&a), "The target block 5 is pending");
    assert!(matches!(s, AffirmState::Finished));
}

#[test]
fn affirm_refuses_target_in_relayer_game() {
    let (s, _) = affirm_start(5);
    let (s, _) = affirm_step(s, AffirmEvent::Parcel(Ok(parcel(5))));
    let (s, _) = affirm_step(s, AffirmEvent::LastConfirmed(Ok(1)));
    let (s, _) = affirm_step(s, AffirmEvent::PendingHeaders(Ok(vec![])));
    let (s, a) = affirm_step(s, AffirmEvent::Affirmations(Ok(vec![vec![vec![affirmation(&[5])]]])));
    assert_eq!(refusal(&a), "The target block 5 is in the relayer game");
    assert!(matches!(s, AffirmState::Finished));
}

#[test]
fn affirm_passes_on_service_errors() {
    let (s, _) = affirm_start(5);
    let (s, a) = affirm_step(s, AffirmEvent::Parcel(Err(BridgerError::Web3("down".to_string()))));
    assert!(matches!(a, AffirmAction::Done(Err(BridgerError::Web3(ref m))) if m == "down"));
    assert!(matches!(s, AffirmState::Finished));

    let (s, _) = affirm_start(5);
    let (s, _) = affirm_step(s, AffirmEvent::Parcel(Ok(parcel(5))));
    let (_, a) = affirm_step(s, AffirmEvent::LastConfirmed(Err(BridgerError::Io("io".to_string()))));
    assert!(matches!(a, AffirmAction::Done(Err(BridgerError::Io(_)))));

    let (s, _) = affirm_start(5);
    let (s, _) = affirm_step(s, AffirmEvent::Parcel(Ok(parcel(5))));
    let (s, _) = affirm_step(s, AffirmEvent::LastConfirmed(Ok(0)));
    let (_, a) = affirm_step(s, AffirmEvent::PendingHeaders(Err(BridgerError::Etc("e".to_string()))));
    assert!(matches!(a, AffirmAction::Done(Err(BridgerError::Etc(_)))));

    let (s, _) = affirm_start(5);
    let (s, _) = affirm_step(s, AffirmEvent::Parcel(Ok(parcel(5))));
    let (s, _) = affirm_step(s, AffirmEvent::LastConfirmed(Ok(0)));
    let (s, _) = affirm_step(s, AffirmEvent::PendingHeaders(Ok(vec![])));
    let (s, a) = affirm_step(s, AffirmEvent::Affirmations(Err(BridgerError::DeToml("t".to_string()))));
    assert!(matches!(a, AffirmAction::Done(Err(BridgerError::DeToml(_)))));
    assert!(matches!(s, AffirmState::Finished));
}

#[test]
fn affirm_reports_failed_submission() {
    let (s, _) = affirm_start(5);
    let (s, _) = affirm_step(s, AffirmEvent::Parcel(Ok(parcel(5))));
    let (s, _) = affirm_step(s, AffirmEvent::LastConfirmed(Ok(0)));
    let (s, _) = affirm_step(s, AffirmEvent::PendingHeaders(Ok(vec![])));
    let (s, _) = affirm_step(s, AffirmEvent::Affirmations(Ok(vec![])));
    let (_, a) = affirm_step(s, AffirmEvent::Affirmed(Err(BridgerError::Bridger("rejected".to_string()))));
    assert_eq!(refusal(&a), "rejected");
}

#[test]
fn relay_target_is_after_highest_pool_block() {
    assert_eq!(relay_target(&vec![]), None);
    assert_eq!(relay_target(&vec![7]), Some(8));
    assert_eq!(relay_target(&vec![3, 11, 5, 11, 2]), Some(12));
    assert_eq!(relay_target(&vec![0, 0]), Some(1));
}
