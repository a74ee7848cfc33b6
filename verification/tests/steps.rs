use escrow::address::{find_escrow, offer_signer_seeds};
use escrow::steps::{Authority, Step};
use escrow::{Escrow, EscrowError, Key, Ledger, Make, Refund, Take};

fn key(tag: u8) -> Key {
    let mut bytes = [0u8; 32];
    bytes[0] = tag;
    bytes[31] = tag;
    Key::new(bytes)
}

fn escrow_at() -> (Key, u8) {
    find_escrow(&key(9), &key(1), 1).unwrap()
}

fn offer() -> Escrow {
    let (_, bump) = escrow_at();
    Escrow { seed: 1, maker: key(1), mint_a: key(3), mint_b: key(4), receive: 50, bump }
}

fn taking() -> Take {
    Take { taker: key(2), maker: key(1), mint_a: key(3), mint_b: key(4), escrow: escrow_at().0 }
}

fn refunding() -> Refund {
    Refund { maker: key(1), mint_a: key(3), mint_b: key(4), escrow: escrow_at().0 }
}

fn making() -> Make {
    Make { maker: key(1), mint_a: key(3), mint_b: key(4), escrow: escrow_at().0 }
}

fn funded() -> Ledger {
    let mut ledger = Ledger::new(key(9));
    assert!(ledger.create_mint(key(3), 6));
    assert!(ledger.create_mint(key(4), 9));
    assert!(ledger.mint_to(&key(1), &key(3), 1000));
    assert!(ledger.mint_to(&key(2), &key(4), 80));
    ledger
}

#[test]
fn authority_of_a_record_signs_with_its_seeds() {
    let authority = Authority::of(&offer());
    assert!(authority.maker.same(&key(1)));
    assert_eq!(authority.seed, 1);
    assert_eq!(authority.bump, offer().bump);
    assert_eq!(authority.seeds(), offer_signer_seeds(&key(1), 1, offer().bump));
}

#[test]
fn make_steps_store_the_record_and_fund_the_vault() {
    match making().store_step(1, 50, 254) {
        Step::Store { address, record } => {
            assert!(address.same(&escrow_at().0));
            assert_eq!(record.seed, 1);
            assert!(record.maker.same(&key(1)));
            assert!(record.mint_a.same(&key(3)));
            assert!(record.mint_b.same(&key(4)));
            assert_eq!(record.receive, 50);
            assert_eq!(record.bump, 254);
        }
        other => panic!("{:?}", other),
    }
    match making().deposit_step(6, 100) {
        Step::Transfer { from, to, mint, decimals, amount, authority } => {
            assert!(from.same(&key(1)));
            assert!(to.same(&escrow_at().0));
            assert!(mint.same(&key(3)));
            assert_eq!(decimals, 6);
            assert_eq!(amount, 100);
            assert!(authority.is_none());
        }
        other => panic!("{:?}", other),
    }
}

#[test]
fn take_steps_pay_the_maker_and_hand_all_to_the_taker() {
    match taking().payment_step(&offer(), 9) {
        Step::Transfer { from, to, mint, decimals, amount, authority } => {
            assert!(from.same(&key(2)));
            assert!(to.same(&key(1)));
            assert!(mint.same(&key(4)));
            assert_eq!(decimals, 9);
            assert_eq!(amount, 50);
            assert!(authority.is_none());
        }
        other => panic!("{:?}", other),
    }
    match taking().release_step(&offer(), 6, 123) {
        Step::Transfer { from, to, mint, decimals, amount, authority } => {
            assert!(from.same(&escrow_at().0));
            assert!(to.same(&key(2)));
            assert!(mint.same(&key(3)));
            assert_eq!(decimals, 6);
            assert_eq!(amount, 123);
            let authority = authority.unwrap();
            assert!(authority.maker.same(&key(1)));
            assert_eq!(authority.seed, 1);
            assert_eq!(authority.bump, offer().bump);
        }
        other => panic!("{:?}", other),
    }
    match taking().close_step(&offer()) {
        Step::CloseVault { owner, mint, rent_to, authority } => {
            assert!(owner.same(&escrow_at().0));
            assert!(mint.same(&key(3)));
            assert!(rent_to.same(&key(2)));
            assert_eq!(authority.bump, offer().bump);
        }
        other => panic!("{:?}", other),
    }
    match taking().destroy_step() {
        Step::Destroy { address, rent_to } => {
            assert!(address.same(&escrow_at().0));
            assert!(rent_to.same(&key(2)));
        }
        other => panic!("{:?}", other),
    }
}

#[test]
fn refund_steps_hand_all_back_to_the_maker() {
    match refunding().release_step(&offer(), 6, 123) {
        Step::Transfer { from, to, mint, decimals, amount, authority } => {
            assert!(from.same(&escrow_at().0));
            assert!(to.same(&key(1)));
            assert!(mint.same(&key(3)));
            assert_eq!(decimals, 6);
            assert_eq!(amount, 123);
            assert!(authority.unwrap().maker.same(&key(1)));
        }
        other => panic!("{:?}", other),
    }
    match refunding().close_step(&offer()) {
        Step::CloseVault { owner, mint, rent_to, authority } => {
            assert!(owner.same(&escrow_at().0));
            assert!(mint.same(&key(3)));
            assert!(rent_to.same(&key(1)));
            assert_eq!(authority.seed, 1);
        }
        other => panic!("{:?}", other),
    }
    match refunding().destroy_step() {
        Step::Destroy { address, rent_to } => {
            assert!(address.same(&escrow_at().0));
            assert!(rent_to.same(&key(1)));
        }
        other => panic!("{:?}", other),
    }
}

#[test]
fn performing_the_steps_of_a_take_one_by_one() {
    let mut ledger = funded();
    let escrow = escrow_at().0;
    assert_eq!(ledger.perform(&making().store_step(1, 50, offer().bump)), Ok(()));
    assert_eq!(ledger.perform(&making().deposit_step(6, 100)), Ok(()));
    assert_eq!(ledger.balance(&escrow, &key(3)), Some(100));
    let record = taking().resolve(&ledger).unwrap();
    assert_eq!(ledger.perform(&taking().payment_step(&record, 9)), Ok(()));
    assert_eq!(ledger.balance(&key(1), &key(4)), Some(50));
    assert_eq!(
        ledger.perform(&taking().close_step(&record)),
        Err(EscrowError::VaultNotEmpty)
    );
    assert_eq!(ledger.perform(&taking().release_step(&record, 6, 100)), Ok(()));
    assert_eq!(ledger.balance(&key(2), &key(3)), Some(100));
    assert_eq!(ledger.perform(&taking().close_step(&record)), Ok(()));
    assert_eq!(ledger.balance(&escrow, &key(3)), None);
    assert_eq!(ledger.perform(&taking().destroy_step()), Ok(()));
    assert!(ledger.record(&escrow).is_none());
    assert_eq!(ledger.perform(&taking().destroy_step()), Err(EscrowError::RecordNotFound));
}

#[test]
fn performing_a_step_reports_what_the_service_reports() {
    let mut ledger = funded();
    assert_eq!(
        ledger.perform(&making().store_step(1, 50, 2)),
        Err(EscrowError::NoDerivedAuthority)
    );
    assert_eq!(
        ledger.perform(&making().deposit_step(5, 100)),
        Err(EscrowError::AssetMismatch)
    );
    assert_eq!(
        ledger.perform(&making().deposit_step(6, 1001)),
        Err(EscrowError::InsufficientBalance)
    );
    assert_eq!(ledger.perform(&making().deposit_step(6, 100)), Ok(()));
    let other = Escrow { seed: 2, ..offer() };
    assert_eq!(
        ledger.perform(&taking().release_step(&other, 6, 100)),
        Err(EscrowError::Unauthorized)
    );
    assert_eq!(
        ledger.perform(&taking().close_step(&other)),
        Err(EscrowError::Unauthorized)
    );
    assert_eq!(ledger.balance(&escrow_at().0, &key(3)), Some(100));
}

#[test]
fn verify_checks_a_record_against_the_accounts() {
    assert_eq!(taking().verify(&offer()), Ok(()));
    let other_maker = Escrow { maker: key(5), ..offer() };
    let other_a = Escrow { mint_a: key(5), ..offer() };
    let other_b = Escrow { mint_b: key(5), ..offer() };
    assert_eq!(taking().verify(&other_maker), Err(EscrowError::RecordMismatch));
    assert_eq!(taking().verify(&other_a), Err(EscrowError::RecordMismatch));
    assert_eq!(taking().verify(&other_b), Err(EscrowError::RecordMismatch));
    let by_escrow = Take { taker: escrow_at().0, ..taking() };
    assert_eq!(by_escrow.verify(&offer()), Err(EscrowError::Unauthorized));
    assert_eq!(by_escrow.verify(&other_maker), Err(EscrowError::RecordMismatch));

    assert_eq!(refunding().verify(&offer()), Ok(()));
    assert_eq!(refunding().verify(&other_maker), Err(EscrowError::Unauthorized));
    assert_eq!(refunding().verify(&other_a), Err(EscrowError::RecordMismatch));
    assert_eq!(refunding().verify(&other_b), Err(EscrowError::RecordMismatch));
    let other_both = Escrow { maker: key(5), mint_a: key(5), ..offer() };
    assert_eq!(refunding().verify(&other_both), Err(EscrowError::Unauthorized));
}

#[test]
fn record_of_the_accounts_holds_what_it_was_given() {
    let record = making().record(7, u64::MAX, 3);
    assert_eq!(record.seed, 7);
    assert_eq!(record.receive, u64::MAX);
    assert_eq!(record.bump, 3);
    assert!(record.maker.same(&key(1)));
    assert!(record.mint_a.same(&key(3)));
    assert!(record.mint_b.same(&key(4)));
}

#[test]
fn the_steps_of_each_operation_come_in_order() {
    let steps = making().steps(1, 50, 254, 6, 100);
    assert_eq!(steps.len(), 2);
    assert!(matches!(steps[0], Step::Store { .. }));
    assert!(matches!(steps[1], Step::Transfer { amount: 100, decimals: 6, authority: None, .. }));

    let steps = taking().withdraw_steps(&offer(), 6, 9, 100);
    assert_eq!(steps.len(), 2);
    assert!(matches!(steps[0], Step::Transfer { amount: 50, decimals: 9, authority: None, .. }));
    assert!(matches!(
        steps[1],
        Step::Transfer { amount: 100, decimals: 6, authority: Some(_), .. }
    ));
    match steps[1] {
        Step::Transfer { from, to, .. } => {
            assert!(from.same(&escrow_at().0));
            assert!(to.same(&key(2)));
        }
        other => panic!("{:?}", other),
    }
    let steps = taking().close_steps(&offer());
    assert_eq!(steps.len(), 1);
    match steps[0] {
        Step::CloseVault { rent_to, .. } => assert!(rent_to.same(&key(2))),
        other => panic!("{:?}", other),
    }
    let steps = taking().steps(&offer(), 6, 9, 100);
    assert_eq!(steps.len(), 4);
    assert!(matches!(steps[0], Step::Transfer { amount: 50, authority: None, .. }));
    assert!(matches!(steps[1], Step::Transfer { amount: 100, authority: Some(_), .. }));
    match (steps[2], steps[3]) {
        (Step::CloseVault { rent_to: first, .. }, Step::Destroy { rent_to: second, .. }) => {
            assert!(first.same(&key(2)));
            assert!(second.same(&key(2)));
        }
        other => panic!("{:?}", other),
    }

    let steps = refunding().withdraw_steps(&offer(), 6, 100);
    assert_eq!(steps.len(), 1);
    assert!(matches!(
        steps[0],
        Step::Transfer { amount: 100, decimals: 6, authority: Some(_), .. }
    ));
    let steps = refunding().close_steps(&offer());
    assert_eq!(steps.len(), 1);
    match steps[0] {
        Step::CloseVault { rent_to, .. } => assert!(rent_to.same(&key(1))),
        other => panic!("{:?}", other),
    }
    let steps = refunding().steps(&offer(), 6, 100);
    assert_eq!(steps.len(), 3);
    assert!(matches!(steps[0], Step::Transfer { amount: 100, authority: Some(_), .. }));
    match (steps[1], steps[2]) {
        (Step::CloseVault { rent_to: first, .. }, Step::Destroy { rent_to: second, .. }) => {
            assert!(first.same(&key(1)));
            assert!(second.same(&key(1)));
        }
        other => panic!("{:?}", other),
    }
}
