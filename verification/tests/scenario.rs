use escrow::address::find_escrow;
use escrow::{make, refund, take, EscrowError, Key, Ledger, Make, Refund, Take};

fn key(tag: u8) -> Key {
    let mut bytes = [0u8; 32];
    bytes[0] = tag;
    bytes[31] = tag;
    Key::new(bytes)
}

struct World {
    ledger: Ledger,
    maker: Key,
    taker: Key,
    mint_a: Key,
    mint_b: Key,
    escrow: Key,
}

fn world() -> World {
    let program = key(9);
    let maker = key(1);
    let taker = key(2);
    let mint_a = key(3);
    let mint_b = key(4);
    let mut ledger = Ledger::new(program);
    assert!(ledger.create_mint(mint_a, 6));
    assert!(ledger.create_mint(mint_b, 9));
    assert!(ledger.mint_to(&maker, &mint_a, 1000));
    assert!(ledger.mint_to(&taker, &mint_b, 80));
    let (escrow, _) = find_escrow(&program, &maker, 1).unwrap();
    World { ledger, maker, taker, mint_a, mint_b, escrow }
}

#[test]
fn make_then_take_swaps_both_assets() {
    let mut w = world();
    let opening = Make { maker: w.maker, mint_a: w.mint_a, mint_b: w.mint_b, escrow: w.escrow };
    assert_eq!(make(&mut w.ledger, &opening, 1, 100, 50), Ok(()));
    assert_eq!(w.ledger.balance(&w.escrow, &w.mint_a), Some(100));
    assert_eq!(w.ledger.balance(&w.maker, &w.mint_a), Some(900));
    let record = w.ledger.record(&w.escrow).unwrap();
    assert_eq!(record.seed, 1);
    assert_eq!(record.receive, 50);

    let fulfilment = Take {
        taker: w.taker,
        maker: w.maker,
        mint_a: w.mint_a,
        mint_b: w.mint_b,
        escrow: w.escrow,
    };
    assert_eq!(take(&mut w.ledger, &fulfilment), Ok(()));
    assert_eq!(w.ledger.balance(&w.maker, &w.mint_b), Some(50));
    assert_eq!(w.ledger.balance(&w.taker, &w.mint_b), Some(30));
    assert_eq!(w.ledger.balance(&w.taker, &w.mint_a), Some(100));
    assert_eq!(w.ledger.balance(&w.maker, &w.mint_a), Some(900));
    assert_eq!(w.ledger.balance(&w.escrow, &w.mint_a), None);
    assert!(w.ledger.record(&w.escrow).is_none());
}

#[test]
fn make_then_refund_returns_the_deposit() {
    let mut w = world();
    let opening = Make { maker: w.maker, mint_a: w.mint_a, mint_b: w.mint_b, escrow: w.escrow };
    assert_eq!(make(&mut w.ledger, &opening, 1, 100, 50), Ok(()));
    let cancellation =
        Refund { maker: w.maker, mint_a: w.mint_a, mint_b: w.mint_b, escrow: w.escrow };
    assert_eq!(refund(&mut w.ledger, &cancellation), Ok(()));
    assert_eq!(w.ledger.balance(&w.maker, &w.mint_a), Some(1000));
    assert_eq!(w.ledger.balance(&w.maker, &w.mint_b), None);
    assert_eq!(w.ledger.balance(&w.taker, &w.mint_b), Some(80));
    assert_eq!(w.ledger.balance(&w.escrow, &w.mint_a), None);
    assert!(w.ledger.record(&w.escrow).is_none());
    assert_eq!(refund(&mut w.ledger, &cancellation), Err(EscrowError::RecordNotFound));
}
