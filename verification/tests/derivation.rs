use anchor_lang::prelude::Pubkey;
use escrow::address::{derive_escrow, find_escrow, offer_seeds, offer_signer_seeds};
use escrow::Key;

fn key(tag: u8) -> Key {
    let mut bytes = [0u8; 32];
    bytes[0] = tag;
    bytes[31] = tag;
    Key::new(bytes)
}

#[test]
fn key_keeps_its_bytes() {
    let k = key(5);
    assert_eq!(k.bytes[0], 5);
    assert_eq!(k.bytes[1], 0);
    assert_eq!(k.bytes[31], 5);
    assert_eq!(k.to_vec().len(), 32);
    assert_eq!(k.to_vec()[31], 5);
}

#[test]
fn same_compares_every_byte() {
    let a = key(5);
    let mut bytes = a.bytes;
    assert!(a.same(&Key::new(bytes)));
    bytes[17] = 1;
    assert!(!a.same(&Key::new(bytes)));
    assert!(!a.same(&key(6)));
}

#[test]
fn offer_seeds_are_namespace_maker_and_seed() {
    let maker = key(1);
    let seeds = offer_seeds(&maker, 0x0102030405060708);
    assert_eq!(seeds.len(), 3);
    assert_eq!(seeds[0], b"escrow".to_vec());
    assert_eq!(seeds[1], maker.bytes.to_vec());
    assert_eq!(seeds[2], vec![8, 7, 6, 5, 4, 3, 2, 1]);
}

#[test]
fn signer_seeds_end_with_the_bump() {
    let maker = key(1);
    let seeds = offer_signer_seeds(&maker, 1, 254);
    assert_eq!(seeds.len(), 4);
    assert_eq!(seeds[0], b"escrow".to_vec());
    assert_eq!(seeds[1], maker.bytes.to_vec());
    assert_eq!(seeds[2], vec![1, 0, 0, 0, 0, 0, 0, 0]);
    assert_eq!(seeds[3], vec![254]);
}

#[test]
fn find_escrow_gives_the_known_address() {
    let (address, bump) = find_escrow(&key(9), &key(1), 1).unwrap();
    assert_eq!(bump, 255);
    assert_eq!(
        address.bytes,
        [
            242, 237, 214, 9, 157, 62, 100, 166, 206, 196, 190, 15, 201, 249, 162, 114, 212, 134,
            234, 98, 29, 181, 5, 100, 5, 185, 126, 160, 180, 75, 255, 68
        ]
    );
}

#[test]
fn find_escrow_goes_down_to_the_first_bump_that_derives() {
    let (address, bump) = find_escrow(&key(9), &key(2), 7).unwrap();
    assert_eq!(bump, 253);
    assert_eq!(
        address.bytes,
        [
            22, 16, 242, 38, 134, 189, 3, 229, 102, 116, 44, 253, 70, 102, 153, 204, 159, 234, 22,
            16, 99, 23, 189, 64, 173, 121, 27, 23, 114, 97, 34, 107
        ]
    );
    assert!(derive_escrow(&key(9), &key(2), 7, 255).is_none());
    assert!(derive_escrow(&key(9), &key(2), 7, 254).is_none());
    assert!(derive_escrow(&key(9), &key(2), 7, 253).unwrap().same(&address));
}

#[test]
fn find_escrow_agrees_with_the_program_address_search() {
    let program = key(9);
    for tag in 1..20u8 {
        for seed in [0u64, 1, 2, u64::MAX] {
            let maker = key(tag);
            let (address, bump) = find_escrow(&program, &maker, seed).unwrap();
            let (expected, expected_bump) = Pubkey::find_program_address(
                &[b"escrow", &maker.bytes, &seed.to_le_bytes()],
                &Pubkey::new_from_array(program.bytes),
            );
            assert_eq!(address.bytes, expected.to_bytes());
            assert_eq!(bump, expected_bump);
        }
    }
}

#[test]
fn derive_escrow_agrees_with_the_program_address_under_each_bump() {
    let program = key(9);
    let maker = key(1);
    let mut derived = 0;
    let mut underivable = 0;
    for bump in 0..=255u8 {
        let expected = Pubkey::create_program_address(
            &[b"escrow", &maker.bytes, &1u64.to_le_bytes(), &[bump]],
            &Pubkey::new_from_array(program.bytes),
        );
        match derive_escrow(&program, &maker, 1, bump) {
            Some(address) => {
                assert_eq!(address.bytes, expected.unwrap().to_bytes());
                derived += 1;
            }
            None => {
                assert!(expected.is_err());
                underivable += 1;
            }
        }
    }
    assert!(derived > 0);
    assert!(underivable > 0);
    assert!(derive_escrow(&program, &maker, 1, 2).is_none());
}

#[test]
fn address_depends_on_maker_seed_and_program() {
    let (a, _) = find_escrow(&key(9), &key(1), 1).unwrap();
    let (b, _) = find_escrow(&key(9), &key(1), 2).unwrap();
    let (c, _) = find_escrow(&key(9), &key(2), 1).unwrap();
    let (d, _) = find_escrow(&key(8), &key(1), 1).unwrap();
    let (again, _) = find_escrow(&key(9), &key(1), 1).unwrap();
    assert!(a.same(&again));
    assert!(!a.same(&b));
    assert!(!a.same(&c));
    assert!(!a.same(&d));
}
