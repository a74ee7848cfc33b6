use anchor_lang::prelude::Pubkey;
use anchor_lang::solana_program::hash::hash;
use anchor_lang::AnchorSerialize;
use escrow::state::RECORD_LEN;
use escrow::{Escrow, Key};

fn key(tag: u8) -> Key {
    let mut bytes = [0u8; 32];
    bytes[0] = tag;
    bytes[31] = tag;
    Key::new(bytes)
}

fn offer() -> Escrow {
    Escrow {
        seed: 0x0102030405060708,
        maker: key(1),
        mint_a: key(3),
        mint_b: key(4),
        receive: 50,
        bump: 254,
    }
}

#[test]
fn stored_record_has_the_fixed_layout() {
    let bytes = offer().to_bytes();
    assert_eq!(RECORD_LEN, 121);
    assert_eq!(bytes.len(), 121);
    assert_eq!(&bytes[0..8], &[31, 213, 123, 187, 186, 22, 218, 155]);
    assert_eq!(&bytes[8..16], &[8, 7, 6, 5, 4, 3, 2, 1]);
    assert_eq!(&bytes[16..48], &key(1).bytes);
    assert_eq!(&bytes[48..80], &key(3).bytes);
    assert_eq!(&bytes[80..112], &key(4).bytes);
    assert_eq!(&bytes[112..120], &[50, 0, 0, 0, 0, 0, 0, 0]);
    assert_eq!(bytes[120], 254);
}

#[test]
fn stored_record_begins_with_the_account_discriminator() {
    let bytes = offer().to_bytes();
    assert_eq!(&bytes[0..8], &hash(b"account:Escrow").to_bytes()[0..8]);
}

#[test]
fn stored_fields_are_their_borsh_form() {
    let e = offer();
    let fields = (
        e.seed,
        Pubkey::new_from_array(e.maker.bytes),
        Pubkey::new_from_array(e.mint_a.bytes),
        Pubkey::new_from_array(e.mint_b.bytes),
        e.receive,
        e.bump,
    );
    let expected = fields.try_to_vec().unwrap();
    assert_eq!(&e.to_bytes()[8..], &expected[..]);
}

#[test]
fn stored_record_reads_back() {
    let e = offer();
    let back = Escrow::from_bytes(&e.to_bytes()).unwrap();
    assert_eq!(back.seed, e.seed);
    assert!(back.maker.same(&e.maker));
    assert!(back.mint_a.same(&e.mint_a));
    assert!(back.mint_b.same(&e.mint_b));
    assert_eq!(back.receive, e.receive);
    assert_eq!(back.bump, e.bump);
    let extreme = Escrow { seed: u64::MAX, receive: u64::MAX, bump: 0, ..offer() };
    let back = Escrow::from_bytes(&extreme.to_bytes()).unwrap();
    assert_eq!(back.seed, u64::MAX);
    assert_eq!(back.receive, u64::MAX);
    assert_eq!(back.bump, 0);
}

#[test]
fn from_bytes_rejects_other_lengths_and_discriminators() {
    let bytes = offer().to_bytes();
    assert!(Escrow::from_bytes(&bytes[..120]).is_none());
    assert!(Escrow::from_bytes(&[]).is_none());
    let mut longer = bytes.clone();
    longer.push(0);
    assert!(Escrow::from_bytes(&longer).is_none());
    for i in 0..8 {
        let mut other = bytes.clone();
        other[i] ^= 1;
        assert!(Escrow::from_bytes(&other).is_none());
    }
    let mut other = bytes.clone();
    other[8] ^= 1;
    assert_eq!(Escrow::from_bytes(&other).unwrap().seed, 0x0102030405060709);
}

#[test]
fn read_takes_a_key_out_of_bytes() {
    let mut bytes = vec![7u8; 40];
    bytes[4] = 1;
    bytes[35] = 2;
    let k = Key::read(&bytes, 4).unwrap();
    assert_eq!(k.bytes[0], 1);
    assert_eq!(k.bytes[1], 7);
    assert_eq!(k.bytes[31], 2);
    assert!(Key::read(&bytes, 8).is_some());
    assert!(Key::read(&bytes, 9).is_none());
    assert!(Key::read(&bytes, usize::MAX).is_none());
    assert!(Key::read(&bytes[..31], 0).is_none());
}
