use vstd::prelude::*;
use vstd::bytes::{
    lemma_auto_spec_u64_to_from_le_bytes, spec_u64_from_le_bytes, spec_u64_to_le_bytes,
    u64_from_le_bytes, u64_to_le_bytes,
};
use vstd::slice::slice_subrange;
use crate::key::Key;

verus! {

/// The record of one open offer.
#[derive(Clone, Copy, Debug)]
pub struct Escrow {
    /// Chosen by the maker to tell their offers apart.
    pub seed: u64,
    /// Who opened the offer.
    pub maker: Key,
    /// The asset that the maker deposits.
    pub mint_a: Key,
    /// The asset that the maker asks for.
    pub mint_b: Key,
    /// How much of `mint_b` fulfils the offer.
    pub receive: u64,
    /// The bump under which maker and seed derive the record's address.
    pub bump: u8,
}

/// An offer as a mathematical value.
pub struct EscrowView {
    pub seed: u64,
    pub maker: Seq<u8>,
    pub mint_a: Seq<u8>,
    pub mint_b: Seq<u8>,
    pub receive: u64,
    pub bump: u8,
}

impl View for Escrow {
    type V = EscrowView;

    open spec fn view(&self) -> EscrowView {
        EscrowView {
            seed: self.seed,
            maker: self.maker@,
            mint_a: self.mint_a@,
            mint_b: self.mint_b@,
            receive: self.receive,
            bump: self.bump,
        }
    }
}

/// The number of bytes of a stored record.
pub const RECORD_LEN: usize = 121;

/// The eight bytes with which every stored record begins.
pub open spec fn discriminator() -> Seq<u8> {
    seq![31u8, 213u8, 123u8, 187u8, 186u8, 22u8, 218u8, 155u8]
}

impl EscrowView {
    /// The three keys of the record have the length of a key.
    pub open spec fn wf(self) -> bool {
        self.maker.len() == 32 && self.mint_a.len() == 32 && self.mint_b.len() == 32
    }

    /// The stored form of the record: the discriminator, the seed as eight
    /// little-endian bytes, the maker, the two mints, the amount asked for
    /// as eight little-endian bytes, and the bump.
    pub open spec fn encoding(self) -> Seq<u8> {
        discriminator() + spec_u64_to_le_bytes(self.seed) + self.maker + self.mint_a + self.mint_b
            + spec_u64_to_le_bytes(self.receive) + seq![self.bump]
    }
}

/// Two records with the same stored form are the same record: what is read
/// from a stored form is the record that was stored.
pub proof fn lemma_encoding_is_injective(a: EscrowView, b: EscrowView)
    requires
        a.wf(),
        b.wf(),
        a.encoding() == b.encoding(),
    ensures
        a == b,
{
    lemma_auto_spec_u64_to_from_le_bytes();
    let x = a.encoding();
    let y = b.encoding();
    assert(x.subrange(8, 16) =~= spec_u64_to_le_bytes(a.seed));
    assert(y.subrange(8, 16) =~= spec_u64_to_le_bytes(b.seed));
    assert(x.subrange(16, 48) =~= a.maker);
    assert(y.subrange(16, 48) =~= b.maker);
    assert(x.subrange(48, 80) =~= a.mint_a);
    assert(y.subrange(48, 80) =~= b.mint_a);
    assert(x.subrange(80, 112) =~= a.mint_b);
    assert(y.subrange(80, 112) =~= b.mint_b);
    assert(x.subrange(112, 120) =~= spec_u64_to_le_bytes(a.receive));
    assert(y.subrange(112, 120) =~= spec_u64_to_le_bytes(b.receive));
    assert(x[120] == a.bump);
    assert(y[120] == b.bump);
    assert(spec_u64_from_le_bytes(spec_u64_to_le_bytes(a.seed)) == a.seed);
    assert(spec_u64_from_le_bytes(spec_u64_to_le_bytes(b.seed)) == b.seed);
    assert(spec_u64_from_le_bytes(spec_u64_to_le_bytes(a.receive)) == a.receive);
    assert(spec_u64_from_le_bytes(spec_u64_to_le_bytes(b.receive)) == b.receive);
}

impl Escrow {
    /// The stored form of the record.
    pub fn to_bytes(&self) -> (bytes: Vec<u8>)
        ensures
            bytes@ == self@.encoding(),
            bytes@.len() == RECORD_LEN,
    {
        let mut bytes: Vec<u8> = vec![31u8, 213u8, 123u8, 187u8, 186u8, 22u8, 218u8, 155u8];
        assert(bytes@ =~= discriminator());
        let seed = u64_to_le_bytes(self.seed);
        let maker = self.maker.to_vec();
        let mint_a = self.mint_a.to_vec();
        let mint_b = self.mint_b.to_vec();
        let receive = u64_to_le_bytes(self.receive);
        bytes.extend_from_slice(seed.as_slice());
        bytes.extend_from_slice(maker.as_slice());
        bytes.extend_from_slice(mint_a.as_slice());
        bytes.extend_from_slice(mint_b.as_slice());
        bytes.extend_from_slice(receive.as_slice());
        bytes.push(self.bump);
        assert(bytes@ =~= self@.encoding());
        bytes
    }

    /// Reads a record from its stored form; `None` where `bytes` are not
    /// the stored form of any record.
    pub fn from_bytes(bytes: &[u8]) -> (r: Option<Escrow>)
        ensures
            match r {
                Some(escrow) => escrow@.encoding() == bytes@ && bytes@.len() == RECORD_LEN
                    && bytes@.subrange(0, 8) == discriminator(),
                None => bytes@.len() != RECORD_LEN || bytes@.subrange(0, 8) != discriminator(),
            },
    {
        if bytes.len() != RECORD_LEN {
            return None;
        }
        if bytes[0] != 31 || bytes[1] != 213 || bytes[2] != 123 || bytes[3] != 187 || bytes[4]
            != 186 || bytes[5] != 22 || bytes[6] != 218 || bytes[7] != 155 {
            assert(bytes@.subrange(0, 8)[0] == bytes@[0]);
            assert(bytes@.subrange(0, 8)[1] == bytes@[1]);
            assert(bytes@.subrange(0, 8)[2] == bytes@[2]);
            assert(bytes@.subrange(0, 8)[3] == bytes@[3]);
            assert(bytes@.subrange(0, 8)[4] == bytes@[4]);
            assert(bytes@.subrange(0, 8)[5] == bytes@[5]);
            assert(bytes@.subrange(0, 8)[6] == bytes@[6]);
            assert(bytes@.subrange(0, 8)[7] == bytes@[7]);
            return None;
        }
        let seed = u64_from_le_bytes(slice_subrange(bytes, 8, 16));
        let receive = u64_from_le_bytes(slice_subrange(bytes, 112, 120));
        let maker = Key::read(bytes, 16).unwrap();
        let mint_a = Key::read(bytes, 48).unwrap();
        let mint_b = Key::read(bytes, 80).unwrap();
        let escrow = Escrow { seed, maker, mint_a, mint_b, receive, bump: bytes[120] };
        proof {
            lemma_auto_spec_u64_to_from_le_bytes();
            assert(bytes@.subrange(0, 8) =~= discriminator());
            assert(spec_u64_to_le_bytes(seed) == bytes@.subrange(8, 16));
            assert(spec_u64_to_le_bytes(receive) == bytes@.subrange(112, 120));
            assert(escrow@.encoding() =~= bytes@);
        }
        Some(escrow)
    }
}

} // verus!
