use vstd::prelude::*;
use crate::address::{offer_signer_seeds, seeds_view, signer_seeds};
use crate::key::Key;
use crate::state::{Escrow, EscrowView};

verus! {

/// The values from which a record's signing address is derived: the proof
/// that the program itself, and no held key, acts for the record.
#[derive(Clone, Copy, Debug)]
pub struct Authority {
    pub maker: Key,
    pub seed: u64,
    pub bump: u8,
}

/// An authority as a mathematical value.
pub struct AuthorityView {
    pub maker: Seq<u8>,
    pub seed: u64,
    pub bump: u8,
}

impl View for Authority {
    type V = AuthorityView;

    open spec fn view(&self) -> AuthorityView {
        AuthorityView { maker: self.maker@, seed: self.seed, bump: self.bump }
    }
}

impl AuthorityView {
    /// The seeds that the authority signs with.
    pub open spec fn seeds(self) -> Seq<Seq<u8>> {
        signer_seeds(self.maker, self.seed, self.bump)
    }
}

impl Authority {
    /// The authority of a record.
    pub fn of(record: &Escrow) -> (authority: Authority)
        ensures
            authority@ == (AuthorityView {
                maker: record@.maker,
                seed: record@.seed,
                bump: record@.bump,
            }),
    {
        Authority { maker: record.maker, seed: record.seed, bump: record.bump }
    }

    /// The seeds that the authority signs with.
    pub fn seeds(&self) -> (seeds: Vec<Vec<u8>>)
        ensures
            seeds@.len() == 4,
            seeds_view(seeds@) == self@.seeds(),
    {
        offer_signer_seeds(&self.maker, self.seed, self.bump)
    }
}

/// One request of an operation to the record store or to the token service.
#[derive(Clone, Copy, Debug)]
pub enum Step {
    /// Store `record` at `address`.
    Store { address: Key, record: Escrow },
    /// Move `amount` of `mint`, declared with `decimals`, from the account
    /// of `from` to that of `to`, which is opened if there is none. Without
    /// an authority, `from` signs.
    Transfer {
        from: Key,
        to: Key,
        mint: Key,
        decimals: u8,
        amount: u64,
        authority: Option<Authority>,
    },
    /// Close the empty account in which `owner` holds `mint`, and hand its
    /// storage credit to `rent_to`.
    CloseVault { owner: Key, mint: Key, rent_to: Key, authority: Authority },
    /// Take the record at `address` out of the store, and hand its storage
    /// credit to `rent_to`.
    Destroy { address: Key, rent_to: Key },
}

/// A step as a mathematical value.
pub enum StepView {
    Store { address: Seq<u8>, record: EscrowView },
    Transfer {
        from: Seq<u8>,
        to: Seq<u8>,
        mint: Seq<u8>,
        decimals: u8,
        amount: u64,
        authority: Option<AuthorityView>,
    },
    CloseVault { owner: Seq<u8>, mint: Seq<u8>, rent_to: Seq<u8>, authority: AuthorityView },
    Destroy { address: Seq<u8>, rent_to: Seq<u8> },
}

impl View for Step {
    type V = StepView;

    open spec fn view(&self) -> StepView {
        match *self {
            Step::Store { address, record } => StepView::Store {
                address: address@,
                record: record@,
            },
            Step::Transfer { from, to, mint, decimals, amount, authority } => StepView::Transfer {
                from: from@,
                to: to@,
                mint: mint@,
                decimals,
                amount,
                authority: match authority {
                    Some(a) => Some(a@),
                    None => None,
                },
            },
            Step::CloseVault { owner, mint, rent_to, authority } => StepView::CloseVault {
                owner: owner@,
                mint: mint@,
                rent_to: rent_to@,
                authority: authority@,
            },
            Step::Destroy { address, rent_to } => StepView::Destroy {
                address: address@,
                rent_to: rent_to@,
            },
        }
    }
}

/// The steps of a list as mathematical values.
pub open spec fn steps_view(steps: Seq<Step>) -> Seq<StepView> {
    Seq::new(steps.len(), |i: int| steps[i]@)
}

} // verus!
