use vstd::prelude::*;
use crate::address::{escrow_authority, find_escrow, lemma_authority_is_address};
use crate::error::EscrowError;
use crate::key::Key;
use crate::ledger::{Ledger, LedgerView};
use crate::state::{Escrow, EscrowView};
use crate::steps::{steps_view, Step, StepView};

verus! {

/// The accounts of the operation that opens an offer.
#[derive(Clone, Copy, Debug)]
pub struct Make {
    /// Who opens the offer and authorizes the operation.
    pub maker: Key,
    /// The asset that the maker deposits.
    pub mint_a: Key,
    /// The asset that the maker asks for.
    pub mint_b: Key,
    /// Where the record is to be stored; it owns the vault.
    pub escrow: Key,
}

/// The accounts of an opening as mathematical values.
pub struct MakeView {
    pub maker: Seq<u8>,
    pub mint_a: Seq<u8>,
    pub mint_b: Seq<u8>,
    pub escrow: Seq<u8>,
}

impl View for Make {
    type V = MakeView;

    open spec fn view(&self) -> MakeView {
        MakeView {
            maker: self.maker@,
            mint_a: self.mint_a@,
            mint_b: self.mint_b@,
            escrow: self.escrow@,
        }
    }
}

impl MakeView {
    /// The record that these accounts open under `seed`, `receive` and `bump`.
    pub open spec fn record(self, seed: u64, receive: u64, bump: u8) -> EscrowView {
        EscrowView {
            seed,
            maker: self.maker,
            mint_a: self.mint_a,
            mint_b: self.mint_b,
            receive,
            bump,
        }
    }

    /// The step that stores the record.
    pub open spec fn store_step(self, seed: u64, receive: u64, bump: u8) -> StepView {
        StepView::Store { address: self.escrow, record: self.record(seed, receive, bump) }
    }

    /// The step that funds the vault: the maker signs, and `amount` of the
    /// deposited asset moves from the maker to the escrow address.
    pub open spec fn deposit_step(self, decimals: u8, amount: u64) -> StepView {
        StepView::Transfer {
            from: self.maker,
            to: self.escrow,
            mint: self.mint_a,
            decimals,
            amount,
            authority: None,
        }
    }

    /// The steps of an opening, in the order in which they are performed:
    /// the record is stored, then the vault is funded.
    pub open spec fn steps(self, seed: u64, receive: u64, bump: u8, decimals: u8, deposit: u64) -> Seq<
        StepView,
    > {
        seq![self.store_step(seed, receive, bump), self.deposit_step(decimals, deposit)]
    }

    /// Why the maker cannot deposit `amount` on `ledger`; `None` where they
    /// can. The address of a record cannot be the maker: it has no key.
    pub open spec fn deposit_error(self, ledger: LedgerView, amount: u64) -> Option<EscrowError> {
        if !ledger.mints.dom().contains(self.mint_a) {
            Some(EscrowError::AssetMismatch)
        } else if ledger.records.dom().contains(self.maker) {
            Some(EscrowError::Unauthorized)
        } else if !ledger.holds(self.maker, self.mint_a, amount) {
            Some(EscrowError::InsufficientBalance)
        } else {
            None
        }
    }

    /// Why the offer cannot be opened on `ledger`; `None` where it can.
    pub open spec fn make_error(self, ledger: LedgerView, seed: u64, deposit: u64) -> Option<
        EscrowError,
    > {
        match escrow_authority(ledger.program, self.maker, seed) {
            None => Some(EscrowError::NoDerivedAuthority),
            Some((address, bump)) => {
                if address != self.escrow {
                    Some(EscrowError::RecordMismatch)
                } else if self.maker == self.escrow {
                    Some(EscrowError::Unauthorized)
                } else if ledger.records.dom().contains(self.escrow) {
                    Some(EscrowError::RecordAlreadyExists)
                } else if !ledger.mints.dom().contains(self.mint_a) || !ledger.mints.dom().contains(
                    self.mint_b,
                ) {
                    Some(EscrowError::AssetMismatch)
                } else if ledger.balances.dom().contains((self.escrow, self.mint_a)) {
                    Some(EscrowError::RecordAlreadyExists)
                } else if ledger.records.dom().contains(self.maker) {
                    Some(EscrowError::Unauthorized)
                } else if !ledger.holds(self.maker, self.mint_a, deposit) {
                    Some(EscrowError::InsufficientBalance)
                } else {
                    None
                }
            },
        }
    }

    /// The steps that opening the offer on `ledger` performs: those of
    /// `steps`, under the bump that is found and with the decimals that the
    /// ledger knows of the deposited asset.
    pub open spec fn make_steps(self, ledger: LedgerView, seed: u64, deposit: u64, receive: u64) -> Seq<
        StepView,
    > {
        match escrow_authority(ledger.program, self.maker, seed) {
            None => Seq::empty(),
            Some((address, bump)) => self.steps(
                seed,
                receive,
                bump,
                ledger.mints[self.mint_a].decimals,
                deposit,
            ),
        }
    }

    /// The ledger after the offer has been opened: the record is stored under
    /// the bump that was found, then `deposit` has moved from the maker to
    /// the vault.
    pub open spec fn made(self, ledger: LedgerView, seed: u64, deposit: u64, receive: u64) -> LedgerView {
        match escrow_authority(ledger.program, self.maker, seed) {
            None => ledger,
            Some((address, bump)) => ledger.stepped(self.store_step(seed, receive, bump)).stepped(
                self.deposit_step(ledger.mints[self.mint_a].decimals, deposit),
            ),
        }
    }
}

impl Make {
    /// The record that these accounts open under `seed`, `receive` and `bump`.
    pub fn record(&self, seed: u64, receive: u64, bump: u8) -> (escrow: Escrow)
        ensures
            escrow@ == self@.record(seed, receive, bump),
    {
        Escrow { seed, maker: self.maker, mint_a: self.mint_a, mint_b: self.mint_b, receive, bump }
    }

    /// The step that stores the record.
    pub fn store_step(&self, seed: u64, receive: u64, bump: u8) -> (step: Step)
        ensures
            step@ == self@.store_step(seed, receive, bump),
    {
        Step::Store { address: self.escrow, record: self.record(seed, receive, bump) }
    }

    /// The step that funds the vault with `amount` of the deposited asset,
    /// which the caller takes to have `decimals`.
    pub fn deposit_step(&self, decimals: u8, amount: u64) -> (step: Step)
        ensures
            step@ == self@.deposit_step(decimals, amount),
    {
        Step::Transfer {
            from: self.maker,
            to: self.escrow,
            mint: self.mint_a,
            decimals,
            amount,
            authority: None,
        }
    }

    /// The steps of an opening, in the order in which they are performed.
    pub fn steps(&self, seed: u64, receive: u64, bump: u8, decimals: u8, deposit: u64) -> (steps:
        Vec<Step>)
        ensures
            steps@.len() == 2,
            steps_view(steps@) == self@.steps(seed, receive, bump, decimals, deposit),
    {
        let mut steps: Vec<Step> = Vec::new();
        steps.push(self.store_step(seed, receive, bump));
        steps.push(self.deposit_step(decimals, deposit));
        assert(steps_view(steps@) =~= self@.steps(seed, receive, bump, decimals, deposit));
        steps
    }

    /// Stores the record of the offer at the escrow address. Address and
    /// `bump` must be the ones that the search finds for maker and `seed`;
    /// another bump is rejected though it may derive an address. This is
    /// the first step of an opening, and the only step performed.
    pub fn init_escrow(&self, ledger: &mut Ledger, seed: u64, receive: u64, bump: u8) -> (r: Result<
        (),
        EscrowError,
    >)
        requires
            old(ledger).wf(),
        ensures
            final(ledger).wf(),
            match r {
                Ok(()) => old(ledger)@.step_error(self@.store_step(seed, receive, bump)) is None
                    && final(ledger)@ == old(ledger)@.stepped(
                    self@.store_step(seed, receive, bump),
                ) && final(ledger)@.performed == old(ledger)@.performed + seq![
                    self@.store_step(seed, receive, bump),
                ],
                Err(e) => old(ledger)@.step_error(self@.store_step(seed, receive, bump)) == Some(e)
                    && final(ledger)@ == old(ledger)@,
            },
    {
        let r = ledger.perform(&self.store_step(seed, receive, bump));
        proof {
            let step = self@.store_step(seed, receive, bump);
            assert(old(ledger)@.performed.push(step) =~= old(ledger)@.performed + seq![step]);
        }
        r
    }

    /// Moves `amount` of the deposited asset from the maker to the vault,
    /// which is opened if there is none, under the maker's signature: the
    /// second step of an opening, and the only step performed.
    pub fn deposit(&self, ledger: &mut Ledger, amount: u64) -> (r: Result<(), EscrowError>)
        requires
            old(ledger).wf(),
        ensures
            final(ledger).wf(),
            match r {
                Ok(()) => self@.deposit_error(old(ledger)@, amount) is None && final(ledger)@
                    == old(ledger)@.stepped(
                    self@.deposit_step(old(ledger)@.mints[self.mint_a@].decimals, amount),
                ) && final(ledger)@.performed == old(ledger)@.performed + seq![
                    self@.deposit_step(old(ledger)@.mints[self.mint_a@].decimals, amount),
                ],
                Err(e) => self@.deposit_error(old(ledger)@, amount) == Some(e) && final(ledger)@
                    == old(ledger)@,
            },
    {
        let decimals = match ledger.decimals(&self.mint_a) {
            Some(decimals) => decimals,
            None => {
                return Err(EscrowError::AssetMismatch);
            },
        };
        let r = ledger.perform(&self.deposit_step(decimals, amount));
        proof {
            let step = self@.deposit_step(decimals, amount);
            assert(old(ledger)@.performed.push(step) =~= old(ledger)@.performed + seq![step]);
        }
        r
    }
}

/// Opens an offer: finds the bump of maker and `seed`, stores the record and
/// funds the vault with `deposit`, in this order and in no other steps.
/// Either all of it happens or nothing.
pub fn make(ledger: &mut Ledger, accounts: &Make, seed: u64, deposit: u64, receive: u64) -> (r:
    Result<(), EscrowError>)
    requires
        old(ledger).wf(),
    ensures
        final(ledger).wf(),
        match r {
            Ok(()) => accounts@.make_error(old(ledger)@, seed, deposit) is None && final(ledger)@
                == accounts@.made(old(ledger)@, seed, deposit, receive)
                && final(ledger)@.performed == old(ledger)@.performed + accounts@.make_steps(
                old(ledger)@,
                seed,
                deposit,
                receive,
            ),
            Err(e) => accounts@.make_error(old(ledger)@, seed, deposit) == Some(e)
                && final(ledger)@ == old(ledger)@,
        },
{
    let program = ledger.program();
    let bump = match find_escrow(&program, &accounts.maker, seed) {
        Some(found) => {
            if !found.0.same(&accounts.escrow) {
                return Err(EscrowError::RecordMismatch);
            }
            found.1
        },
        None => {
            return Err(EscrowError::NoDerivedAuthority);
        },
    };
    proof {
        lemma_authority_is_address(ledger@.program, accounts.maker@, seed);
    }
    let store = accounts.store_step(seed, receive, bump);
    ledger.validate(&store)?;
    let decimals = ledger.decimals(&accounts.mint_a).unwrap();
    let fund = accounts.deposit_step(decimals, deposit);
    ledger.validate(&fund)?;
    let stored = ledger.perform(&store);
    assert(stored is Ok);
    let funded = ledger.perform(&fund);
    assert(funded is Ok);
    proof {
        assert(old(ledger)@.performed.push(store@).push(fund@) =~= old(ledger)@.performed
            + accounts@.make_steps(old(ledger)@, seed, deposit, receive));
    }
    funded
}

} // verus!
