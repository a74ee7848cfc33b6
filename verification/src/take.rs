use vstd::prelude::*;
use crate::error::EscrowError;
use crate::key::Key;
use crate::ledger::{Ledger, LedgerView};
use crate::state::{Escrow, EscrowView};
use crate::steps::{steps_view, Authority, AuthorityView, Step, StepView};

verus! {

/// The accounts of the operation that fulfils an offer.
#[derive(Clone, Copy, Debug)]
pub struct Take {
    /// Who fulfils the offer and authorizes the operation.
    pub taker: Key,
    /// Who opened the offer.
    pub maker: Key,
    /// The asset that the maker deposited.
    pub mint_a: Key,
    /// The asset that the maker asks for.
    pub mint_b: Key,
    /// Where the record is stored; it owns the vault.
    pub escrow: Key,
}

/// The accounts of a fulfilment as mathematical values.
pub struct TakeView {
    pub taker: Seq<u8>,
    pub maker: Seq<u8>,
    pub mint_a: Seq<u8>,
    pub mint_b: Seq<u8>,
    pub escrow: Seq<u8>,
}

impl View for Take {
    type V = TakeView;

    open spec fn view(&self) -> TakeView {
        TakeView {
            taker: self.taker@,
            maker: self.maker@,
            mint_a: self.mint_a@,
            mint_b: self.mint_b@,
            escrow: self.escrow@,
        }
    }
}

impl TakeView {
    /// Why the taker may not fulfil the offer that `record` describes; `None`
    /// where they may. The record's maker and mints must be those of the
    /// accounts, and the escrow address itself cannot be the taker.
    pub open spec fn record_error(self, record: EscrowView) -> Option<EscrowError> {
        if record.maker != self.maker || record.mint_a != self.mint_a || record.mint_b
            != self.mint_b {
            Some(EscrowError::RecordMismatch)
        } else if self.taker == self.escrow {
            Some(EscrowError::Unauthorized)
        } else {
            None
        }
    }

    /// Why these accounts do not name an open offer that the taker may
    /// fulfil; `None` where they do. A record without a vault counts as
    /// missing.
    pub open spec fn account_error(self, ledger: LedgerView) -> Option<EscrowError> {
        if !ledger.records.dom().contains(self.escrow) || !ledger.balances.dom().contains(
            (self.escrow, ledger.records[self.escrow].mint_a),
        ) {
            Some(EscrowError::RecordNotFound)
        } else {
            self.record_error(ledger.records[self.escrow])
        }
    }

    /// The first step: the taker signs, and what the record asks for moves
    /// from the taker to the maker.
    pub open spec fn payment_step(self, record: EscrowView, decimals: u8) -> StepView {
        StepView::Transfer {
            from: self.taker,
            to: self.maker,
            mint: self.mint_b,
            decimals,
            amount: record.receive,
            authority: None,
        }
    }

    /// The second step: the record signs, and `vault`, all that the vault
    /// holds, moves to the taker.
    pub open spec fn release_step(self, record: EscrowView, decimals: u8, vault: u64) -> StepView {
        StepView::Transfer {
            from: self.escrow,
            to: self.taker,
            mint: self.mint_a,
            decimals,
            amount: vault,
            authority: Some(
                AuthorityView { maker: record.maker, seed: record.seed, bump: record.bump },
            ),
        }
    }

    /// The third step: the record signs, the vault is closed, and its
    /// storage credit goes to the taker.
    pub open spec fn close_step(self, record: EscrowView) -> StepView {
        StepView::CloseVault {
            owner: self.escrow,
            mint: self.mint_a,
            rent_to: self.taker,
            authority: AuthorityView { maker: record.maker, seed: record.seed, bump: record.bump },
        }
    }

    /// The fourth step: the record is destroyed, and its storage credit
    /// goes to the taker.
    pub open spec fn destroy_step(self) -> StepView {
        StepView::Destroy { address: self.escrow, rent_to: self.taker }
    }

    /// The two transfers of a fulfilment, in the order in which they are
    /// performed: the payment under the taker's signature, then the release
    /// under the record's authority.
    pub open spec fn withdraw_steps(
        self,
        record: EscrowView,
        decimals_a: u8,
        decimals_b: u8,
        vault: u64,
    ) -> Seq<StepView> {
        seq![self.payment_step(record, decimals_b), self.release_step(record, decimals_a, vault)]
    }

    /// The one step of `close`: the vault is closed, with the taker as
    /// recipient of its storage credit. The record stays.
    pub open spec fn close_steps(self, record: EscrowView) -> Seq<StepView> {
        seq![self.close_step(record)]
    }

    /// The four steps of a fulfilment, in the order in which they are
    /// performed: payment, release, close of the vault, destruction of the
    /// record.
    pub open spec fn steps(self, record: EscrowView, decimals_a: u8, decimals_b: u8, vault: u64) -> Seq<
        StepView,
    > {
        self.withdraw_steps(record, decimals_a, decimals_b, vault) + self.close_steps(record) + seq![
            self.destroy_step(),
        ]
    }

    /// The transfers that `withdraw` performs on `ledger`: what the record
    /// asks for, then all that the vault holds, each with the decimals
    /// that the ledger knows.
    pub open spec fn withdraw_steps_on(self, ledger: LedgerView) -> Seq<StepView> {
        self.withdraw_steps(
            ledger.records[self.escrow],
            ledger.mints[self.mint_a].decimals,
            ledger.mints[self.mint_b].decimals,
            ledger.balances[(self.escrow, self.mint_a)],
        )
    }

    /// The step that `close` performs on `ledger`.
    pub open spec fn close_steps_on(self, ledger: LedgerView) -> Seq<StepView> {
        self.close_steps(ledger.records[self.escrow])
    }

    /// The four steps that `take` performs on `ledger`, in order: payment,
    /// release, close of the vault, destruction of the record.
    pub open spec fn take_steps(self, ledger: LedgerView) -> Seq<StepView> {
        self.withdraw_steps_on(ledger) + self.close_steps_on(ledger) + seq![self.destroy_step()]
    }

    /// Why the two transfers of a fulfilment cannot be made; `None` where
    /// they can. The address of a record cannot be the taker: it has no
    /// key.
    pub open spec fn withdraw_error(self, ledger: LedgerView) -> Option<EscrowError> {
        if self.account_error(ledger) is Some {
            self.account_error(ledger)
        } else if ledger.records.dom().contains(self.taker) {
            Some(EscrowError::Unauthorized)
        } else if !ledger.holds(self.taker, self.mint_b, ledger.records[self.escrow].receive) {
            Some(EscrowError::InsufficientBalance)
        } else {
            None
        }
    }

    /// The ledger after the two transfers: first what the record asks for
    /// has moved from the taker to the maker, then all that the vault holds
    /// has moved to the taker.
    pub open spec fn withdrawn(self, ledger: LedgerView) -> LedgerView {
        ledger.stepped(self.withdraw_steps_on(ledger)[0]).stepped(self.withdraw_steps_on(ledger)[1])
    }

    /// Why the vault cannot be closed; `None` where it can.
    pub open spec fn close_error(self, ledger: LedgerView) -> Option<EscrowError> {
        if self.account_error(ledger) is Some {
            self.account_error(ledger)
        } else if ledger.balances[(self.escrow, self.mint_a)] != 0 {
            Some(EscrowError::VaultNotEmpty)
        } else {
            None
        }
    }

    /// The ledger after the vault has been closed. The record stays.
    pub open spec fn closed(self, ledger: LedgerView) -> LedgerView {
        ledger.stepped(self.close_steps_on(ledger)[0])
    }

    /// The ledger after the offer has been fulfilled: the transfers, the
    /// close of the vault, and last the destruction of the record.
    pub open spec fn taken(self, ledger: LedgerView) -> LedgerView {
        self.closed(self.withdrawn(ledger)).stepped(self.destroy_step())
    }
}

impl Take {
    /// The step that pays the maker what `record` asks for, in the asset
    /// that the caller takes to have `decimals`.
    pub fn payment_step(&self, record: &Escrow, decimals: u8) -> (step: Step)
        ensures
            step@ == self@.payment_step(record@, decimals),
    {
        Step::Transfer {
            from: self.taker,
            to: self.maker,
            mint: self.mint_b,
            decimals,
            amount: record.receive,
            authority: None,
        }
    }

    /// The step that releases `vault`, all that the vault holds, to the
    /// taker, in the asset that the caller takes to have `decimals`.
    pub fn release_step(&self, record: &Escrow, decimals: u8, vault: u64) -> (step: Step)
        ensures
            step@ == self@.release_step(record@, decimals, vault),
    {
        Step::Transfer {
            from: self.escrow,
            to: self.taker,
            mint: self.mint_a,
            decimals,
            amount: vault,
            authority: Some(Authority::of(record)),
        }
    }

    /// The step that closes the vault.
    pub fn close_step(&self, record: &Escrow) -> (step: Step)
        ensures
            step@ == self@.close_step(record@),
    {
        Step::CloseVault {
            owner: self.escrow,
            mint: self.mint_a,
            rent_to: self.taker,
            authority: Authority::of(record),
        }
    }

    /// The step that destroys the record.
    pub fn destroy_step(&self) -> (step: Step)
        ensures
            step@ == self@.destroy_step(),
    {
        Step::Destroy { address: self.escrow, rent_to: self.taker }
    }

    /// The two transfers of a fulfilment, in the order in which they are
    /// performed.
    pub fn withdraw_steps(&self, record: &Escrow, decimals_a: u8, decimals_b: u8, vault: u64) -> (steps:
        Vec<Step>)
        ensures
            steps@.len() == 2,
            steps_view(steps@) == self@.withdraw_steps(record@, decimals_a, decimals_b, vault),
    {
        let mut steps: Vec<Step> = Vec::new();
        steps.push(self.payment_step(record, decimals_b));
        steps.push(self.release_step(record, decimals_a, vault));
        assert(steps_view(steps@) =~= self@.withdraw_steps(
            record@,
            decimals_a,
            decimals_b,
            vault,
        ));
        steps
    }

    /// The one step of `close`.
    pub fn close_steps(&self, record: &Escrow) -> (steps: Vec<Step>)
        ensures
            steps@.len() == 1,
            steps_view(steps@) == self@.close_steps(record@),
    {
        let mut steps: Vec<Step> = Vec::new();
        steps.push(self.close_step(record));
        assert(steps_view(steps@) =~= self@.close_steps(record@));
        steps
    }

    /// The four steps of a fulfilment, in the order in which they are
    /// performed.
    pub fn steps(&self, record: &Escrow, decimals_a: u8, decimals_b: u8, vault: u64) -> (steps: Vec<
        Step,
    >)
        ensures
            steps@.len() == 4,
            steps_view(steps@) == self@.steps(record@, decimals_a, decimals_b, vault),
    {
        let mut steps: Vec<Step> = Vec::new();
        steps.push(self.payment_step(record, decimals_b));
        steps.push(self.release_step(record, decimals_a, vault));
        steps.push(self.close_step(record));
        steps.push(self.destroy_step());
        assert(steps_view(steps@) =~= self@.steps(record@, decimals_a, decimals_b, vault));
        steps
    }

    /// Checks the record of an offer against the accounts.
    pub fn verify(&self, record: &Escrow) -> (r: Result<(), EscrowError>)
        ensures
            match r {
                Ok(()) => self@.record_error(record@) is None,
                Err(e) => self@.record_error(record@) == Some(e),
            },
    {
        if !record.maker.same(&self.maker) || !record.mint_a.same(&self.mint_a)
            || !record.mint_b.same(&self.mint_b) {
            return Err(EscrowError::RecordMismatch);
        }
        if self.taker.same(&self.escrow) {
            return Err(EscrowError::Unauthorized);
        }
        Ok(())
    }

    /// Reads the record of the offer and checks it against the accounts.
    pub fn resolve(&self, ledger: &Ledger) -> (r: Result<Escrow, EscrowError>)
        requires
            ledger.wf(),
        ensures
            match r {
                Ok(escrow) => self@.account_error(ledger@) is None && escrow@
                    == ledger@.records[self.escrow@],
                Err(e) => self@.account_error(ledger@) == Some(e),
            },
    {
        let escrow = match ledger.record(&self.escrow) {
            Some(escrow) => escrow,
            None => {
                return Err(EscrowError::RecordNotFound);
            },
        };
        if ledger.balance(&self.escrow, &escrow.mint_a).is_none() {
            return Err(EscrowError::RecordNotFound);
        }
        self.verify(&escrow)?;
        Ok(escrow)
    }

    /// Pays the maker what the record asks for under the taker's signature,
    /// then releases all that the vault holds to the taker under the
    /// record's authority: these two steps, in this order, and no other.
    /// Either both happen or none.
    pub fn withdraw(&self, ledger: &mut Ledger) -> (r: Result<(), EscrowError>)
        requires
            old(ledger).wf(),
        ensures
            final(ledger).wf(),
            match r {
                Ok(()) => self@.withdraw_error(old(ledger)@) is None && final(ledger)@
                    == self@.withdrawn(old(ledger)@) && final(ledger)@.performed
                    == old(ledger)@.performed + self@.withdraw_steps_on(old(ledger)@),
                Err(e) => self@.withdraw_error(old(ledger)@) == Some(e)
                    && final(ledger)@ == old(ledger)@,
            },
    {
        let escrow = self.resolve(ledger)?;
        let decimals_a = ledger.decimals(&self.mint_a).unwrap();
        let decimals_b = ledger.decimals(&self.mint_b).unwrap();
        let vault = ledger.balance(&self.escrow, &self.mint_a).unwrap();
        let steps = self.withdraw_steps(&escrow, decimals_a, decimals_b, vault);
        assert(steps_view(steps@)[0] == steps@[0]@ && steps_view(steps@)[1] == steps@[1]@);
        ledger.validate(&steps[0])?;
        let paid = ledger.perform(&steps[0]);
        assert(paid is Ok);
        let released = ledger.perform(&steps[1]);
        assert(released is Ok);
        proof {
            let s = self@.withdraw_steps_on(old(ledger)@);
            assert(old(ledger)@.performed.push(s[0]).push(s[1]) =~= old(ledger)@.performed + s);
        }
        released
    }

    /// Closes the empty vault under the record's authority, with the
    /// taker as recipient of its storage credit: this one step and no other.
    /// The record stays as it is.
    pub fn close(&self, ledger: &mut Ledger) -> (r: Result<(), EscrowError>)
        requires
            old(ledger).wf(),
        ensures
            final(ledger).wf(),
            match r {
                Ok(()) => self@.close_error(old(ledger)@) is None && final(ledger)@
                    == self@.closed(old(ledger)@) && final(ledger)@.performed
                    == old(ledger)@.performed + self@.close_steps_on(old(ledger)@)
                    && final(ledger)@.records == old(ledger)@.records,
                Err(e) => self@.close_error(old(ledger)@) == Some(e)
                    && final(ledger)@ == old(ledger)@,
            },
    {
        let escrow = self.resolve(ledger)?;
        let steps = self.close_steps(&escrow);
        assert(steps_view(steps@)[0] == steps@[0]@);
        let closed = ledger.perform(&steps[0]);
        proof {
            let s = self@.close_steps_on(old(ledger)@);
            assert(old(ledger)@.performed.push(s[0]) =~= old(ledger)@.performed + s);
        }
        closed
    }
}

/// Fulfils an offer in four steps, in this order and in no other steps: the
/// taker pays the maker what the record asks for, all that the vault holds
/// is released to the taker under the record's authority, the vault is
/// closed, and the record is destroyed, both storage credits going to the
/// taker. Either all of it happens or nothing.
pub fn take(ledger: &mut Ledger, accounts: &Take) -> (r: Result<(), EscrowError>)
    requires
        old(ledger).wf(),
    ensures
        final(ledger).wf(),
        match r {
            Ok(()) => accounts@.withdraw_error(old(ledger)@) is None && final(ledger)@
                == accounts@.taken(old(ledger)@) && final(ledger)@.performed
                == old(ledger)@.performed + accounts@.take_steps(old(ledger)@),
            Err(e) => accounts@.withdraw_error(old(ledger)@) == Some(e)
                && final(ledger)@ == old(ledger)@,
        },
{
    accounts.withdraw(ledger)?;
    let ghost withdrawn = ledger@;
    let closed = accounts.close(ledger);
    assert(closed is Ok);
    let ghost closed_ledger = ledger@;
    let destroyed = ledger.perform(&accounts.destroy_step());
    assert(destroyed is Ok);
    proof {
        assert(withdrawn.records[accounts.escrow@] == old(ledger)@.records[accounts.escrow@]);
        assert(closed_ledger.performed.push(accounts@.destroy_step()) =~= old(ledger)@.performed
            + accounts@.take_steps(old(ledger)@));
    }
    destroyed
}

} // verus!
