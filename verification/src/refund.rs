use vstd::prelude::*;
use crate::error::EscrowError;
use crate::key::Key;
use crate::ledger::{Ledger, LedgerView};
use crate::state::{Escrow, EscrowView};
use crate::steps::{steps_view, Authority, AuthorityView, Step, StepView};

verus! {

/// The accounts of the operation that cancels an offer.
#[derive(Clone, Copy, Debug)]
pub struct Refund {
    /// Who cancels the offer and authorizes the operation.
    pub maker: Key,
    /// The asset that the maker deposited.
    pub mint_a: Key,
    /// The asset that the maker asked for.
    pub mint_b: Key,
    /// Where the record is stored; it owns the vault.
    pub escrow: Key,
}

/// The accounts of a cancellation as mathematical values.
pub struct RefundView {
    pub maker: Seq<u8>,
    pub mint_a: Seq<u8>,
    pub mint_b: Seq<u8>,
    pub escrow: Seq<u8>,
}

impl View for Refund {
    type V = RefundView;

    open spec fn view(&self) -> RefundView {
        RefundView {
            maker: self.maker@,
            mint_a: self.mint_a@,
            mint_b: self.mint_b@,
            escrow: self.escrow@,
        }
    }
}

impl RefundView {
    /// Why the caller may not cancel the offer that `record` describes;
    /// `None` where they may. Only the recorded maker may cancel, and the
    /// record's mints must be those of the accounts.
    pub open spec fn record_error(self, record: EscrowView) -> Option<EscrowError> {
        if record.maker != self.maker {
            Some(EscrowError::Unauthorized)
        } else if record.mint_a != self.mint_a || record.mint_b != self.mint_b {
            Some(EscrowError::RecordMismatch)
        } else {
            None
        }
    }

    /// Why these accounts do not name an open offer that the caller may
    /// cancel; `None` where they do. A record without a vault counts as
    /// missing.
    pub open spec fn account_error(self, ledger: LedgerView) -> Option<EscrowError> {
        if !ledger.records.dom().contains(self.escrow) || !ledger.balances.dom().contains(
            (self.escrow, ledger.records[self.escrow].mint_a),
        ) {
            Some(EscrowError::RecordNotFound)
        } else {
            self.record_error(ledger.records[self.escrow])
        }
    }

    /// The first step: the record signs, and `vault`, all that the vault
    /// holds, moves back to the maker.
    pub open spec fn release_step(self, record: EscrowView, decimals: u8, vault: u64) -> StepView {
        StepView::Transfer {
            from: self.escrow,
            to: self.maker,
            mint: self.mint_a,
            decimals,
            amount: vault,
            authority: Some(
                AuthorityView { maker: record.maker, seed: record.seed, bump: record.bump },
            ),
        }
    }

    /// The second step: the record signs, the vault is closed, and its
    /// storage credit goes to the maker.
    pub open spec fn close_step(self, record: EscrowView) -> StepView {
        StepView::CloseVault {
            owner: self.escrow,
            mint: self.mint_a,
            rent_to: self.maker,
            authority: AuthorityView { maker: record.maker, seed: record.seed, bump: record.bump },
        }
    }

    /// The third step: the record is destroyed, and its storage credit goes
    /// to the maker.
    pub open spec fn destroy_step(self) -> StepView {
        StepView::Destroy { address: self.escrow, rent_to: self.maker }
    }

    /// The one transfer of a cancellation: the release under the record's
    /// authority.
    pub open spec fn withdraw_steps(self, record: EscrowView, decimals_a: u8, vault: u64) -> Seq<
        StepView,
    > {
        seq![self.release_step(record, decimals_a, vault)]
    }

    /// The one step of `close`: the vault is closed, with the maker as
    /// recipient of its storage credit. The record stays.
    pub open spec fn close_steps(self, record: EscrowView) -> Seq<StepView> {
        seq![self.close_step(record)]
    }

    /// The three steps of a cancellation, in the order in which they are
    /// performed: release, close of the vault, destruction of the record.
    pub open spec fn steps(self, record: EscrowView, decimals_a: u8, vault: u64) -> Seq<StepView> {
        self.withdraw_steps(record, decimals_a, vault) + self.close_steps(record) + seq![
            self.destroy_step(),
        ]
    }

    /// The transfer that `withdraw` performs on `ledger`: all that the
    /// vault holds, with the decimals that the ledger knows.
    pub open spec fn withdraw_steps_on(self, ledger: LedgerView) -> Seq<StepView> {
        self.withdraw_steps(
            ledger.records[self.escrow],
            ledger.mints[self.mint_a].decimals,
            ledger.balances[(self.escrow, self.mint_a)],
        )
    }

    /// The step that `close` performs on `ledger`.
    pub open spec fn close_steps_on(self, ledger: LedgerView) -> Seq<StepView> {
        self.close_steps(ledger.records[self.escrow])
    }

    /// The three steps that `refund` performs on `ledger`, in order:
    /// release, close of the vault, destruction of the record.
    pub open spec fn refund_steps(self, ledger: LedgerView) -> Seq<StepView> {
        self.withdraw_steps_on(ledger) + self.close_steps_on(ledger) + seq![self.destroy_step()]
    }

    /// The ledger after all that the vault holds has moved back to the maker.
    pub open spec fn withdrawn(self, ledger: LedgerView) -> LedgerView {
        ledger.stepped(self.withdraw_steps_on(ledger)[0])
    }

    /// Why the vault cannot be closed; `None` where it can.
    pub open spec fn close_error(self, ledger: LedgerView) -> Option<EscrowError> {
        if self.account_error(ledger) is Some {
            self.account_error(ledger)
        } else if ledger.balances[(self.escrow, self.mint_a)] != 0 {
            Some(EscrowError::VaultNotEmpty)
        } else {
            None
        }
    }

    /// The ledger after the vault has been closed. The record stays.
    pub open spec fn closed(self, ledger: LedgerView) -> LedgerView {
        ledger.stepped(self.close_steps_on(ledger)[0])
    }

    /// The ledger after the offer has been cancelled: the transfers, the
    /// close of the vault, and last the destruction of the record.
    pub open spec fn refunded(self, ledger: LedgerView) -> LedgerView {
        self.closed(self.withdrawn(ledger)).stepped(self.destroy_step())
    }
}

impl Refund {
    /// The step that releases `vault`, all that the vault holds, back to
    /// the maker, in the asset that the caller takes to have `decimals`.
    pub fn release_step(&self, record: &Escrow, decimals: u8, vault: u64) -> (step: Step)
        ensures
            step@ == self@.release_step(record@, decimals, vault),
    {
        Step::Transfer {
            from: self.escrow,
            to: self.maker,
            mint: self.mint_a,
            decimals,
            amount: vault,
            authority: Some(Authority::of(record)),
        }
    }

    /// The step that closes the vault.
    pub fn close_step(&self, record: &Escrow) -> (step: Step)
        ensures
            step@ == self@.close_step(record@),
    {
        Step::CloseVault {
            owner: self.escrow,
            mint: self.mint_a,
            rent_to: self.maker,
            authority: Authority::of(record),
        }
    }

    /// The step that destroys the record.
    pub fn destroy_step(&self) -> (step: Step)
        ensures
            step@ == self@.destroy_step(),
    {
        Step::Destroy { address: self.escrow, rent_to: self.maker }
    }

    /// The one transfer of a cancellation.
    pub fn withdraw_steps(&self, record: &Escrow, decimals_a: u8, vault: u64) -> (steps: Vec<Step>)
        ensures
            steps@.len() == 1,
            steps_view(steps@) == self@.withdraw_steps(record@, decimals_a, vault),
    {
        let mut steps: Vec<Step> = Vec::new();
        steps.push(self.release_step(record, decimals_a, vault));
        assert(steps_view(steps@) =~= self@.withdraw_steps(record@, decimals_a, vault));
        steps
    }

    /// The one step of `close`.
    pub fn close_steps(&self, record: &Escrow) -> (steps: Vec<Step>)
        ensures
            steps@.len() == 1,
            steps_view(steps@) == self@.close_steps(record@),
    {
        let mut steps: Vec<Step> = Vec::new();
        steps.push(self.close_step(record));
        assert(steps_view(steps@) =~= self@.close_steps(record@));
        steps
    }

    /// The three steps of a cancellation, in the order in which they are
    /// performed.
    pub fn steps(&self, record: &Escrow, decimals_a: u8, vault: u64) -> (steps: Vec<Step>)
        ensures
            steps@.len() == 3,
            steps_view(steps@) == self@.steps(record@, decimals_a, vault),
    {
        let mut steps: Vec<Step> = Vec::new();
        steps.push(self.release_step(record, decimals_a, vault));
        steps.push(self.close_step(record));
        steps.push(self.destroy_step());
        assert(steps_view(steps@) =~= self@.steps(record@, decimals_a, vault));
        steps
    }

    /// Checks the record of an offer against the accounts.
    pub fn verify(&self, record: &Escrow) -> (r: Result<(), EscrowError>)
        ensures
            match r {
                Ok(()) => self@.record_error(record@) is None,
                Err(e) => self@.record_error(record@) == Some(e),
            },
    {
        if !record.maker.same(&self.maker) {
            return Err(EscrowError::Unauthorized);
        }
        if !record.mint_a.same(&self.mint_a) || !record.mint_b.same(&self.mint_b) {
            return Err(EscrowError::RecordMismatch);
        }
        Ok(())
    }

    /// Reads the record of the offer and checks it against the accounts.
    pub fn resolve(&self, ledger: &Ledger) -> (r: Result<Escrow, EscrowError>)
        requires
            ledger.wf(),
        ensures
            match r {
                Ok(escrow) => self@.account_error(ledger@) is None && escrow@
                    == ledger@.records[self.escrow@],
                Err(e) => self@.account_error(ledger@) == Some(e),
            },
    {
        let escrow = match ledger.record(&self.escrow) {
            Some(escrow) => escrow,
            None => {
                return Err(EscrowError::RecordNotFound);
            },
        };
        if ledger.balance(&self.escrow, &escrow.mint_a).is_none() {
            return Err(EscrowError::RecordNotFound);
        }
        self.verify(&escrow)?;
        Ok(escrow)
    }

    /// Releases all that the vault holds back to the maker under the
    /// record's authority, never under a signature: this one step and no
    /// other.
    pub fn withdraw(&self, ledger: &mut Ledger) -> (r: Result<(), EscrowError>)
        requires
            old(ledger).wf(),
        ensures
            final(ledger).wf(),
            match r {
                Ok(()) => self@.account_error(old(ledger)@) is None && final(ledger)@
                    == self@.withdrawn(old(ledger)@) && final(ledger)@.performed
                    == old(ledger)@.performed + self@.withdraw_steps_on(old(ledger)@),
                Err(e) => self@.account_error(old(ledger)@) == Some(e)
                    && final(ledger)@ == old(ledger)@,
            },
    {
        let escrow = self.resolve(ledger)?;
        let decimals_a = ledger.decimals(&self.mint_a).unwrap();
        let vault = ledger.balance(&self.escrow, &self.mint_a).unwrap();
        let steps = self.withdraw_steps(&escrow, decimals_a, vault);
        assert(steps_view(steps@)[0] == steps@[0]@);
        let released = ledger.perform(&steps[0]);
        assert(released is Ok);
        proof {
            let s = self@.withdraw_steps_on(old(ledger)@);
            assert(old(ledger)@.performed.push(s[0]) =~= old(ledger)@.performed + s);
        }
        released
    }

    /// Closes the empty vault under the record's authority, with the
    /// maker as recipient of its storage credit: this one step and no other.
    /// The record stays as it is.
    pub fn close(&self, ledger: &mut Ledger) -> (r: Result<(), EscrowError>)
        requires
            old(ledger).wf(),
        ensures
            final(ledger).wf(),
            match r {
                Ok(()) => self@.close_error(old(ledger)@) is None && final(ledger)@
                    == self@.closed(old(ledger)@) && final(ledger)@.performed
                    == old(ledger)@.performed + self@.close_steps_on(old(ledger)@)
                    && final(ledger)@.records == old(ledger)@.records,
                Err(e) => self@.close_error(old(ledger)@) == Some(e)
                    && final(ledger)@ == old(ledger)@,
            },
    {
        let escrow = self.resolve(ledger)?;
        let steps = self.close_steps(&escrow);
        assert(steps_view(steps@)[0] == steps@[0]@);
        let closed = ledger.perform(&steps[0]);
        proof {
            let s = self@.close_steps_on(old(ledger)@);
            assert(old(ledger)@.performed.push(s[0]) =~= old(ledger)@.performed + s);
        }
        closed
    }
}

/// Cancels an offer in three steps, in this order and in no other steps: all
/// that the vault holds is released to the maker under the record's
/// authority, the vault is closed, and the record is destroyed, both storage
/// credits going to the maker. Either all of it happens or nothing.
pub fn refund(ledger: &mut Ledger, accounts: &Refund) -> (r: Result<(), EscrowError>)
    requires
        old(ledger).wf(),
    ensures
        final(ledger).wf(),
        match r {
            Ok(()) => accounts@.account_error(old(ledger)@) is None && final(ledger)@
                == accounts@.refunded(old(ledger)@) && final(ledger)@.performed
                == old(ledger)@.performed + accounts@.refund_steps(old(ledger)@),
            Err(e) => accounts@.account_error(old(ledger)@) == Some(e)
                && final(ledger)@ == old(ledger)@,
        },
{
    accounts.withdraw(ledger)?;
    let ghost withdrawn = ledger@;
    let closed = accounts.close(ledger);
    assert(closed is Ok);
    let ghost closed_ledger = ledger@;
    let destroyed = ledger.perform(&accounts.destroy_step());
    assert(destroyed is Ok);
    proof {
        assert(withdrawn.records[accounts.escrow@] == old(ledger)@.records[accounts.escrow@]);
        assert(closed_ledger.performed.push(accounts@.destroy_step()) =~= old(ledger)@.performed
            + accounts@.refund_steps(old(ledger)@));
    }
    destroyed
}

} // verus!
