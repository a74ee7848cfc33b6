use vstd::prelude::*;
use vstd::bytes::spec_u64_to_le_bytes;
use crate::address::{
    escrow_authority, lemma_authority_is_address, namespace, program_address,
};
use crate::error::EscrowError;
use crate::ledger::{Ledger, LedgerView};
use crate::make::MakeView;
use crate::refund::RefundView;
use crate::state::EscrowView;
use crate::steps::{AuthorityView, StepView};
use crate::take::TakeView;

verus! {

/// Once a maker has opened an offer under a seed, opening another under the
/// same seed at the same address is rejected because the record exists,
/// whatever the mints and amounts of the second attempt. As a rejected
/// opening changes nothing, no second vault comes into being.
pub proof fn lemma_seed_reuse_is_rejected(
    ledger: LedgerView,
    first: MakeView,
    again: MakeView,
    seed: u64,
    deposit: u64,
    receive: u64,
    deposit_again: u64,
)
    requires
        first.make_error(ledger, seed, deposit) is None,
        again.maker == first.maker,
        again.escrow == first.escrow,
    ensures
        again.make_error(first.made(ledger, seed, deposit, receive), seed, deposit_again) == Some(
            EscrowError::RecordAlreadyExists,
        ),
{
}

/// After an offer has been opened, its vault holds exactly the deposit, the
/// maker's account of the deposited asset holds that much less, and every
/// other account holds what it held before.
pub proof fn lemma_make_funds_the_vault(
    ledger: Ledger,
    accounts: MakeView,
    seed: u64,
    deposit: u64,
    receive: u64,
)
    requires
        ledger.wf(),
        accounts.make_error(ledger@, seed, deposit) is None,
    ensures
        ({
            let after = accounts.made(ledger@, seed, deposit, receive);
            &&& after.records.dom().contains(accounts.escrow)
            &&& after.records[accounts.escrow].receive == receive
            &&& after.balances.dom().contains((accounts.escrow, accounts.mint_a))
            &&& after.balances[(accounts.escrow, accounts.mint_a)] == deposit
            &&& after.amount(accounts.maker, accounts.mint_a) == ledger@.amount(
                accounts.maker,
                accounts.mint_a,
            ) - deposit
            &&& after.mints == ledger@.mints
            &&& forall|owner: Seq<u8>, mint: Seq<u8>|
                (owner, mint) != (accounts.maker, accounts.mint_a) && (owner, mint) != (
                    accounts.escrow,
                    accounts.mint_a,
                ) ==> after.balances.dom().contains((owner, mint))
                    == ledger@.balances.dom().contains((owner, mint)) && #[trigger] after.amount(
                    owner,
                    mint,
                ) == ledger@.amount(owner, mint)
        }),
{
}

/// Fulfilling an offer between two different parties, whose two assets
/// differ, moves exactly what the record asks for from the taker to the
/// maker and all that the vault holds to the taker, and leaves neither vault
/// nor record.
pub proof fn lemma_take_settles_both_sides(ledger: Ledger, accounts: TakeView)
    requires
        ledger.wf(),
        accounts.withdraw_error(ledger@) is None,
        accounts.taker != accounts.maker,
        accounts.mint_a != accounts.mint_b,
    ensures
        ({
            let after = accounts.taken(ledger@);
            let receive = ledger@.records[accounts.escrow].receive;
            let vault = ledger@.balances[(accounts.escrow, accounts.mint_a)];
            &&& after.amount(accounts.maker, accounts.mint_b) == ledger@.amount(
                accounts.maker,
                accounts.mint_b,
            ) + receive
            &&& after.amount(accounts.taker, accounts.mint_b) == ledger@.amount(
                accounts.taker,
                accounts.mint_b,
            ) - receive
            &&& after.amount(accounts.taker, accounts.mint_a) == ledger@.amount(
                accounts.taker,
                accounts.mint_a,
            ) + vault
            &&& !after.balances.dom().contains((accounts.escrow, accounts.mint_a))
            &&& !after.records.dom().contains(accounts.escrow)
            &&& after.mints == ledger@.mints
        }),
{
    let v = ledger@;
    let receive = v.records[accounts.escrow].receive;
    let vault = v.balances[(accounts.escrow, accounts.mint_a)];
    assert(v.records.dom().contains(accounts.escrow));
    assert(accounts.maker != accounts.escrow);
    if v.balances.dom().contains((accounts.maker, accounts.mint_b)) {
        ledger.lemma_holdings_within_supply(accounts.taker, accounts.maker, accounts.mint_b);
    }
    let paid = v.moved(accounts.taker, accounts.maker, accounts.mint_b, receive);
    assert(paid.balances[(accounts.escrow, accounts.mint_a)] == vault);
    if v.balances.dom().contains((accounts.taker, accounts.mint_a)) {
        ledger.lemma_holdings_within_supply(accounts.escrow, accounts.taker, accounts.mint_a);
    }
}

/// Cancelling an offer moves all that the vault holds back to the maker,
/// leaves neither vault nor record, and changes no account but the vault and
/// the maker's account of the deposited asset: where the two assets differ,
/// nothing of the asset asked for moves.
pub proof fn lemma_refund_returns_the_deposit(ledger: Ledger, accounts: RefundView)
    requires
        ledger.wf(),
        accounts.account_error(ledger@) is None,
    ensures
        ({
            let after = accounts.refunded(ledger@);
            let vault = ledger@.balances[(accounts.escrow, accounts.mint_a)];
            &&& after.amount(accounts.maker, accounts.mint_a) == ledger@.amount(
                accounts.maker,
                accounts.mint_a,
            ) + vault
            &&& !after.balances.dom().contains((accounts.escrow, accounts.mint_a))
            &&& !after.records.dom().contains(accounts.escrow)
            &&& after.mints == ledger@.mints
            &&& forall|owner: Seq<u8>, mint: Seq<u8>|
                (owner, mint) != (accounts.maker, accounts.mint_a) && (owner, mint) != (
                    accounts.escrow,
                    accounts.mint_a,
                ) ==> after.balances.dom().contains((owner, mint))
                    == ledger@.balances.dom().contains((owner, mint)) && #[trigger] after.amount(
                    owner,
                    mint,
                ) == ledger@.amount(owner, mint)
            &&& accounts.mint_a != accounts.mint_b ==> forall|owner: Seq<u8>| #[trigger]
                after.amount(owner, accounts.mint_b) == ledger@.amount(owner, accounts.mint_b)
        }),
{
    let v = ledger@;
    assert(v.records.dom().contains(accounts.escrow));
    assert(accounts.maker != accounts.escrow);
    if v.balances.dom().contains((accounts.maker, accounts.mint_a)) {
        ledger.lemma_holdings_within_supply(accounts.escrow, accounts.maker, accounts.mint_a);
    }
}

/// After an offer has been fulfilled, every attempt to fulfil or to cancel
/// the offer at that address is rejected because the record is gone.
pub proof fn lemma_taken_offer_is_gone(
    ledger: LedgerView,
    accounts: TakeView,
    take_again: TakeView,
    refund_after: RefundView,
)
    requires
        accounts.withdraw_error(ledger) is None,
        take_again.escrow == accounts.escrow,
        refund_after.escrow == accounts.escrow,
    ensures
        take_again.withdraw_error(accounts.taken(ledger)) == Some(EscrowError::RecordNotFound),
        refund_after.account_error(accounts.taken(ledger)) == Some(EscrowError::RecordNotFound),
{
}

/// After an offer has been cancelled, every attempt to fulfil or to cancel
/// the offer at that address is rejected because the record is gone.
pub proof fn lemma_refunded_offer_is_gone(
    ledger: LedgerView,
    accounts: RefundView,
    take_after: TakeView,
    refund_again: RefundView,
)
    requires
        accounts.account_error(ledger) is None,
        take_after.escrow == accounts.escrow,
        refund_again.escrow == accounts.escrow,
    ensures
        take_after.withdraw_error(accounts.refunded(ledger)) == Some(EscrowError::RecordNotFound),
        refund_again.account_error(accounts.refunded(ledger)) == Some(EscrowError::RecordNotFound),
{
}

/// Whoever is not the recorded maker of an open offer cannot cancel it.
pub proof fn lemma_only_the_maker_refunds(ledger: LedgerView, accounts: RefundView)
    requires
        ledger.records.dom().contains(accounts.escrow),
        ledger.balances.dom().contains((accounts.escrow, ledger.records[accounts.escrow].mint_a)),
        ledger.records[accounts.escrow].maker != accounts.maker,
    ensures
        accounts.account_error(ledger) == Some(EscrowError::Unauthorized),
{
}

/// Opening an offer performs two steps in this order, none of which fails,
/// and no other: the record is stored under the bump that was found, then
/// the maker's deposit moves to the vault under the maker's signature.
pub proof fn lemma_make_is_its_steps(
    ledger: LedgerView,
    accounts: MakeView,
    seed: u64,
    deposit: u64,
    receive: u64,
)
    requires
        accounts.make_error(ledger, seed, deposit) is None,
    ensures
        ({
            let bump = escrow_authority(ledger.program, accounts.maker, seed).unwrap().1;
            let store = StepView::Store {
                address: accounts.escrow,
                record: accounts.record(seed, receive, bump),
            };
            let fund = StepView::Transfer {
                from: accounts.maker,
                to: accounts.escrow,
                mint: accounts.mint_a,
                decimals: ledger.mints[accounts.mint_a].decimals,
                amount: deposit,
                authority: None,
            };
            let after = accounts.made(ledger, seed, deposit, receive);
            &&& ledger.step_error(store) is None
            &&& ledger.stepped(store).step_error(fund) is None
            &&& after == ledger.stepped(store).stepped(fund)
            &&& after.performed == ledger.performed + seq![store, fund]
        }),
{
    lemma_authority_is_address(ledger.program, accounts.maker, seed);
    let after = accounts.made(ledger, seed, deposit, receive);
    let steps = accounts.make_steps(ledger, seed, deposit, receive);
    assert(after.performed =~= ledger.performed + steps);
    assert(steps.len() == 2);
}

/// Fulfilling an offer performs four steps in this order, none of which
/// fails, and no other. The taker pays the maker what the record asks for,
/// under the taker's signature. All that the vault holds is released to the
/// taker under the record's authority. The vault is closed under that
/// authority, and the record is destroyed; both storage credits go to the
/// taker.
pub proof fn lemma_take_is_its_steps(ledger: LedgerView, accounts: TakeView)
    requires
        ledger.consistent(),
        accounts.withdraw_error(ledger) is None,
    ensures
        ({
            let record = ledger.records[accounts.escrow];
            let authority = AuthorityView {
                maker: record.maker,
                seed: record.seed,
                bump: record.bump,
            };
            let pay = StepView::Transfer {
                from: accounts.taker,
                to: accounts.maker,
                mint: accounts.mint_b,
                decimals: ledger.mints[accounts.mint_b].decimals,
                amount: record.receive,
                authority: None,
            };
            let release = StepView::Transfer {
                from: accounts.escrow,
                to: accounts.taker,
                mint: accounts.mint_a,
                decimals: ledger.mints[accounts.mint_a].decimals,
                amount: ledger.balances[(accounts.escrow, accounts.mint_a)],
                authority: Some(authority),
            };
            let close = StepView::CloseVault {
                owner: accounts.escrow,
                mint: accounts.mint_a,
                rent_to: accounts.taker,
                authority,
            };
            let destroy = StepView::Destroy { address: accounts.escrow, rent_to: accounts.taker };
            let paid = ledger.stepped(pay);
            let released = paid.stepped(release);
            let closed = released.stepped(close);
            let after = accounts.taken(ledger);
            &&& ledger.step_error(pay) is None
            &&& paid.step_error(release) is None
            &&& released.step_error(close) is None
            &&& closed.step_error(destroy) is None
            &&& after == closed.stepped(destroy)
            &&& after.performed == ledger.performed + seq![pay, release, close, destroy]
        }),
{
    assert(ledger.records.dom().contains(accounts.escrow));
    let after = accounts.taken(ledger);
    assert(after.performed =~= ledger.performed + accounts.take_steps(ledger));
    assert(accounts.take_steps(ledger).len() == 4);
}

/// Cancelling an offer performs three steps in this order, none of which
/// fails, and no other. All that the vault holds is released to the maker
/// under the record's authority, never under a signature. The vault is
/// closed under that authority, and the record is destroyed; both storage
/// credits go to the maker.
pub proof fn lemma_refund_is_its_steps(ledger: LedgerView, accounts: RefundView)
    requires
        ledger.consistent(),
        accounts.account_error(ledger) is None,
    ensures
        ({
            let record = ledger.records[accounts.escrow];
            let authority = AuthorityView {
                maker: record.maker,
                seed: record.seed,
                bump: record.bump,
            };
            let release = StepView::Transfer {
                from: accounts.escrow,
                to: accounts.maker,
                mint: accounts.mint_a,
                decimals: ledger.mints[accounts.mint_a].decimals,
                amount: ledger.balances[(accounts.escrow, accounts.mint_a)],
                authority: Some(authority),
            };
            let close = StepView::CloseVault {
                owner: accounts.escrow,
                mint: accounts.mint_a,
                rent_to: accounts.maker,
                authority,
            };
            let destroy = StepView::Destroy { address: accounts.escrow, rent_to: accounts.maker };
            let released = ledger.stepped(release);
            let closed = released.stepped(close);
            let after = accounts.refunded(ledger);
            &&& ledger.step_error(release) is None
            &&& released.step_error(close) is None
            &&& closed.step_error(destroy) is None
            &&& after == closed.stepped(destroy)
            &&& after.performed == ledger.performed + seq![release, close, destroy]
        }),
{
    assert(ledger.records.dom().contains(accounts.escrow));
    let after = accounts.refunded(ledger);
    assert(after.performed =~= ledger.performed + accounts.refund_steps(ledger));
    assert(accounts.refund_steps(ledger).len() == 3);
}

/// The proof that a record's authority hands to the token service is the
/// sequence from which the record's address was derived, in the same order:
/// the namespace, the maker, the seed as eight little-endian bytes, and the
/// bump. On a valid ledger it derives the address of the record.
pub proof fn lemma_authority_proves_the_record(ledger: LedgerView, address: Seq<u8>)
    requires
        ledger.consistent(),
        ledger.records.dom().contains(address),
    ensures
        ({
            let record = ledger.records[address];
            let authority = AuthorityView {
                maker: record.maker,
                seed: record.seed,
                bump: record.bump,
            };
            &&& authority.seeds() == seq![
                namespace(),
                record.maker,
                spec_u64_to_le_bytes(record.seed),
                seq![record.bump],
            ]
            &&& program_address(authority.seeds(), ledger.program) == Some(address)
            &&& ledger.signs_for(authority.seeds(), address)
        }),
{
    let record = ledger.records[address];
    let authority = AuthorityView { maker: record.maker, seed: record.seed, bump: record.bump };
    assert(authority.seeds() =~= seq![
        namespace(),
        record.maker,
        spec_u64_to_le_bytes(record.seed),
        seq![record.bump],
    ]);
}

/// Nothing leaves the account of a record's address under a signature: a
/// transfer out of it that is performed carries an authority whose seeds
/// derive that address.
pub proof fn lemma_vault_moves_only_under_derived_authority(
    ledger: LedgerView,
    from: Seq<u8>,
    to: Seq<u8>,
    mint: Seq<u8>,
    decimals: u8,
    amount: u64,
    authority: Option<AuthorityView>,
)
    requires
        ledger.records.dom().contains(from),
        ledger.step_error(StepView::Transfer { from, to, mint, decimals, amount, authority })
            is None,
    ensures
        authority is Some,
        ledger.signs_for(authority.unwrap().seeds(), from),
{
}

/// Maker and seed alone fix where a record is stored and under which bump:
/// two initializations that succeed under one program for one maker and one
/// seed name the same address and the same bump, whatever their mints and
/// amounts and whatever else the two ledgers hold.
pub proof fn lemma_initialize_fixes_the_address(
    first: LedgerView,
    second: LedgerView,
    address: Seq<u8>,
    escrow: EscrowView,
    other_address: Seq<u8>,
    other: EscrowView,
)
    requires
        first.program == second.program,
        first.initialize_error(address, escrow) is None,
        second.initialize_error(other_address, other) is None,
        escrow.maker == other.maker,
        escrow.seed == other.seed,
    ensures
        address == other_address,
        escrow.bump == other.bump,
{
}

/// A valid ledger holds at most one record for a maker and a seed.
pub proof fn lemma_one_record_per_maker_and_seed(
    ledger: LedgerView,
    address: Seq<u8>,
    other_address: Seq<u8>,
)
    requires
        ledger.consistent(),
        ledger.records.dom().contains(address),
        ledger.records.dom().contains(other_address),
        ledger.records[address].maker == ledger.records[other_address].maker,
        ledger.records[address].seed == ledger.records[other_address].seed,
    ensures
        address == other_address,
{
}

/// A deposit moves exactly the amount: the vault holds that much more, the
/// maker that much less, and no record changes. The maker is not the escrow
/// address itself, to which a deposit would move nothing.
pub proof fn lemma_deposit_moves_exactly_the_amount(
    ledger: Ledger,
    accounts: MakeView,
    amount: u64,
)
    requires
        ledger.wf(),
        accounts.deposit_error(ledger@, amount) is None,
        accounts.maker != accounts.escrow,
    ensures
        ({
            let after = ledger@.stepped(
                accounts.deposit_step(ledger@.mints[accounts.mint_a].decimals, amount),
            );
            &&& after.balances.dom().contains((accounts.escrow, accounts.mint_a))
            &&& after.amount(accounts.escrow, accounts.mint_a) == ledger@.amount(
                accounts.escrow,
                accounts.mint_a,
            ) + amount
            &&& after.amount(accounts.maker, accounts.mint_a) == ledger@.amount(
                accounts.maker,
                accounts.mint_a,
            ) - amount
            &&& after.records == ledger@.records
            &&& after.mints == ledger@.mints
        }),
{
    if ledger@.balances.dom().contains((accounts.escrow, accounts.mint_a)) {
        ledger.lemma_holdings_within_supply(accounts.maker, accounts.escrow, accounts.mint_a);
    }
}

/// When opening an offer succeeds: the escrow address and a bump are found
/// for maker and seed, the maker is neither that address nor the address of
/// a record, no record and no vault stand at the address, both mints are
/// known, and the maker holds the deposit.
pub proof fn lemma_make_succeeds_on_resolved_accounts(
    ledger: LedgerView,
    accounts: MakeView,
    seed: u64,
    deposit: u64,
    bump: u8,
)
    requires
        escrow_authority(ledger.program, accounts.maker, seed) == Some((accounts.escrow, bump)),
        accounts.maker != accounts.escrow,
        !ledger.records.dom().contains(accounts.maker),
        !ledger.records.dom().contains(accounts.escrow),
        !ledger.balances.dom().contains((accounts.escrow, accounts.mint_a)),
        ledger.mints.dom().contains(accounts.mint_a),
        ledger.mints.dom().contains(accounts.mint_b),
        ledger.holds(accounts.maker, accounts.mint_a, deposit),
    ensures
        accounts.make_error(ledger, seed, deposit) is None,
{
}

} // verus!
