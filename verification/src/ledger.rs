use vstd::prelude::*;
use crate::address::{
    create_program_address, escrow_address, escrow_authority, find_escrow,
    lemma_authority_is_address, offer_signer_seeds, program_address, seeds_view,
};
use crate::error::EscrowError;
use crate::key::Key;
use crate::state::{Escrow, EscrowView};
use crate::steps::{steps_view, Authority, AuthorityView, Step, StepView};
use crate::supply::{
    lemma_total_bounds, lemma_total_none, lemma_total_push, lemma_total_remove, lemma_total_two,
    lemma_total_update, total,
};
use crate::table::{
    as_map, distinct_keys, has_key, index_of, lemma_as_map_absent, lemma_as_map_at, lemma_as_map_push,
    lemma_as_map_remove, lemma_as_map_update,
};

verus! {

/// An asset type that the ledger knows.
#[derive(Clone, Copy, Debug)]
struct Mint {
    address: Key,
    decimals: u8,
    supply: u64,
}

/// The account in which `owner` holds an amount of `mint`.
#[derive(Clone, Copy, Debug)]
struct Holding {
    owner: Key,
    mint: Key,
    amount: u64,
}

/// An offer and the address at which it is stored.
#[derive(Clone, Copy, Debug)]
struct Record {
    address: Key,
    escrow: Escrow,
}

/// What the ledger knows of an asset type.
pub struct MintView {
    pub decimals: u8,
    pub supply: u64,
}

/// The ledger as a mathematical value.
pub struct LedgerView {
    /// The program under which records are derived.
    pub program: Seq<u8>,
    /// The asset types, by address.
    pub mints: Map<Seq<u8>, MintView>,
    /// The amounts held, by owner and mint.
    pub balances: Map<(Seq<u8>, Seq<u8>), u64>,
    /// The open offers, by address.
    pub records: Map<Seq<u8>, EscrowView>,
    /// The steps performed so far, oldest first.
    pub performed: Seq<StepView>,
}

impl LedgerView {
    /// Every record is stored at the address, and holds the bump, that the
    /// search finds for its maker and seed, so that maker and seed alone fix
    /// where a record is stored. That address is the one that maker, seed
    /// and bump derive. A record names two known mints and was not opened
    /// by its own address.
    pub open spec fn consistent(self) -> bool {
        forall|a: Seq<u8>| #[trigger]
            self.records.dom().contains(a) ==> {
                let r = self.records[a];
                &&& escrow_authority(self.program, r.maker, r.seed) == Some((a, r.bump))
                &&& escrow_address(self.program, r.maker, r.seed, r.bump) == Some(a)
                &&& self.mints.dom().contains(r.mint_a)
                &&& self.mints.dom().contains(r.mint_b)
                &&& r.maker != a
            }
    }

    /// Whether the ledger knows `mint` with these `decimals`.
    pub open spec fn is_asset(self, mint: Seq<u8>, decimals: u8) -> bool {
        self.mints.dom().contains(mint) && self.mints[mint].decimals == decimals
    }

    /// Whether `owner` holds at least `amount` of `mint`.
    pub open spec fn holds(self, owner: Seq<u8>, mint: Seq<u8>, amount: u64) -> bool {
        self.balances.dom().contains((owner, mint)) && self.balances[(owner, mint)] >= amount
    }

    /// What `owner` holds of `mint`; zero where `owner` has no such account.
    pub open spec fn amount(self, owner: Seq<u8>, mint: Seq<u8>) -> int {
        if self.balances.dom().contains((owner, mint)) {
            self.balances[(owner, mint)] as int
        } else {
            0
        }
    }

    /// Whether `seeds` derive, under the ledger's program, the address `owner`:
    /// the proof that the program itself acts for `owner`.
    pub open spec fn signs_for(self, seeds: Seq<Seq<u8>>, owner: Seq<u8>) -> bool {
        program_address(seeds, self.program) == Some(owner)
    }

    /// Whether a transfer out of the account of `from` is authorized. With an
    /// authority, its seeds must derive `from`. Without one `from` signs,
    /// which the address of a record cannot do: it has no key.
    pub open spec fn authorized(self, from: Seq<u8>, authority: Option<AuthorityView>) -> bool {
        match authority {
            None => !self.records.dom().contains(from),
            Some(a) => self.signs_for(a.seeds(), from),
        }
    }

    /// Why `amount` of `mint`, declared with `decimals`, cannot leave the
    /// account of `from` under `authority`; `None` where it can.
    pub open spec fn transfer_error(
        self,
        from: Seq<u8>,
        mint: Seq<u8>,
        decimals: u8,
        amount: u64,
        authority: Option<AuthorityView>,
    ) -> Option<EscrowError> {
        if !self.authorized(from, authority) {
            Some(EscrowError::Unauthorized)
        } else if !self.is_asset(mint, decimals) {
            Some(EscrowError::AssetMismatch)
        } else if !self.holds(from, mint, amount) {
            Some(EscrowError::InsufficientBalance)
        } else {
            None
        }
    }

    /// Why the account in which `owner` holds `mint` cannot be closed under
    /// `authority`; `None` where it can.
    pub open spec fn close_error(self, owner: Seq<u8>, mint: Seq<u8>, authority: AuthorityView) -> Option<
        EscrowError,
    > {
        if !self.signs_for(authority.seeds(), owner) {
            Some(EscrowError::Unauthorized)
        } else if !self.balances.dom().contains((owner, mint)) {
            Some(EscrowError::RecordNotFound)
        } else if self.balances[(owner, mint)] != 0 {
            Some(EscrowError::VaultNotEmpty)
        } else {
            None
        }
    }

    /// The ledger without the account in which `owner` holds `mint`.
    pub open spec fn closed(self, owner: Seq<u8>, mint: Seq<u8>) -> LedgerView {
        LedgerView { balances: self.balances.remove((owner, mint)), ..self }
    }

    /// Why `escrow` cannot be stored at `address`; `None` where it can. The
    /// bump must derive an address, and address and bump must be the ones
    /// that the search finds for maker and seed: no other bump will do,
    /// though it may derive an address too.
    pub open spec fn initialize_error(self, address: Seq<u8>, escrow: EscrowView) -> Option<
        EscrowError,
    > {
        let derived = escrow_address(self.program, escrow.maker, escrow.seed, escrow.bump);
        if derived is None {
            Some(EscrowError::NoDerivedAuthority)
        } else if escrow_authority(self.program, escrow.maker, escrow.seed) != Some(
            (address, escrow.bump),
        ) {
            Some(EscrowError::RecordMismatch)
        } else if escrow.maker == address {
            Some(EscrowError::Unauthorized)
        } else if self.records.dom().contains(address) {
            Some(EscrowError::RecordAlreadyExists)
        } else if !self.mints.dom().contains(escrow.mint_a) || !self.mints.dom().contains(
            escrow.mint_b,
        ) {
            Some(EscrowError::AssetMismatch)
        } else if self.balances.dom().contains((address, escrow.mint_a)) {
            Some(EscrowError::RecordAlreadyExists)
        } else {
            None
        }
    }

    /// The ledger with `escrow` stored at `address`.
    pub open spec fn initialized(self, address: Seq<u8>, escrow: EscrowView) -> LedgerView {
        LedgerView { records: self.records.insert(address, escrow), ..self }
    }

    /// The ledger without the record at `address`.
    pub open spec fn destroyed(self, address: Seq<u8>) -> LedgerView {
        LedgerView { records: self.records.remove(address), ..self }
    }

    /// The ledger after `amount` of `mint` has moved from `from` to `to`, whose
    /// account is opened if there is none. A transfer to oneself changes nothing.
    pub open spec fn moved(self, from: Seq<u8>, to: Seq<u8>, mint: Seq<u8>, amount: u64) -> LedgerView {
        if from == to {
            self
        } else {
            LedgerView {
                balances: self.balances.insert(
                    (from, mint),
                    (self.amount(from, mint) - amount) as u64,
                ).insert((to, mint), (self.amount(to, mint) + amount) as u64),
                ..self
            }
        }
    }

    /// Why `step` cannot be performed; `None` where it can.
    pub open spec fn step_error(self, step: StepView) -> Option<EscrowError> {
        match step {
            StepView::Store { address, record } => self.initialize_error(address, record),
            StepView::Transfer { from, to, mint, decimals, amount, authority } => self.transfer_error(
                from,
                mint,
                decimals,
                amount,
                authority,
            ),
            StepView::CloseVault { owner, mint, rent_to, authority } => self.close_error(
                owner,
                mint,
                authority,
            ),
            StepView::Destroy { address, rent_to } => if self.records.dom().contains(address) {
                None
            } else {
                Some(EscrowError::RecordNotFound)
            },
        }
    }

    /// What `step` does to records and holdings. The ledger keeps no
    /// balance of storage credit: whom a step hands it to is kept with the
    /// step, in the list of the steps performed.
    pub open spec fn effect(self, step: StepView) -> LedgerView {
        match step {
            StepView::Store { address, record } => self.initialized(address, record),
            StepView::Transfer { from, to, mint, decimals, amount, authority } => self.moved(
                from,
                to,
                mint,
                amount,
            ),
            StepView::CloseVault { owner, mint, rent_to, authority } => self.closed(owner, mint),
            StepView::Destroy { address, rent_to } => self.destroyed(address),
        }
    }

    /// The ledger after `step`: its effect on records and holdings, and the
    /// step itself, with its authority and its recipient of storage credit,
    /// at the end of the steps performed.
    pub open spec fn stepped(self, step: StepView) -> LedgerView {
        LedgerView { performed: self.performed.push(step), ..self.effect(step) }
    }
}

/// The ledger: asset types, holdings and open offers.
pub struct Ledger {
    program: Key,
    mints: Vec<Mint>,
    holdings: Vec<Holding>,
    records: Vec<Record>,
    log: Vec<Step>,
}

impl View for Ledger {
    type V = LedgerView;

    closed spec fn view(&self) -> LedgerView {
        LedgerView {
            program: self.program@,
            mints: as_map(self.mint_pairs()),
            balances: as_map(self.holding_pairs()),
            records: as_map(self.record_pairs()),
            performed: steps_view(self.log@),
        }
    }
}

impl Ledger {
    spec fn mint_pairs(&self) -> Seq<(Seq<u8>, MintView)> {
        Seq::new(
            self.mints@.len(),
            |i: int|
                (
                    self.mints@[i].address@,
                    MintView { decimals: self.mints@[i].decimals, supply: self.mints@[i].supply },
                ),
        )
    }

    spec fn holding_pairs(&self) -> Seq<((Seq<u8>, Seq<u8>), u64)> {
        Seq::new(
            self.holdings@.len(),
            |i: int|
                ((self.holdings@[i].owner@, self.holdings@[i].mint@), self.holdings@[i].amount),
        )
    }

    spec fn record_pairs(&self) -> Seq<(Seq<u8>, EscrowView)> {
        Seq::new(
            self.records@.len(),
            |i: int| (self.records@[i].address@, self.records@[i].escrow@),
        )
    }

    /// No key is stored twice, every holding is of a known mint, and the
    /// holdings of each mint add up to its supply.
    pub closed spec fn stored_well(&self) -> bool {
        &&& distinct_keys(self.mint_pairs())
        &&& distinct_keys(self.holding_pairs())
        &&& distinct_keys(self.record_pairs())
        &&& forall|j: int|
            0 <= j < self.holdings@.len() ==> has_key(
                self.mint_pairs(),
                (#[trigger] self.holdings@[j]).mint@,
            )
        &&& forall|i: int|
            0 <= i < self.mints@.len() ==> total(
                self.holding_pairs(),
                (#[trigger] self.mints@[i]).address@,
            ) == self.mints@[i].supply
    }

    /// The ledger is valid.
    pub open spec fn wf(&self) -> bool {
        self.stored_well() && self@.consistent()
    }

    /// An empty ledger for `program`.
    pub fn new(program: Key) -> (ledger: Ledger)
        ensures
            ledger.wf(),
            ledger@.program == program@,
            ledger@.mints == Map::<Seq<u8>, MintView>::empty(),
            ledger@.balances == Map::<(Seq<u8>, Seq<u8>), u64>::empty(),
            ledger@.records == Map::<Seq<u8>, EscrowView>::empty(),
            ledger@.performed == Seq::<StepView>::empty(),
    {
        let ledger = Ledger {
            program,
            mints: Vec::new(),
            holdings: Vec::new(),
            records: Vec::new(),
            log: Vec::new(),
        };
        assert(ledger@.mints =~= Map::<Seq<u8>, MintView>::empty());
        assert(ledger@.balances =~= Map::<(Seq<u8>, Seq<u8>), u64>::empty());
        assert(ledger@.records =~= Map::<Seq<u8>, EscrowView>::empty());
        assert(ledger@.performed =~= Seq::<StepView>::empty());
        ledger
    }

    /// The program under which the ledger derives its records.
    pub fn program(&self) -> (program: Key)
        ensures
            program@ == self@.program,
    {
        self.program
    }

    fn find_mint(&self, mint: &Key) -> (r: Option<usize>)
        ensures
            match r {
                Some(i) => i < self.mints@.len() && self.mints@[i as int].address@ == mint@,
                None => forall|i: int|
                    0 <= i < self.mints@.len() ==> (#[trigger] self.mints@[i]).address@ != mint@,
            },
    {
        let mut i: usize = 0;
        while i < self.mints.len()
            invariant
                i <= self.mints@.len(),
                forall|j: int| 0 <= j < i ==> (#[trigger] self.mints@[j]).address@ != mint@,
            decreases self.mints@.len() - i,
        {
            if self.mints[i].address.same(mint) {
                return Some(i);
            }
            i += 1;
        }
        None
    }

    fn find_holding(&self, owner: &Key, mint: &Key) -> (r: Option<usize>)
        ensures
            match r {
                Some(i) => i < self.holdings@.len() && self.holdings@[i as int].owner@ == owner@
                    && self.holdings@[i as int].mint@ == mint@,
                None => forall|i: int|
                    0 <= i < self.holdings@.len() ==> !((#[trigger] self.holdings@[i]).owner@
                        == owner@ && self.holdings@[i].mint@ == mint@),
            },
    {
        let mut i: usize = 0;
        while i < self.holdings.len()
            invariant
                i <= self.holdings@.len(),
                forall|j: int|
                    0 <= j < i ==> !((#[trigger] self.holdings@[j]).owner@ == owner@
                        && self.holdings@[j].mint@ == mint@),
            decreases self.holdings@.len() - i,
        {
            if self.holdings[i].owner.same(owner) && self.holdings[i].mint.same(mint) {
                return Some(i);
            }
            i += 1;
        }
        None
    }

    fn find_record(&self, address: &Key) -> (r: Option<usize>)
        ensures
            match r {
                Some(i) => i < self.records@.len() && self.records@[i as int].address@ == address@,
                None => forall|i: int|
                    0 <= i < self.records@.len() ==> (#[trigger] self.records@[i]).address@
                        != address@,
            },
    {
        let mut i: usize = 0;
        while i < self.records.len()
            invariant
                i <= self.records@.len(),
                forall|j: int| 0 <= j < i ==> (#[trigger] self.records@[j]).address@ != address@,
            decreases self.records@.len() - i,
        {
            if self.records[i].address.same(address) {
                return Some(i);
            }
            i += 1;
        }
        None
    }

    /// The decimals of `mint`; `None` where the ledger does not know it.
    pub fn decimals(&self, mint: &Key) -> (r: Option<u8>)
        requires
            self.wf(),
        ensures
            r == if self@.mints.dom().contains(mint@) {
                Some(self@.mints[mint@].decimals)
            } else {
                None
            },
    {
        match self.find_mint(mint) {
            Some(i) => {
                proof {
                    lemma_as_map_at(self.mint_pairs(), i as int);
                }
                Some(self.mints[i].decimals)
            },
            None => {
                proof {
                    lemma_as_map_absent(self.mint_pairs(), mint@);
                }
                None
            },
        }
    }

    /// How much of `mint` exists; `None` where the ledger does not know it.
    pub fn supply(&self, mint: &Key) -> (r: Option<u64>)
        requires
            self.wf(),
        ensures
            r == if self@.mints.dom().contains(mint@) {
                Some(self@.mints[mint@].supply)
            } else {
                None
            },
    {
        match self.find_mint(mint) {
            Some(i) => {
                proof {
                    lemma_as_map_at(self.mint_pairs(), i as int);
                }
                Some(self.mints[i].supply)
            },
            None => {
                proof {
                    lemma_as_map_absent(self.mint_pairs(), mint@);
                }
                None
            },
        }
    }

    /// What `owner` holds of `mint`; `None` where `owner` has no such account.
    pub fn balance(&self, owner: &Key, mint: &Key) -> (r: Option<u64>)
        requires
            self.wf(),
        ensures
            r == if self@.balances.dom().contains((owner@, mint@)) {
                Some(self@.balances[(owner@, mint@)])
            } else {
                None
            },
    {
        match self.find_holding(owner, mint) {
            Some(i) => {
                proof {
                    lemma_as_map_at(self.holding_pairs(), i as int);
                }
                Some(self.holdings[i].amount)
            },
            None => {
                proof {
                    lemma_as_map_absent(self.holding_pairs(), (owner@, mint@));
                }
                None
            },
        }
    }

    /// The offer stored at `address`; `None` where none is stored there.
    pub fn record(&self, address: &Key) -> (r: Option<Escrow>)
        requires
            self.wf(),
        ensures
            match r {
                Some(escrow) => self@.records.dom().contains(address@) && self@.records[address@]
                    == escrow@,
                None => !self@.records.dom().contains(address@),
            },
    {
        match self.find_record(address) {
            Some(i) => {
                proof {
                    lemma_as_map_at(self.record_pairs(), i as int);
                }
                Some(self.records[i].escrow)
            },
            None => {
                proof {
                    lemma_as_map_absent(self.record_pairs(), address@);
                }
                None
            },
        }
    }

    /// Moves `amount` of `mint` from `from` to `to`, whose account is opened
    /// if there is none.
    fn move_tokens(&mut self, from: &Key, to: &Key, mint: &Key, amount: u64)
        requires
            old(self).stored_well(),
            old(self)@.mints.dom().contains(mint@),
            old(self)@.holds(from@, mint@, amount),
        ensures
            final(self).stored_well(),
            final(self)@ == old(self)@.moved(from@, to@, mint@, amount),
    {
        if from.same(to) {
            return ;
        }
        let ghost pairs = self.holding_pairs();
        let ghost m = index_of(self.mint_pairs(), mint@);
        assert(0 <= m < self.mints@.len() && self.mints@[m].address@ == mint@) by {
            assert(has_key(self.mint_pairs(), mint@));
            assert(self.mint_pairs()[m].0 == mint@);
        }
        let found = self.find_holding(from, mint);
        proof {
            if found is None {
                lemma_as_map_absent(pairs, (from@, mint@));
            }
        }
        let i = found.unwrap();
        let source = self.holdings[i];
        proof {
            lemma_as_map_at(pairs, i as int);
            assert(pairs[i as int] == ((from@, mint@), source.amount));
        }
        let ghost debit = ((from@, mint@), (source.amount - amount) as u64);
        let ghost debited = pairs.update(i as int, debit);
        match self.find_holding(to, mint) {
            Some(j) => {
                let target = self.holdings[j];
                proof {
                    lemma_as_map_at(pairs, j as int);
                    assert(pairs[j as int] == ((to@, mint@), target.amount));
                    lemma_total_two(pairs, i as int, j as int, mint@);
                }
                self.holdings[i] = Holding { amount: source.amount - amount, ..source };
                self.holdings[j] = Holding { amount: target.amount + amount, ..target };
                proof {
                    let credit = ((to@, mint@), (target.amount + amount) as u64);
                    let settled = debited.update(j as int, credit);
                    assert(self.holding_pairs() =~= settled);
                    assert(self.mint_pairs() =~= old(self).mint_pairs());
                    assert(self.record_pairs() =~= old(self).record_pairs());
                    lemma_as_map_update(pairs, i as int, debit.1);
                    lemma_as_map_update(debited, j as int, credit.1);
                    assert forall|k: int| 0 <= k < self.mints@.len() implies total(
                        self.holding_pairs(),
                        (#[trigger] self.mints@[k]).address@,
                    ) == self.mints@[k].supply by {
                        lemma_total_update(pairs, i as int, debit, self.mints@[k].address@);
                        lemma_total_update(debited, j as int, credit, self.mints@[k].address@);
                    }
                    assert forall|k: int| 0 <= k < self.holdings@.len() implies has_key(
                        self.mint_pairs(),
                        (#[trigger] self.holdings@[k]).mint@,
                    ) by {
                        assert(self.holdings@[k].mint@ == old(self).holdings@[k].mint@);
                    }
                }
            },
            None => {
                self.holdings[i] = Holding { amount: source.amount - amount, ..source };
                self.holdings.push(Holding { owner: *to, mint: *mint, amount });
                proof {
                    let credit = ((to@, mint@), amount);
                    let settled = debited.push(credit);
                    assert(self.holding_pairs() =~= settled);
                    assert(self.mint_pairs() =~= old(self).mint_pairs());
                    assert(self.record_pairs() =~= old(self).record_pairs());
                    lemma_as_map_absent(pairs, (to@, mint@));
                    lemma_as_map_update(pairs, i as int, debit.1);
                    assert(!has_key(debited, credit.0)) by {
                        if has_key(debited, credit.0) {
                            let k = index_of(debited, credit.0);
                            assert(debited[k].0 == credit.0);
                            assert(pairs[k].0 == debited[k].0);
                        }
                    }
                    lemma_as_map_push(debited, credit);
                    assert forall|k: int| 0 <= k < self.mints@.len() implies total(
                        self.holding_pairs(),
                        (#[trigger] self.mints@[k]).address@,
                    ) == self.mints@[k].supply by {
                        lemma_total_update(pairs, i as int, debit, self.mints@[k].address@);
                        lemma_total_push(debited, credit, self.mints@[k].address@);
                    }
                    assert forall|k: int| 0 <= k < self.holdings@.len() implies has_key(
                        self.mint_pairs(),
                        (#[trigger] self.holdings@[k]).mint@,
                    ) by {
                        if k < old(self).holdings@.len() {
                            assert(self.holdings@[k].mint@ == old(self).holdings@[k].mint@);
                        }
                    }
                }
            },
        }
    }

    /// Makes `address` known as an asset type with `decimals` and no supply.
    /// Returns `false`, and changes nothing, where the address is already known.
    pub fn create_mint(&mut self, address: Key, decimals: u8) -> (created: bool)
        requires
            old(self).wf(),
        ensures
            final(self).wf(),
            created == !old(self)@.mints.dom().contains(address@),
            created ==> final(self)@ == (LedgerView {
                mints: old(self)@.mints.insert(address@, MintView { decimals, supply: 0 }),
                ..old(self)@
            }),
            !created ==> final(self)@ == old(self)@,
    {
        match self.find_mint(&address) {
            Some(i) => {
                proof {
                    lemma_as_map_at(self.mint_pairs(), i as int);
                }
                false
            },
            None => {
                let ghost known_mints = self.mint_pairs();
                let ghost e = (address@, MintView { decimals, supply: 0 });
                proof {
                    lemma_as_map_absent(known_mints, address@);
                    assert forall|j: int| 0 <= j < self.holding_pairs().len() implies (
                    #[trigger] self.holding_pairs()[j]).0.1 != address@ by {
                        assert(has_key(known_mints, self.holdings@[j].mint@));
                    }
                    lemma_total_none(self.holding_pairs(), address@);
                }
                self.mints.push(Mint { address, decimals, supply: 0 });
                proof {
                    assert(self.mint_pairs() =~= known_mints.push(e));
                    assert(self.holding_pairs() =~= old(self).holding_pairs());
                    assert(self.record_pairs() =~= old(self).record_pairs());
                    lemma_as_map_push(known_mints, e);
                    assert forall|j: int| 0 <= j < self.holdings@.len() implies has_key(
                        self.mint_pairs(),
                        (#[trigger] self.holdings@[j]).mint@,
                    ) by {
                        let k = index_of(known_mints, self.holdings@[j].mint@);
                        assert(has_key(known_mints, old(self).holdings@[j].mint@));
                        assert(self.mint_pairs()[k].0 == self.holdings@[j].mint@);
                    }
                    assert forall|i: int| 0 <= i < self.mints@.len() implies total(
                        self.holding_pairs(),
                        (#[trigger] self.mints@[i]).address@,
                    ) == self.mints@[i].supply by {
                        if i < old(self).mints@.len() {
                            assert(self.mints@[i] == old(self).mints@[i]);
                        }
                    }
                }
                true
            },
        }
    }

    /// Issues `amount` of `mint` to `owner`, whose account is opened if there
    /// is none. Returns `false`, and changes nothing, where the ledger does not
    /// know the mint or its supply would pass the largest amount.
    pub fn mint_to(&mut self, owner: &Key, mint: &Key, amount: u64) -> (issued: bool)
        requires
            old(self).wf(),
        ensures
            final(self).wf(),
            issued == (old(self)@.mints.dom().contains(mint@) && old(self)@.mints[mint@].supply
                + amount <= u64::MAX),
            issued ==> final(self)@ == (LedgerView {
                mints: old(self)@.mints.insert(
                    mint@,
                    MintView {
                        decimals: old(self)@.mints[mint@].decimals,
                        supply: (old(self)@.mints[mint@].supply + amount) as u64,
                    },
                ),
                balances: old(self)@.balances.insert(
                    (owner@, mint@),
                    (old(self)@.amount(owner@, mint@) + amount) as u64,
                ),
                ..old(self)@
            }),
            !issued ==> final(self)@ == old(self)@,
    {
        let m = match self.find_mint(mint) {
            Some(m) => m,
            None => {
                proof {
                    lemma_as_map_absent(self.mint_pairs(), mint@);
                }
                return false;
            },
        };
        let known = self.mints[m];
        proof {
            lemma_as_map_at(self.mint_pairs(), m as int);
        }
        if amount > u64::MAX - known.supply {
            return false;
        }
        let ghost known_mints = self.mint_pairs();
        let ghost pairs = self.holding_pairs();
        let ghost raised = MintView { decimals: known.decimals, supply: (known.supply + amount) as u64 };
        self.mints[m] = Mint { supply: known.supply + amount, ..known };
        proof {
            assert(self.mint_pairs() =~= known_mints.update(m as int, (known_mints[m as int].0, raised)));
            lemma_as_map_update(known_mints, m as int, raised);
        }
        match self.find_holding(owner, mint) {
            Some(i) => {
                let account = self.holdings[i];
                proof {
                    lemma_as_map_at(pairs, i as int);
                    lemma_total_bounds(pairs, i as int, mint@);
                }
                self.holdings[i] = Holding { amount: account.amount + amount, ..account };
                proof {
                    let e = ((owner@, mint@), (account.amount + amount) as u64);
                    assert(self.holding_pairs() =~= pairs.update(i as int, e));
                    lemma_as_map_update(pairs, i as int, e.1);
                    assert forall|k: int| 0 <= k < self.mints@.len() implies total(
                        self.holding_pairs(),
                        (#[trigger] self.mints@[k]).address@,
                    ) == self.mints@[k].supply by {
                        lemma_total_update(pairs, i as int, e, self.mints@[k].address@);
                        if k != m {
                            assert(self.mints@[k] == old(self).mints@[k]);
                            assert(known_mints[k].0 != known_mints[m as int].0);
                        }
                    }
                    assert forall|k: int| 0 <= k < self.holdings@.len() implies has_key(
                        self.mint_pairs(),
                        (#[trigger] self.holdings@[k]).mint@,
                    ) by {
                        assert(self.holdings@[k].mint@ == old(self).holdings@[k].mint@);
                        let w = index_of(known_mints, old(self).holdings@[k].mint@);
                        assert(has_key(known_mints, old(self).holdings@[k].mint@));
                        assert(self.mint_pairs()[w].0 == known_mints[w].0);
                    }
                }
            },
            None => {
                proof {
                    lemma_as_map_absent(pairs, (owner@, mint@));
                }
                self.holdings.push(Holding { owner: *owner, mint: *mint, amount });
                proof {
                    let e = ((owner@, mint@), amount);
                    assert(self.holding_pairs() =~= pairs.push(e));
                    lemma_as_map_push(pairs, e);
                    assert forall|k: int| 0 <= k < self.mints@.len() implies total(
                        self.holding_pairs(),
                        (#[trigger] self.mints@[k]).address@,
                    ) == self.mints@[k].supply by {
                        lemma_total_push(pairs, e, self.mints@[k].address@);
                        if k != m {
                            assert(self.mints@[k] == old(self).mints@[k]);
                            assert(known_mints[k].0 != known_mints[m as int].0);
                        }
                    }
                    assert forall|k: int| 0 <= k < self.holdings@.len() implies has_key(
                        self.mint_pairs(),
                        (#[trigger] self.holdings@[k]).mint@,
                    ) by {
                        if k < old(self).holdings@.len() {
                            assert(self.holdings@[k].mint@ == old(self).holdings@[k].mint@);
                            let w = index_of(known_mints, old(self).holdings@[k].mint@);
                            assert(has_key(known_mints, old(self).holdings@[k].mint@));
                            assert(self.mint_pairs()[w].0 == known_mints[w].0);
                        } else {
                            assert(self.mint_pairs()[m as int].0 == mint@);
                        }
                    }
                }
            },
        }
        proof {
            assert(self.record_pairs() =~= old(self).record_pairs());
        }
        true
    }

    /// Whether `seeds` derive the address `owner` under the ledger's program.
    pub fn signs(&self, seeds: &Vec<Vec<u8>>, owner: &Key) -> (r: bool)
        ensures
            r == self@.signs_for(seeds_view(seeds@), owner@),
    {
        match create_program_address(seeds, &self.program) {
            Some(address) => address.same(owner),
            None => false,
        }
    }

    /// The steps performed so far, oldest first.
    pub fn performed(&self) -> (steps: &Vec<Step>)
        ensures
            steps_view(steps@) == self@.performed,
    {
        &self.log
    }

    /// Takes out the empty account in which `owner` holds `mint`.
    fn remove_holding(&mut self, owner: &Key, mint: &Key)
        requires
            old(self).wf(),
            old(self)@.balances.dom().contains((owner@, mint@)),
            old(self)@.balances[(owner@, mint@)] == 0,
        ensures
            final(self).wf(),
            final(self)@ == old(self)@.closed(owner@, mint@),
    {
        let ghost pairs = self.holding_pairs();
        let found = self.find_holding(owner, mint);
        proof {
            if found is None {
                lemma_as_map_absent(pairs, (owner@, mint@));
            }
        }
        let i = found.unwrap();
        proof {
            lemma_as_map_at(pairs, i as int);
        }
        self.holdings.remove(i);
        proof {
            assert(self.holding_pairs() =~= pairs.remove(i as int));
            assert(self.mint_pairs() =~= old(self).mint_pairs());
            assert(self.record_pairs() =~= old(self).record_pairs());
            lemma_as_map_remove(pairs, i as int);
            assert forall|k: int| 0 <= k < self.mints@.len() implies total(
                self.holding_pairs(),
                (#[trigger] self.mints@[k]).address@,
            ) == self.mints@[k].supply by {
                lemma_total_remove(pairs, i as int, self.mints@[k].address@);
            }
            assert forall|k: int| 0 <= k < self.holdings@.len() implies has_key(
                self.mint_pairs(),
                (#[trigger] self.holdings@[k]).mint@,
            ) by {
                let k0 = if k < i { k } else { k + 1 };
                assert(self.holdings@[k] == old(self).holdings@[k0]);
            }
        }
    }

    /// Stores `escrow` at `address`.
    fn push_record(&mut self, address: &Key, escrow: Escrow)
        requires
            old(self).wf(),
            old(self)@.initialize_error(address@, escrow@) is None,
        ensures
            final(self).wf(),
            final(self)@ == old(self)@.initialized(address@, escrow@),
    {
        let ghost stored = self.record_pairs();
        proof {
            if has_key(stored, address@) {
                lemma_as_map_at(stored, index_of(stored, address@));
            }
            lemma_authority_is_address(self@.program, escrow@.maker, escrow@.seed);
        }
        self.records.push(Record { address: *address, escrow });
        proof {
            assert(self.record_pairs() =~= stored.push((address@, escrow@)));
            assert(self.mint_pairs() =~= old(self).mint_pairs());
            assert(self.holding_pairs() =~= old(self).holding_pairs());
            lemma_as_map_push(stored, (address@, escrow@));
        }
    }

    /// Takes the record at `address` out.
    fn remove_record(&mut self, address: &Key)
        requires
            old(self).wf(),
            old(self)@.records.dom().contains(address@),
        ensures
            final(self).wf(),
            final(self)@ == old(self)@.destroyed(address@),
    {
        let ghost stored = self.record_pairs();
        let found = self.find_record(address);
        proof {
            if found is None {
                lemma_as_map_absent(stored, address@);
            }
        }
        let i = found.unwrap();
        proof {
            lemma_as_map_at(stored, i as int);
        }
        self.records.remove(i);
        proof {
            assert(self.record_pairs() =~= stored.remove(i as int));
            assert(self.mint_pairs() =~= old(self).mint_pairs());
            assert(self.holding_pairs() =~= old(self).holding_pairs());
            lemma_as_map_remove(stored, i as int);
        }
    }

    /// Says whether `step` can be performed, and why not where it cannot.
    /// The ledger stays as it is.
    pub fn validate(&self, step: &Step) -> (r: Result<(), EscrowError>)
        requires
            self.wf(),
        ensures
            match r {
                Ok(()) => self@.step_error(step@) is None,
                Err(e) => self@.step_error(step@) == Some(e),
            },
    {
        match step {
            Step::Store { address, record } => {
                match create_program_address(
                    &offer_signer_seeds(&record.maker, record.seed, record.bump),
                    &self.program,
                ) {
                    Some(_) => {},
                    None => {
                        return Err(EscrowError::NoDerivedAuthority);
                    },
                }
                match find_escrow(&self.program, &record.maker, record.seed) {
                    Some(found) => {
                        if !found.0.same(address) || found.1 != record.bump {
                            return Err(EscrowError::RecordMismatch);
                        }
                    },
                    None => {
                        return Err(EscrowError::RecordMismatch);
                    },
                }
                if record.maker.same(address) {
                    return Err(EscrowError::Unauthorized);
                }
                if self.record(address).is_some() {
                    return Err(EscrowError::RecordAlreadyExists);
                }
                if self.decimals(&record.mint_a).is_none() || self.decimals(&record.mint_b).is_none() {
                    return Err(EscrowError::AssetMismatch);
                }
                if self.balance(address, &record.mint_a).is_some() {
                    return Err(EscrowError::RecordAlreadyExists);
                }
                Ok(())
            },
            Step::Transfer { from, to, mint, decimals, amount, authority } => {
                let authorized = match authority {
                    None => self.record(from).is_none(),
                    Some(a) => self.signs(&a.seeds(), from),
                };
                if !authorized {
                    return Err(EscrowError::Unauthorized);
                }
                match self.decimals(mint) {
                    Some(actual) => {
                        if actual != *decimals {
                            return Err(EscrowError::AssetMismatch);
                        }
                    },
                    None => {
                        return Err(EscrowError::AssetMismatch);
                    },
                }
                match self.balance(from, mint) {
                    Some(available) => {
                        if available < *amount {
                            return Err(EscrowError::InsufficientBalance);
                        }
                    },
                    None => {
                        return Err(EscrowError::InsufficientBalance);
                    },
                }
                Ok(())
            },
            Step::CloseVault { owner, mint, rent_to, authority } => {
                if !self.signs(&authority.seeds(), owner) {
                    return Err(EscrowError::Unauthorized);
                }
                match self.balance(owner, mint) {
                    Some(left) => {
                        if left != 0 {
                            return Err(EscrowError::VaultNotEmpty);
                        }
                    },
                    None => {
                        return Err(EscrowError::RecordNotFound);
                    },
                }
                Ok(())
            },
            Step::Destroy { address, rent_to } => {
                if self.record(address).is_none() {
                    return Err(EscrowError::RecordNotFound);
                }
                Ok(())
            },
        }
    }

    /// Performs one step of an operation and adds it to the steps
    /// performed. A step that cannot be performed changes nothing.
    pub fn perform(&mut self, step: &Step) -> (r: Result<(), EscrowError>)
        requires
            old(self).wf(),
        ensures
            final(self).wf(),
            match r {
                Ok(()) => old(self)@.step_error(step@) is None
                    && final(self)@ == old(self)@.stepped(step@),
                Err(e) => old(self)@.step_error(step@) == Some(e) && final(self)@ == old(self)@,
            },
    {
        self.validate(step)?;
        match step {
            Step::Store { address, record } => self.push_record(address, *record),
            Step::Transfer { from, to, mint, decimals, amount, authority } => self.move_tokens(
                from,
                to,
                mint,
                *amount,
            ),
            Step::CloseVault { owner, mint, rent_to, authority } => self.remove_holding(
                owner,
                mint,
            ),
            Step::Destroy { address, rent_to } => self.remove_record(address),
        }
        let ghost before = self.log@;
        self.log.push(*step);
        proof {
            assert(steps_view(self.log@) =~= steps_view(before).push(step@));
        }
        Ok(())
    }

    /// Moves `amount` of `mint` from the account of `from` to that of `to`,
    /// which is opened if there is none, under the signature of `from`; the
    /// caller vouches for that signature. `decimals` is what the caller takes
    /// the mint to have.
    pub fn deposit(&mut self, from: &Key, to: &Key, mint: &Key, decimals: u8, amount: u64) -> (r:
        Result<(), EscrowError>)
        requires
            old(self).wf(),
        ensures
            final(self).wf(),
            ({
                let step = StepView::Transfer {
                    from: from@,
                    to: to@,
                    mint: mint@,
                    decimals,
                    amount,
                    authority: None,
                };
                match r {
                    Ok(()) => old(self)@.step_error(step) is None && final(self)@
                        == old(self)@.stepped(step),
                    Err(e) => old(self)@.step_error(step) == Some(e) && final(self)@ == old(self)@,
                }
            }),
    {
        self.perform(
            &Step::Transfer { from: *from, to: *to, mint: *mint, decimals, amount, authority: None },
        )
    }

    /// Moves `amount` of `mint` out of the account of `from` to that of `to`,
    /// which is opened if there is none, under `authority`, whose seeds must
    /// derive `from`.
    pub fn release(
        &mut self,
        from: &Key,
        to: &Key,
        mint: &Key,
        decimals: u8,
        amount: u64,
        authority: &Authority,
    ) -> (r: Result<(), EscrowError>)
        requires
            old(self).wf(),
        ensures
            final(self).wf(),
            ({
                let step = StepView::Transfer {
                    from: from@,
                    to: to@,
                    mint: mint@,
                    decimals,
                    amount,
                    authority: Some(authority@),
                };
                match r {
                    Ok(()) => old(self)@.step_error(step) is None && final(self)@
                        == old(self)@.stepped(step),
                    Err(e) => old(self)@.step_error(step) == Some(e) && final(self)@ == old(self)@,
                }
            }),
    {
        self.perform(
            &Step::Transfer {
                from: *from,
                to: *to,
                mint: *mint,
                decimals,
                amount,
                authority: Some(*authority),
            },
        )
    }

    /// Closes the empty account in which `owner` holds `mint` under
    /// `authority`, whose seeds must derive `owner`, and hands its storage
    /// credit to `rent_to`.
    pub fn close(&mut self, owner: &Key, mint: &Key, rent_to: &Key, authority: &Authority) -> (r:
        Result<(), EscrowError>)
        requires
            old(self).wf(),
        ensures
            final(self).wf(),
            ({
                let step = StepView::CloseVault {
                    owner: owner@,
                    mint: mint@,
                    rent_to: rent_to@,
                    authority: authority@,
                };
                match r {
                    Ok(()) => old(self)@.step_error(step) is None && final(self)@
                        == old(self)@.stepped(step),
                    Err(e) => old(self)@.step_error(step) == Some(e) && final(self)@ == old(self)@,
                }
            }),
    {
        self.perform(
            &Step::CloseVault {
                owner: *owner,
                mint: *mint,
                rent_to: *rent_to,
                authority: *authority,
            },
        )
    }

    /// Stores `escrow` at `address`. Address and bump must be the ones that
    /// the search finds for the record's maker and seed; no record may be
    /// stored there yet, and no vault may be held for it yet.
    pub fn initialize(&mut self, address: &Key, escrow: Escrow) -> (r: Result<(), EscrowError>)
        requires
            old(self).wf(),
        ensures
            final(self).wf(),
            ({
                let step = StepView::Store { address: address@, record: escrow@ };
                match r {
                    Ok(()) => old(self)@.step_error(step) is None && final(self)@
                        == old(self)@.stepped(step),
                    Err(e) => old(self)@.step_error(step) == Some(e) && final(self)@ == old(self)@,
                }
            }),
    {
        self.perform(&Step::Store { address: *address, record: escrow })
    }

    /// Takes the record at `address` out of the ledger and hands its storage
    /// credit to `rent_to`.
    pub fn destroy(&mut self, address: &Key, rent_to: &Key) -> (r: Result<(), EscrowError>)
        requires
            old(self).wf(),
        ensures
            final(self).wf(),
            ({
                let step = StepView::Destroy { address: address@, rent_to: rent_to@ };
                match r {
                    Ok(()) => old(self)@.step_error(step) is None && final(self)@
                        == old(self)@.stepped(step),
                    Err(e) => old(self)@.step_error(step) == Some(e) && final(self)@ == old(self)@,
                }
            }),
    {
        self.perform(&Step::Destroy { address: *address, rent_to: *rent_to })
    }

    /// What one owner holds of a mint is within the mint's supply.
    pub proof fn lemma_holding_within_supply(&self, owner: Seq<u8>, mint: Seq<u8>)
        requires
            self.wf(),
            self@.balances.dom().contains((owner, mint)),
        ensures
            self@.mints.dom().contains(mint),
            self@.balances[(owner, mint)] <= self@.mints[mint].supply,
    {
        let p = self.holding_pairs();
        let i = index_of(p, (owner, mint));
        assert(has_key(p, (owner, mint)));
        lemma_as_map_at(p, i);
        assert(self.holdings@[i].mint@ == mint);
        assert(has_key(self.mint_pairs(), mint));
        let m = index_of(self.mint_pairs(), mint);
        lemma_as_map_at(self.mint_pairs(), m);
        assert(self.mints@[m].address@ == mint);
        lemma_total_bounds(p, i, mint);
    }

    /// What two owners hold of a mint is together within the mint's supply.
    pub proof fn lemma_holdings_within_supply(&self, first: Seq<u8>, second: Seq<u8>, mint: Seq<u8>)
        requires
            self.wf(),
            self@.balances.dom().contains((first, mint)),
            self@.balances.dom().contains((second, mint)),
            first != second,
        ensures
            self@.mints.dom().contains(mint),
            self@.balances[(first, mint)] + self@.balances[(second, mint)]
                <= self@.mints[mint].supply,
    {
        let p = self.holding_pairs();
        let i = index_of(p, (first, mint));
        let j = index_of(p, (second, mint));
        assert(has_key(p, (first, mint)));
        assert(has_key(p, (second, mint)));
        lemma_as_map_at(p, i);
        lemma_as_map_at(p, j);
        assert(self.holdings@[i].mint@ == mint);
        assert(has_key(self.mint_pairs(), mint));
        let m = index_of(self.mint_pairs(), mint);
        lemma_as_map_at(self.mint_pairs(), m);
        assert(self.mints@[m].address@ == mint);
        lemma_total_two(p, i, j, mint);
    }
}

} // verus!
