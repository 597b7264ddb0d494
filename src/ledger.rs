use vstd::prelude::*;
use crate::address::{address_matches, derive_address, derive_spec, pda_of, wall_seeds_with_bump};
use crate::constants::{MAX_MESSAGE_LENGTH, MESSAGE_FEE_LAMPORTS};
use crate::identity::Identity;
use crate::wall::{
    byte_len, check_funds, check_message, covers_fee, length_check, MessagePosted, Wall,
    WallError, WallInitialized,
};

verus! {

/// An account's key and its balance in minor units.
#[derive(Clone, Copy, Debug)]
pub struct Account {
    pub key: Identity,
    pub lamports: u64,
}

/// A wall's record at its derived address.
#[derive(Clone, Copy, Debug)]
pub struct WallRecord {
    pub address: Identity,
    pub wall: Wall,
}

/// A settled posting fee, for the wall it was paid on.
#[derive(Clone, Copy, Debug)]
pub struct FeeTransfer {
    pub wall_id: u64,
    pub from: Identity,
    pub to: Identity,
    pub amount: u64,
}

/// The errors an instruction ends with: the board's own, and those of the
/// account and address checks that gate it.
#[derive(Clone, Copy, Debug, PartialEq, Eq, Structural)]
pub enum InstructionError {
    Wall(WallError),
    NotSigner,
    AlreadyInitialized,
    WallNotFound,
    AddressMismatch,
    NoViableBump,
    AccountNotFound,
    ArithmeticOverflow,
}

/// The accounts handed to `initialize_wall`.
#[derive(Clone, Copy, Debug)]
pub struct InitializeWall {
    /// The address the new record is to be written at.
    pub wall: Identity,
    /// The wallet that creates the wall and receives its fees.
    pub dev_wallet: Identity,
    pub dev_wallet_signed: bool,
}

/// The accounts handed to `post_message`.
#[derive(Clone, Copy, Debug)]
pub struct PostMessage {
    /// The address of the wall's record.
    pub wall: Identity,
    /// The poster, who pays the fee.
    pub user: Identity,
    pub user_signed: bool,
    /// The wallet the fee is sent to; it must be the wall's owner.
    pub dev_wallet: Identity,
}

/// The ledger's state: the accounts, the wall records, and the event and fee logs.
pub struct Ledger {
    program_id: Identity,
    accounts: Vec<Account>,
    walls: Vec<WallRecord>,
    wall_events: Vec<WallInitialized>,
    message_events: Vec<MessagePosted>,
    transfers: Vec<FeeTransfer>,
}

pub ghost struct LedgerModel {
    pub program_id: Seq<u8>,
    pub accounts: Seq<Account>,
    pub walls: Seq<WallRecord>,
    pub wall_events: Seq<WallInitialized>,
    pub message_events: Seq<MessagePosted>,
    pub transfers: Seq<FeeTransfer>,
}

impl View for Ledger {
    type V = LedgerModel;

    closed spec fn view(&self) -> LedgerModel {
        LedgerModel {
            program_id: self.program_id@,
            accounts: self.accounts@,
            walls: self.walls@,
            wall_events: self.wall_events@,
            message_events: self.message_events@,
            transfers: self.transfers@,
        }
    }
}

pub open spec fn has_account(m: LedgerModel, key: Seq<u8>) -> bool {
    exists|i: int| 0 <= i < m.accounts.len() && m.accounts[i].key@ == key
}

/// The position of the account with `key`, where there is one.
pub open spec fn account_index(m: LedgerModel, key: Seq<u8>) -> int {
    choose|i: int| 0 <= i < m.accounts.len() && m.accounts[i].key@ == key
}

/// The balance of `key`; an account the ledger does not hold has none.
pub open spec fn balance_of(m: LedgerModel, key: Seq<u8>) -> nat {
    if has_account(m, key) {
        m.accounts[account_index(m, key)].lamports as nat
    } else {
        0
    }
}

pub open spec fn has_wall(m: LedgerModel, address: Seq<u8>) -> bool {
    exists|i: int| 0 <= i < m.walls.len() && m.walls[i].address@ == address
}

pub open spec fn wall_index(m: LedgerModel, address: Seq<u8>) -> int {
    choose|i: int| 0 <= i < m.walls.len() && m.walls[i].address@ == address
}

/// The record stored at `address`.
pub open spec fn wall_at(m: LedgerModel, address: Seq<u8>) -> Wall {
    m.walls[wall_index(m, address)].wall
}

/// `owner` holds a wall numbered `wall_id`.
pub open spec fn owns_wall(m: LedgerModel, wall_id: u64, owner: Seq<u8>) -> bool {
    exists|k: int|
        0 <= k < m.walls.len() && #[trigger] m.walls[k].wall.wall_id == wall_id
            && m.walls[k].wall.dev_wallet@ == owner
}

/// A fee transfer settles a post: same wall, paid by the poster to the
/// wall's owner, of exactly the fee.
pub open spec fn settles(m: LedgerModel, t: FeeTransfer, e: MessagePosted) -> bool {
    &&& t.wall_id == e.wall_id
    &&& t.from@ == e.user@
    &&& t.amount == MESSAGE_FEE_LAMPORTS
    &&& owns_wall(m, t.wall_id, t.to@)
}

/// The ledger's invariant.
pub open spec fn ledger_wf(m: LedgerModel) -> bool {
    &&& forall|i: int, j: int|
        0 <= i < j < m.accounts.len() ==> m.accounts[i].key@ != m.accounts[j].key@
    &&& forall|i: int, j: int|
        0 <= i < j < m.walls.len() ==> m.walls[i].address@ != m.walls[j].address@
    // every record sits where its own seeds and bump lead
    &&& forall|i: int|
        0 <= i < m.walls.len() ==> pda_of(
            wall_seeds_with_bump(m.walls[i].wall.dev_wallet@, m.walls[i].wall.wall_id, m.walls[i].wall.bump),
            m.program_id,
        ) == Some(m.walls[i].address@)
    // each posted message is matched by exactly the fee transfer at its position
    &&& m.message_events.len() == m.transfers.len()
    &&& forall|i: int|
        0 <= i < m.transfers.len() ==> settles(m, #[trigger] m.transfers[i], m.message_events[i])
    &&& forall|i: int|
        0 <= i < m.message_events.len() ==> 1 <= byte_len(#[trigger] m.message_events[i].message@)
            <= MAX_MESSAGE_LENGTH
}

/// The error `initialize_wall` ends with, if any.
pub open spec fn init_error(m: LedgerModel, ctx: InitializeWall, wall_id: u64) -> Option<InstructionError> {
    if !ctx.dev_wallet_signed {
        Some(InstructionError::NotSigner)
    } else {
        match derive_spec(m.program_id, ctx.dev_wallet@, wall_id) {
            None => Some(InstructionError::NoViableBump),
            Some(p) => if p.0 != ctx.wall@ {
                Some(InstructionError::AddressMismatch)
            } else if has_wall(m, ctx.wall@) {
                Some(InstructionError::AlreadyInitialized)
            } else {
                None
            },
        }
    }
}

/// The ledger after a successful `initialize_wall`.
pub open spec fn init_effect(m: LedgerModel, ctx: InitializeWall, wall_id: u64) -> LedgerModel {
    let bump = derive_spec(m.program_id, ctx.dev_wallet@, wall_id).unwrap().1;
    LedgerModel {
        walls: m.walls.push(
            WallRecord { address: ctx.wall, wall: Wall { dev_wallet: ctx.dev_wallet, wall_id, bump } },
        ),
        wall_events: m.wall_events.push(WallInitialized { wall_id, dev_wallet: ctx.dev_wallet }),
        ..m
    }
}

/// The error `post_message` ends with, if any.
pub open spec fn post_error(m: LedgerModel, ctx: PostMessage, message: Seq<char>) -> Option<InstructionError> {
    if length_check(byte_len(message)) is Err {
        Some(InstructionError::Wall(length_check(byte_len(message))->Err_0))
    } else if !has_wall(m, ctx.wall@) {
        Some(InstructionError::WallNotFound)
    } else if pda_of(
        wall_seeds_with_bump(
            wall_at(m, ctx.wall@).dev_wallet@,
            wall_at(m, ctx.wall@).wall_id,
            wall_at(m, ctx.wall@).bump,
        ),
        m.program_id,
    ) != Some(ctx.wall@) {
        Some(InstructionError::AddressMismatch)
    } else if ctx.dev_wallet@ != wall_at(m, ctx.wall@).dev_wallet@ {
        Some(InstructionError::Wall(WallError::InvalidDevWallet))
    } else if !has_account(m, ctx.user@) {
        Some(InstructionError::AccountNotFound)
    } else if !covers_fee(m.accounts[account_index(m, ctx.user@)].lamports) {
        Some(InstructionError::Wall(WallError::InsufficientFunds))
    } else if !ctx.user_signed {
        Some(InstructionError::NotSigner)
    } else if !has_account(m, ctx.dev_wallet@) {
        Some(InstructionError::AccountNotFound)
    } else if ctx.user@ != ctx.dev_wallet@ && m.accounts[account_index(m, ctx.dev_wallet@)].lamports
        + MESSAGE_FEE_LAMPORTS > u64::MAX {
        Some(InstructionError::ArithmeticOverflow)
    } else {
        None
    }
}

/// The balances after the fee moves from the poster to the wall's owner.
pub open spec fn pay_fee(accounts: Seq<Account>, u: int, d: int) -> Seq<Account> {
    if u == d {
        accounts
    } else {
        accounts.update(
            u,
            Account { lamports: (accounts[u].lamports - MESSAGE_FEE_LAMPORTS) as u64, ..accounts[u] },
        ).update(d, Account { lamports: (accounts[d].lamports + MESSAGE_FEE_LAMPORTS) as u64, ..accounts[d] })
    }
}

/// The ledger after a successful `post_message`.
pub open spec fn post_effect(m: LedgerModel, ctx: PostMessage, message: String, now: i64) -> LedgerModel {
    let wall_id = wall_at(m, ctx.wall@).wall_id;
    LedgerModel {
        accounts: pay_fee(
            m.accounts,
            account_index(m, ctx.user@),
            account_index(m, ctx.dev_wallet@),
        ),
        transfers: m.transfers.push(
            FeeTransfer { wall_id, from: ctx.user, to: ctx.dev_wallet, amount: MESSAGE_FEE_LAMPORTS },
        ),
        message_events: m.message_events.push(
            MessagePosted { wall_id, user: ctx.user, message, timestamp: now },
        ),
        ..m
    }
}

/// The records of `before` stand unchanged, at their places, in `after`.
pub open spec fn keeps_walls(before: LedgerModel, after: LedgerModel) -> bool {
    &&& before.walls.len() <= after.walls.len()
    &&& forall|i: int| 0 <= i < before.walls.len() ==> after.walls[i] == before.walls[i]
}

impl Ledger {
    /// An empty ledger for the board program `program_id`.
    pub fn new(program_id: Identity) -> (r: Ledger)
        ensures
            ledger_wf(r@),
            r@.program_id == program_id@,
            r@.accounts.len() == 0,
            r@.walls.len() == 0,
            r@.wall_events.len() == 0,
            r@.message_events.len() == 0,
            r@.transfers.len() == 0,
    {
        Ledger {
            program_id,
            accounts: Vec::new(),
            walls: Vec::new(),
            wall_events: Vec::new(),
            message_events: Vec::new(),
            transfers: Vec::new(),
        }
    }

    fn find_account(&self, key: &Identity) -> (r: Option<usize>)
        requires
            ledger_wf(self@),
        ensures
            r is Some <==> has_account(self@, key@),
            r matches Some(i) ==> i == account_index(self@, key@) && i < self@.accounts.len(),
    {
        let mut i: usize = 0;
        while i < self.accounts.len()
            invariant
                0 <= i <= self.accounts@.len(),
                ledger_wf(self@),
                forall|j: int| 0 <= j < i ==> self.accounts@[j].key@ != key@,
            decreases self.accounts@.len() - i,
        {
            if self.accounts[i].key.same_as(key) {
                assert(self@.accounts[i as int].key@ == key@);
                assert(has_account(self@, key@));
                proof {
                    let k = account_index(self@, key@);
                    assert(self@.accounts[k].key@ == key@);
                    if k < i as int {
                        assert(self@.accounts[k].key@ != self@.accounts[i as int].key@);
                    } else if k > i as int {
                        assert(self@.accounts[i as int].key@ != self@.accounts[k].key@);
                    }
                }
                return Some(i);
            }
            i = i + 1;
        }
        None
    }

    fn find_wall(&self, address: &Identity) -> (r: Option<usize>)
        requires
            ledger_wf(self@),
        ensures
            r is Some <==> has_wall(self@, address@),
            r matches Some(i) ==> i == wall_index(self@, address@) && i < self@.walls.len(),
    {
        let mut i: usize = 0;
        while i < self.walls.len()
            invariant
                0 <= i <= self.walls@.len(),
                ledger_wf(self@),
                forall|j: int| 0 <= j < i ==> self.walls@[j].address@ != address@,
            decreases self.walls@.len() - i,
        {
            if self.walls[i].address.same_as(address) {
                assert(self@.walls[i as int].address@ == address@);
                assert(has_wall(self@, address@));
                proof {
                    let k = wall_index(self@, address@);
                    assert(self@.walls[k].address@ == address@);
                    if k < i as int {
                        assert(self@.walls[k].address@ != self@.walls[i as int].address@);
                    } else if k > i as int {
                        assert(self@.walls[i as int].address@ != self@.walls[k].address@);
                    }
                }
                return Some(i);
            }
            i = i + 1;
        }
        None
    }
}

impl Ledger {
    /// Opens an account for `key` with `lamports`; refused where the key
    /// already has one.
    pub fn open_account(&mut self, key: Identity, lamports: u64) -> (r: bool)
        requires
            ledger_wf(old(self)@),
        ensures
            ledger_wf(final(self)@),
            r == !has_account(old(self)@, key@),
            r ==> final(self)@ == (LedgerModel {
                accounts: old(self)@.accounts.push(Account { key, lamports }),
                ..old(self)@
            }),
            !r ==> final(self)@ == old(self)@,
    {
        match self.find_account(&key) {
            Some(_) => false,
            None => {
                self.accounts.push(Account { key, lamports });
                true
            },
        }
    }
}

/// The error `load_wall` ends with, if any.
pub open spec fn load_error(m: LedgerModel, owner_hint: Seq<u8>, wall_id: u64) -> Option<InstructionError> {
    match derive_spec(m.program_id, owner_hint, wall_id) {
        None => Some(InstructionError::NoViableBump),
        Some(p) => if !has_wall(m, p.0) {
            Some(InstructionError::WallNotFound)
        } else if wall_at(m, p.0).dev_wallet@ != owner_hint || wall_at(m, p.0).wall_id != wall_id
            || pda_of(
            wall_seeds_with_bump(
                wall_at(m, p.0).dev_wallet@,
                wall_at(m, p.0).wall_id,
                wall_at(m, p.0).bump,
            ),
            m.program_id,
        ) != Some(p.0) {
            Some(InstructionError::AddressMismatch)
        } else {
            None
        },
    }
}

impl Ledger {
    pub fn program_id(&self) -> (r: Identity)
        ensures
            r@ == self@.program_id,
    {
        self.program_id
    }

    /// The balance of `key`, where the ledger holds an account for it.
    pub fn balance(&self, key: &Identity) -> (r: Option<u64>)
        requires
            ledger_wf(self@),
        ensures
            r is Some <==> has_account(self@, key@),
            r matches Some(b) ==> b as nat == balance_of(self@, key@),
    {
        match self.find_account(key) {
            Some(i) => Some(self.accounts[i].lamports),
            None => None,
        }
    }

    /// The record stored at `address`, if any.
    pub fn wall_at_address(&self, address: &Identity) -> (r: Option<Wall>)
        requires
            ledger_wf(self@),
        ensures
            r is Some <==> has_wall(self@, address@),
            r matches Some(w) ==> w == wall_at(self@, address@),
    {
        match self.find_wall(address) {
            Some(i) => Some(self.walls[i].wall),
            None => None,
        }
    }

    /// Reads the wall of `owner_hint` numbered `wall_id` at its derived
    /// address, and checks that the record names that owner and id and that
    /// its recorded bump leads back to the address it was read from.
    pub fn load_wall(&self, owner_hint: &Identity, wall_id: u64) -> (r: Result<Wall, InstructionError>)
        requires
            ledger_wf(self@),
        ensures
            match load_error(self@, owner_hint@, wall_id) {
                None => r == Ok::<Wall, InstructionError>(
                    wall_at(self@, derive_spec(self@.program_id, owner_hint@, wall_id).unwrap().0),
                ),
                Some(e) => r == Err::<Wall, InstructionError>(e),
            },
    {
        let address = match derive_address(&self.program_id, owner_hint, wall_id) {
            None => {
                return Err(InstructionError::NoViableBump);
            },
            Some((a, _)) => a,
        };
        let wall = match self.wall_at_address(&address) {
            None => {
                return Err(InstructionError::WallNotFound);
            },
            Some(w) => w,
        };
        if !wall.dev_wallet.same_as(owner_hint) || wall.wall_id != wall_id {
            return Err(InstructionError::AddressMismatch);
        }
        if !address_matches(&self.program_id, &wall.dev_wallet, wall.wall_id, wall.bump, &address) {
            return Err(InstructionError::AddressMismatch);
        }
        Ok(wall)
    }

    pub fn wall_count(&self) -> (r: usize)
        ensures
            r == self@.walls.len(),
    {
        self.walls.len()
    }

    /// The creation events, oldest first.
    pub fn wall_events(&self) -> (r: &Vec<WallInitialized>)
        ensures
            r@ == self@.wall_events,
    {
        &self.wall_events
    }

    /// The posted messages, oldest first.
    pub fn message_events(&self) -> (r: &Vec<MessagePosted>)
        ensures
            r@ == self@.message_events,
    {
        &self.message_events
    }

    /// The settled fees, in the order of the posts they paid for.
    pub fn fee_transfers(&self) -> (r: &Vec<FeeTransfer>)
        ensures
            r@ == self@.transfers,
    {
        &self.transfers
    }
}

/// Creates the wall of the signing `dev_wallet` numbered `wall_id`, at the
/// address derived from the two, and records its creation.
pub fn initialize_wall(ledger: &mut Ledger, ctx: &InitializeWall, wall_id: u64) -> (r: Result<(), InstructionError>)
    requires
        ledger_wf(old(ledger)@),
    ensures
        ledger_wf(final(ledger)@),
        r == (match init_error(old(ledger)@, *ctx, wall_id) {
            None => Ok(()),
            Some(e) => Err(e),
        }),
        r is Ok ==> final(ledger)@ == init_effect(old(ledger)@, *ctx, wall_id),
        keeps_walls(old(ledger)@, final(ledger)@),
        r is Err ==> final(ledger)@ == old(ledger)@,
{
    if !ctx.dev_wallet_signed {
        return Err(InstructionError::NotSigner);
    }
    let found = derive_address(&ledger.program_id, &ctx.dev_wallet, wall_id);
    match found {
        None => Err(InstructionError::NoViableBump),
        Some((address, bump)) => {
            if !address.same_as(&ctx.wall) {
                return Err(InstructionError::AddressMismatch);
            }
            if ledger.find_wall(&ctx.wall).is_some() {
                return Err(InstructionError::AlreadyInitialized);
            }
            let ghost before = ledger@;
            let wall = Wall { dev_wallet: ctx.dev_wallet, wall_id, bump };
            ledger.walls.push(WallRecord { address: ctx.wall, wall });
            ledger.wall_events.push(WallInitialized { wall_id, dev_wallet: ctx.dev_wallet });
            proof {
                let m = ledger@;
                assert(m == init_effect(before, *ctx, wall_id));
                assert forall|i: int| 0 <= i < m.transfers.len() implies settles(
                    m,
                    #[trigger] m.transfers[i],
                    m.message_events[i],
                ) by {
                    let t = m.transfers[i];
                    assert(settles(before, t, before.message_events[i]));
                    let k = choose|k: int|
                        0 <= k < before.walls.len() && #[trigger] before.walls[k].wall.wall_id
                            == t.wall_id && before.walls[k].wall.dev_wallet@ == t.to@;
                    assert(m.walls[k] == before.walls[k]);
                }
                assert forall|i: int, j: int|
                    0 <= i < j < m.walls.len() implies m.walls[i].address@ != m.walls[j].address@ by {
                    if j == m.walls.len() - 1 {
                        assert(before.walls[i].address@ != ctx.wall@);
                    }
                }
            }
            Ok(())
        },
    }
}

/// Posts `message` to a wall: checks the body, the wall's record, the
/// owner wallet handed in, the poster's funds and signature, moves the fee
/// from the poster to the wall's owner, and records the post at time `now`.
pub fn post_message(ledger: &mut Ledger, ctx: &PostMessage, message: String, now: i64) -> (r: Result<(), InstructionError>)
    requires
        ledger_wf(old(ledger)@),
    ensures
        ledger_wf(final(ledger)@),
        r == (match post_error(old(ledger)@, *ctx, message@) {
            None => Ok(()),
            Some(e) => Err(e),
        }),
        r is Ok ==> final(ledger)@ == post_effect(old(ledger)@, *ctx, message, now),
        keeps_walls(old(ledger)@, final(ledger)@),
        r is Err ==> final(ledger)@ == old(ledger)@,
{
    match check_message(&message) {
        Err(e) => {
            return Err(InstructionError::Wall(e));
        },
        Ok(()) => {},
    }
    let wi = match ledger.find_wall(&ctx.wall) {
        None => {
            return Err(InstructionError::WallNotFound);
        },
        Some(i) => i,
    };
    let wall = ledger.walls[wi].wall;
    if !address_matches(&ledger.program_id, &wall.dev_wallet, wall.wall_id, wall.bump, &ctx.wall) {
        return Err(InstructionError::AddressMismatch);
    }
    if !ctx.dev_wallet.same_as(&wall.dev_wallet) {
        return Err(InstructionError::Wall(WallError::InvalidDevWallet));
    }
    let ui = match ledger.find_account(&ctx.user) {
        None => {
            return Err(InstructionError::AccountNotFound);
        },
        Some(i) => i,
    };
    match check_funds(ledger.accounts[ui].lamports) {
        Err(e) => {
            return Err(InstructionError::Wall(e));
        },
        Ok(()) => {},
    }
    if !ctx.user_signed {
        return Err(InstructionError::NotSigner);
    }
    let di = match ledger.find_account(&ctx.dev_wallet) {
        None => {
            return Err(InstructionError::AccountNotFound);
        },
        Some(i) => i,
    };
    let ghost before = ledger@;
    if ui != di {
        let to = ledger.accounts[di];
        if to.lamports > u64::MAX - MESSAGE_FEE_LAMPORTS {
            return Err(InstructionError::ArithmeticOverflow);
        }
        let from = ledger.accounts[ui];
        ledger.accounts.set(ui, Account { key: from.key, lamports: from.lamports - MESSAGE_FEE_LAMPORTS });
        ledger.accounts.set(di, Account { key: to.key, lamports: to.lamports + MESSAGE_FEE_LAMPORTS });
    }
    ledger.transfers.push(
        FeeTransfer {
            wall_id: wall.wall_id,
            from: ctx.user,
            to: ctx.dev_wallet,
            amount: MESSAGE_FEE_LAMPORTS,
        },
    );
    ledger.message_events.push(
        MessagePosted { wall_id: wall.wall_id, user: ctx.user, message, timestamp: now },
    );
    proof {
        let m = ledger@;
        assert(m.accounts =~= pay_fee(before.accounts, ui as int, di as int));
        assert(m == post_effect(before, *ctx, message, now));
        assert forall|i: int, j: int|
            0 <= i < j < m.accounts.len() implies m.accounts[i].key@ != m.accounts[j].key@ by {
            assert(m.accounts[i].key == before.accounts[i].key);
            assert(m.accounts[j].key == before.accounts[j].key);
        }
        assert(m.walls == before.walls);
        assert(m.walls[wi as int].wall.wall_id == wall.wall_id);
        assert(owns_wall(m, wall.wall_id, ctx.dev_wallet@));
        assert forall|i: int| 0 <= i < m.transfers.len() implies settles(
            m,
            #[trigger] m.transfers[i],
            m.message_events[i],
        ) by {
            if i < before.transfers.len() {
                assert(m.transfers[i] == before.transfers[i]);
                assert(m.message_events[i] == before.message_events[i]);
                assert(settles(before, before.transfers[i], before.message_events[i]));
            }
        }
        assert forall|i: int| 0 <= i < m.message_events.len() implies 1 <= byte_len(
            #[trigger] m.message_events[i].message@,
        ) <= MAX_MESSAGE_LENGTH by {
            if i < before.message_events.len() {
                assert(m.message_events[i] == before.message_events[i]);
            }
        }
    }
    Ok(())
}

/// The sum of the balances of two keys.
pub open spec fn pair_balance(m: LedgerModel, a: Seq<u8>, b: Seq<u8>) -> nat {
    balance_of(m, a) + balance_of(m, b)
}

proof fn lemma_same_index(m: LedgerModel, m2: LedgerModel, key: Seq<u8>)
    requires
        ledger_wf(m),
        has_account(m, key),
        m2.accounts.len() == m.accounts.len(),
        forall|i: int| 0 <= i < m.accounts.len() ==> (#[trigger] m2.accounts[i]).key == m.accounts[i].key,
    ensures
        has_account(m2, key),
        account_index(m2, key) == account_index(m, key),
{
    let i = account_index(m, key);
    assert(m2.accounts[i].key@ == key);
    let j = account_index(m2, key);
    assert(m.accounts[j].key == m2.accounts[j].key);
    if i < j {
        assert(m.accounts[i].key@ != m.accounts[j].key@);
    } else if j < i {
        assert(m.accounts[j].key@ != m.accounts[i].key@);
    }
}

/// A successful post takes exactly the fee from the poster and gives
/// exactly the fee to the wall's owner; the two hold together what they held
/// before. (Poster and owner are distinct: a post to one's own wall moves nothing.)
pub proof fn lemma_post_moves_fee(m: LedgerModel, ctx: PostMessage, message: String, now: i64)
    requires
        ledger_wf(m),
        post_error(m, ctx, message@) is None,
        ctx.user@ != ctx.dev_wallet@,
    ensures
        balance_of(post_effect(m, ctx, message, now), ctx.user@) == balance_of(m, ctx.user@) - MESSAGE_FEE_LAMPORTS,
        balance_of(post_effect(m, ctx, message, now), ctx.dev_wallet@) == balance_of(m, ctx.dev_wallet@)
            + MESSAGE_FEE_LAMPORTS,
        pair_balance(post_effect(m, ctx, message, now), ctx.user@, ctx.dev_wallet@) == pair_balance(
            m,
            ctx.user@,
            ctx.dev_wallet@,
        ),
{
    let m2 = post_effect(m, ctx, message, now);
    let u = account_index(m, ctx.user@);
    let d = account_index(m, ctx.dev_wallet@);
    assert(u != d);
    assert forall|i: int| 0 <= i < m.accounts.len() implies (#[trigger] m2.accounts[i]).key
        == m.accounts[i].key by {}
    lemma_same_index(m, m2, ctx.user@);
    lemma_same_index(m, m2, ctx.dev_wallet@);
}

/// Every message on record is matched, position for position, by exactly one
/// fee transfer from its poster to the owner of its wall.
pub proof fn lemma_each_post_settled(m: LedgerModel)
    requires
        ledger_wf(m),
    ensures
        m.message_events.len() == m.transfers.len(),
        forall|i: int|
            0 <= i < m.message_events.len() ==> settles(m, #[trigger] m.transfers[i], m.message_events[i]),
{
}

/// Once a wall is created, a second creation of it fails; a failed
/// instruction leaves the ledger as it was (see `initialize_wall`).
pub proof fn lemma_init_once(m: LedgerModel, ctx: InitializeWall, wall_id: u64)
    requires
        ledger_wf(m),
        init_error(m, ctx, wall_id) is None,
    ensures
        init_error(init_effect(m, ctx, wall_id), ctx, wall_id) == Some(InstructionError::AlreadyInitialized),
        init_effect(m, ctx, wall_id).wall_events.len() == m.wall_events.len() + 1,
{
    let m2 = init_effect(m, ctx, wall_id);
    let last = m2.walls.len() - 1;
    assert(m2.walls[last].address@ == ctx.wall@);
    assert(has_wall(m2, ctx.wall@));
}

/// A post that succeeds carries a body of one to 500 bytes.
pub proof fn lemma_posted_length(m: LedgerModel, ctx: PostMessage, message: Seq<char>)
    requires
        post_error(m, ctx, message) is None,
    ensures
        1 <= byte_len(message) <= MAX_MESSAGE_LENGTH,
{
}

/// Over any run of instructions, each of which keeps the wall records (as
/// `initialize_wall` and `post_message` do), a record once written keeps its
/// owner, id and bump at every later state.
pub proof fn lemma_owner_fixed(runs: Seq<LedgerModel>, i: int, j: int, k: int)
    requires
        forall|n: int| 0 <= n < runs.len() - 1 ==> keeps_walls(#[trigger] runs[n], runs[n + 1]),
        0 <= i <= j < runs.len(),
        0 <= k < runs[i].walls.len(),
    ensures
        k < runs[j].walls.len(),
        runs[j].walls[k] == runs[i].walls[k],
        runs[j].walls[k].wall.dev_wallet == runs[i].walls[k].wall.dev_wallet,
    decreases j - i,
{
    if i < j {
        assert(keeps_walls(runs[i], runs[i + 1]));
        lemma_owner_fixed(runs, i + 1, j, k);
    }
}

} // verus!
