use manifest_sol::address::{address_matches, derive_address};
use manifest_sol::constants::{MAX_MESSAGE_LENGTH, MESSAGE_FEE_LAMPORTS, TRANSACTION_FEE_BUFFER};
use manifest_sol::identity::{le_bytes_of, Identity};
use manifest_sol::ledger::{initialize_wall, post_message, InitializeWall, InstructionError, Ledger, PostMessage};
use manifest_sol::wall::{check_funds, check_message, Wall, WallError};

fn key(b: u8) -> Identity {
    Identity::new([b; 32])
}

fn program() -> Identity {
    Identity::new([0u8; 32])
}

/// A ledger holding accounts for A (owner), B (poster) and C, with wall (A, 7).
fn board_with_wall(poster_balance: u64) -> (Ledger, Identity) {
    let mut l = Ledger::new(program());
    assert!(l.open_account(key(0xA), 5_000_000));
    assert!(l.open_account(key(0xB), poster_balance));
    assert!(l.open_account(key(0xC), 0));
    let (addr, _) = derive_address(&program(), &key(0xA), 7).unwrap();
    let ctx = InitializeWall { wall: addr, dev_wallet: key(0xA), dev_wallet_signed: true };
    assert_eq!(initialize_wall(&mut l, &ctx, 7), Ok(()));
    (l, addr)
}

fn post_ctx(addr: Identity, dev: Identity) -> PostMessage {
    PostMessage { wall: addr, user: key(0xB), user_signed: true, dev_wallet: dev }
}

#[test]
fn happy_init() {
    let mut l = Ledger::new(program());
    let (addr, bump) = derive_address(&program(), &key(0xA), 7).unwrap();
    let ctx = InitializeWall { wall: addr, dev_wallet: key(0xA), dev_wallet_signed: true };
    assert_eq!(initialize_wall(&mut l, &ctx, 7), Ok(()));
    let w: Wall = l.wall_at_address(&addr).unwrap();
    assert_eq!(w.dev_wallet.to_bytes(), [0xA; 32]);
    assert_eq!(w.wall_id, 7);
    assert_eq!(w.bump, bump);
    assert_eq!(l.wall_events().len(), 1);
    assert_eq!(l.wall_events()[0].wall_id, 7);
    assert_eq!(l.wall_events()[0].dev_wallet.to_bytes(), [0xA; 32]);
    let loaded = l.load_wall(&key(0xA), 7).unwrap();
    assert_eq!(loaded.bump, bump);
}

#[test]
fn happy_post() {
    let (mut l, addr) = board_with_wall(1_000_000_000);
    let r = post_message(&mut l, &post_ctx(addr, key(0xA)), String::from("hello"), 1_700_000_000);
    assert_eq!(r, Ok(()));
    assert_eq!(l.balance(&key(0xB)), Some(1_000_000_000 - 50_000_000));
    assert_eq!(l.balance(&key(0xA)), Some(5_000_000 + 50_000_000));
    assert_eq!(l.message_events().len(), 1);
    let e = &l.message_events()[0];
    assert_eq!(e.wall_id, 7);
    assert_eq!(e.user.to_bytes(), [0xB; 32]);
    assert_eq!(e.message, "hello");
    assert_eq!(e.timestamp, 1_700_000_000);
    let t = &l.fee_transfers()[0];
    assert_eq!(t.amount, 50_000_000);
    assert_eq!(t.to.to_bytes(), [0xA; 32]);
    assert_eq!(t.from.to_bytes(), [0xB; 32]);
}

#[test]
fn reject_empty() {
    let (mut l, addr) = board_with_wall(1_000_000_000);
    let r = post_message(&mut l, &post_ctx(addr, key(0xA)), String::new(), 1);
    assert_eq!(r, Err(InstructionError::Wall(WallError::EmptyMessage)));
    assert_eq!(WallError::EmptyMessage.code(), 0);
    assert_eq!(l.balance(&key(0xB)), Some(1_000_000_000));
    assert_eq!(l.balance(&key(0xA)), Some(5_000_000));
    assert!(l.message_events().is_empty());
}

#[test]
fn reject_too_long() {
    let (mut l, addr) = board_with_wall(1_000_000_000);
    let r = post_message(&mut l, &post_ctx(addr, key(0xA)), "x".repeat(501), 1);
    assert_eq!(r, Err(InstructionError::Wall(WallError::MessageTooLong)));
    assert_eq!(WallError::MessageTooLong.code(), 1);
    assert_eq!(l.balance(&key(0xB)), Some(1_000_000_000));
    assert!(l.fee_transfers().is_empty());
}

#[test]
fn reject_wrong_owner() {
    let (mut l, addr) = board_with_wall(1_000_000_000);
    let r = post_message(&mut l, &post_ctx(addr, key(0xC)), String::from("hello"), 1);
    assert_eq!(r, Err(InstructionError::Wall(WallError::InvalidDevWallet)));
    assert_eq!(WallError::InvalidDevWallet.code(), 3);
    assert_eq!(l.balance(&key(0xB)), Some(1_000_000_000));
    assert_eq!(l.balance(&key(0xC)), Some(0));
    assert!(l.message_events().is_empty());
    assert!(l.fee_transfers().is_empty());
}

#[test]
fn reject_double_init() {
    let (mut l, addr) = board_with_wall(1_000_000_000);
    let ctx = InitializeWall { wall: addr, dev_wallet: key(0xA), dev_wallet_signed: true };
    assert_eq!(initialize_wall(&mut l, &ctx, 7), Err(InstructionError::AlreadyInitialized));
    assert_eq!(l.wall_count(), 1);
    assert_eq!(l.wall_events().len(), 1);
    let w = l.wall_at_address(&addr).unwrap();
    assert_eq!(w.dev_wallet.to_bytes(), [0xA; 32]);
    assert_eq!(w.wall_id, 7);
}

#[test]
fn message_of_500_bytes_is_accepted() {
    let (mut l, addr) = board_with_wall(1_000_000_000);
    let r = post_message(&mut l, &post_ctx(addr, key(0xA)), "y".repeat(500), 1);
    assert_eq!(r, Ok(()));
    assert_eq!(l.message_events()[0].message.len(), MAX_MESSAGE_LENGTH);
}

#[test]
fn length_counts_bytes_not_chars() {
    // 250 two-byte characters are 500 bytes; one more is 502.
    assert_eq!(check_message(&"é".repeat(250)), Ok(()));
    assert_eq!(check_message(&"é".repeat(251)), Err(WallError::MessageTooLong));
}

#[test]
fn balance_one_short_of_fee_and_buffer() {
    let (mut l, addr) = board_with_wall(MESSAGE_FEE_LAMPORTS + TRANSACTION_FEE_BUFFER - 1);
    let r = post_message(&mut l, &post_ctx(addr, key(0xA)), String::from("hi"), 1);
    assert_eq!(r, Err(InstructionError::Wall(WallError::InsufficientFunds)));
    assert_eq!(WallError::InsufficientFunds.code(), 2);
    assert_eq!(l.balance(&key(0xB)), Some(50_999_999));
}

#[test]
fn balance_exactly_fee_and_buffer() {
    let (mut l, addr) = board_with_wall(MESSAGE_FEE_LAMPORTS + TRANSACTION_FEE_BUFFER);
    let r = post_message(&mut l, &post_ctx(addr, key(0xA)), String::from("hi"), 1);
    assert_eq!(r, Ok(()));
    assert_eq!(l.balance(&key(0xB)), Some(1_000_000));
    assert_eq!(l.balance(&key(0xA)), Some(55_000_000));
}

#[test]
fn check_funds_boundary() {
    assert_eq!(check_funds(51_000_000), Ok(()));
    assert_eq!(check_funds(50_999_999), Err(WallError::InsufficientFunds));
}

#[test]
fn unsigned_poster_is_refused() {
    let (mut l, addr) = board_with_wall(1_000_000_000);
    let mut ctx = post_ctx(addr, key(0xA));
    ctx.user_signed = false;
    assert_eq!(post_message(&mut l, &ctx, String::from("hi"), 1), Err(InstructionError::NotSigner));
    assert_eq!(l.balance(&key(0xB)), Some(1_000_000_000));
}

#[test]
fn unsigned_init_is_refused() {
    let mut l = Ledger::new(program());
    let (addr, _) = derive_address(&program(), &key(0xA), 7).unwrap();
    let ctx = InitializeWall { wall: addr, dev_wallet: key(0xA), dev_wallet_signed: false };
    assert_eq!(initialize_wall(&mut l, &ctx, 7), Err(InstructionError::NotSigner));
    assert_eq!(l.wall_count(), 0);
}

#[test]
fn init_at_wrong_address_is_refused() {
    let mut l = Ledger::new(program());
    let ctx = InitializeWall { wall: key(0xA), dev_wallet: key(0xA), dev_wallet_signed: true };
    assert_eq!(initialize_wall(&mut l, &ctx, 7), Err(InstructionError::AddressMismatch));
    assert!(l.wall_events().is_empty());
}

#[test]
fn post_to_unknown_wall_is_refused() {
    let (mut l, _) = board_with_wall(1_000_000_000);
    let r = post_message(&mut l, &post_ctx(key(0xD), key(0xA)), String::from("hi"), 1);
    assert_eq!(r, Err(InstructionError::WallNotFound));
}

#[test]
fn poster_without_account_is_refused() {
    let (mut l, addr) = board_with_wall(1_000_000_000);
    let ctx = PostMessage { wall: addr, user: key(0xE), user_signed: true, dev_wallet: key(0xA) };
    assert_eq!(post_message(&mut l, &ctx, String::from("hi"), 1), Err(InstructionError::AccountNotFound));
}

#[test]
fn owner_balance_overflow_is_refused() {
    let mut l = Ledger::new(program());
    assert!(l.open_account(key(0xA), u64::MAX - 10));
    assert!(l.open_account(key(0xB), 1_000_000_000));
    let (addr, _) = derive_address(&program(), &key(0xA), 7).unwrap();
    let ictx = InitializeWall { wall: addr, dev_wallet: key(0xA), dev_wallet_signed: true };
    assert_eq!(initialize_wall(&mut l, &ictx, 7), Ok(()));
    let r = post_message(&mut l, &post_ctx(addr, key(0xA)), String::from("hi"), 1);
    assert_eq!(r, Err(InstructionError::ArithmeticOverflow));
    assert_eq!(l.balance(&key(0xB)), Some(1_000_000_000));
}

#[test]
fn owner_posting_to_own_wall_moves_nothing() {
    let mut l = Ledger::new(program());
    assert!(l.open_account(key(0xA), 100_000_000));
    let (addr, _) = derive_address(&program(), &key(0xA), 7).unwrap();
    let ictx = InitializeWall { wall: addr, dev_wallet: key(0xA), dev_wallet_signed: true };
    assert_eq!(initialize_wall(&mut l, &ictx, 7), Ok(()));
    let ctx = PostMessage { wall: addr, user: key(0xA), user_signed: true, dev_wallet: key(0xA) };
    assert_eq!(post_message(&mut l, &ctx, String::from("mine"), 3), Ok(()));
    assert_eq!(l.balance(&key(0xA)), Some(100_000_000));
    assert_eq!(l.fee_transfers().len(), 1);
}

#[test]
fn two_posts_settle_two_fees() {
    let (mut l, addr) = board_with_wall(1_000_000_000);
    assert_eq!(post_message(&mut l, &post_ctx(addr, key(0xA)), String::from("one"), 1), Ok(()));
    assert_eq!(post_message(&mut l, &post_ctx(addr, key(0xA)), String::from("two"), 2), Ok(()));
    assert_eq!(l.message_events().len(), l.fee_transfers().len());
    assert_eq!(l.balance(&key(0xB)), Some(900_000_000));
    assert_eq!(l.balance(&key(0xA)), Some(105_000_000));
    assert_eq!(l.message_events()[1].message, "two");
}

#[test]
fn derive_is_deterministic_and_separates_inputs() {
    let a1 = derive_address(&program(), &key(0xA), 7).unwrap();
    let a2 = derive_address(&program(), &key(0xA), 7).unwrap();
    assert_eq!(a1.0.to_bytes(), a2.0.to_bytes());
    assert_eq!(a1.1, a2.1);
    let b = derive_address(&program(), &key(0xA), 8).unwrap();
    let c = derive_address(&program(), &key(0xB), 7).unwrap();
    assert_ne!(a1.0.to_bytes(), b.0.to_bytes());
    assert_ne!(a1.0.to_bytes(), c.0.to_bytes());
    assert_ne!(a1.0.to_bytes(), key(0xA).to_bytes());
}

#[test]
fn recorded_bump_reproduces_address() {
    let (addr, bump) = derive_address(&program(), &key(0xA), 7).unwrap();
    assert!(address_matches(&program(), &key(0xA), 7, bump, &addr));
    assert!(!address_matches(&program(), &key(0xA), 8, bump, &addr));
    assert!(!address_matches(&program(), &key(0xA), 7, bump, &key(0xA)));
}

#[test]
fn load_wall_of_missing_id_is_refused() {
    let (l, _) = board_with_wall(1_000_000_000);
    assert_eq!(l.load_wall(&key(0xA), 8).map(|w| w.wall_id), Err(InstructionError::WallNotFound));
}

#[test]
fn le_bytes_layout() {
    assert_eq!(le_bytes_of(7), 7u64.to_le_bytes().to_vec());
    assert_eq!(le_bytes_of(0x0102_0304_0506_0708), vec![8, 7, 6, 5, 4, 3, 2, 1]);
}

#[test]
fn identity_comparison() {
    assert!(key(1).same_as(&key(1)));
    assert!(!key(1).same_as(&key(2)));
    assert_eq!(key(3).to_vec(), vec![3u8; 32]);
}

#[test]
fn wall_record_size() {
    assert_eq!(Wall::LEN, 41);
}

#[test]
fn another_owner_cannot_take_over_a_wall() {
    let (mut l, addr) = board_with_wall(1_000_000_000);
    let ctx = InitializeWall { wall: addr, dev_wallet: key(0xC), dev_wallet_signed: true };
    assert_eq!(initialize_wall(&mut l, &ctx, 7), Err(InstructionError::AddressMismatch));
    assert_eq!(post_message(&mut l, &post_ctx(addr, key(0xA)), String::from("hi"), 1), Ok(()));
    let w = l.wall_at_address(&addr).unwrap();
    assert_eq!(w.dev_wallet.to_bytes(), [0xA; 32]);
    assert_eq!(l.load_wall(&key(0xA), 7).unwrap().wall_id, 7);
    assert_eq!(l.load_wall(&key(0xC), 7).map(|w| w.wall_id), Err(InstructionError::WallNotFound));
}
