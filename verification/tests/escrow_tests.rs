//! End-to-end exercises of the escrow ledger: the full offer lifecycle in
//! both directions, every rejection, and the persisted record layout.

use escrow::AccountId;
use escrow::Escrow;
use escrow::EscrowError;
use escrow::Ledger;
use escrow::MakeOffer;
use escrow::TakeOffer;
use escrow::record_address;

const SEED: u64 = 1;
const RECEIVE_AMOUNT: u64 = 10_000;
const DEPOSIT_AMOUNT: u64 = 5_000;

fn id(b: u8) -> AccountId {
    AccountId::new([b; 32])
}

fn program() -> AccountId {
    id(7)
}

fn maker() -> AccountId {
    id(1)
}

fn taker() -> AccountId {
    id(2)
}

fn mint_a() -> AccountId {
    id(3)
}

fn mint_b() -> AccountId {
    id(4)
}

fn make_offer() -> MakeOffer {
    MakeOffer {
        signer: maker(),
        maker: maker(),
        token_mint_a: mint_a(),
        token_mint_b: mint_b(),
    }
}

/// A ledger holding an open offer: the maker held 20000 of A and deposited
/// 5000 against 10000 of B. Returns the ledger and the record's address.
fn opened_ledger() -> (Ledger, AccountId) {
    let mut ledger = Ledger::new(program());
    ledger.mint_to(&maker(), &mint_a(), 20_000).unwrap();
    let addr = ledger
        .make(&make_offer(), SEED, RECEIVE_AMOUNT, DEPOSIT_AMOUNT)
        .unwrap();
    (ledger, addr)
}

fn take_offer(escrow_addr: AccountId) -> TakeOffer {
    TakeOffer {
        taker: taker(),
        maker: maker(),
        escrow: escrow_addr,
        token_mint_a: mint_a(),
        token_mint_b: mint_b(),
    }
}

#[test]
fn make_opens_offer_and_funds_vault() {
    let (ledger, addr) = opened_ledger();
    assert_eq!(ledger.balance_of(&maker(), &mint_a()), Some(15_000));
    assert_eq!(ledger.balance_of(&addr, &mint_a()), Some(DEPOSIT_AMOUNT));
    let record = ledger.record_at(&addr).unwrap();
    assert_eq!(record.seed, SEED);
    assert_eq!(record.maker, maker());
    assert_eq!(record.token_mint_a, mint_a());
    assert_eq!(record.token_mint_b, mint_b());
    assert_eq!(record.receive_amount, RECEIVE_AMOUNT);
}

#[test]
fn record_address_is_deterministic_and_derived() {
    let first = record_address(&maker(), SEED, &program()).unwrap();
    let second = record_address(&maker(), SEED, &program()).unwrap();
    assert_eq!(first.0, second.0);
    assert_eq!(first.1, second.1);
    // A derived address is a hash of the seeds, never the owner key itself.
    assert_ne!(first.0, maker());
    assert_ne!(first.0, program());
    let (ledger, addr) = opened_ledger();
    assert_eq!(addr, first.0);
    assert_eq!(ledger.record_at(&addr).unwrap().bump, first.1);
}

#[test]
fn exchange_settles_both_legs_and_closes() {
    let (mut ledger, addr) = opened_ledger();
    ledger.mint_to(&taker(), &mint_b(), RECEIVE_AMOUNT).unwrap();
    ledger.exchange(&take_offer(addr)).unwrap();
    assert_eq!(ledger.balance_of(&taker(), &mint_a()), Some(DEPOSIT_AMOUNT));
    assert_eq!(ledger.balance_of(&taker(), &mint_b()), Some(0));
    assert_eq!(ledger.balance_of(&maker(), &mint_b()), Some(RECEIVE_AMOUNT));
    assert_eq!(ledger.balance_of(&maker(), &mint_a()), Some(15_000));
    assert!(ledger.record_at(&addr).is_none());
    assert!(ledger.balance_of(&addr, &mint_a()).is_none());
}

#[test]
fn refund_restores_maker_and_closes() {
    let (mut ledger, addr) = opened_ledger();
    ledger.refund(&maker(), &addr).unwrap();
    assert_eq!(ledger.balance_of(&maker(), &mint_a()), Some(20_000));
    assert!(ledger.record_at(&addr).is_none());
    assert!(ledger.balance_of(&addr, &mint_a()).is_none());
}

#[test]
fn consumed_record_is_gone_for_good() {
    let (mut ledger, addr) = opened_ledger();
    ledger.mint_to(&taker(), &mint_b(), RECEIVE_AMOUNT).unwrap();
    ledger.exchange(&take_offer(addr)).unwrap();
    assert_eq!(ledger.exchange(&take_offer(addr)), Err(EscrowError::NotFound));
    assert_eq!(ledger.refund(&maker(), &addr), Err(EscrowError::NotFound));
    // Nothing moved on the failed retries.
    assert_eq!(ledger.balance_of(&taker(), &mint_a()), Some(DEPOSIT_AMOUNT));
    assert_eq!(ledger.balance_of(&maker(), &mint_b()), Some(RECEIVE_AMOUNT));
}

#[test]
fn refunded_record_is_gone_for_good() {
    let (mut ledger, addr) = opened_ledger();
    ledger.refund(&maker(), &addr).unwrap();
    assert_eq!(ledger.refund(&maker(), &addr), Err(EscrowError::NotFound));
    ledger.mint_to(&taker(), &mint_b(), RECEIVE_AMOUNT).unwrap();
    assert_eq!(ledger.exchange(&take_offer(addr)), Err(EscrowError::NotFound));
    assert_eq!(ledger.balance_of(&maker(), &mint_a()), Some(20_000));
}

#[test]
fn refund_by_stranger_is_rejected_without_state_change() {
    let (mut ledger, addr) = opened_ledger();
    assert_eq!(ledger.refund(&taker(), &addr), Err(EscrowError::Unauthorized));
    assert_eq!(ledger.balance_of(&maker(), &mint_a()), Some(15_000));
    assert_eq!(ledger.balance_of(&addr, &mint_a()), Some(DEPOSIT_AMOUNT));
    assert!(ledger.record_at(&addr).is_some());
}

#[test]
fn exchange_with_wrong_mints_is_rejected_before_any_transfer() {
    let (mut ledger, addr) = opened_ledger();
    ledger.mint_to(&taker(), &mint_b(), RECEIVE_AMOUNT).unwrap();
    let mut wrong_a = take_offer(addr);
    wrong_a.token_mint_a = mint_b();
    assert_eq!(ledger.exchange(&wrong_a), Err(EscrowError::MintMismatch));
    let mut wrong_b = take_offer(addr);
    wrong_b.token_mint_b = mint_a();
    assert_eq!(ledger.exchange(&wrong_b), Err(EscrowError::MintMismatch));
    // The rejection left every balance alone.
    assert_eq!(ledger.balance_of(&taker(), &mint_b()), Some(RECEIVE_AMOUNT));
    assert_eq!(ledger.balance_of(&addr, &mint_a()), Some(DEPOSIT_AMOUNT));
    assert_eq!(ledger.balance_of(&maker(), &mint_b()), None);
}

#[test]
fn exchange_with_wrong_maker_is_rejected() {
    let (mut ledger, addr) = opened_ledger();
    let mut wrong = take_offer(addr);
    wrong.maker = taker();
    assert_eq!(ledger.exchange(&wrong), Err(EscrowError::MakerMismatch));
}

#[test]
fn make_unsigned_by_maker_is_rejected() {
    let mut ledger = Ledger::new(program());
    ledger.mint_to(&maker(), &mint_a(), 20_000).unwrap();
    let mut offer = make_offer();
    offer.signer = taker();
    assert_eq!(
        ledger.make(&offer, SEED, RECEIVE_AMOUNT, DEPOSIT_AMOUNT),
        Err(EscrowError::Unauthorized)
    );
    assert_eq!(ledger.balance_of(&maker(), &mint_a()), Some(20_000));
}

#[test]
fn duplicate_make_is_rejected() {
    let (mut ledger, addr) = opened_ledger();
    assert_eq!(
        ledger.make(&make_offer(), SEED, RECEIVE_AMOUNT, DEPOSIT_AMOUNT),
        Err(EscrowError::AlreadyExists)
    );
    // A different seed opens a second, distinct offer.
    let other = ledger
        .make(&make_offer(), SEED + 1, RECEIVE_AMOUNT, DEPOSIT_AMOUNT)
        .unwrap();
    assert_ne!(other, addr);
    assert_eq!(ledger.balance_of(&maker(), &mint_a()), Some(10_000));
}

#[test]
fn make_without_holding_account_is_rejected() {
    let mut ledger = Ledger::new(program());
    assert_eq!(
        ledger.make(&make_offer(), SEED, RECEIVE_AMOUNT, DEPOSIT_AMOUNT),
        Err(EscrowError::MissingAccount)
    );
}

#[test]
fn make_beyond_balance_is_rejected() {
    let mut ledger = Ledger::new(program());
    ledger.mint_to(&maker(), &mint_a(), DEPOSIT_AMOUNT - 1).unwrap();
    assert_eq!(
        ledger.make(&make_offer(), SEED, RECEIVE_AMOUNT, DEPOSIT_AMOUNT),
        Err(EscrowError::InsufficientBalance)
    );
    assert_eq!(ledger.balance_of(&maker(), &mint_a()), Some(DEPOSIT_AMOUNT - 1));
}

#[test]
fn exchange_beyond_taker_balance_is_rejected() {
    let (mut ledger, addr) = opened_ledger();
    ledger
        .mint_to(&taker(), &mint_b(), RECEIVE_AMOUNT - 1)
        .unwrap();
    assert_eq!(
        ledger.exchange(&take_offer(addr)),
        Err(EscrowError::InsufficientBalance)
    );
    assert_eq!(ledger.balance_of(&taker(), &mint_b()), Some(RECEIVE_AMOUNT - 1));
}

#[test]
fn exchange_without_taker_account_is_rejected() {
    let (mut ledger, addr) = opened_ledger();
    assert_eq!(
        ledger.exchange(&take_offer(addr)),
        Err(EscrowError::MissingAccount)
    );
}

#[test]
fn exchange_signed_as_the_record_is_rejected() {
    let (mut ledger, addr) = opened_ledger();
    let mut offer = take_offer(addr);
    offer.taker = addr;
    assert_eq!(ledger.exchange(&offer), Err(EscrowError::InvalidAccount));
}

#[test]
fn foreign_record_fails_derivation_check() {
    let (mut ledger, addr) = opened_ledger();
    // A record planted at an address its own fields do not derive to.
    let stray_addr = id(9);
    let mut stray = ledger.record_at(&addr).unwrap();
    stray.seed = SEED + 5;
    ledger.init_escrow(&stray_addr, &stray);
    assert_eq!(
        ledger.refund(&maker(), &stray_addr),
        Err(EscrowError::DerivationMismatch)
    );
    let mut offer = take_offer(stray_addr);
    offer.escrow = stray_addr;
    assert_eq!(ledger.exchange(&offer), Err(EscrowError::DerivationMismatch));
}

#[test]
fn issuance_beyond_capacity_is_rejected() {
    let mut ledger = Ledger::new(program());
    ledger.mint_to(&maker(), &mint_a(), u64::MAX).unwrap();
    assert_eq!(
        ledger.mint_to(&maker(), &mint_a(), 1),
        Err(EscrowError::Overflow)
    );
    assert_eq!(ledger.balance_of(&maker(), &mint_a()), Some(u64::MAX));
}

#[test]
fn self_fill_settles_net() {
    // The maker takes its own offer: asset B nets to zero, the deposit
    // comes back as the vault is released.
    let (mut ledger, addr) = opened_ledger();
    ledger.mint_to(&maker(), &mint_b(), RECEIVE_AMOUNT).unwrap();
    let offer = TakeOffer {
        taker: maker(),
        maker: maker(),
        escrow: addr,
        token_mint_a: mint_a(),
        token_mint_b: mint_b(),
    };
    ledger.exchange(&offer).unwrap();
    assert_eq!(ledger.balance_of(&maker(), &mint_a()), Some(20_000));
    assert_eq!(ledger.balance_of(&maker(), &mint_b()), Some(RECEIVE_AMOUNT));
    assert!(ledger.record_at(&addr).is_none());
}

#[test]
fn record_round_trips_through_bytes() {
    let (ledger, addr) = opened_ledger();
    let record = ledger.record_at(&addr).unwrap();
    let bytes = record.to_bytes();
    assert_eq!(bytes.len(), 121);
    let back = Escrow::from_bytes(&bytes).unwrap();
    assert_eq!(back, record);
}

#[test]
fn record_bytes_follow_the_layout() {
    let record = Escrow {
        seed: SEED,
        maker: maker(),
        token_mint_a: mint_a(),
        token_mint_b: mint_b(),
        receive_amount: RECEIVE_AMOUNT,
        bump: 254,
    };
    let mut expected: Vec<u8> = Vec::new();
    expected.extend_from_slice(&[31, 213, 123, 187, 186, 22, 218, 155]);
    expected.extend_from_slice(&SEED.to_le_bytes());
    expected.extend_from_slice(&[1; 32]);
    expected.extend_from_slice(&[3; 32]);
    expected.extend_from_slice(&[4; 32]);
    expected.extend_from_slice(&RECEIVE_AMOUNT.to_le_bytes());
    expected.push(254);
    assert_eq!(record.to_bytes(), expected);
}

#[test]
fn mangled_bytes_are_rejected() {
    let (ledger, addr) = opened_ledger();
    let record = ledger.record_at(&addr).unwrap();
    let bytes = record.to_bytes();
    assert!(Escrow::from_bytes(&bytes[..120]).is_none());
    let mut wrong_disc = bytes.clone();
    wrong_disc[0] ^= 1;
    assert!(Escrow::from_bytes(&wrong_disc).is_none());
}
