use swap_app::address::Address;
use swap_app::bank::Holding;
use swap_app::error::EscrowError;
use swap_app::escrow::{check_user_holding, make_offer, make_offer_at, take_offer, Escrow};
use swap_app::ledger::Offer;
use swap_app::make_offer::MakeOffer;
use swap_app::pda::offer_address;
use swap_app::take_offer::TakeOffer;

fn addr(n: u8) -> Address {
    Address::new([n; 32])
}

const PROGRAM: u8 = 42;
const MAKER: u8 = 1;
const TAKER: u8 = 2;
const MINT_A: u8 = 100;
const MINT_B: u8 = 101;
const MAKER_A: u8 = 11;
const MAKER_B: u8 = 12;
const TAKER_A: u8 = 21;
const TAKER_B: u8 = 22;

fn open(escrow: &mut Escrow, handle: u8, authority: u8, mint: u8, amount: u64) {
    assert_eq!(escrow.open_account(addr(handle), addr(authority), addr(mint)), Ok(()));
    assert_eq!(escrow.mint_to(&addr(handle), amount), Ok(()));
}

/// A maker with `maker_a` of A and nothing of B, a taker with `taker_b` of B
/// and nothing of A.
fn world(maker_a: u64, taker_b: u64) -> Escrow {
    let mut escrow = Escrow::new(addr(PROGRAM));
    open(&mut escrow, MAKER_A, MAKER, MINT_A, maker_a);
    open(&mut escrow, MAKER_B, MAKER, MINT_B, 0);
    open(&mut escrow, TAKER_A, TAKER, MINT_A, 0);
    open(&mut escrow, TAKER_B, TAKER, MINT_B, taker_b);
    escrow
}

fn making() -> MakeOffer {
    MakeOffer {
        maker: addr(MAKER),
        token_mint_a: addr(MINT_A),
        token_mint_b: addr(MINT_B),
        maker_token_account_a: addr(MAKER_A),
    }
}

fn vault_of(id: u64) -> Address {
    offer_address(&addr(PROGRAM), &addr(MAKER), id).unwrap().0
}

fn taking(id: u64) -> TakeOffer {
    TakeOffer {
        taker: addr(TAKER),
        maker: addr(MAKER),
        token_mint_a: addr(MINT_A),
        token_mint_b: addr(MINT_B),
        taker_token_account_a: addr(TAKER_A),
        taker_token_account_b: addr(TAKER_B),
        maker_token_account_b: addr(MAKER_B),
        offer: vault_of(id),
    }
}

fn amount(escrow: &Escrow, handle: u8) -> u64 {
    escrow.holding(&addr(handle)).unwrap().amount
}

fn amounts(escrow: &Escrow) -> (u64, u64, u64, u64) {
    (
        amount(escrow, MAKER_A),
        amount(escrow, MAKER_B),
        amount(escrow, TAKER_A),
        amount(escrow, TAKER_B),
    )
}

#[test]
fn new_escrow_has_no_offers_and_no_holdings() {
    let escrow = Escrow::new(addr(PROGRAM));
    assert_eq!(escrow.program_id(), addr(PROGRAM));
    assert_eq!(escrow.get(&addr(MAKER), 7), None);
    assert_eq!(escrow.holding(&addr(MAKER_A)), None);
    assert_eq!(escrow.total_supply(&addr(MINT_A)), 0);
}

#[test]
fn scenario_make_then_take() {
    let mut escrow = world(100, 50);
    assert_eq!(make_offer(&mut escrow, &making(), 7, 100, 50), Ok(()));
    let vault = vault_of(7);
    assert_eq!(
        escrow.holding(&vault),
        Some(Holding { mint: addr(MINT_A), authority: vault, amount: 100 })
    );
    assert_eq!(amounts(&escrow), (0, 0, 0, 50));
    assert_eq!(take_offer(&mut escrow, &taking(7)), Ok(()));
    assert_eq!(amounts(&escrow), (0, 50, 100, 0));
    assert_eq!(escrow.get(&addr(MAKER), 7), None);
    assert_eq!(escrow.holding(&vault), None);
}

#[test]
fn scenario_same_id_twice_conflicts() {
    let mut escrow = world(300, 50);
    assert_eq!(make_offer(&mut escrow, &making(), 7, 100, 50), Ok(()));
    let first = escrow.get(&addr(MAKER), 7);
    assert_eq!(
        make_offer(&mut escrow, &making(), 7, 100, 50),
        Err(EscrowError::AllocationConflict)
    );
    assert_eq!(escrow.get(&addr(MAKER), 7), first);
    assert_eq!(first.unwrap().token_b_wanted_amount, 50);
    assert_eq!(first.unwrap().token_a_offered_amount, 100);
    assert_eq!(escrow.holding(&vault_of(7)).unwrap().amount, 100);
    assert_eq!(amount(&escrow, MAKER_A), 200);
}

#[test]
fn same_id_twice_conflicts_even_without_funds_or_with_other_terms() {
    let mut escrow = world(100, 50);
    assert_eq!(make_offer(&mut escrow, &making(), 7, 100, 50), Ok(()));
    assert_eq!(
        make_offer(&mut escrow, &making(), 7, 100, 50),
        Err(EscrowError::AllocationConflict)
    );
    assert_eq!(
        make_offer(&mut escrow, &making(), 7, 0, 1),
        Err(EscrowError::AllocationConflict)
    );
    assert_eq!(escrow.get(&addr(MAKER), 7).unwrap().token_b_wanted_amount, 50);
    assert_eq!(escrow.holding(&vault_of(7)).unwrap().amount, 100);
}

#[test]
fn made_offer_is_recorded_as_made() {
    let mut escrow = world(100, 50);
    assert_eq!(make_offer(&mut escrow, &making(), 7, 60, 50), Ok(()));
    let (_, bump) = offer_address(&addr(PROGRAM), &addr(MAKER), 7).unwrap();
    assert_eq!(
        escrow.get(&addr(MAKER), 7),
        Some(Offer {
            id: 7,
            maker: addr(MAKER),
            token_mint_a: addr(MINT_A),
            token_mint_b: addr(MINT_B),
            token_a_offered_amount: 60,
            token_b_wanted_amount: 50,
            bump,
        })
    );
    assert_eq!(amount(&escrow, MAKER_A), 40);
    assert_eq!(escrow.holding(&vault_of(7)).unwrap().amount, 60);
    assert_eq!(escrow.get(&addr(MAKER), 8), None);
    assert_eq!(escrow.get(&addr(TAKER), 7), None);
}

#[test]
fn make_offer_keeps_the_supply() {
    let mut escrow = world(100, 50);
    assert_eq!(make_offer(&mut escrow, &making(), 7, 60, 50), Ok(()));
    assert_eq!(escrow.total_supply(&addr(MINT_A)), 100);
    assert_eq!(escrow.total_supply(&addr(MINT_B)), 50);
    assert_eq!(take_offer(&mut escrow, &taking(7)), Ok(()));
    assert_eq!(escrow.total_supply(&addr(MINT_A)), 100);
    assert_eq!(escrow.total_supply(&addr(MINT_B)), 50);
}

#[test]
fn offers_with_distinct_ids_are_independent() {
    let mut escrow = world(100, 50);
    assert_eq!(make_offer(&mut escrow, &making(), 7, 60, 50), Ok(()));
    assert_eq!(make_offer(&mut escrow, &making(), 8, 40, 10), Ok(()));
    assert_ne!(vault_of(7), vault_of(8));
    assert_eq!(escrow.holding(&vault_of(7)).unwrap().amount, 60);
    assert_eq!(escrow.holding(&vault_of(8)).unwrap().amount, 40);
    assert_eq!(take_offer(&mut escrow, &taking(8)), Ok(()));
    assert_eq!(escrow.get(&addr(MAKER), 8), None);
    assert_eq!(escrow.get(&addr(MAKER), 7).unwrap().token_b_wanted_amount, 50);
    assert_eq!(escrow.holding(&vault_of(7)).unwrap().amount, 60);
    assert_eq!(amounts(&escrow), (0, 10, 40, 40));
}

#[test]
fn make_offer_underfunded_changes_nothing() {
    let mut escrow = world(99, 50);
    assert_eq!(
        make_offer(&mut escrow, &making(), 7, 100, 50),
        Err(EscrowError::InsufficientBalance)
    );
    assert_eq!(escrow.get(&addr(MAKER), 7), None);
    assert_eq!(escrow.holding(&vault_of(7)), None);
    assert_eq!(amounts(&escrow), (99, 0, 0, 50));
}

#[test]
fn make_offer_refuses_a_holding_of_another_asset() {
    let mut escrow = world(100, 50);
    let mut accounts = making();
    accounts.maker_token_account_a = addr(MAKER_B);
    assert_eq!(
        make_offer(&mut escrow, &accounts, 7, 0, 50),
        Err(EscrowError::AssetMismatch)
    );
    accounts.maker_token_account_a = addr(200);
    assert_eq!(
        make_offer(&mut escrow, &accounts, 7, 0, 50),
        Err(EscrowError::AssetMismatch)
    );
    assert_eq!(escrow.get(&addr(MAKER), 7), None);
}

#[test]
fn make_offer_refuses_a_holding_of_someone_else() {
    let mut escrow = world(100, 50);
    open(&mut escrow, 30, TAKER, MINT_A, 500);
    let mut accounts = making();
    accounts.maker_token_account_a = addr(30);
    assert_eq!(
        make_offer(&mut escrow, &accounts, 7, 10, 50),
        Err(EscrowError::Unauthorized)
    );
    assert_eq!(amount(&escrow, 30), 500);
    assert_eq!(escrow.get(&addr(MAKER), 7), None);
}

#[test]
fn nobody_signs_for_a_vault() {
    let mut escrow = world(100, 50);
    assert_eq!(make_offer(&mut escrow, &making(), 7, 100, 50), Ok(()));
    let vault = vault_of(7);
    let thief = MakeOffer {
        maker: vault,
        token_mint_a: addr(MINT_A),
        token_mint_b: addr(MINT_B),
        maker_token_account_a: vault,
    };
    assert_eq!(make_offer(&mut escrow, &thief, 1, 100, 1), Err(EscrowError::Unauthorized));
    assert_eq!(escrow.mint_to(&vault, 1), Err(EscrowError::Unauthorized));
    assert_eq!(
        escrow.open_account(addr(77), addr(77), addr(MINT_A)),
        Err(EscrowError::Unauthorized)
    );
    assert_eq!(escrow.holding(&vault).unwrap().amount, 100);
    assert_eq!(escrow.holding(&addr(77)), None);
}

#[test]
fn make_offer_refuses_an_address_that_holds_something() {
    let mut escrow = world(100, 50);
    assert_eq!(escrow.open_account(vault_of(7), addr(TAKER), addr(MINT_A)), Ok(()));
    assert_eq!(
        make_offer(&mut escrow, &making(), 7, 100, 50),
        Err(EscrowError::AllocationConflict)
    );
    assert_eq!(escrow.get(&addr(MAKER), 7), None);
    assert_eq!(amount(&escrow, MAKER_A), 100);
    assert_eq!(make_offer(&mut escrow, &making(), 8, 100, 50), Ok(()));
}

#[test]
fn make_offer_at_without_an_address_conflicts() {
    let mut escrow = world(100, 50);
    assert_eq!(
        make_offer_at(&mut escrow, &making(), 7, 100, 50, None),
        Err(EscrowError::AllocationConflict)
    );
    assert_eq!(amount(&escrow, MAKER_A), 100);
    let derived = offer_address(&addr(PROGRAM), &addr(MAKER), 7);
    assert_eq!(make_offer_at(&mut escrow, &making(), 7, 100, 50, derived), Ok(()));
    assert_eq!(escrow.holding(&derived.unwrap().0).unwrap().amount, 100);
    assert_eq!(escrow.get(&addr(MAKER), 7).unwrap().bump, derived.unwrap().1);
}

#[test]
fn zero_deposit_and_zero_price_are_accepted() {
    let mut escrow = world(100, 50);
    assert_eq!(make_offer(&mut escrow, &making(), 7, 0, 0), Ok(()));
    assert_eq!(escrow.holding(&vault_of(7)).unwrap().amount, 0);
    assert_eq!(amount(&escrow, MAKER_A), 100);
    assert_eq!(take_offer(&mut escrow, &taking(7)), Ok(()));
    assert_eq!(amounts(&escrow), (100, 0, 0, 50));
    assert_eq!(escrow.get(&addr(MAKER), 7), None);
    assert_eq!(escrow.holding(&vault_of(7)), None);
}

#[test]
fn take_offer_twice_is_not_found() {
    let mut escrow = world(100, 120);
    assert_eq!(make_offer(&mut escrow, &making(), 7, 100, 50), Ok(()));
    assert_eq!(take_offer(&mut escrow, &taking(7)), Ok(()));
    assert_eq!(take_offer(&mut escrow, &taking(7)), Err(EscrowError::NotFound));
    assert_eq!(amounts(&escrow), (0, 50, 100, 70));
}

#[test]
fn take_offer_that_was_never_made_is_not_found() {
    let mut escrow = world(100, 50);
    assert_eq!(take_offer(&mut escrow, &taking(7)), Err(EscrowError::NotFound));
    assert_eq!(make_offer(&mut escrow, &making(), 7, 100, 50), Ok(()));
    assert_eq!(take_offer(&mut escrow, &taking(8)), Err(EscrowError::NotFound));
    let mut other_maker = taking(7);
    other_maker.maker = addr(TAKER);
    assert_eq!(take_offer(&mut escrow, &other_maker), Err(EscrowError::NotFound));
    assert_eq!(amounts(&escrow), (0, 0, 0, 50));
    assert_eq!(escrow.holding(&vault_of(7)).unwrap().amount, 100);
}

#[test]
fn underfunded_taker_leaves_the_offer_open() {
    let mut escrow = world(100, 49);
    assert_eq!(make_offer(&mut escrow, &making(), 7, 100, 50), Ok(()));
    let before = escrow.get(&addr(MAKER), 7);
    assert_eq!(take_offer(&mut escrow, &taking(7)), Err(EscrowError::InsufficientBalance));
    assert_eq!(escrow.get(&addr(MAKER), 7), before);
    assert!(before.is_some());
    assert_eq!(escrow.holding(&vault_of(7)).unwrap().amount, 100);
    assert_eq!(amounts(&escrow), (0, 0, 0, 49));
    assert_eq!(escrow.mint_to(&addr(TAKER_B), 1), Ok(()));
    assert_eq!(take_offer(&mut escrow, &taking(7)), Ok(()));
    assert_eq!(amounts(&escrow), (0, 50, 100, 0));
}

#[test]
fn take_offer_refuses_other_assets() {
    let mut escrow = world(100, 50);
    assert_eq!(make_offer(&mut escrow, &making(), 7, 100, 50), Ok(()));
    let mut accounts = taking(7);
    accounts.token_mint_a = addr(MINT_B);
    assert_eq!(take_offer(&mut escrow, &accounts), Err(EscrowError::AssetMismatch));
    let mut accounts = taking(7);
    accounts.token_mint_b = addr(MINT_A);
    assert_eq!(take_offer(&mut escrow, &accounts), Err(EscrowError::AssetMismatch));
    let mut accounts = taking(7);
    accounts.taker_token_account_b = addr(TAKER_A);
    assert_eq!(take_offer(&mut escrow, &accounts), Err(EscrowError::AssetMismatch));
    let mut accounts = taking(7);
    accounts.maker_token_account_b = addr(MAKER_A);
    assert_eq!(take_offer(&mut escrow, &accounts), Err(EscrowError::AssetMismatch));
    let mut accounts = taking(7);
    accounts.taker_token_account_a = addr(TAKER_B);
    assert_eq!(take_offer(&mut escrow, &accounts), Err(EscrowError::AssetMismatch));
    let mut accounts = taking(7);
    accounts.taker_token_account_a = addr(250);
    assert_eq!(take_offer(&mut escrow, &accounts), Err(EscrowError::AssetMismatch));
    assert_eq!(amounts(&escrow), (0, 0, 0, 50));
    assert_eq!(escrow.holding(&vault_of(7)).unwrap().amount, 100);
    assert!(escrow.get(&addr(MAKER), 7).is_some());
}

#[test]
fn take_offer_refuses_holdings_of_the_wrong_party() {
    let mut escrow = world(100, 50);
    open(&mut escrow, 31, 3, MINT_B, 500);
    open(&mut escrow, 32, 3, MINT_A, 0);
    assert_eq!(make_offer(&mut escrow, &making(), 7, 100, 50), Ok(()));
    let mut accounts = taking(7);
    accounts.taker_token_account_b = addr(31);
    assert_eq!(take_offer(&mut escrow, &accounts), Err(EscrowError::Unauthorized));
    let mut accounts = taking(7);
    accounts.maker_token_account_b = addr(TAKER_B);
    assert_eq!(take_offer(&mut escrow, &accounts), Err(EscrowError::Unauthorized));
    let mut accounts = taking(7);
    accounts.taker_token_account_a = addr(32);
    assert_eq!(take_offer(&mut escrow, &accounts), Err(EscrowError::Unauthorized));
    assert_eq!(amounts(&escrow), (0, 0, 0, 50));
    assert_eq!(amount(&escrow, 31), 500);
    assert_eq!(escrow.holding(&vault_of(7)).unwrap().amount, 100);
}

#[test]
fn a_vault_cannot_receive_what_is_owed_to_a_user() {
    let mut escrow = world(100, 50);
    assert_eq!(make_offer(&mut escrow, &making(), 7, 60, 50), Ok(()));
    assert_eq!(make_offer(&mut escrow, &making(), 8, 40, 50), Ok(()));
    let other = vault_of(8);
    assert_eq!(escrow.open_account(addr(33), other, addr(MINT_B)), Ok(()));
    assert_eq!(escrow.mint_to(&addr(33), 50), Ok(()));
    let mut accounts = taking(7);
    accounts.taker = other;
    accounts.taker_token_account_b = addr(33);
    accounts.taker_token_account_a = other;
    assert_eq!(take_offer(&mut escrow, &accounts), Err(EscrowError::Unauthorized));
    assert_eq!(escrow.holding(&vault_of(7)).unwrap().amount, 60);
    assert_eq!(escrow.holding(&other).unwrap().amount, 40);
    assert_eq!(amount(&escrow, 33), 50);
    assert_eq!(amount(&escrow, MAKER_B), 0);
}

#[test]
fn maker_may_take_their_own_offer() {
    let mut escrow = Escrow::new(addr(PROGRAM));
    open(&mut escrow, MAKER_A, MAKER, MINT_A, 100);
    open(&mut escrow, MAKER_B, MAKER, MINT_B, 70);
    assert_eq!(make_offer(&mut escrow, &making(), 7, 100, 50), Ok(()));
    let accounts = TakeOffer {
        taker: addr(MAKER),
        maker: addr(MAKER),
        token_mint_a: addr(MINT_A),
        token_mint_b: addr(MINT_B),
        taker_token_account_a: addr(MAKER_A),
        taker_token_account_b: addr(MAKER_B),
        maker_token_account_b: addr(MAKER_B),
        offer: vault_of(7),
    };
    assert_eq!(take_offer(&mut escrow, &accounts), Ok(()));
    assert_eq!(amount(&escrow, MAKER_A), 100);
    assert_eq!(amount(&escrow, MAKER_B), 70);
    assert_eq!(escrow.get(&addr(MAKER), 7), None);
}

#[test]
fn maker_taking_their_own_offer_still_needs_the_balance() {
    let mut escrow = Escrow::new(addr(PROGRAM));
    open(&mut escrow, MAKER_A, MAKER, MINT_A, 100);
    open(&mut escrow, MAKER_B, MAKER, MINT_B, 49);
    assert_eq!(make_offer(&mut escrow, &making(), 7, 100, 50), Ok(()));
    let accounts = TakeOffer {
        taker: addr(MAKER),
        maker: addr(MAKER),
        token_mint_a: addr(MINT_A),
        token_mint_b: addr(MINT_B),
        taker_token_account_a: addr(MAKER_A),
        taker_token_account_b: addr(MAKER_B),
        maker_token_account_b: addr(MAKER_B),
        offer: vault_of(7),
    };
    assert_eq!(take_offer(&mut escrow, &accounts), Err(EscrowError::InsufficientBalance));
    assert_eq!(escrow.holding(&vault_of(7)).unwrap().amount, 100);
}

#[test]
fn swap_of_one_asset_for_itself_through_one_holding() {
    let mut escrow = Escrow::new(addr(PROGRAM));
    open(&mut escrow, MAKER_A, MAKER, MINT_A, 100);
    open(&mut escrow, TAKER_A, TAKER, MINT_A, 30);
    let accounts = MakeOffer {
        maker: addr(MAKER),
        token_mint_a: addr(MINT_A),
        token_mint_b: addr(MINT_A),
        maker_token_account_a: addr(MAKER_A),
    };
    assert_eq!(make_offer(&mut escrow, &accounts, 7, 100, 30), Ok(()));
    let accounts = TakeOffer {
        taker: addr(TAKER),
        maker: addr(MAKER),
        token_mint_a: addr(MINT_A),
        token_mint_b: addr(MINT_A),
        taker_token_account_a: addr(TAKER_A),
        taker_token_account_b: addr(TAKER_A),
        maker_token_account_b: addr(MAKER_A),
        offer: vault_of(7),
    };
    assert_eq!(take_offer(&mut escrow, &accounts), Ok(()));
    assert_eq!(amount(&escrow, MAKER_A), 30);
    assert_eq!(amount(&escrow, TAKER_A), 100);
    assert_eq!(escrow.total_supply(&addr(MINT_A)), 130);
}

#[test]
fn an_offer_can_be_made_again_once_taken() {
    let mut escrow = world(100, 50);
    assert_eq!(make_offer(&mut escrow, &making(), 7, 60, 20), Ok(()));
    assert_eq!(take_offer(&mut escrow, &taking(7)), Ok(()));
    assert_eq!(make_offer(&mut escrow, &making(), 7, 40, 30), Ok(()));
    assert_eq!(escrow.get(&addr(MAKER), 7).unwrap().token_b_wanted_amount, 30);
    assert_eq!(escrow.holding(&vault_of(7)).unwrap().amount, 40);
    assert_eq!(take_offer(&mut escrow, &taking(7)), Ok(()));
    assert_eq!(amounts(&escrow), (0, 50, 100, 0));
}

#[test]
fn offer_is_open_exactly_while_its_vault_exists() {
    let mut escrow = world(100, 50);
    let vault = vault_of(7);
    assert_eq!(escrow.get(&addr(MAKER), 7).is_some(), escrow.holding(&vault).is_some());
    assert_eq!(make_offer(&mut escrow, &making(), 7, 100, 50), Ok(()));
    assert!(escrow.get(&addr(MAKER), 7).is_some());
    assert_eq!(escrow.holding(&vault).unwrap().authority, vault);
    assert_eq!(escrow.holding(&vault).unwrap().amount, 100);
    assert_eq!(escrow.get(&addr(MAKER), 7).unwrap().token_a_offered_amount, 100);
    assert_eq!(take_offer(&mut escrow, &taking(9)), Err(EscrowError::NotFound));
    assert_eq!(escrow.holding(&vault).unwrap().amount, 100);
    assert_eq!(take_offer(&mut escrow, &taking(7)), Ok(()));
    assert_eq!(escrow.get(&addr(MAKER), 7).is_some(), escrow.holding(&vault).is_some());
    assert!(escrow.holding(&vault).is_none());
}

#[test]
fn open_account_and_mint_to_refusals() {
    let mut escrow = world(100, 50);
    assert_eq!(
        escrow.open_account(addr(MAKER_A), addr(TAKER), addr(MINT_B)),
        Err(EscrowError::AllocationConflict)
    );
    assert_eq!(escrow.mint_to(&addr(99), 1), Err(EscrowError::AssetMismatch));
    assert_eq!(
        escrow.mint_to(&addr(TAKER_A), u64::MAX - 99),
        Err(EscrowError::InsufficientBalance)
    );
    assert_eq!(escrow.mint_to(&addr(TAKER_A), u64::MAX - 100), Ok(()));
    assert_eq!(escrow.total_supply(&addr(MINT_A)), u64::MAX);
    assert_eq!(
        escrow.holding(&addr(MAKER_A)),
        Some(Holding { mint: addr(MINT_A), authority: addr(MAKER), amount: 100 })
    );
}

#[test]
fn settlement_at_the_supply_cap_does_not_overflow() {
    let mut escrow = world(u64::MAX, u64::MAX);
    assert_eq!(make_offer(&mut escrow, &making(), 7, u64::MAX, u64::MAX), Ok(()));
    assert_eq!(escrow.holding(&vault_of(7)).unwrap().amount, u64::MAX);
    assert_eq!(take_offer(&mut escrow, &taking(7)), Ok(()));
    assert_eq!(amounts(&escrow), (0, u64::MAX, u64::MAX, 0));
}

#[test]
fn check_user_holding_outcomes() {
    let holding = Holding { mint: addr(MINT_A), authority: addr(MAKER), amount: 5 };
    assert_eq!(
        check_user_holding(Some(holding), &addr(MAKER_A), &addr(MAKER), &addr(MINT_A)),
        Ok(())
    );
    assert_eq!(
        check_user_holding(None, &addr(MAKER_A), &addr(MAKER), &addr(MINT_A)),
        Err(EscrowError::AssetMismatch)
    );
    assert_eq!(
        check_user_holding(Some(holding), &addr(MAKER_A), &addr(MAKER), &addr(MINT_B)),
        Err(EscrowError::AssetMismatch)
    );
    assert_eq!(
        check_user_holding(Some(holding), &addr(MAKER_A), &addr(TAKER), &addr(MINT_A)),
        Err(EscrowError::Unauthorized)
    );
    assert_eq!(
        check_user_holding(Some(holding), &addr(MAKER), &addr(MAKER), &addr(MINT_A)),
        Err(EscrowError::Unauthorized)
    );
    assert_eq!(
        check_user_holding(Some(holding), &addr(MAKER_A), &addr(TAKER), &addr(MINT_B)),
        Err(EscrowError::AssetMismatch)
    );
}
