use pixel_board::{
    Account, Pixel, Place, PlaceError, SetPixelRequest, BOARD_HEIGHT, BOARD_WIDTH, DEFAULT_COLOR,
    PIXEL_COST, TOTAL_NUM_PIXELS,
};

fn owner() -> String {
    "place.meta".to_string()
}

fn alice() -> String {
    "alice.meta".to_string()
}

fn bob() -> String {
    "bob.meta".to_string()
}

fn small_place() -> Place {
    Place::with_config(false, owner(), 7, 2, 2, 10).unwrap()
}

fn request(x: u32, y: u32, color: u32) -> SetPixelRequest {
    SetPixelRequest { x, y, color }
}

fn one_to_one(deposit: u128) -> u128 {
    deposit
}

fn total_pixels(place: &Place) -> u64 {
    place.accounts.iter().map(|account| account.num_pixels as u64).sum()
}

#[test]
fn test_new() {
    let contract = Place::new(false, owner(), 3_600_000_000_000).unwrap();
    assert_eq!(contract.get_pixel_cost().0, PIXEL_COST);
    assert_eq!(contract.get_line_versions(), vec![0u32; BOARD_HEIGHT as usize]);
}

#[test]
fn new_place_has_owner_holding_every_cell() {
    let place = Place::new(false, owner(), 3_600_000_000_000).unwrap();
    assert_eq!(place.get_num_accounts(), 1);
    assert_eq!(place.get_initialization_timestamp().0, 3_600_000_000_000);
    assert_eq!(place.get_minted_amount().0, 0);
    assert_eq!(place.get_burned_amount().0, 0);
    assert_eq!(
        place.get_account_by_id(&owner()),
        Account { account_index: 0, balance: 0, num_pixels: TOTAL_NUM_PIXELS }
    );
    assert_eq!(place.board.width, BOARD_WIDTH);
    assert_eq!(place.board.height, BOARD_HEIGHT);
    assert_eq!(place.board.pixels.len(), (BOARD_WIDTH * BOARD_HEIGHT) as usize);
    assert!(place
        .board
        .pixels
        .iter()
        .all(|pixel| *pixel == Pixel { color: DEFAULT_COLOR, owner_id: 0 }));
}

#[test]
fn new_is_refused_when_state_exists() {
    assert_eq!(
        Place::new(true, owner(), 1).err(),
        Some(PlaceError::AlreadyInitialized)
    );
    assert_eq!(
        Place::with_config(true, owner(), 1, 2, 2, 10).err(),
        Some(PlaceError::AlreadyInitialized)
    );
}

#[test]
fn with_config_sets_versions_and_price() {
    let place = Place::with_config(false, owner(), 7, 3, 5, 42).unwrap();
    assert_eq!(place.get_line_versions(), vec![0u32; 5]);
    assert_eq!(place.get_pixel_cost().0, 42);
    assert_eq!(place.board.pixels.len(), 15);
    assert_eq!(place.get_account_by_id(&owner()).num_pixels, 15);
}

#[test]
fn with_config_refuses_a_canvas_too_large_to_count() {
    assert_eq!(
        Place::with_config(false, owner(), 7, 65_536, 65_536, 1).err(),
        Some(PlaceError::CapacityExceeded)
    );
}

#[test]
fn purchase_and_draw_on_two_by_two() {
    let mut place = small_place();
    assert_eq!(place.buy_tokens(&alice(), 50, one_to_one), Ok(50));
    assert_eq!(place.get_minted_amount().0, 50);
    assert_eq!(place.get_num_accounts(), 2);
    assert_eq!(
        place.get_account_by_id(&alice()),
        Account { account_index: 1, balance: 50, num_pixels: 0 }
    );

    assert_eq!(place.draw(&alice(), vec![request(0, 0, 5), request(1, 1, 6)]), Ok(()));
    assert_eq!(
        place.get_account_by_id(&alice()),
        Account { account_index: 1, balance: 30, num_pixels: 2 }
    );
    assert_eq!(
        place.get_account_by_id(&owner()),
        Account { account_index: 0, balance: 0, num_pixels: 2 }
    );
    assert_eq!(place.get_burned_amount().0, 20);
    assert_eq!(place.get_minted_amount().0, 50);
    assert_eq!(place.get_line_versions(), vec![1, 1]);
    assert_eq!(
        place.board.pixels,
        vec![
            Pixel { color: 5, owner_id: 1 },
            Pixel { color: DEFAULT_COLOR, owner_id: 0 },
            Pixel { color: DEFAULT_COLOR, owner_id: 0 },
            Pixel { color: 6, owner_id: 1 },
        ]
    );
}

#[test]
fn pixel_counts_always_add_up_to_the_canvas() {
    let mut place = Place::with_config(false, owner(), 7, 3, 2, 1).unwrap();
    assert_eq!(total_pixels(&place), 6);
    place.buy_tokens(&alice(), 10, one_to_one).unwrap();
    assert_eq!(total_pixels(&place), 6);
    place.buy_tokens(&bob(), 10, one_to_one).unwrap();
    place.draw(&alice(), vec![request(0, 0, 1), request(1, 0, 1), request(2, 1, 1)]).unwrap();
    assert_eq!(total_pixels(&place), 6);
    place.draw(&bob(), vec![request(0, 0, 2), request(0, 1, 2), request(0, 0, 3)]).unwrap();
    assert_eq!(total_pixels(&place), 6);
    assert_eq!(place.draw(&bob(), vec![request(9, 9, 2)]), Err(PlaceError::OutOfBounds));
    assert_eq!(total_pixels(&place), 6);
    assert_eq!(place.get_account_by_id(&owner()).num_pixels, 2);
    assert_eq!(place.get_account_by_id(&alice()).num_pixels, 2);
    assert_eq!(place.get_account_by_id(&bob()).num_pixels, 2);
    assert_eq!(place.get_account_by_id(&bob()).balance, 7);
    assert_eq!(place.get_burned_amount().0, 6);
}

#[test]
fn draw_without_balance_changes_nothing() {
    let mut place = small_place();
    place.buy_tokens(&alice(), 15, one_to_one).unwrap();
    let accounts = place.accounts.clone();
    let pixels = place.board.pixels.clone();
    let versions = place.get_line_versions();
    assert_eq!(
        place.draw(&alice(), vec![request(0, 0, 5), request(1, 1, 6)]),
        Err(PlaceError::InsufficientBalance)
    );
    assert_eq!(place.get_burned_amount().0, 0);
    assert_eq!(place.get_minted_amount().0, 15);
    assert_eq!(place.accounts, accounts);
    assert_eq!(place.board.pixels, pixels);
    assert_eq!(place.get_line_versions(), versions);
}

#[test]
fn draw_by_a_stranger_without_balance_creates_no_account() {
    let mut place = small_place();
    assert_eq!(
        place.draw(&bob(), vec![request(0, 0, 5)]),
        Err(PlaceError::InsufficientBalance)
    );
    assert_eq!(place.get_num_accounts(), 1);
    assert_eq!(place.get_account_by_id(&bob()).account_index, 1);
}

#[test]
fn insufficient_balance_comes_before_out_of_bounds() {
    let mut place = small_place();
    assert_eq!(
        place.draw(&alice(), vec![request(5, 5, 1)]),
        Err(PlaceError::InsufficientBalance)
    );
}

#[test]
fn drawing_over_own_cells_is_neutral() {
    let mut place = small_place();
    place.buy_tokens(&alice(), 100, one_to_one).unwrap();
    place.draw(&alice(), vec![request(0, 0, 5), request(1, 0, 6)]).unwrap();
    let before = place.accounts.clone();
    place.draw(&alice(), vec![request(0, 0, 8), request(1, 0, 9), request(0, 0, 3)]).unwrap();
    assert_eq!(place.get_account_by_id(&alice()).num_pixels, 2);
    assert_eq!(place.get_account_by_id(&owner()).num_pixels, 2);
    assert_eq!(place.get_account_by_id(&owner()), before[0]);
    assert_eq!(place.get_account_by_id(&alice()).balance, 50);
    assert_eq!(place.board.pixels[0], Pixel { color: 3, owner_id: 1 });
    assert_eq!(place.board.pixels[1], Pixel { color: 9, owner_id: 1 });
    assert_eq!(place.get_burned_amount().0, 50);
}

#[test]
fn owner_repainting_a_fresh_canvas_keeps_every_count() {
    let mut place = Place::with_config(false, owner(), 7, 2, 2, 0).unwrap();
    place.draw(&owner(), vec![request(1, 1, 4)]).unwrap();
    assert_eq!(
        place.get_account_by_id(&owner()),
        Account { account_index: 0, balance: 0, num_pixels: 4 }
    );
    assert_eq!(place.board.pixels[3], Pixel { color: 4, owner_id: 0 });
    assert_eq!(place.get_line_versions(), vec![0, 1]);
}

#[test]
fn only_touched_rows_move_forward() {
    let mut place = Place::with_config(false, owner(), 7, 2, 3, 1).unwrap();
    place.buy_tokens(&alice(), 10, one_to_one).unwrap();
    place.draw(&alice(), vec![request(0, 2, 1), request(1, 2, 1)]).unwrap();
    assert_eq!(place.get_line_versions(), vec![0, 0, 1]);
    place.draw(&alice(), vec![request(0, 0, 1), request(1, 2, 7)]).unwrap();
    assert_eq!(place.get_line_versions(), vec![1, 0, 2]);
    place.draw(&alice(), vec![]).unwrap();
    assert_eq!(place.get_line_versions(), vec![1, 0, 2]);
}

#[test]
fn batch_with_one_position_out_of_bounds_changes_nothing() {
    let mut place = small_place();
    place.buy_tokens(&alice(), 50, one_to_one).unwrap();
    let accounts = place.accounts.clone();
    let pixels = place.board.pixels.clone();
    let versions = place.get_line_versions();
    assert_eq!(
        place.draw(&alice(), vec![request(0, 0, 5), request(2, 0, 6), request(1, 1, 7)]),
        Err(PlaceError::OutOfBounds)
    );
    assert_eq!(
        place.draw(&alice(), vec![request(0, 2, 5)]),
        Err(PlaceError::OutOfBounds)
    );
    assert_eq!(place.accounts, accounts);
    assert_eq!(place.board.pixels, pixels);
    assert_eq!(place.get_line_versions(), versions);
    assert_eq!(place.get_burned_amount().0, 0);
    assert_eq!(place.get_minted_amount().0, 50);
}

#[test]
fn row_version_at_its_limit_refuses_the_draw() {
    let mut place = small_place();
    place.buy_tokens(&alice(), 50, one_to_one).unwrap();
    place.board.line_versions[1] = u32::MAX;
    let pixels = place.board.pixels.clone();
    assert_eq!(
        place.draw(&alice(), vec![request(0, 0, 5), request(0, 1, 5)]),
        Err(PlaceError::CapacityExceeded)
    );
    assert_eq!(place.board.pixels, pixels);
    assert_eq!(place.get_line_versions(), vec![0, u32::MAX]);
    assert_eq!(place.get_account_by_id(&alice()).balance, 50);
    assert_eq!(place.draw(&alice(), vec![request(0, 0, 5)]), Ok(()));
    assert_eq!(place.get_line_versions(), vec![1, u32::MAX]);
}

#[test]
fn empty_deposit_mints_nothing_and_ignores_the_policy() {
    let mut place = small_place();
    assert_eq!(place.buy_tokens(&alice(), 0, |_deposit: u128| 1_000), Ok(0));
    assert_eq!(place.get_minted_amount().0, 0);
    assert_eq!(
        place.get_account_by_id(&alice()),
        Account { account_index: 1, balance: 0, num_pixels: 0 }
    );
    assert_eq!(place.get_num_accounts(), 2);
}

#[test]
fn policy_decides_what_a_deposit_mints() {
    let mut place = small_place();
    assert_eq!(place.buy_tokens(&alice(), 7, |deposit: u128| deposit * 3 + 1), Ok(22));
    assert_eq!(place.buy_tokens(&alice(), 1, |deposit: u128| deposit * 3 + 1), Ok(4));
    assert_eq!(place.get_account_by_id(&alice()).balance, 26);
    assert_eq!(place.get_minted_amount().0, 26);
    assert_eq!(place.get_num_accounts(), 2);
}

#[test]
fn minted_total_that_would_overflow_refuses_the_purchase() {
    let mut place = small_place();
    place.credit_tokens(&alice(), u128::MAX - 1).unwrap();
    assert_eq!(place.credit_tokens(&bob(), 2), Err(PlaceError::CapacityExceeded));
    assert_eq!(place.buy_tokens(&bob(), 2, one_to_one), Err(PlaceError::CapacityExceeded));
    assert_eq!(place.get_num_accounts(), 2);
    assert_eq!(place.get_minted_amount().0, u128::MAX - 1);
    assert_eq!(place.credit_tokens(&bob(), 1), Ok(()));
    assert_eq!(place.get_minted_amount().0, u128::MAX);
    assert_eq!(place.get_account_by_id(&bob()).balance, 1);
}

#[test]
fn cost_beyond_any_balance_is_insufficient() {
    let mut place = Place::with_config(false, owner(), 7, 2, 2, u128::MAX).unwrap();
    place.credit_tokens(&alice(), u128::MAX).unwrap();
    assert_eq!(
        place.draw(&alice(), vec![request(0, 0, 1), request(0, 1, 1)]),
        Err(PlaceError::InsufficientBalance)
    );
    assert_eq!(place.draw(&alice(), vec![request(0, 0, 1)]), Ok(()));
    assert_eq!(place.get_account_by_id(&alice()).balance, 0);
    assert_eq!(place.get_burned_amount().0, u128::MAX);
}

#[test]
fn accounts_are_found_by_index() {
    let mut place = small_place();
    place.buy_tokens(&alice(), 5, one_to_one).unwrap();
    assert_eq!(
        place.get_account_by_index(1),
        Some(Account { account_index: 1, balance: 5, num_pixels: 0 })
    );
    assert_eq!(
        place.get_account_by_index(0),
        Some(Account { account_index: 0, balance: 0, num_pixels: 4 })
    );
    assert_eq!(place.get_account_by_index(2), None);
}
