use pixel_board::{
    Account, Pixel, PixelBoard, PlaceError, SetPixelRequest, BOARD_HEIGHT, BOARD_WIDTH,
    DEFAULT_COLOR, GENESIS_OWNER, TOTAL_NUM_PIXELS,
};

fn paint(x: u32, y: u32, color: u32) -> SetPixelRequest {
    SetPixelRequest { x, y, color }
}

#[test]
fn default_board_has_the_constant_size() {
    let board = PixelBoard::new();
    assert_eq!(board.width, BOARD_WIDTH);
    assert_eq!(board.height, BOARD_HEIGHT);
    assert_eq!(board.pixels.len(), TOTAL_NUM_PIXELS as usize);
    assert_eq!(board.get_line_versions(), vec![0u32; BOARD_HEIGHT as usize]);
    assert_eq!(BOARD_WIDTH * BOARD_HEIGHT, TOTAL_NUM_PIXELS);
}

#[test]
fn sized_board_starts_blank() {
    let board = PixelBoard::with_size(3, 2).unwrap();
    assert_eq!(board.pixels, vec![Pixel { color: DEFAULT_COLOR, owner_id: GENESIS_OWNER }; 6]);
    assert_eq!(board.get_line_versions(), vec![0, 0]);
    assert_eq!(PixelBoard::with_size(1 << 16, 1 << 16).err(), Some(PlaceError::CapacityExceeded));
    assert!(PixelBoard::with_size(0, 9).unwrap().pixels.is_empty());
}

#[test]
fn set_pixels_writes_row_major_and_counts_prior_owners() {
    let mut board = PixelBoard::with_size(3, 2).unwrap();
    let lost = board.set_pixels(4, &vec![paint(2, 0, 11), paint(1, 1, 12)]).unwrap();
    assert_eq!(lost.len(), 1);
    assert_eq!(lost.get(&0), Some(&2));
    assert_eq!(board.pixels[2], Pixel { color: 11, owner_id: 4 });
    assert_eq!(board.pixels[4], Pixel { color: 12, owner_id: 4 });
    assert_eq!(board.pixels[0], Pixel { color: DEFAULT_COLOR, owner_id: 0 });
    assert_eq!(board.get_line_versions(), vec![1, 1]);
}

#[test]
fn later_request_overrides_earlier_one_and_counts_as_own() {
    let mut board = PixelBoard::with_size(2, 2).unwrap();
    let lost = board
        .set_pixels(3, &vec![paint(1, 0, 5), paint(1, 0, 6), paint(0, 0, 7)])
        .unwrap();
    assert_eq!(lost.len(), 2);
    assert_eq!(lost.get(&0), Some(&2));
    assert_eq!(lost.get(&3), Some(&1));
    assert_eq!(board.pixels[1], Pixel { color: 6, owner_id: 3 });
    assert_eq!(board.pixels[0], Pixel { color: 7, owner_id: 3 });
    assert_eq!(board.get_line_versions(), vec![1, 0]);
}

#[test]
fn empty_batch_changes_nothing() {
    let mut board = PixelBoard::with_size(2, 2).unwrap();
    let lost = board.set_pixels(1, &vec![]).unwrap();
    assert!(lost.is_empty());
    assert_eq!(board.get_line_versions(), vec![0, 0]);
}

#[test]
fn out_of_bounds_aborts_the_whole_batch() {
    let mut board = PixelBoard::with_size(2, 2).unwrap();
    let pixels = board.pixels.clone();
    assert_eq!(
        board.set_pixels(1, &vec![paint(0, 0, 5), paint(0, 2, 5)]).err(),
        Some(PlaceError::OutOfBounds)
    );
    assert_eq!(
        board.set_pixels(1, &vec![paint(2, 1, 5)]).err(),
        Some(PlaceError::OutOfBounds)
    );
    assert_eq!(board.check(&vec![paint(2, 1, 5)]), Err(PlaceError::OutOfBounds));
    assert_eq!(board.check(&vec![paint(1, 1, 5)]), Ok(()));
    assert_eq!(board.pixels, pixels);
    assert_eq!(board.get_line_versions(), vec![0, 0]);
}

#[test]
fn out_of_bounds_comes_before_a_full_counter() {
    let mut board = PixelBoard::with_size(2, 2).unwrap();
    board.line_versions[0] = u32::MAX;
    assert_eq!(
        board.check(&vec![paint(0, 0, 5), paint(7, 7, 5)]),
        Err(PlaceError::OutOfBounds)
    );
    assert_eq!(board.check(&vec![paint(0, 0, 5)]), Err(PlaceError::CapacityExceeded));
    assert_eq!(board.check(&vec![paint(0, 1, 5)]), Ok(()));
}

#[test]
fn account_charge_and_credit() {
    let mut account = Account::new(3);
    assert_eq!(account, Account { account_index: 3, balance: 0, num_pixels: 0 });
    assert_eq!(account.credit(50), Ok(()));
    assert_eq!(account.charge(2, 10), Ok(20));
    assert_eq!(account.balance, 30);
    assert_eq!(account.charge(4, 10), Err(PlaceError::InsufficientBalance));
    assert_eq!(account.balance, 30);
    assert_eq!(account.charge(3, 10), Ok(30));
    assert_eq!(account.balance, 0);
    assert_eq!(account.charge(0, 10), Ok(0));
    assert_eq!(account.charge(2, u128::MAX), Err(PlaceError::InsufficientBalance));
    assert!(account.can_afford(0, u128::MAX));
    assert!(!account.can_afford(1, 1));
}

#[test]
fn account_buy_tokens_uses_the_policy() {
    let mut account = Account::new(1);
    assert_eq!(account.buy_tokens(4, |deposit: u128| deposit * 100), Ok(400));
    assert_eq!(account.balance, 400);
    assert_eq!(account.buy_tokens(0, |_deposit: u128| 9), Ok(0));
    assert_eq!(account.balance, 400);
    assert_eq!(
        account.buy_tokens(1, |_deposit: u128| u128::MAX),
        Err(PlaceError::CapacityExceeded)
    );
    assert_eq!(account.balance, 400);
    assert_eq!(account.credit(u128::MAX - 400), Ok(()));
    assert_eq!(account.credit(1), Err(PlaceError::CapacityExceeded));
    assert_eq!(account.balance, u128::MAX);
}
