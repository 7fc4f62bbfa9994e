//! A shared pixel canvas with an economy around it. Accounts buy tokens,
//! spend them to paint cells, and own the cells they painted last; each row
//! of the canvas carries a version that moves forward when the row is
//! painted.
//!
//! `Place` is the executable state and `PlaceState` its mathematical model.
//! The contracts of the operations are stated over the model, and `laws`
//! holds what is proved of every state that the operations can reach.

pub mod account;
pub mod board;
pub mod error;
pub mod invariants;
pub mod laws;
pub mod ownership;
pub mod place;
pub mod restore;
pub mod state;

pub use crate::account::{Account, PIXEL_COST};
pub use crate::board::{
    Pixel, PixelBoard, SetPixelRequest, BOARD_HEIGHT, BOARD_WIDTH, DEFAULT_COLOR, GENESIS_OWNER,
    TOTAL_NUM_PIXELS,
};
pub use crate::error::PlaceError;
pub use crate::place::Place;
