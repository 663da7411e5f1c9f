//! A two-player counting game in which the players alternately remove one to
//! three sticks from a shared pile, together with a depth-bounded minimax
//! move selector (with alpha-beta pruning) for the computer side.

pub mod game;
pub mod search;

pub use game::MoveError;
pub use game::NimGame;
pub use game::Player;
