//! Ledger of a wagering match between two teams.
//!
//! Players put a stake into a session, fight, and are paid out of the pot
//! when the match is settled, or get their stake back when it never starts.
//! Every operation either applies in full or fails and changes nothing; what
//! it does is stated in its contract and proved.

pub mod combat;
pub mod errors;
pub mod laws;
pub mod lifecycle;
pub mod membership;
pub mod payout;
pub mod settlement;
pub mod state;

pub use crate::combat::{pay_to_spawn, record_kill};
pub use crate::errors::WagerError;
pub use crate::lifecycle::{create_game_session, is_bet_accepted};
pub use crate::membership::join_user;
pub use crate::payout::{equal_payouts, proportional_payouts, Payout, Standing};
pub use crate::settlement::{
    distribute_all_winnings, distribute_pay_spawn_earnings, distribute_winnings, refund_wager,
};
pub use crate::state::{
    GameMode, GameSession, GameStatus, Limits, PlayerId, Team, MAX_SUPPORTED_BET,
    SPAWNS_PER_PURCHASE, STARTING_SPAWNS, TEAM_SLOTS,
};
