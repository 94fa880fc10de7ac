use crate::errors::WagerError;
use crate::state::{
    count_taken, GameMode, GameSession, GameStatus, Limits, PlayerId, Team, MAX_SUPPORTED_BET,
};
use vstd::prelude::*;

verus! {

/// Whether a session may be created with the stake `bet` under `limits`: the
/// stake is positive, within the configured bounds, and small enough for
/// the stakes of two full teams to fit the amount type.
pub open spec fn bet_accepted(bet: u64, limits: Limits) -> bool {
    &&& 1 <= bet <= MAX_SUPPORTED_BET
    &&& limits.min_bet <= bet <= limits.max_bet
}

/// Where no slot is taken, none is counted.
pub proof fn lemma_none_taken(slots: Seq<Option<PlayerId>>, n: int)
    requires
        0 <= n <= slots.len(),
        forall|i: int| 0 <= i < n ==> slots[i] is None,
    ensures
        count_taken(slots, n) == 0,
    decreases n,
{
    if n > 0 {
        lemma_none_taken(slots, n - 1);
    }
}

impl GameSession {
    /// Whether this is the session as creation leaves it: waiting for
    /// players, both teams empty, nothing purchased, and the given values
    /// in place.
    pub open spec fn is_fresh(
        self,
        session_id: String,
        authority: PlayerId,
        bet_amount: u64,
        game_mode: GameMode,
        created_at: i64,
        limits: Limits,
    ) -> bool {
        &&& self.session_id == session_id
        &&& self.authority == authority
        &&& self.session_bet == bet_amount
        &&& self.game_mode == game_mode
        &&& self.created_at == created_at
        &&& self.limits == limits
        &&& self.team_a.is_empty()
        &&& self.team_b.is_empty()
        &&& self.status == GameStatus::WaitingForPlayers
        &&& self.spawn_purchases == 0
    }

    /// Whether the session settles by the proportional pay-to-spawn split.
    pub fn is_pay_to_spawn(&self) -> (b: bool)
        ensures
            b == self.game_mode.pay_to_spawn(),
    {
        self.game_mode.is_pay_to_spawn()
    }
}

/// Whether a session may be created with the stake `bet` under `limits`.
pub fn is_bet_accepted(bet: u64, limits: &Limits) -> (b: bool)
    ensures
        b == bet_accepted(bet, *limits),
{
    1 <= bet && bet <= MAX_SUPPORTED_BET && limits.min_bet <= bet && bet <= limits.max_bet
}

/// Creates a session that waits for players, with both teams empty.
///
/// Fails with `InvalidBetAmount` where the stake is zero, outside the
/// bounds of `limits`, or above `MAX_SUPPORTED_BET`.
pub fn create_game_session(
    session_id: String,
    authority: PlayerId,
    bet_amount: u64,
    game_mode: GameMode,
    created_at: i64,
    limits: Limits,
) -> (r: Result<GameSession, WagerError>)
    ensures
        match r {
            Ok(session) => {
                &&& bet_accepted(bet_amount, limits)
                &&& session.is_fresh(
                    session_id,
                    authority,
                    bet_amount,
                    game_mode,
                    created_at,
                    limits,
                )
                &&& session.wf()
            },
            Err(e) => !bet_accepted(bet_amount, limits) && e == WagerError::InvalidBetAmount,
        },
{
    if !is_bet_accepted(bet_amount, &limits) {
        return Err(WagerError::InvalidBetAmount);
    }
    let session = GameSession {
        session_id,
        authority,
        session_bet: bet_amount,
        game_mode,
        team_a: Team::empty(),
        team_b: Team::empty(),
        status: GameStatus::WaitingForPlayers,
        created_at,
        limits,
        spawn_purchases: 0,
    };
    proof {
        lemma_none_taken(session.team_a.players@, 5);
        lemma_none_taken(session.team_b.players@, 5);
    }
    Ok(session)
}

} // verus!
