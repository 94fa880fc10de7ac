use crate::errors::WagerError;
use crate::lifecycle::bet_accepted;
use crate::payout::{
    lemma_equal_split_total, lemma_proportional_split_total, total_amount, Payout,
};
use crate::settlement::{lemma_refunds_sum, lemma_taken_len};
use crate::state::{
    GameSession, GameStatus, Limits, PlayerId, MAX_SUPPORTED_BET, SPAWNS_PER_PURCHASE,
};
use vstd::prelude::*;

verus! {

/// One request against a session.
#[derive(Clone, Copy, Debug)]
pub enum Operation {
    Join { team: u8, player: PlayerId },
    Kill { killer_team: u8, killer: PlayerId, victim_team: u8, victim: PlayerId },
    Purchase { team: u8, player: PlayerId },
    Settle { winning_team: u8, vault_balance: u64 },
    Refund { vault_balance: u64 },
}

impl GameSession {
    /// The session after the request `op`: as the operation leaves it where
    /// it is accepted, and unchanged where it is refused.
    pub open spec fn after(self, op: Operation) -> GameSession {
        match op {
            Operation::Join { team, player } => match self.join_outcome(team, player) {
                Ok((next, _)) => next,
                Err(_) => self,
            },
            Operation::Kill { killer_team, killer, victim_team, victim } => match self.kill_outcome(
                killer_team,
                killer,
                victim_team,
                victim,
            ) {
                Ok(next) => next,
                Err(_) => self,
            },
            Operation::Purchase { team, player } => match self.purchase_outcome(team, player) {
                Ok(next) => next,
                Err(_) => self,
            },
            Operation::Settle { winning_team, vault_balance } => match self.settlement_outcome(
                winning_team,
                vault_balance,
            ) {
                Ok((next, _)) => next,
                Err(_) => self,
            },
            Operation::Refund { vault_balance } => match self.refund_outcome(vault_balance) {
                Ok((next, _)) => next,
                Err(_) => self,
            },
        }
    }

    /// The session after the requests `ops`, one after the other.
    pub open spec fn after_all(self, ops: Seq<Operation>) -> GameSession
        decreases ops.len(),
    {
        if ops.len() == 0 {
            self
        } else {
            self.after_all(ops.drop_last()).after(ops.last())
        }
    }

    /// Whether the lifecycle allows a session in this state to be found in
    /// state `next` later: a session waits, then is in progress, then is
    /// completed, or is refunded while it still waits.
    pub open spec fn may_become(self, next: GameStatus) -> bool {
        match self.status {
            GameStatus::WaitingForPlayers => next != GameStatus::Completed,
            GameStatus::InProgress => next == GameStatus::InProgress || next
                == GameStatus::Completed,
            GameStatus::Completed => next == GameStatus::Completed,
            GameStatus::Refunded => next == GameStatus::Refunded,
        }
    }
}

/// Every operation keeps the invariant of a session: no player in two
/// slots, each team's total at one stake per player, unused slots free, and
/// the match started exactly if both teams are full.
pub proof fn law_operation_keeps_invariant(session: GameSession, op: Operation)
    requires
        session.wf(),
    ensures
        session.after(op).wf(),
{
    match op {
        Operation::Join { team, player } => {
            session.lemma_join_keeps_wf(team, player);
        },
        Operation::Kill { killer_team, killer, victim_team, victim } => {
            session.lemma_kill_keeps_wf(killer_team, killer, victim_team, victim);
        },
        Operation::Purchase { team, player } => {
            let slot = session.team(team as int).slot_of(player);
            session.team(team as int).lemma_slot_of(player);
            if session.purchase_outcome(team, player) is Ok {
                session.lemma_spawns_keep_wf(team, slot as usize, SPAWNS_PER_PURCHASE);
            }
        },
        Operation::Settle { winning_team, vault_balance } => {
            if session.settlement_outcome(winning_team, vault_balance) is Ok {
                session.lemma_status_keeps_wf(GameStatus::Completed);
            }
        },
        Operation::Refund { vault_balance } => {
            if session.refund_outcome(vault_balance) is Ok {
                session.lemma_status_keeps_wf(GameStatus::Refunded);
            }
        },
    }
}

/// Whatever requests a session sees, in whatever order, its invariant holds
/// after each of them.
pub proof fn law_operations_keep_invariant(session: GameSession, ops: Seq<Operation>)
    requires
        session.wf(),
    ensures
        session.after_all(ops).wf(),
    decreases ops.len(),
{
    if ops.len() > 0 {
        law_operations_keep_invariant(session, ops.drop_last());
        law_operation_keeps_invariant(session.after_all(ops.drop_last()), ops.last());
    }
}

/// In a session that meets its invariant, a player holds one slot at most,
/// over both teams.
pub proof fn law_one_slot_per_player(
    session: GameSession,
    player: PlayerId,
    t1: int,
    i1: int,
    t2: int,
    i2: int,
)
    requires
        session.wf(),
        0 <= t1 < 2 && 0 <= i1 < 5,
        0 <= t2 < 2 && 0 <= i2 < 5,
        session.slot_player(t1, i1) == Some(player),
        session.slot_player(t2, i2) == Some(player),
    ensures
        t1 == t2 && i1 == i2,
{
}

/// A player who has joined cannot join again, in either team: the second
/// join is refused and leaves the session as the first left it.
pub proof fn law_no_second_join(session: GameSession, team: u8, again: u8, player: PlayerId)
    requires
        session.join_outcome(team, player) is Ok,
    ensures
        session.after(Operation::Join { team, player }).join_outcome(again, player) is Err,
        session.after(Operation::Join { team, player }).after(Operation::Join { team: again, player })
            == session.after(Operation::Join { team, player }),
{
    let next = session.after(Operation::Join { team, player });
    let size = session.game_mode.team_size();
    let slot = session.team(team as int).free_slot(size);
    session.team(team as int).lemma_free_slot_from(size, 0);
    assert(next.team(team as int).players[slot] == Some(player));
}

/// No operation moves a session against its lifecycle: a session waits,
/// then is in progress, then is completed, or is refunded while it still
/// waits; and a completed or refunded session does not change any more.
pub proof fn law_lifecycle_one_way(session: GameSession, op: Operation)
    ensures
        session.may_become(session.after(op).status),
        session.status == GameStatus::Completed || session.status == GameStatus::Refunded
            ==> session.after(op) == session,
{
}

/// No operation changes the terms that a session was created under: its
/// identifier, its authority, the stake, the mode, the time of creation and
/// the limits stay as they are.
pub proof fn law_terms_never_change(session: GameSession, op: Operation)
    ensures
        session.after(op).session_id == session.session_id,
        session.after(op).authority == session.authority,
        session.after(op).session_bet == session.session_bet,
        session.after(op).game_mode == session.game_mode,
        session.after(op).created_at == session.created_at,
        session.after(op).limits == session.limits,
{
}

/// Once a match has started nobody joins or leaves it: every operation
/// keeps the players and the stakes of both teams as they are.
pub proof fn law_teams_settled_after_start(session: GameSession, op: Operation)
    requires
        session.started(),
    ensures
        session.after(op).team_a.players == session.team_a.players,
        session.after(op).team_b.players == session.team_b.players,
        session.after(op).team_a.total_bet == session.team_a.total_bet,
        session.after(op).team_b.total_bet == session.team_b.total_bet,
{
}

/// In a pay-to-spawn match in progress, a player of the match is sold a
/// purchase's worth of spawn credits exactly if the player holds fewer
/// credits than the limit per player and the session has taken fewer
/// purchases than its limit; the session then counts one purchase more.
/// Where a limit is reached the purchase fails with `SpawnLimitExceeded`.
pub proof fn law_purchase_allowed_below_limits(session: GameSession, team: u8, player: PlayerId)
    requires
        session.status == GameStatus::InProgress,
        session.game_mode.pay_to_spawn(),
        team < 2,
        session.team(team as int).holds(player),
        session.team(team as int).player_spawns[session.team(team as int).slot_of(player)]
            + SPAWNS_PER_PURCHASE <= u16::MAX,
    ensures
        ({
            let held = session.team(team as int).player_spawns[session.team(team as int).slot_of(
                player,
            )];
            let below = held < session.limits.max_spawns_per_player && session.spawn_purchases
                < session.limits.max_purchases_per_session;
            &&& below ==> session.purchase_outcome(team, player) is Ok
            &&& below ==> session.after(Operation::Purchase { team, player }).team(
                team as int,
            ).player_spawns[session.team(team as int).slot_of(player)] == held
                + SPAWNS_PER_PURCHASE
            &&& below ==> session.after(Operation::Purchase { team, player }).spawn_purchases
                == session.spawn_purchases + 1
            &&& !below ==> session.purchase_outcome(team, player) == Err::<
                GameSession,
                WagerError,
            >(WagerError::SpawnLimitExceeded)
        }),
{
    session.team(team as int).lemma_slot_of(player);
}

/// A kill never adds a spawn credit, and takes none where none is left: the
/// victim of a recorded kill has one credit less, or stays at zero.
pub proof fn law_kill_saturates_at_zero(
    session: GameSession,
    killer_team: u8,
    killer: PlayerId,
    victim_team: u8,
    victim: PlayerId,
)
    requires
        session.kill_outcome(killer_team, killer, victim_team, victim) is Ok,
    ensures
        ({
            let next = session.kill_outcome(killer_team, killer, victim_team, victim)->Ok_0;
            let v = session.team(victim_team as int).slot_of(victim);
            let before = session.team(victim_team as int).player_spawns[v];
            let after = next.team(victim_team as int).player_spawns[v];
            &&& 0 <= v < 5
            &&& before == 0 ==> after == 0
            &&& before > 0 ==> after == before - 1
            &&& forall|t: int, i: int|
                0 <= t < 2 && 0 <= i < 5 && !(t == victim_team && i == v) ==> next.team(
                    t,
                ).player_spawns[i] == session.team(t).player_spawns[i]
        }),
{
    session.team(victim_team as int).lemma_slot_of(victim);
    session.team(killer_team as int).lemma_slot_of(killer);
}

/// Whether every request of `ops` is a kill.
pub open spec fn only_kills(ops: Seq<Operation>) -> bool {
    forall|k: int| 0 <= k < ops.len() ==> ops[k] is Kill
}

/// Whatever kills a session sees, in whatever order, no spawn count rises or
/// drops below zero, and the players stay where they are.
pub proof fn law_kills_never_raise_spawns(session: GameSession, ops: Seq<Operation>)
    requires
        only_kills(ops),
    ensures
        forall|t: int, i: int|
            0 <= t < 2 && 0 <= i < 5 ==> 0 <= #[trigger] session.after_all(ops).team(
                t,
            ).player_spawns[i] <= session.team(t).player_spawns[i],
        session.after_all(ops).team_a.players == session.team_a.players,
        session.after_all(ops).team_b.players == session.team_b.players,
    decreases ops.len(),
{
    if ops.len() > 0 {
        let before = session.after_all(ops.drop_last());
        law_kills_never_raise_spawns(session, ops.drop_last());
        match ops.last() {
            Operation::Kill { killer_team, killer, victim_team, victim } => {
                if before.kill_outcome(killer_team, killer, victim_team, victim) is Ok {
                    law_kill_saturates_at_zero(before, killer_team, killer, victim_team, victim);
                    let next = before.after(ops.last());
                    assert forall|t: int, i: int| 0 <= t < 2 && 0 <= i < 5 implies 0
                        <= #[trigger] next.team(t).player_spawns[i] <= session.team(
                        t,
                    ).player_spawns[i] by {}
                }
            },
            _ => {},
        }
    }
}

/// In a session that meets its invariant, each team's players are as many
/// as its occupied slots, so the pot fits the amount type and a match that
/// has started has players in both teams.
pub proof fn lemma_pot_and_players(session: GameSession)
    requires
        session.wf(),
    ensures
        session.pot() <= u64::MAX,
        session.refund_total() == session.pot(),
        session.all_players().len() <= 10,
        session.started() ==> session.team_a.members().len() > 0 && session.team_b.members().len()
            > 0,
{
    let bet = session.session_bet as int;
    let a = session.team_a.occupied_count() as int;
    let b = session.team_b.occupied_count() as int;
    lemma_taken_len(session.team_a.players@, 5);
    lemma_taken_len(session.team_b.players@, 5);
    session.team_a.lemma_occupied_bound(5);
    session.team_b.lemma_occupied_bound(5);
    assert(bet * a + bet * b == bet * (a + b)) by (nonlinear_arith);
    assert(bet * (a + b) <= 10 * MAX_SUPPORTED_BET) by (nonlinear_arith)
        requires
            0 <= bet <= MAX_SUPPORTED_BET,
            0 <= a + b <= 10,
    ;
    if session.started() {
        let size = session.game_mode.team_size();
        session.team_a.lemma_full(size);
        session.team_b.lemma_full(size);
        session.team_a.lemma_first_counts(5);
        session.team_b.lemma_first_counts(5);
    }
}

/// Winner-takes-all settlement neither creates nor destroys value: what it
/// pays out comes to the stakes of both teams exactly.
pub proof fn law_winnings_conserve_pot(session: GameSession, winning_team: u8, vault_balance: u64)
    requires
        session.winnings_outcome(winning_team, vault_balance) is Ok,
    ensures
        total_amount(session.winnings_outcome(winning_team, vault_balance)->Ok_0.1)
            == session.team_a.total_bet + session.team_b.total_bet,
{
    lemma_equal_split_total(session.team(winning_team as int).members(), session.pot() as u64);
}

/// Pay-to-spawn settlement hands out the whole pot, however kills and
/// spawns are spread over the players.
pub proof fn law_earnings_conserve_pot(session: GameSession, vault_balance: u64)
    requires
        session.earnings_outcome(vault_balance) is Ok,
    ensures
        total_amount(session.earnings_outcome(vault_balance)->Ok_0.1) == session.team_a.total_bet
            + session.team_b.total_bet,
{
    lemma_proportional_split_total(session.standings(), session.pot() as u64);
}

/// A match in progress is settled exactly if the vault covers the pot: with
/// less in it settlement fails with `InsufficientVaultBalance`, and with
/// the pot in it settlement goes through.
pub proof fn law_settlement_needs_covered_pot(
    session: GameSession,
    winning_team: u8,
    vault_balance: u64,
)
    requires
        session.wf(),
        session.status == GameStatus::InProgress,
        session.game_mode.pay_to_spawn() || winning_team < 2,
    ensures
        vault_balance < session.pot() ==> session.settlement_outcome(winning_team, vault_balance)
            == Err::<(GameSession, Seq<Payout>), WagerError>(WagerError::InsufficientVaultBalance),
        vault_balance >= session.pot() ==> session.settlement_outcome(winning_team, vault_balance)
            is Ok,
{
    lemma_pot_and_players(session);
    session.team_a.lemma_standings_len(5);
    session.team_b.lemma_standings_len(5);
}

/// A session that waits for players is refunded exactly if the vault covers
/// all stakes: with less in it the refund fails with
/// `InsufficientVaultBalance`, and with the stakes in it the refund goes
/// through.
pub proof fn law_refund_needs_covered_stakes(session: GameSession, vault_balance: u64)
    requires
        session.wf(),
        session.status == GameStatus::WaitingForPlayers,
    ensures
        vault_balance < session.refund_total() ==> session.refund_outcome(vault_balance) == Err::<
            (GameSession, Seq<Payout>),
            WagerError,
        >(WagerError::InsufficientVaultBalance),
        vault_balance >= session.refund_total() ==> session.refund_outcome(vault_balance) is Ok,
{
    lemma_pot_and_players(session);
}

/// A refund pays each player one stake, which comes to what the refund
/// takes from the vault.
pub proof fn law_refund_returns_stakes(session: GameSession, vault_balance: u64)
    requires
        session.refund_outcome(vault_balance) is Ok,
    ensures
        total_amount(session.refund_outcome(vault_balance)->Ok_0.1) == session.refund_total(),
        forall|i: int|
            0 <= i < session.all_players().len() ==> (#[trigger] session.refund_outcome(
                vault_balance,
            )->Ok_0.1[i]) == (Payout {
                recipient: session.all_players()[i],
                amount: session.session_bet,
            }),
{
    let players = session.all_players();
    lemma_refunds_sum(players, session.session_bet, players.len() as int);
    assert(players.len() * session.session_bet == session.session_bet * players.len())
        by (nonlinear_arith);
}

/// A session is refunded once at most: after a refund, every further refund
/// fails with `AlreadySettled`, whatever the vault holds.
pub proof fn law_refund_only_once(session: GameSession, vault_balance: u64, later_balance: u64)
    requires
        session.refund_outcome(vault_balance) is Ok,
    ensures
        session.refund_outcome(vault_balance)->Ok_0.0.refund_outcome(later_balance) == Err::<
            (GameSession, Seq<Payout>),
            WagerError,
        >(WagerError::AlreadySettled),
{
}

/// A session that has started cannot be refunded: in progress or completed,
/// the refund fails with `InvalidState`.
pub proof fn law_no_refund_after_start(session: GameSession, vault_balance: u64)
    requires
        session.started(),
    ensures
        session.refund_outcome(vault_balance) == Err::<(GameSession, Seq<Payout>), WagerError>(
            WagerError::InvalidState,
        ),
{
}

/// No limits make a stake of zero acceptable, nor one above the configured
/// maximum, nor one so large that the stakes of two full teams would not fit
/// the amount type.
pub proof fn law_absurd_bets_refused(bet: u64, limits: Limits)
    ensures
        bet == 0 ==> !bet_accepted(bet, limits),
        bet > limits.max_bet ==> !bet_accepted(bet, limits),
        bet < limits.min_bet ==> !bet_accepted(bet, limits),
        bet > MAX_SUPPORTED_BET ==> !bet_accepted(bet, limits),
        !bet_accepted(u64::MAX, limits),
{
}

} // verus!
