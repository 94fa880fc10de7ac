use crate::errors::WagerError;
use crate::state::{GameSession, GameStatus, PlayerId, SPAWNS_PER_PURCHASE};
use vstd::prelude::*;

verus! {

/// The spawn credits left after one death: one less, and never below zero.
pub open spec fn spawns_after_death(spawns: u16) -> u16 {
    if spawns == 0 {
        0u16
    } else {
        (spawns - 1) as u16
    }
}

impl GameSession {
    /// What recording a kill gives: the session after it, or the reason for
    /// which the kill is refused.
    ///
    /// The killer's kill count rises by one and the victim loses one spawn
    /// credit, staying at zero where none is left.
    pub open spec fn kill_outcome(
        self,
        killer_team: u8,
        killer: PlayerId,
        victim_team: u8,
        victim: PlayerId,
    ) -> Result<GameSession, WagerError> {
        let kt = killer_team as int;
        let vt = victim_team as int;
        let k = self.team(kt).slot_of(killer);
        let v = self.team(vt).slot_of(victim);
        if self.status != GameStatus::InProgress {
            Err(WagerError::InvalidState)
        } else if killer_team >= 2 || victim_team >= 2 || killer_team == victim_team {
            Err(WagerError::InvalidTeam)
        } else if k == 5 || v == 5 {
            Err(WagerError::PlayerNotFound)
        } else if self.team(kt).player_kills[k] == u16::MAX {
            Err(WagerError::ArithmeticOverflow)
        } else {
            Ok(
                self.with_team(
                    kt,
                    self.team(kt).with_kills(k, (self.team(kt).player_kills[k] + 1) as u16),
                ).with_team(
                    vt,
                    self.team(vt).with_spawns(v, spawns_after_death(self.team(vt).player_spawns[v])),
                ),
            )
        }
    }

    /// Whether the session's limits stand against selling to a player who
    /// holds `spawns` spawn credits: the player has reached
    /// `max_spawns_per_player`, or the session has taken
    /// `max_purchases_per_session` purchases.
    pub open spec fn limit_reached(self, spawns: u16) -> bool {
        spawns >= self.limits.max_spawns_per_player || self.spawn_purchases
            >= self.limits.max_purchases_per_session
    }

    /// What adding `amount` spawn credits to slot `slot` of team `team`
    /// gives: the session after it, or the reason for which it is refused.
    ///
    /// Credits are sold only in a pay-to-spawn match in progress, to an
    /// occupied slot, and within the session's limits: not to a player who
    /// holds `max_spawns_per_player` credits or more, and not once the
    /// session has taken `max_purchases_per_session` purchases. The limits
    /// look at what the player holds before the sale.
    pub open spec fn spawns_outcome(self, team: u8, slot: usize, amount: u16) -> Result<
        GameSession,
        WagerError,
    > {
        let t = self.team(team as int);
        if self.status != GameStatus::InProgress || !self.game_mode.pay_to_spawn() {
            Err(WagerError::InvalidState)
        } else if team >= 2 {
            Err(WagerError::InvalidTeam)
        } else if slot >= 5 || t.players[slot as int] is None {
            Err(WagerError::PlayerNotFound)
        } else if t.player_spawns[slot as int] + amount > u16::MAX {
            Err(WagerError::ArithmeticOverflow)
        } else if self.limit_reached(t.player_spawns[slot as int]) {
            Err(WagerError::SpawnLimitExceeded)
        } else {
            Ok(
                GameSession {
                    spawn_purchases: (self.spawn_purchases + 1) as u16,
                    ..self.with_team(
                        team as int,
                        t.with_spawns(slot as int, (t.player_spawns[slot as int] + amount) as u16),
                    )
                },
            )
        }
    }

    /// What a spawn purchase by `player` of team `team` gives: the outcome of
    /// adding one purchase's worth of credits to the player's slot.
    pub open spec fn purchase_outcome(self, team: u8, player: PlayerId) -> Result<
        GameSession,
        WagerError,
    > {
        let slot = self.team(team as int).slot_of(player);
        if self.status != GameStatus::InProgress || !self.game_mode.pay_to_spawn() {
            Err(WagerError::InvalidState)
        } else if team >= 2 {
            Err(WagerError::InvalidTeam)
        } else if slot == 5 {
            Err(WagerError::PlayerNotFound)
        } else {
            self.spawns_outcome(team, slot as usize, SPAWNS_PER_PURCHASE)
        }
    }

    /// Kills plus remaining spawns of `player`, looked for in team A and then
    /// in team B.
    pub open spec fn kills_and_spawns_outcome(self, player: PlayerId) -> Result<u32, WagerError> {
        let a = self.team_a.slot_of(player);
        let b = self.team_b.slot_of(player);
        if a < 5 {
            Ok(self.team_a.score(a) as u32)
        } else if b < 5 {
            Ok(self.team_b.score(b) as u32)
        } else {
            Err(WagerError::PlayerNotFound)
        }
    }

    /// Whether `player` is out of the match: in a winner-takes-all session,
    /// a player of either team with no spawn credit left.
    pub open spec fn elimination_outcome(self, player: PlayerId) -> Result<bool, WagerError> {
        let a = self.team_a.slot_of(player);
        let b = self.team_b.slot_of(player);
        if a < 5 {
            Ok(!self.game_mode.pay_to_spawn() && self.team_a.player_spawns[a] == 0)
        } else if b < 5 {
            Ok(!self.game_mode.pay_to_spawn() && self.team_b.player_spawns[b] == 0)
        } else {
            Err(WagerError::PlayerNotFound)
        }
    }

    /// A kill that is recorded keeps the session's invariant.
    pub proof fn lemma_kill_keeps_wf(
        self,
        killer_team: u8,
        killer: PlayerId,
        victim_team: u8,
        victim: PlayerId,
    )
        requires
            self.wf(),
        ensures
            self.kill_outcome(killer_team, killer, victim_team, victim) matches Ok(next)
                ==> next.wf(),
    {
        if let Ok(next) = self.kill_outcome(killer_team, killer, victim_team, victim) {
            self.team(killer_team as int).lemma_slot_of(killer);
            self.team(victim_team as int).lemma_slot_of(victim);
            assert forall|t: int, i: int| next.slot_player(t, i) == self.slot_player(t, i) by {}
        }
    }

    /// A sale of spawn credits keeps the session's invariant.
    pub proof fn lemma_spawns_keep_wf(self, team: u8, slot: usize, amount: u16)
        requires
            self.wf(),
        ensures
            self.spawns_outcome(team, slot, amount) matches Ok(next) ==> next.wf(),
    {
        if let Ok(next) = self.spawns_outcome(team, slot, amount) {
            assert forall|t: int, i: int| next.slot_player(t, i) == self.slot_player(t, i) by {}
        }
    }

    /// Records that `killer` of team `killer_team` killed `victim` of team
    /// `victim_team`.
    ///
    /// The match has to be in progress and the two teams have to differ. The
    /// killer's kill count rises by one; the victim loses one spawn credit
    /// and stays at zero where none is left. A refused kill (`InvalidState`,
    /// `InvalidTeam`, `PlayerNotFound`, `ArithmeticOverflow`) changes nothing.
    pub fn add_kill(
        &mut self,
        killer_team: u8,
        killer: PlayerId,
        victim_team: u8,
        victim: PlayerId,
    ) -> (r: Result<(), WagerError>)
        ensures
            match old(self).kill_outcome(killer_team, killer, victim_team, victim) {
                Ok(next) => r is Ok && *final(self) == next,
                Err(e) => r == Err::<(), WagerError>(e) && *final(self) == *old(self),
            },
            old(self).wf() ==> final(self).wf(),
    {
        proof {
            if old(self).wf() {
                old(self).lemma_kill_keeps_wf(killer_team, killer, victim_team, victim);
            }
            old(self).team(killer_team as int).lemma_slot_of(killer);
            old(self).team(victim_team as int).lemma_slot_of(victim);
        }
        if self.status != GameStatus::InProgress {
            return Err(WagerError::InvalidState);
        }
        if killer_team >= 2 || victim_team >= 2 || killer_team == victim_team {
            return Err(WagerError::InvalidTeam);
        }
        let killer_slot = match self.get_player_index(killer_team, killer) {
            Ok(slot) => slot,
            Err(e) => {
                return Err(e);
            },
        };
        let victim_slot = match self.get_player_index(victim_team, victim) {
            Ok(slot) => slot,
            Err(e) => {
                return Err(e);
            },
        };
        if killer_team == 0 {
            let kills = match self.team_a.player_kills[killer_slot].checked_add(1) {
                Some(kills) => kills,
                None => {
                    return Err(WagerError::ArithmeticOverflow);
                },
            };
            let spawns = self.team_b.player_spawns[victim_slot].saturating_sub(1);
            self.team_a.player_kills[killer_slot] = kills;
            self.team_b.player_spawns[victim_slot] = spawns;
        } else {
            let kills = match self.team_b.player_kills[killer_slot].checked_add(1) {
                Some(kills) => kills,
                None => {
                    return Err(WagerError::ArithmeticOverflow);
                },
            };
            let spawns = self.team_a.player_spawns[victim_slot].saturating_sub(1);
            self.team_b.player_kills[killer_slot] = kills;
            self.team_a.player_spawns[victim_slot] = spawns;
        }
        Ok(())
    }

    /// Adds `amount` spawn credits to slot `player_index` of team `team`.
    ///
    /// Credits are sold only in a pay-to-spawn match in progress, to an
    /// occupied slot, and within the session's limits: a player who holds
    /// `max_spawns_per_player` credits or more is sold none, and nobody is
    /// once the session has taken `max_purchases_per_session` purchases. A
    /// refused sale (`InvalidState`, `InvalidTeam`, `PlayerNotFound`,
    /// `ArithmeticOverflow`, `SpawnLimitExceeded`) changes nothing.
    pub fn add_spawns(&mut self, team: u8, player_index: usize, amount: u16) -> (r: Result<
        (),
        WagerError,
    >)
        ensures
            match old(self).spawns_outcome(team, player_index, amount) {
                Ok(next) => r is Ok && *final(self) == next,
                Err(e) => r == Err::<(), WagerError>(e) && *final(self) == *old(self),
            },
            old(self).wf() ==> final(self).wf(),
    {
        proof {
            if old(self).wf() {
                old(self).lemma_spawns_keep_wf(team, player_index, amount);
            }
        }
        if self.status != GameStatus::InProgress || !self.game_mode.is_pay_to_spawn() {
            return Err(WagerError::InvalidState);
        }
        if team >= 2 {
            return Err(WagerError::InvalidTeam);
        }
        if player_index >= 5 {
            return Err(WagerError::PlayerNotFound);
        }
        let (occupied, current) = if team == 0 {
            (self.team_a.players[player_index].is_some(), self.team_a.player_spawns[player_index])
        } else {
            (self.team_b.players[player_index].is_some(), self.team_b.player_spawns[player_index])
        };
        if !occupied {
            return Err(WagerError::PlayerNotFound);
        }
        let spawns = match current.checked_add(amount) {
            Some(spawns) => spawns,
            None => {
                return Err(WagerError::ArithmeticOverflow);
            },
        };
        if current >= self.limits.max_spawns_per_player || self.spawn_purchases
            >= self.limits.max_purchases_per_session {
            return Err(WagerError::SpawnLimitExceeded);
        }
        if team == 0 {
            self.team_a.player_spawns[player_index] = spawns;
        } else {
            self.team_b.player_spawns[player_index] = spawns;
        }
        self.spawn_purchases = self.spawn_purchases + 1;
        Ok(())
    }

    /// Whether `player` is out of the match: in a winner-takes-all session,
    /// a player with no spawn credit left. In a pay-to-spawn session nobody
    /// is, as credits can be bought back.
    ///
    /// Fails with `PlayerNotFound` where neither team holds the player.
    pub fn is_eliminated(&self, player: PlayerId) -> (r: Result<bool, WagerError>)
        ensures
            r == self.elimination_outcome(player),
    {
        let winner_takes_all = !self.game_mode.is_pay_to_spawn();
        match self.team_a.find_player(player) {
            Some(slot) => {
                return Ok(winner_takes_all && self.team_a.player_spawns[slot] == 0);
            },
            None => {},
        }
        match self.team_b.find_player(player) {
            Some(slot) => Ok(winner_takes_all && self.team_b.player_spawns[slot] == 0),
            None => Err(WagerError::PlayerNotFound),
        }
    }

    /// Kills plus remaining spawns of `player`, whichever team holds them.
    ///
    /// Fails with `PlayerNotFound` where neither team does.
    pub fn get_kills_and_spawns(&self, player: PlayerId) -> (r: Result<u32, WagerError>)
        ensures
            r == self.kills_and_spawns_outcome(player),
    {
        match self.team_a.find_player(player) {
            Some(slot) => {
                return Ok(
                    self.team_a.player_kills[slot] as u32 + self.team_a.player_spawns[slot] as u32,
                );
            },
            None => {},
        }
        match self.team_b.find_player(player) {
            Some(slot) => Ok(
                self.team_b.player_kills[slot] as u32 + self.team_b.player_spawns[slot] as u32,
            ),
            None => Err(WagerError::PlayerNotFound),
        }
    }
}

/// Records that `killer` of team `killer_team` killed `victim` of team
/// `victim_team`: see [`GameSession::add_kill`].
pub fn record_kill(
    session: &mut GameSession,
    killer_team: u8,
    killer: PlayerId,
    victim_team: u8,
    victim: PlayerId,
) -> (r: Result<(), WagerError>)
    ensures
        match old(session).kill_outcome(killer_team, killer, victim_team, victim) {
            Ok(next) => r is Ok && *final(session) == next,
            Err(e) => r == Err::<(), WagerError>(e) && *final(session) == *old(session),
        },
        old(session).wf() ==> final(session).wf(),
{
    session.add_kill(killer_team, killer, victim_team, victim)
}

/// Sells `player` of team `team` one purchase's worth of spawn credits.
///
/// The match has to be a pay-to-spawn match in progress, the player has to
/// hold fewer credits than `max_spawns_per_player`, and the session has to
/// have taken fewer purchases than `max_purchases_per_session`. A refused
/// purchase (`InvalidState`,
/// `InvalidTeam`, `PlayerNotFound`, `ArithmeticOverflow`,
/// `SpawnLimitExceeded`) changes nothing.
pub fn pay_to_spawn(session: &mut GameSession, team: u8, player: PlayerId) -> (r: Result<
    (),
    WagerError,
>)
    ensures
        match old(session).purchase_outcome(team, player) {
            Ok(next) => r is Ok && *final(session) == next,
            Err(e) => r == Err::<(), WagerError>(e) && *final(session) == *old(session),
        },
        old(session).wf() ==> final(session).wf(),
{
    if session.status != GameStatus::InProgress || !session.game_mode.is_pay_to_spawn() {
        return Err(WagerError::InvalidState);
    }
    let slot = match session.get_player_index(team, player) {
        Ok(slot) => slot,
        Err(e) => {
            return Err(e);
        },
    };
    proof {
        session.team(team as int).lemma_slot_of(player);
    }
    session.add_spawns(team, slot, SPAWNS_PER_PURCHASE)
}

} // verus!
