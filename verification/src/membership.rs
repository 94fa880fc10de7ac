use crate::errors::WagerError;
use crate::state::{GameSession, GameStatus, PlayerId, Team, MAX_SUPPORTED_BET, STARTING_SPAWNS};
use vstd::prelude::*;

verus! {

impl Team {
    /// `slot_of_from` gives the lowest slot at or after `from` that the player
    /// holds, and 5 exactly where there is none.
    pub proof fn lemma_slot_of_from(self, player: PlayerId, from: int)
        requires
            0 <= from <= 5,
        ensures
            from <= self.slot_of_from(player, from) <= 5,
            self.slot_of_from(player, from) < 5 ==> self.players[self.slot_of_from(player, from)]
                == Some(player),
            forall|j: int|
                from <= j < self.slot_of_from(player, from) ==> self.players[j] != Some(player),
        decreases 5 - from,
    {
        if from < 5 && self.players[from] != Some(player) {
            self.lemma_slot_of_from(player, from + 1);
        }
    }

    /// `slot_of` is below 5 exactly for the players that the team holds, and
    /// is then the lowest slot of the player.
    pub proof fn lemma_slot_of(self, player: PlayerId)
        ensures
            0 <= self.slot_of(player) <= 5,
            self.slot_of(player) < 5 <==> self.holds(player),
            self.slot_of(player) < 5 ==> self.is_first_slot_of(player, self.slot_of(player)),
    {
        self.lemma_slot_of_from(player, 0);
    }

    /// `free_slot_from` gives the lowest free slot at or after `from` below
    /// `size`, and `size` exactly where there is none.
    pub proof fn lemma_free_slot_from(self, size: int, from: int)
        requires
            0 <= from <= size <= 5,
        ensures
            from <= self.free_slot_from(size, from) <= size,
            self.free_slot_from(size, from) < size ==> self.players[self.free_slot_from(
                size,
                from,
            )] is None,
            forall|j: int| from <= j < self.free_slot_from(size, from) ==> self.players[j] is Some,
        decreases size - from,
    {
        if from < size && self.players[from] is Some {
            self.lemma_free_slot_from(size, from + 1);
        }
    }

    /// A team is full below `size` exactly if each of its first `size` slots
    /// is taken.
    pub proof fn lemma_full(self, size: int)
        requires
            0 <= size <= 5,
        ensures
            self.full(size) <==> (forall|j: int| 0 <= j < size ==> self.players[j] is Some),
    {
        self.lemma_free_slot_from(size, 0);
    }

    /// The lowest slot that `player` holds, if any.
    pub fn find_player(&self, player: PlayerId) -> (r: Option<usize>)
        ensures
            match r {
                Some(i) => i < 5 && i == self.slot_of(player),
                None => self.slot_of(player) == 5,
            },
    {
        let mut i: usize = 0;
        while i < 5
            invariant
                i <= 5,
                self.slot_of_from(player, i as int) == self.slot_of(player),
            decreases 5 - i,
        {
            match self.players[i] {
                Some(p) => {
                    if p == player {
                        return Some(i);
                    }
                },
                None => {},
            }
            i = i + 1;
        }
        None
    }

    /// The lowest free slot among the first `size`, if any; none where
    /// `size` is more than the team has slots.
    pub fn find_free_slot(&self, size: usize) -> (r: Option<usize>)
        ensures
            match r {
                Some(i) => i < size && i < 5 && i == self.free_slot(size as int),
                None => self.free_slot(size as int) == size,
            },
    {
        if size > 5 {
            return None;
        }
        let mut i: usize = 0;
        while i < size
            invariant
                i <= size <= 5,
                self.free_slot_from(size as int, i as int) == self.free_slot(size as int),
            decreases size - i,
        {
            if self.players[i].is_none() {
                return Some(i);
            }
            i = i + 1;
        }
        None
    }

    /// Appends the team's players to `out`, in slot order.
    pub fn collect_members(&self, out: &mut Vec<PlayerId>)
        ensures
            final(out)@ == old(out)@ + self.members(),
    {
        let mut i: usize = 0;
        while i < 5
            invariant
                i <= 5,
                out@ == old(out)@ + self.members_upto(i as int),
            decreases 5 - i,
        {
            match self.players[i] {
                Some(p) => {
                    out.push(p);
                },
                None => {},
            }
            i = i + 1;
        }
    }
}

impl Team {
    /// Seating a player in a free slot raises the count of occupied slots by
    /// one.
    pub proof fn lemma_seat_counts(
        self,
        slot: int,
        player: PlayerId,
        stake: u64,
        spawns: u16,
        n: int,
    )
        requires
            0 <= slot < 5,
            self.players[slot] is None,
            0 <= n <= 5,
        ensures
            self.seat(slot, player, stake, spawns).occupied_upto(n) == self.occupied_upto(n) + (if slot
                < n {
                1nat
            } else {
                0nat
            }),
        decreases n,
    {
        if n > 0 {
            self.lemma_seat_counts(slot, player, stake, spawns, n - 1);
        }
    }

    /// At most `n` of the first `n` slots are occupied.
    pub proof fn lemma_occupied_bound(self, n: int)
        requires
            0 <= n <= 5,
        ensures
            self.occupied_upto(n) <= n,
        decreases n,
    {
        if n > 0 {
            self.lemma_occupied_bound(n - 1);
        }
    }
}

impl GameSession {
    /// What looking for a free slot in team `team` gives: the lowest free
    /// slot among those that the mode uses.
    pub open spec fn empty_slot_outcome(self, team: u8) -> Result<usize, WagerError> {
        let size = self.game_mode.team_size();
        let slot = self.team(team as int).free_slot(size);
        if team >= 2 {
            Err(WagerError::InvalidTeam)
        } else if slot == size {
            Err(WagerError::TeamFull)
        } else {
            Ok(slot as usize)
        }
    }

    /// What looking for `player` in team `team` gives: the lowest slot that
    /// the player holds there.
    pub open spec fn player_index_outcome(self, team: u8, player: PlayerId) -> Result<
        usize,
        WagerError,
    > {
        let slot = self.team(team as int).slot_of(player);
        if team >= 2 {
            Err(WagerError::InvalidTeam)
        } else if slot == 5 {
            Err(WagerError::PlayerNotFound)
        } else {
            Ok(slot as usize)
        }
    }

    /// The players of team A and then those of team B, each in slot order.
    pub open spec fn all_players(self) -> Seq<PlayerId> {
        self.team_a.members() + self.team_b.members()
    }

    /// The session after `player` takes slot `slot` of team `team`: the stake
    /// is added to the team's total, the player starts with the mode's spawn
    /// allotment and no kill, and the match begins if that filled both teams.
    pub open spec fn seated(self, team: int, slot: int, player: PlayerId) -> GameSession {
        let joined = self.with_team(
            team,
            self.team(team).seat(slot, player, self.session_bet, STARTING_SPAWNS),
        );
        if joined.all_filled() {
            joined.with_status(GameStatus::InProgress)
        } else {
            joined
        }
    }

    /// What a join of `player` to team `team` gives: the session after it and
    /// the slot taken, or the reason for which it is refused.
    pub open spec fn join_outcome(self, team: u8, player: PlayerId) -> Result<
        (GameSession, usize),
        WagerError,
    > {
        let size = self.game_mode.team_size();
        let slot = self.team(team as int).free_slot(size);
        if self.status != GameStatus::WaitingForPlayers {
            Err(WagerError::InvalidState)
        } else if team >= 2 {
            Err(WagerError::InvalidTeam)
        } else if slot == size {
            Err(WagerError::TeamFull)
        } else if self.holds(player) {
            Err(WagerError::DuplicatePlayer)
        } else if self.team(team as int).total_bet + self.session_bet > u64::MAX {
            Err(WagerError::ArithmeticOverflow)
        } else {
            Ok((self.seated(team as int, slot, player), slot as usize))
        }
    }

    /// A join that is accepted keeps the session's invariant, and on a
    /// session that meets it no join fails on arithmetic.
    pub proof fn lemma_join_keeps_wf(self, team: u8, player: PlayerId)
        requires
            self.wf(),
        ensures
            self.join_outcome(team, player) matches Ok((next, slot)) ==> next.wf(),
            self.join_outcome(team, player) != Err::<(GameSession, usize), WagerError>(
                WagerError::ArithmeticOverflow,
            ),
    {
        let size = self.game_mode.team_size();
        let t = team as int;
        let old_team = self.team(t);
        let slot = old_team.free_slot(size);
        old_team.lemma_occupied_bound(5);
        assert(self.session_bet * old_team.occupied_count() <= 5 * MAX_SUPPORTED_BET) by (nonlinear_arith)
            requires
                0 <= self.session_bet <= MAX_SUPPORTED_BET,
                0 <= old_team.occupied_count() <= 5,
        ;
        if self.join_outcome(team, player) is Ok {
            old_team.lemma_free_slot_from(size, 0);
            self.team_a.lemma_slot_of(player);
            self.team_b.lemma_slot_of(player);
            let new_team = old_team.seat(slot, player, self.session_bet, STARTING_SPAWNS);
            let next = self.seated(t, slot, player);
            old_team.lemma_seat_counts(slot, player, self.session_bet, STARTING_SPAWNS, 5);
            assert(new_team.total_bet == self.session_bet * new_team.occupied_count())
                by (nonlinear_arith)
                requires
                    new_team.total_bet == old_team.total_bet + self.session_bet,
                    old_team.total_bet == self.session_bet * old_team.occupied_count(),
                    new_team.occupied_count() == old_team.occupied_count() + 1,
            ;
            assert forall|k: int, i: int| 0 <= k < 2 && 0 <= i < 5 implies #[trigger] next.slot_player(
                k,
                i,
            ) == (if k == t && i == slot {
                Some(player)
            } else {
                self.slot_player(k, i)
            }) by {}
            assert forall|k: int, i: int| 0 <= k < 2 && 0 <= i < 5 implies #[trigger] self.slot_player(
                k,
                i,
            ) != Some(player) by {
                if k == 0 {
                    self.team_a.lemma_slot_of_from(player, 0);
                } else {
                    self.team_b.lemma_slot_of_from(player, 0);
                }
            }
        }
    }
}

impl GameSession {
    /// The lowest free slot of team `team` among those that the mode uses.
    ///
    /// Fails with `InvalidTeam` where `team` is not 0 or 1, and with
    /// `TeamFull` where every such slot is taken.
    pub fn get_player_empty_slot(&self, team: u8) -> (r: Result<usize, WagerError>)
        ensures
            r == self.empty_slot_outcome(team),
            r matches Ok(slot) ==> slot < self.game_mode.team_size() && self.team(
                team as int,
            ).players[slot as int] is None,
    {
        proof {
            self.team(team as int).lemma_free_slot_from(self.game_mode.team_size(), 0);
        }
        let size = self.game_mode.players_per_team();
        let found = if team == 0 {
            self.team_a.find_free_slot(size)
        } else if team == 1 {
            self.team_b.find_free_slot(size)
        } else {
            return Err(WagerError::InvalidTeam);
        };
        match found {
            Some(slot) => Ok(slot),
            None => Err(WagerError::TeamFull),
        }
    }

    /// The lowest slot of team `team` that `player` holds.
    ///
    /// Fails with `InvalidTeam` where `team` is not 0 or 1, and with
    /// `PlayerNotFound` where the player holds no slot of that team.
    pub fn get_player_index(&self, team: u8, player: PlayerId) -> (r: Result<usize, WagerError>)
        ensures
            r == self.player_index_outcome(team, player),
            r matches Ok(slot) ==> self.team(team as int).is_first_slot_of(player, slot as int),
    {
        proof {
            self.team(team as int).lemma_slot_of(player);
        }
        let found = if team == 0 {
            self.team_a.find_player(player)
        } else if team == 1 {
            self.team_b.find_player(player)
        } else {
            return Err(WagerError::InvalidTeam);
        };
        match found {
            Some(slot) => Ok(slot),
            None => Err(WagerError::PlayerNotFound),
        }
    }

    /// The players of team A and then those of team B, each in slot order.
    pub fn get_all_players(&self) -> (players: Vec<PlayerId>)
        ensures
            players@ == self.all_players(),
    {
        let mut players: Vec<PlayerId> = Vec::new();
        self.team_a.collect_members(&mut players);
        self.team_b.collect_members(&mut players);
        players
    }

    /// Whether both teams have every slot of the mode taken.
    pub fn check_all_filled(&self) -> (b: bool)
        ensures
            b == self.all_filled(),
    {
        let size = self.game_mode.players_per_team();
        self.team_a.find_free_slot(size).is_none() && self.team_b.find_free_slot(size).is_none()
    }

    /// Whether `player` holds a slot in either team.
    pub fn has_player(&self, player: PlayerId) -> (b: bool)
        ensures
            b == self.holds(player),
    {
        proof {
            self.team_a.lemma_slot_of(player);
            self.team_b.lemma_slot_of(player);
        }
        self.team_a.find_player(player).is_some() || self.team_b.find_player(player).is_some()
    }
}

/// Seats `player` in the lowest free slot of team `team` and returns the slot.
///
/// The session has to be waiting for players. The player starts with the
/// mode's spawn allotment and no kill, the stake is added to the team's
/// total, and the match begins once both teams are full. A refused join
/// (`InvalidState`, `InvalidTeam`, `TeamFull`, `DuplicatePlayer`,
/// `ArithmeticOverflow`) changes nothing.
pub fn join_user(session: &mut GameSession, team: u8, player: PlayerId) -> (r: Result<
    usize,
    WagerError,
>)
    ensures
        match old(session).join_outcome(team, player) {
            Ok((next, slot)) => r == Ok::<usize, WagerError>(slot) && *final(session) == next,
            Err(e) => r == Err::<usize, WagerError>(e) && *final(session) == *old(session),
        },
        old(session).wf() ==> final(session).wf(),
{
    proof {
        if old(session).wf() {
            old(session).lemma_join_keeps_wf(team, player);
        }
        old(session).team(team as int).lemma_free_slot_from(
            old(session).game_mode.team_size(),
            0,
        );
    }
    if session.status != GameStatus::WaitingForPlayers {
        return Err(WagerError::InvalidState);
    }
    let slot = match session.get_player_empty_slot(team) {
        Ok(slot) => slot,
        Err(e) => {
            return Err(e);
        },
    };
    if session.has_player(player) {
        return Err(WagerError::DuplicatePlayer);
    }
    let spawns = session.game_mode.starting_spawns();
    let stake = session.session_bet;
    if team == 0 {
        let total = match session.team_a.total_bet.checked_add(stake) {
            Some(total) => total,
            None => {
                return Err(WagerError::ArithmeticOverflow);
            },
        };
        session.team_a.players[slot] = Some(player);
        session.team_a.player_spawns[slot] = spawns;
        session.team_a.player_kills[slot] = 0;
        session.team_a.total_bet = total;
    } else {
        let total = match session.team_b.total_bet.checked_add(stake) {
            Some(total) => total,
            None => {
                return Err(WagerError::ArithmeticOverflow);
            },
        };
        session.team_b.players[slot] = Some(player);
        session.team_b.player_spawns[slot] = spawns;
        session.team_b.player_kills[slot] = 0;
        session.team_b.total_bet = total;
    }
    if session.check_all_filled() {
        session.status = GameStatus::InProgress;
    }
    Ok(slot)
}

} // verus!
