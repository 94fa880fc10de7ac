use crate::errors::WagerError;
use crate::payout::{
    amount_sum, equal_payouts, equal_split, proportional_payouts, proportional_split,
    total_amount, Payout, Standing,
};
use crate::state::{count_taken, taken, GameSession, GameStatus, PlayerId, Team};
use vstd::prelude::*;

verus! {

impl Team {
    /// The players of the first `n` slots with their scores, in slot order.
    pub open spec fn standings_upto(self, n: int) -> Seq<Standing>
        decreases n,
    {
        if n <= 0 {
            Seq::empty()
        } else {
            match self.players[n - 1] {
                Some(p) => self.standings_upto(n - 1).push(
                    Standing { player: p, score: self.score(n - 1) as u32 },
                ),
                None => self.standings_upto(n - 1),
            }
        }
    }

    /// The players of the team with their scores, in slot order.
    pub open spec fn standings(self) -> Seq<Standing> {
        self.standings_upto(5)
    }

    /// Appends the team's players with their scores to `out`, in slot order.
    pub fn collect_standings(&self, out: &mut Vec<Standing>)
        ensures
            final(out)@ == old(out)@ + self.standings(),
    {
        let mut i: usize = 0;
        while i < 5
            invariant
                i <= 5,
                out@ == old(out)@ + self.standings_upto(i as int),
            decreases 5 - i,
        {
            match self.players[i] {
                Some(p) => {
                    let score = self.player_kills[i] as u32 + self.player_spawns[i] as u32;
                    out.push(Standing { player: p, score });
                },
                None => {},
            }
            i = i + 1;
        }
    }
}

impl Team {
    /// There are as many standings among the first `n` slots as players.
    pub proof fn lemma_standings_len(self, n: int)
        ensures
            self.standings_upto(n).len() == self.members_upto(n).len(),
        decreases n,
    {
        if n > 0 {
            self.lemma_standings_len(n - 1);
        }
    }

    /// A team whose first slot is taken has a player among any first `n`
    /// slots.
    pub proof fn lemma_first_counts(self, n: int)
        requires
            1 <= n <= 5,
            self.players[0] is Some,
        ensures
            self.members_upto(n).len() > 0,
        decreases n,
    {
        if n > 1 {
            self.lemma_first_counts(n - 1);
        }
    }
}

/// There are as many players among the first `n` slots as slots taken.
pub proof fn lemma_taken_len(slots: Seq<Option<PlayerId>>, n: int)
    ensures
        taken(slots, n).len() == count_taken(slots, n),
    decreases n,
{
    if n > 0 {
        lemma_taken_len(slots, n - 1);
    }
}

/// The flat refund: to each of `players`, in order, the stake `stake`.
pub open spec fn refunds(players: Seq<PlayerId>, stake: u64) -> Seq<Payout> {
    Seq::new(players.len(), |i: int| Payout { recipient: players[i], amount: stake })
}

/// The first `n` refunds come to `n` stakes.
pub proof fn lemma_refunds_sum(players: Seq<PlayerId>, stake: u64, n: int)
    requires
        0 <= n <= players.len(),
    ensures
        amount_sum(refunds(players, stake), n) == n * stake,
    decreases n,
{
    if n > 0 {
        lemma_refunds_sum(players, stake, n - 1);
        assert(n * stake == (n - 1) * stake + stake) by (nonlinear_arith);
    } else {
        assert(n * stake == 0) by (nonlinear_arith)
            requires
                n == 0,
        ;
    }
}

impl GameSession {
    /// The players of team A and then those of team B with their scores,
    /// each team in slot order.
    pub open spec fn standings(self) -> Seq<Standing> {
        self.team_a.standings() + self.team_b.standings()
    }

    /// What a winner-takes-all settlement for team `winning_team` gives with
    /// `vault_balance` in the vault: the completed session and the equal
    /// split of the whole pot among the winners, or the reason for which it
    /// is refused.
    pub open spec fn winnings_outcome(self, winning_team: u8, vault_balance: u64) -> Result<
        (GameSession, Seq<Payout>),
        WagerError,
    > {
        let winners = self.team(winning_team as int).members();
        if self.status != GameStatus::InProgress {
            Err(WagerError::InvalidState)
        } else if winning_team >= 2 {
            Err(WagerError::InvalidTeam)
        } else if winners.len() == 0 {
            Err(WagerError::InvalidState)
        } else if self.pot() > u64::MAX {
            Err(WagerError::ArithmeticOverflow)
        } else if vault_balance < self.pot() {
            Err(WagerError::InsufficientVaultBalance)
        } else {
            Ok((self.with_status(GameStatus::Completed), equal_split(winners, self.pot() as u64)))
        }
    }

    /// What a pay-to-spawn settlement gives with `vault_balance` in the
    /// vault: the completed session and the split of the whole pot among all
    /// players in proportion to their scores, or the reason for which it is
    /// refused.
    pub open spec fn earnings_outcome(self, vault_balance: u64) -> Result<
        (GameSession, Seq<Payout>),
        WagerError,
    > {
        if self.status != GameStatus::InProgress || !self.game_mode.pay_to_spawn() {
            Err(WagerError::InvalidState)
        } else if self.standings().len() == 0 {
            Err(WagerError::InvalidState)
        } else if self.pot() > u64::MAX {
            Err(WagerError::ArithmeticOverflow)
        } else if vault_balance < self.pot() {
            Err(WagerError::InsufficientVaultBalance)
        } else {
            Ok(
                (
                    self.with_status(GameStatus::Completed),
                    proportional_split(self.standings(), self.pot() as u64),
                ),
            )
        }
    }

    /// What settlement gives: the pay-to-spawn split in a pay-to-spawn
    /// session, whatever `winning_team` says, and the winner-takes-all split
    /// otherwise.
    pub open spec fn settlement_outcome(self, winning_team: u8, vault_balance: u64) -> Result<
        (GameSession, Seq<Payout>),
        WagerError,
    > {
        if self.game_mode.pay_to_spawn() {
            self.earnings_outcome(vault_balance)
        } else {
            self.winnings_outcome(winning_team, vault_balance)
        }
    }

    /// Moving to a terminal state keeps the session's invariant: completing
    /// a match that has started, and refunding one that has not.
    pub proof fn lemma_status_keeps_wf(self, status: GameStatus)
        requires
            self.wf(),
            status == GameStatus::Completed || status == GameStatus::Refunded,
            (status == GameStatus::Completed) == self.started(),
        ensures
            self.with_status(status).wf(),
    {
        let next = self.with_status(status);
        assert forall|t: int, i: int| next.slot_player(t, i) == self.slot_player(t, i) by {}
    }

    /// What all players together get back on a refund: one stake each.
    pub open spec fn refund_total(self) -> int {
        self.session_bet * self.all_players().len()
    }

    /// What a refund gives with `vault_balance` in the vault: the refunded
    /// session and one stake for each player, or the reason for which it is
    /// refused.
    pub open spec fn refund_outcome(self, vault_balance: u64) -> Result<
        (GameSession, Seq<Payout>),
        WagerError,
    > {
        if self.status == GameStatus::Refunded {
            Err(WagerError::AlreadySettled)
        } else if self.status != GameStatus::WaitingForPlayers {
            Err(WagerError::InvalidState)
        } else if self.refund_total() > u64::MAX {
            Err(WagerError::ArithmeticOverflow)
        } else if vault_balance < self.refund_total() {
            Err(WagerError::InsufficientVaultBalance)
        } else {
            Ok(
                (
                    self.with_status(GameStatus::Refunded),
                    refunds(self.all_players(), self.session_bet),
                ),
            )
        }
    }
}

/// Settles a match in progress in favour of team `winning_team`: the whole
/// pot is split equally among that team's players, in slot order, and the
/// session is completed.
///
/// What the division leaves goes to the first winner, so the payouts come
/// to the pot exactly. `vault_balance` is what the escrow vault holds now;
/// with less than the pot in it nothing is paid. A refused settlement
/// (`InvalidState`, `InvalidTeam`, `ArithmeticOverflow`,
/// `InsufficientVaultBalance`) changes nothing.
pub fn distribute_all_winnings(session: &mut GameSession, winning_team: u8, vault_balance: u64) -> (r:
    Result<Vec<Payout>, WagerError>)
    ensures
        match old(session).winnings_outcome(winning_team, vault_balance) {
            Ok((next, payouts)) => r matches Ok(v) && v@ == payouts && *final(session) == next,
            Err(e) => r matches Err(f) && f == e && *final(session) == *old(session),
        },
        r matches Ok(v) ==> total_amount(v@) == old(session).pot(),
        old(session).wf() ==> final(session).wf(),
{
    if session.status != GameStatus::InProgress {
        return Err(WagerError::InvalidState);
    }
    if winning_team >= 2 {
        return Err(WagerError::InvalidTeam);
    }
    let mut winners: Vec<PlayerId> = Vec::new();
    if winning_team == 0 {
        session.team_a.collect_members(&mut winners);
    } else {
        session.team_b.collect_members(&mut winners);
    }
    if winners.len() == 0 {
        return Err(WagerError::InvalidState);
    }
    let pot = match session.team_a.total_bet.checked_add(session.team_b.total_bet) {
        Some(pot) => pot,
        None => {
            return Err(WagerError::ArithmeticOverflow);
        },
    };
    if vault_balance < pot {
        return Err(WagerError::InsufficientVaultBalance);
    }
    let payouts = equal_payouts(&winners, pot);
    session.status = GameStatus::Completed;
    proof {
        if old(session).wf() {
            old(session).lemma_status_keeps_wf(GameStatus::Completed);
        }
    }
    Ok(payouts)
}

/// Settles a pay-to-spawn match in progress: the whole pot is split among
/// all players in proportion to kills plus remaining spawns, team A first,
/// and the session is completed.
///
/// What the rounding leaves goes to the first player with a positive score,
/// so the payouts come to the pot exactly; where nobody scored the pot is
/// split equally. A player whose share is nothing gets no payout.
/// `vault_balance` is what the escrow vault holds now; with less than the
/// pot in it nothing is paid. A refused settlement (`InvalidState`,
/// `ArithmeticOverflow`, `InsufficientVaultBalance`) changes nothing.
pub fn distribute_pay_spawn_earnings(session: &mut GameSession, vault_balance: u64) -> (r: Result<
    Vec<Payout>,
    WagerError,
>)
    ensures
        match old(session).earnings_outcome(vault_balance) {
            Ok((next, payouts)) => r matches Ok(v) && v@ == payouts && *final(session) == next,
            Err(e) => r matches Err(f) && f == e && *final(session) == *old(session),
        },
        r matches Ok(v) ==> total_amount(v@) == old(session).pot(),
        old(session).wf() ==> final(session).wf(),
{
    if session.status != GameStatus::InProgress || !session.game_mode.is_pay_to_spawn() {
        return Err(WagerError::InvalidState);
    }
    let mut standings: Vec<Standing> = Vec::new();
    session.team_a.collect_standings(&mut standings);
    session.team_b.collect_standings(&mut standings);
    if standings.len() == 0 {
        return Err(WagerError::InvalidState);
    }
    let pot = match session.team_a.total_bet.checked_add(session.team_b.total_bet) {
        Some(pot) => pot,
        None => {
            return Err(WagerError::ArithmeticOverflow);
        },
    };
    if vault_balance < pot {
        return Err(WagerError::InsufficientVaultBalance);
    }
    let payouts = proportional_payouts(&standings, pot);
    session.status = GameStatus::Completed;
    proof {
        if old(session).wf() {
            old(session).lemma_status_keeps_wf(GameStatus::Completed);
        }
    }
    Ok(payouts)
}

/// Settles a match in progress by the split of its mode: proportional in a
/// pay-to-spawn session, where `winning_team` is not looked at, and
/// winner-takes-all for team `winning_team` otherwise.
pub fn distribute_winnings(session: &mut GameSession, winning_team: u8, vault_balance: u64) -> (r:
    Result<Vec<Payout>, WagerError>)
    ensures
        match old(session).settlement_outcome(winning_team, vault_balance) {
            Ok((next, payouts)) => r matches Ok(v) && v@ == payouts && *final(session) == next,
            Err(e) => r matches Err(f) && f == e && *final(session) == *old(session),
        },
        r matches Ok(v) ==> total_amount(v@) == old(session).pot(),
        old(session).wf() ==> final(session).wf(),
{
    if session.game_mode.is_pay_to_spawn() {
        distribute_pay_spawn_earnings(session, vault_balance)
    } else {
        distribute_all_winnings(session, winning_team, vault_balance)
    }
}

/// Refunds a session that is still waiting for players: each player gets the
/// stake back, team A first, and the session is marked refunded.
///
/// `vault_balance` is what the escrow vault holds now; with less than all
/// the stakes in it nothing is paid. A session that was refunded already
/// fails with `AlreadySettled`, one that has started with `InvalidState`.
/// A refused refund changes nothing.
pub fn refund_wager(session: &mut GameSession, vault_balance: u64) -> (r: Result<
    Vec<Payout>,
    WagerError,
>)
    ensures
        match old(session).refund_outcome(vault_balance) {
            Ok((next, payouts)) => r matches Ok(v) && v@ == payouts && *final(session) == next,
            Err(e) => r matches Err(f) && f == e && *final(session) == *old(session),
        },
        r matches Ok(v) ==> total_amount(v@) == old(session).refund_total(),
        old(session).wf() ==> final(session).wf(),
{
    if session.status == GameStatus::Refunded {
        return Err(WagerError::AlreadySettled);
    }
    if session.status != GameStatus::WaitingForPlayers {
        return Err(WagerError::InvalidState);
    }
    let players = session.get_all_players();
    let stake = session.session_bet;
    let n = players.len();
    let total = match stake.checked_mul(n as u64) {
        Some(total) => total,
        None => {
            return Err(WagerError::ArithmeticOverflow);
        },
    };
    if vault_balance < total {
        return Err(WagerError::InsufficientVaultBalance);
    }
    let mut payouts: Vec<Payout> = Vec::new();
    let mut i: usize = 0;
    while i < n
        invariant
            i <= n,
            n == players.len(),
            payouts.len() == i,
            forall|j: int| 0 <= j < i ==> payouts[j] == refunds(players@, stake)[j],
        decreases n - i,
    {
        payouts.push(Payout { recipient: players[i], amount: stake });
        i = i + 1;
    }
    proof {
        assert(payouts@ =~= refunds(players@, stake));
        lemma_refunds_sum(players@, stake, n as int);
        assert(n * stake == stake * n) by (nonlinear_arith);
    }
    session.status = GameStatus::Refunded;
    proof {
        if old(session).wf() {
            old(session).lemma_status_keeps_wf(GameStatus::Refunded);
        }
    }
    Ok(payouts)
}

} // verus!
