use vstd::prelude::*;

verus! {

/// Number of player slots that every team record carries, whatever the mode.
pub const TEAM_SLOTS: usize = 5;

/// Spawn credits a player starts with on joining.
pub const STARTING_SPAWNS: u16 = 10;

/// Spawn credits that one purchase adds in a pay-to-spawn session.
pub const SPAWNS_PER_PURCHASE: u16 = 10;

/// Largest stake a session can be created with: ten such stakes (two full
/// teams of five) still fit the amount type.
pub const MAX_SUPPORTED_BET: u64 = 1844674407370955161;

/// Identity of a player or of a session's authority: 32 opaque bytes.
#[derive(Clone, Copy, Debug, Hash)]
pub struct PlayerId {
    pub bytes: [u8; 32],
}

impl PartialEq for PlayerId {
    fn eq(&self, other: &PlayerId) -> (r: bool) {
        let mut i: usize = 0;
        while i < 32
            invariant
                i <= 32,
                forall|j: int| 0 <= j < i ==> self.bytes[j] == other.bytes[j],
            decreases 32 - i,
        {
            if self.bytes[i] != other.bytes[i] {
                return false;
            }
            i = i + 1;
        }
        proof {
            assert(self.bytes =~= other.bytes);
        }
        true
    }
}

impl vstd::std_specs::cmp::PartialEqSpecImpl for PlayerId {
    open spec fn obeys_eq_spec() -> bool {
        true
    }

    open spec fn eq_spec(&self, other: &PlayerId) -> bool {
        *self == *other
    }
}

impl Eq for PlayerId {

}

impl PlayerId {
    /// The identity made of the given bytes.
    pub fn new(bytes: [u8; 32]) -> (id: PlayerId)
        ensures
            id.bytes == bytes,
    {
        PlayerId { bytes }
    }

    /// The bytes this identity is made of.
    pub fn to_bytes(&self) -> (bytes: [u8; 32])
        ensures
            bytes == self.bytes,
    {
        self.bytes
    }
}

/// Payout family and team size of a session.
#[derive(Clone, Copy, Debug, PartialEq, Eq, Structural)]
pub enum GameMode {
    WinnerTakesAllOneVsOne,
    WinnerTakesAllTwoVsTwo,
    WinnerTakesAllThreeVsThree,
    WinnerTakesAllFourVsFour,
    WinnerTakesAllFiveVsFive,
    PayToSpawnOneVsOne,
    PayToSpawnTwoVsTwo,
    PayToSpawnThreeVsThree,
    PayToSpawnFourVsFour,
    PayToSpawnFiveVsFive,
}

impl GameMode {
    /// Number of slots of each team that the mode uses: 1 to 5.
    pub open spec fn team_size(self) -> int {
        match self {
            GameMode::WinnerTakesAllOneVsOne | GameMode::PayToSpawnOneVsOne => 1,
            GameMode::WinnerTakesAllTwoVsTwo | GameMode::PayToSpawnTwoVsTwo => 2,
            GameMode::WinnerTakesAllThreeVsThree | GameMode::PayToSpawnThreeVsThree => 3,
            GameMode::WinnerTakesAllFourVsFour | GameMode::PayToSpawnFourVsFour => 4,
            GameMode::WinnerTakesAllFiveVsFive | GameMode::PayToSpawnFiveVsFive => 5,
        }
    }

    /// Whether the mode settles by the proportional pay-to-spawn split.
    pub open spec fn pay_to_spawn(self) -> bool {
        match self {
            GameMode::PayToSpawnOneVsOne
            | GameMode::PayToSpawnTwoVsTwo
            | GameMode::PayToSpawnThreeVsThree
            | GameMode::PayToSpawnFourVsFour
            | GameMode::PayToSpawnFiveVsFive => true,
            _ => false,
        }
    }

    /// Number of slots of each team that the mode uses: 1 to 5.
    pub fn players_per_team(&self) -> (n: usize)
        ensures
            n == self.team_size(),
            1 <= n <= TEAM_SLOTS,
    {
        match self {
            GameMode::WinnerTakesAllOneVsOne | GameMode::PayToSpawnOneVsOne => 1,
            GameMode::WinnerTakesAllTwoVsTwo | GameMode::PayToSpawnTwoVsTwo => 2,
            GameMode::WinnerTakesAllThreeVsThree | GameMode::PayToSpawnThreeVsThree => 3,
            GameMode::WinnerTakesAllFourVsFour | GameMode::PayToSpawnFourVsFour => 4,
            GameMode::WinnerTakesAllFiveVsFive | GameMode::PayToSpawnFiveVsFive => 5,
        }
    }

    /// Whether the mode settles by the proportional pay-to-spawn split.
    pub fn is_pay_to_spawn(&self) -> (b: bool)
        ensures
            b == self.pay_to_spawn(),
    {
        match self {
            GameMode::PayToSpawnOneVsOne
            | GameMode::PayToSpawnTwoVsTwo
            | GameMode::PayToSpawnThreeVsThree
            | GameMode::PayToSpawnFourVsFour
            | GameMode::PayToSpawnFiveVsFive => true,
            _ => false,
        }
    }

    /// Spawn credits a player of this mode starts with.
    pub fn starting_spawns(&self) -> (n: u16)
        ensures
            n == STARTING_SPAWNS,
    {
        STARTING_SPAWNS
    }
}

/// Lifecycle state of a session.
///
/// A session waits for players, is in progress once both teams are full and
/// is completed by settlement; a session that never started can be refunded
/// instead. `Completed` and `Refunded` are terminal.
#[derive(Clone, Copy, Debug, PartialEq, Eq, Structural)]
pub enum GameStatus {
    WaitingForPlayers,
    InProgress,
    Completed,
    Refunded,
}

/// Configured bounds that a session is created under.
#[derive(Clone, Copy, Debug, PartialEq, Eq, Structural)]
pub struct Limits {
    /// Smallest stake accepted.
    pub min_bet: u64,
    /// Largest stake accepted.
    pub max_bet: u64,
    /// Spawn credits at which a player is sold no more: a player who holds
    /// this many or more cannot buy.
    pub max_spawns_per_player: u16,
    /// Spawn purchases at which the session sells no more: once this many
    /// were accepted, nobody can buy.
    pub max_purchases_per_session: u16,
}

/// Number of taken slots among the first `n` of `slots`.
pub open spec fn count_taken(slots: Seq<Option<PlayerId>>, n: int) -> nat
    decreases n,
{
    if n <= 0 {
        0
    } else {
        count_taken(slots, n - 1) + if slots[n - 1] is Some {
            1nat
        } else {
            0nat
        }
    }
}

/// The lowest slot of `slots` at or after `from` that `player` holds, or the
/// number of slots where there is none.
pub open spec fn first_held(slots: Seq<Option<PlayerId>>, player: PlayerId, from: int) -> int
    decreases slots.len() - from,
{
    if from < 0 || from >= slots.len() {
        slots.len() as int
    } else if slots[from] == Some(player) {
        from
    } else {
        first_held(slots, player, from + 1)
    }
}

/// The lowest free slot of `slots` at or after `from` and below `size`, or
/// `size` where there is none.
pub open spec fn first_free(slots: Seq<Option<PlayerId>>, size: int, from: int) -> int
    decreases size - from,
{
    if from < 0 || from >= size || size > slots.len() {
        size
    } else if slots[from] is None {
        from
    } else {
        first_free(slots, size, from + 1)
    }
}

/// The players that hold the first `n` of `slots`, in slot order.
pub open spec fn taken(slots: Seq<Option<PlayerId>>, n: int) -> Seq<PlayerId>
    decreases n,
{
    if n <= 0 {
        Seq::empty()
    } else {
        match slots[n - 1] {
            Some(p) => taken(slots, n - 1).push(p),
            None => taken(slots, n - 1),
        }
    }
}

/// One side of a session: five slots, partly used by the smaller modes.
#[derive(Clone, Copy, Debug, PartialEq, Eq)]
pub struct Team {
    /// Who holds each slot; `None` is a free slot.
    pub players: [Option<PlayerId>; 5],
    /// Stakes collected from the occupied slots.
    pub total_bet: u64,
    /// Remaining spawn credits per slot.
    pub player_spawns: [u16; 5],
    /// Confirmed kills per slot.
    pub player_kills: [u16; 5],
}

impl Team {
    /// Number of occupied slots among the first `n`.
    pub open spec fn occupied_upto(self, n: int) -> nat {
        count_taken(self.players@, n)
    }

    /// Number of occupied slots.
    pub open spec fn occupied_count(self) -> nat {
        self.occupied_upto(5)
    }

    /// Whether `player` holds one of the slots.
    pub open spec fn holds(self, player: PlayerId) -> bool {
        exists|i: int| 0 <= i < 5 && self.players[i] == Some(player)
    }

    /// Whether `i` is the lowest slot that `player` holds.
    pub open spec fn is_first_slot_of(self, player: PlayerId, i: int) -> bool {
        &&& 0 <= i < 5
        &&& self.players[i] == Some(player)
        &&& forall|j: int| 0 <= j < i ==> self.players[j] != Some(player)
    }

    /// The lowest slot at or after `from` that `player` holds, or 5.
    pub open spec fn slot_of_from(self, player: PlayerId, from: int) -> int {
        first_held(self.players@, player, from)
    }

    /// The lowest slot that `player` holds, or 5 where the player holds none.
    pub open spec fn slot_of(self, player: PlayerId) -> int {
        self.slot_of_from(player, 0)
    }

    /// The lowest free slot at or after `from` and below `size`, or `size`.
    pub open spec fn free_slot_from(self, size: int, from: int) -> int {
        first_free(self.players@, size, from)
    }

    /// The lowest free slot among the first `size`, or `size` where all are
    /// taken.
    pub open spec fn free_slot(self, size: int) -> int {
        self.free_slot_from(size, 0)
    }

    /// The players of the first `n` slots, in slot order.
    pub open spec fn members_upto(self, n: int) -> Seq<PlayerId> {
        taken(self.players@, n)
    }

    /// The players of the team, in slot order.
    pub open spec fn members(self) -> Seq<PlayerId> {
        self.members_upto(5)
    }

    /// Kills plus remaining spawns of slot `i`.
    pub open spec fn score(self, i: int) -> int {
        self.player_kills[i] + self.player_spawns[i]
    }

    /// The team after `player` takes the free slot `slot` with a stake of
    /// `stake` and `spawns` spawn credits.
    pub open spec fn seat(self, slot: int, player: PlayerId, stake: u64, spawns: u16) -> Team {
        Team {
            players: vstd::array::spec_array_update(self.players, slot, Some(player)),
            total_bet: (self.total_bet + stake) as u64,
            player_spawns: vstd::array::spec_array_update(self.player_spawns, slot, spawns),
            player_kills: vstd::array::spec_array_update(self.player_kills, slot, 0u16),
        }
    }

    /// The team with the spawn credits of slot `slot` set to `spawns`.
    pub open spec fn with_spawns(self, slot: int, spawns: u16) -> Team {
        Team {
            player_spawns: vstd::array::spec_array_update(self.player_spawns, slot, spawns),
            ..self
        }
    }

    /// The team with the kill count of slot `slot` set to `kills`.
    pub open spec fn with_kills(self, slot: int, kills: u16) -> Team {
        Team {
            player_kills: vstd::array::spec_array_update(self.player_kills, slot, kills),
            ..self
        }
    }

    /// Whether the first `size` slots are all taken.
    pub open spec fn full(self, size: int) -> bool {
        self.free_slot(size) == size
    }

    /// The team with no player and every counter at zero.
    pub open spec fn is_empty(self) -> bool {
        &&& self.total_bet == 0
        &&& forall|i: int| 0 <= i < 5 ==> self.players[i] is None
        &&& forall|i: int| 0 <= i < 5 ==> self.player_spawns[i] == 0
        &&& forall|i: int| 0 <= i < 5 ==> self.player_kills[i] == 0
    }

    /// A team with no player and every counter at zero.
    pub fn empty() -> (team: Team)
        ensures
            team.is_empty(),
    {
        Team {
            players: [None, None, None, None, None],
            total_bet: 0,
            player_spawns: [0, 0, 0, 0, 0],
            player_kills: [0, 0, 0, 0, 0],
        }
    }
}

/// One wagering match between two teams.
#[derive(Clone, Debug, PartialEq, Eq)]
pub struct GameSession {
    /// Opaque identifier of the session.
    pub session_id: String,
    /// Who created and administers the session.
    pub authority: PlayerId,
    /// Stake that each player puts in on joining.
    pub session_bet: u64,
    /// Payout family and team size.
    pub game_mode: GameMode,
    /// Team 0.
    pub team_a: Team,
    /// Team 1.
    pub team_b: Team,
    /// Where the session stands in its lifecycle.
    pub status: GameStatus,
    /// Time of creation, as the caller's clock gave it.
    pub created_at: i64,
    /// Bounds the session was created under.
    pub limits: Limits,
    /// Spawn purchases accepted so far.
    pub spawn_purchases: u16,
}

impl GameSession {
    /// Team 0 is `team_a`; any other selector stands for `team_b`.
    pub open spec fn team(self, t: int) -> Team {
        if t == 0 {
            self.team_a
        } else {
            self.team_b
        }
    }

    /// The session with team `t` replaced by `team`.
    pub open spec fn with_team(self, t: int, team: Team) -> GameSession {
        if t == 0 {
            GameSession { team_a: team, ..self }
        } else {
            GameSession { team_b: team, ..self }
        }
    }

    /// The session in lifecycle state `status`.
    pub open spec fn with_status(self, status: GameStatus) -> GameSession {
        GameSession { status, ..self }
    }

    /// Who holds slot `i` of team `t`.
    pub open spec fn slot_player(self, t: int, i: int) -> Option<PlayerId> {
        self.team(t).players[i]
    }

    /// Whether `player` holds a slot in either team.
    pub open spec fn holds(self, player: PlayerId) -> bool {
        self.team_a.holds(player) || self.team_b.holds(player)
    }

    /// All stakes collected: what settlement has to hand out.
    pub open spec fn pot(self) -> int {
        self.team_a.total_bet + self.team_b.total_bet
    }

    /// Whether both teams have every slot of the mode taken.
    pub open spec fn all_filled(self) -> bool {
        &&& self.team_a.full(self.game_mode.team_size())
        &&& self.team_b.full(self.game_mode.team_size())
    }

    /// Whether the match has begun: it is in progress or completed.
    pub open spec fn started(self) -> bool {
        self.status == GameStatus::InProgress || self.status == GameStatus::Completed
    }

    /// No player holds two slots, in one team or across the two.
    pub open spec fn unique_membership(self) -> bool {
        forall|t1: int, i1: int, t2: int, i2: int|
            0 <= t1 < 2 && 0 <= i1 < 5 && 0 <= t2 < 2 && 0 <= i2 < 5 && self.slot_player(t1, i1)
                is Some && #[trigger] self.slot_player(t1, i1) == #[trigger] self.slot_player(
                t2,
                i2,
            ) ==> t1 == t2 && i1 == i2
    }

    /// The slots that the mode does not use are free.
    pub open spec fn unused_slots_free(self) -> bool {
        forall|t: int, i: int|
            0 <= t < 2 && self.game_mode.team_size() <= i < 5 ==> #[trigger] self.slot_player(t, i)
                is None
    }

    /// The invariant of a session: what creation establishes and every
    /// operation keeps.
    pub open spec fn wf(self) -> bool {
        &&& 1 <= self.session_bet <= MAX_SUPPORTED_BET
        &&& self.limits.min_bet <= self.session_bet <= self.limits.max_bet
        &&& self.spawn_purchases <= self.limits.max_purchases_per_session
        &&& self.unused_slots_free()
        &&& self.unique_membership()
        &&& self.team_a.total_bet == self.session_bet * self.team_a.occupied_count()
        &&& self.team_b.total_bet == self.session_bet * self.team_b.occupied_count()
        &&& self.started() <==> self.all_filled()
    }
}

} // verus!
