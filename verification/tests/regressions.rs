use anchor_lang::prelude::Pubkey;
use wager_program::{
    create_game_session, distribute_pay_spawn_earnings, is_bet_accepted, join_user,
    pay_to_spawn, refund_wager, GameMode, GameSession, GameStatus, Limits, PlayerId, Team, WagerError, MAX_SUPPORTED_BET,
};

fn unique() -> PlayerId {
    PlayerId::new(Pubkey::new_unique().to_bytes())
}

fn one(player: PlayerId) -> [Option<PlayerId>; 5] {
    [Some(player), None, None, None, None]
}

fn three() -> [Option<PlayerId>; 5] {
    [Some(unique()), Some(unique()), Some(unique()), None, None]
}

fn five() -> [Option<PlayerId>; 5] {
    [Some(unique()), Some(unique()), Some(unique()), Some(unique()), Some(unique())]
}

fn team(
    players: [Option<PlayerId>; 5],
    total_bet: u64,
    player_spawns: [u16; 5],
    player_kills: [u16; 5],
) -> Team {
    Team { players, total_bet, player_spawns, player_kills }
}

fn open_limits() -> Limits {
    Limits {
        min_bet: 1,
        max_bet: MAX_SUPPORTED_BET,
        max_spawns_per_player: u16::MAX,
        max_purchases_per_session: u16::MAX,
    }
}

fn bounded_limits() -> Limits {
    Limits {
        min_bet: 100,
        max_bet: 1_000_000,
        max_spawns_per_player: 50,
        max_purchases_per_session: 10,
    }
}

fn session(
    id: &str,
    session_bet: u64,
    game_mode: GameMode,
    team_a: Team,
    team_b: Team,
    status: GameStatus,
) -> GameSession {
    GameSession {
        session_id: id.to_string(),
        authority: unique(),
        session_bet,
        game_mode,
        team_a,
        team_b,
        status,
        created_at: 0,
        limits: open_limits(),
        spawn_purchases: 0,
    }
}

#[test]
fn poc_1_test_spawn_underflow_vulnerability() {
    let victim_key = unique();
    let killer_key = unique();
    let mut game_session = session(
        "test_session",
        1000,
        GameMode::WinnerTakesAllOneVsOne,
        team(one(victim_key), 1000, [0, 0, 0, 0, 0], [0, 0, 0, 0, 0]),
        team(one(killer_key), 1000, [10, 0, 0, 0, 0], [0, 0, 0, 0, 0]),
        GameStatus::InProgress,
    );
    assert_eq!(game_session.team_a.player_spawns[0], 0, "Victim should have 0 spawns");

    let result = game_session.add_kill(1, killer_key, 0, victim_key);

    assert!(result.is_ok(), "add_kill should succeed even with 0 spawns");
    assert_eq!(game_session.team_a.player_spawns[0], 0, "Victim spawn count should stay at 0");
    assert_eq!(game_session.team_b.player_kills[0], 1, "Killer should have 1 kill");
    assert_eq!(game_session.team_b.player_spawns[0], 10);
}

#[test]
fn poc_1_test_multiple_underflows() {
    let victim_key = unique();
    let killer_key = unique();
    let mut game_session = session(
        "test_session_2",
        1000,
        GameMode::WinnerTakesAllOneVsOne,
        team(one(victim_key), 1000, [1, 0, 0, 0, 0], [0, 0, 0, 0, 0]),
        team(one(killer_key), 1000, [10, 0, 0, 0, 0], [0, 0, 0, 0, 0]),
        GameStatus::InProgress,
    );

    game_session.add_kill(1, killer_key, 0, victim_key).unwrap();
    assert_eq!(game_session.team_a.player_spawns[0], 0);

    game_session.add_kill(1, killer_key, 0, victim_key).unwrap();
    assert_eq!(game_session.team_a.player_spawns[0], 0);

    game_session.add_kill(1, killer_key, 0, victim_key).unwrap();
    assert_eq!(game_session.team_a.player_spawns[0], 0);
}

#[test]
fn poc_3_test_no_bet_amount_validation() {
    let test_cases = vec![
        ("Zero bet", 0u64),
        ("Extremely low bet", 1u64),
        ("Normal bet", 1000u64),
        ("Very high bet", u64::MAX),
    ];

    for (description, bet_amount) in test_cases {
        println!("Testing {}: {} tokens", description, bet_amount);
        let result = create_game_session(
            "bet_test".to_string(),
            unique(),
            bet_amount,
            GameMode::WinnerTakesAllOneVsOne,
            0,
            bounded_limits(),
        );
        match bet_amount {
            0 => assert_eq!(result, Err(WagerError::InvalidBetAmount)),
            1 => assert_eq!(result, Err(WagerError::InvalidBetAmount)),
            u64::MAX => assert_eq!(result, Err(WagerError::InvalidBetAmount)),
            _ => assert_eq!(result.unwrap().session_bet, bet_amount),
        }
    }

    let spam_games = 100;
    let mut total_zero_bet_games = 0;
    for i in 0..spam_games {
        let session_id = format!("spam_game_{}", i);
        if create_game_session(
            session_id,
            unique(),
            0u64,
            GameMode::WinnerTakesAllOneVsOne,
            0,
            bounded_limits(),
        )
        .is_ok()
        {
            total_zero_bet_games += 1;
        }
    }
    assert_eq!(total_zero_bet_games, 0, "No spam game should be created");
}

#[test]
fn poc_3_test_economic_impact_of_zero_bets() {
    let normal_bet = 1000u64;
    let players_per_team = 2;
    let total_normal_pot = normal_bet * players_per_team;

    let zero_bet = 0u64;
    let total_zero_pot = zero_bet * players_per_team;

    assert_eq!(total_zero_pot, 0, "Zero-bet games have no economic value");
    assert!(total_normal_pot > total_zero_pot, "Normal games should have higher economic value");
    assert!(is_bet_accepted(normal_bet, &bounded_limits()));
    assert!(!is_bet_accepted(zero_bet, &bounded_limits()));
    assert!(!is_bet_accepted(zero_bet, &open_limits()));
}

#[test]
fn poc_3_test_overflow_risk_with_high_bets() {
    let max_bet = u64::MAX;
    let players_per_team = 5;
    let total_players = players_per_team * 2;

    let potential_overflow = max_bet.checked_mul(total_players as u64);
    assert!(potential_overflow.is_none());

    assert!(!is_bet_accepted(max_bet, &open_limits()));
    assert_eq!(
        create_game_session(
            "high".to_string(),
            unique(),
            max_bet,
            GameMode::PayToSpawnFiveVsFive,
            0,
            open_limits(),
        ),
        Err(WagerError::InvalidBetAmount)
    );
}

#[test]
fn test_recommended_validation() {
    let limits = Limits {
        min_bet: 100,
        max_bet: 1_000_000,
        max_spawns_per_player: 50,
        max_purchases_per_session: 10,
    };

    let test_bets = vec![0, 50, 100, 1000, 1_000_000, 2_000_000, u64::MAX];
    let expected = vec![false, false, true, true, true, false, false];

    for (bet_amount, valid) in test_bets.into_iter().zip(expected) {
        println!("Testing bet amount: {}", bet_amount);
        assert_eq!(is_bet_accepted(bet_amount, &limits), valid);
        let result = create_game_session(
            "validated".to_string(),
            unique(),
            bet_amount,
            GameMode::WinnerTakesAllOneVsOne,
            0,
            limits,
        );
        if valid {
            assert_eq!(result.unwrap().session_bet, bet_amount);
        } else {
            assert_eq!(result, Err(WagerError::InvalidBetAmount));
        }
    }
}

#[test]
fn poc_4_test_pay_to_spawn_arithmetic_error() {
    let player_a = unique();
    let player_b = unique();
    let mut game_session = session(
        "pay_to_spawn_test",
        1000,
        GameMode::PayToSpawnOneVsOne,
        team(one(player_a), 1000, [5, 0, 0, 0, 0], [3, 0, 0, 0, 0]),
        team(one(player_b), 1000, [2, 0, 0, 0, 0], [7, 0, 0, 0, 0]),
        GameStatus::InProgress,
    );

    let player_a_kills_and_spawns = game_session.get_kills_and_spawns(player_a).unwrap();
    let player_b_kills_and_spawns = game_session.get_kills_and_spawns(player_b).unwrap();
    assert_eq!(player_a_kills_and_spawns, 8);
    assert_eq!(player_b_kills_and_spawns, 9);

    let assumed_vault_balance = 5000;
    let payouts = distribute_pay_spawn_earnings(&mut game_session, assumed_vault_balance).unwrap();
    let total_earnings: u64 = payouts.iter().map(|p| p.amount).sum();

    assert_eq!(payouts[0].amount, 942);
    assert_eq!(payouts[1].amount, 1058);
    assert_eq!(total_earnings, 2000);
    assert!(total_earnings <= assumed_vault_balance);
    assert_eq!(game_session.status, GameStatus::Completed);
}

#[test]
fn poc_4_test_vault_balance_validation_missing() {
    let game_session = session(
        "vault_test",
        10000,
        GameMode::PayToSpawnFiveVsFive,
        team(five(), 50000, [10, 10, 10, 10, 10], [10, 10, 10, 10, 10]),
        team(five(), 50000, [10, 10, 10, 10, 10], [10, 10, 10, 10, 10]),
        GameStatus::InProgress,
    );

    let vault_scenarios = vec![
        ("Low vault", 50000),
        ("Medium vault", 100000),
        ("High vault", 200000),
    ];

    let mut total_calculated_earnings = 0u64;
    for (scenario_name, vault_balance) in vault_scenarios {
        println!("Scenario: {} ({} tokens)", scenario_name, vault_balance);
        let mut settled = game_session.clone();
        if vault_balance < 100000 {
            assert_eq!(
                distribute_pay_spawn_earnings(&mut settled, vault_balance),
                Err(WagerError::InsufficientVaultBalance)
            );
            assert_eq!(settled, game_session);
        } else {
            let payouts = distribute_pay_spawn_earnings(&mut settled, vault_balance).unwrap();
            assert_eq!(payouts.len(), 10);
            total_calculated_earnings = payouts.iter().map(|p| p.amount).sum();
            assert_eq!(total_calculated_earnings, 100000);
            assert_eq!(settled.status, GameStatus::Completed);
        }
    }

    assert!(total_calculated_earnings > 0, "Players should have earnings");
}

#[test]
fn poc_6_test_duplicate_player_vulnerability() {
    let mut game_session = session(
        "duplicate_test",
        1000,
        GameMode::WinnerTakesAllThreeVsThree,
        team([None; 5], 0, [10; 5], [0; 5]),
        team([None; 5], 0, [10; 5], [0; 5]),
        GameStatus::WaitingForPlayers,
    );
    let duplicate_player = unique();

    let team_a_slot = game_session.get_player_empty_slot(0).unwrap();
    assert_eq!(join_user(&mut game_session, 0, duplicate_player), Ok(team_a_slot));
    println!("Team A players: {:?}", &game_session.team_a.players[0..3]);

    let team_b_slot = game_session.get_player_empty_slot(1).unwrap();
    assert_eq!(
        join_user(&mut game_session, 1, duplicate_player),
        Err(WagerError::DuplicatePlayer)
    );
    println!("Team B players: {:?}", &game_session.team_b.players[0..3]);

    assert_eq!(game_session.team_a.players[team_a_slot], Some(duplicate_player));
    assert_eq!(game_session.team_b.players[team_b_slot], None);
    assert_eq!(game_session.team_a.total_bet, 1000);
    assert_eq!(game_session.team_b.total_bet, 0);
    assert_eq!(game_session.get_kills_and_spawns(duplicate_player), Ok(10));
}

#[test]
fn poc_6_test_same_team_duplicate_slots() {
    let mut game_session = session(
        "same_team_duplicate",
        1000,
        GameMode::WinnerTakesAllFiveVsFive,
        team([None; 5], 0, [10; 5], [0; 5]),
        team([None; 5], 0, [10; 5], [0; 5]),
        GameStatus::WaitingForPlayers,
    );
    let duplicate_player = unique();

    let slot1 = game_session.get_player_empty_slot(0).unwrap();
    join_user(&mut game_session, 0, duplicate_player).unwrap();
    let slot2 = game_session.get_player_empty_slot(0).unwrap();
    assert_eq!(
        join_user(&mut game_session, 0, duplicate_player),
        Err(WagerError::DuplicatePlayer)
    );

    assert_eq!(game_session.team_a.players[slot1], Some(duplicate_player));
    assert_eq!(game_session.team_a.players[slot2], None);
    let occupied_slots = game_session
        .team_a
        .players
        .iter()
        .filter(|p| **p == Some(duplicate_player))
        .count();
    assert_eq!(occupied_slots, 1, "Player should occupy one slot only");
}

#[test]
fn test_economic_exploitation() {
    let mut game_session = session(
        "economic_exploit",
        1000,
        GameMode::PayToSpawnThreeVsThree,
        team([None; 5], 0, [10; 5], [0; 5]),
        team([None; 5], 0, [10; 5], [0; 5]),
        GameStatus::WaitingForPlayers,
    );
    let exploiter = unique();

    let positions = vec![(0, "Team A Slot 0"), (1, "Team B Slot 0"), (0, "Team A Slot 1")];

    let mut total_bets_paid = 0u64;
    let mut positions_occupied = 0;

    for (team, description) in positions {
        if join_user(&mut game_session, team, exploiter).is_ok() {
            total_bets_paid += game_session.session_bet;
            positions_occupied += 1;
            println!("Joined {}: {} tokens paid", description, game_session.session_bet);
        }
    }

    assert_eq!(positions_occupied, 1, "A player should occupy one position only");
    assert_eq!(total_bets_paid, 1000);
    assert_eq!(game_session.team_a.total_bet + game_session.team_b.total_bet, total_bets_paid);
    assert_eq!(game_session.get_all_players(), vec![exploiter]);
}

#[test]
fn test_recommended_duplicate_prevention() {
    let test_player = unique();
    let mut game_session = session(
        "proper_validation",
        1000,
        GameMode::WinnerTakesAllOneVsOne,
        team(one(test_player), 1000, [10; 5], [0; 5]),
        team([None; 5], 0, [10; 5], [0; 5]),
        GameStatus::WaitingForPlayers,
    );

    let is_duplicate = game_session.has_player(test_player);
    assert!(is_duplicate, "Player should be detected as already in game");
    assert_eq!(
        join_user(&mut game_session, 1, test_player),
        Err(WagerError::DuplicatePlayer)
    );
}

#[test]
fn poc_7_test_unlimited_spawn_purchases() {
    let player = unique();
    let mut game_session = session(
        "unlimited_spawns_test",
        1000,
        GameMode::PayToSpawnOneVsOne,
        team(one(player), 1000, [10, 0, 0, 0, 0], [5, 0, 0, 0, 0]),
        team([None; 5], 0, [0; 5], [0; 5]),
        GameStatus::InProgress,
    );
    let player_index = 0;
    let team = 0;

    let mut total_cost = 0u64;
    let purchase_attempts: u16 = 50;

    for purchase_round in 1..=purchase_attempts {
        assert!(matches!(game_session.status, GameStatus::InProgress));
        assert!(game_session.is_pay_to_spawn());
        let found_player_index = game_session.get_player_index(team, player).unwrap();
        assert_eq!(found_player_index, player_index);

        total_cost += game_session.session_bet;
        game_session.add_spawns(team, player_index, 10).unwrap();

        let current_spawns = game_session.team_a.player_spawns[player_index];
        let expected_spawns = 10 + (purchase_round * 10);
        assert_eq!(current_spawns, expected_spawns, "Spawns should increase by 10 each purchase");
    }

    let final_spawns = game_session.team_a.player_spawns[player_index];
    println!("Average cost per spawn: {} tokens", total_cost / final_spawns as u64);
    assert_eq!(final_spawns, 10 + (purchase_attempts * 10));
    assert_eq!(total_cost, purchase_attempts as u64 * game_session.session_bet);
}

#[test]
fn poc_7_test_economic_imbalance_from_unlimited_spawns() {
    let mut game_session = session(
        "economic_imbalance_test",
        500,
        GameMode::PayToSpawnThreeVsThree,
        team(three(), 1500, [10, 10, 10, 0, 0], [2, 3, 1, 0, 0]),
        team(three(), 1500, [10, 10, 10, 0, 0], [1, 2, 4, 0, 0]),
        GameStatus::InProgress,
    );

    let rich_player_team = 0;
    let rich_player_index = 0;
    let spawn_purchases = 100;

    let mut rich_player_cost = 0u64;
    for _ in 0..spawn_purchases {
        rich_player_cost += game_session.session_bet;
        game_session.add_spawns(rich_player_team, rich_player_index, 10).unwrap();
    }

    let rich_player_spawns = game_session.team_a.player_spawns[rich_player_index];
    let new_total_spawns: u16 = game_session.team_a.player_spawns.iter().sum::<u16>()
        + game_session.team_b.player_spawns.iter().sum::<u16>();
    let spawn_advantage = rich_player_spawns as f64 / 10.0;

    assert_eq!(rich_player_cost, 50_000);
    assert_eq!(new_total_spawns, 1060);
    assert!(rich_player_spawns > 1000, "Rich player should have excessive spawns");
    assert!(spawn_advantage > 100.0, "Spawn advantage should be extreme");

    let mut bounded = session(
        "economic_balance_test",
        500,
        GameMode::PayToSpawnThreeVsThree,
        team(three(), 1500, [10, 10, 10, 0, 0], [2, 3, 1, 0, 0]),
        team(three(), 1500, [10, 10, 10, 0, 0], [1, 2, 4, 0, 0]),
        GameStatus::InProgress,
    );
    bounded.limits = bounded_limits();
    let mut accepted = 0;
    for _ in 0..spawn_purchases {
        if bounded.add_spawns(rich_player_team, rich_player_index, 10).is_ok() {
            accepted += 1;
        }
    }
    assert_eq!(accepted, 4);
    assert_eq!(bounded.team_a.player_spawns[rich_player_index], 50);
}

#[test]
fn test_never_ending_game_scenario() {
    let mut game_session = session(
        "never_ending_test",
        100,
        GameMode::PayToSpawnOneVsOne,
        team(one(unique()), 100, [1, 0, 0, 0, 0], [0, 0, 0, 0, 0]),
        team(one(unique()), 100, [1, 0, 0, 0, 0], [0, 0, 0, 0, 0]),
        GameStatus::InProgress,
    );

    let player_a = 0;
    let player_b = 0;
    let team_a = 0;
    let team_b = 1;

    for round in 1..=20 {
        game_session.add_spawns(team_a, player_a, 10).unwrap();
        let spawns_a = game_session.team_a.player_spawns[player_a];

        game_session.add_spawns(team_b, player_b, 10).unwrap();
        let spawns_b = game_session.team_b.player_spawns[player_b];

        println!("Round {}: A {} spawns, B {} spawns", round, spawns_a, spawns_b);

        if spawns_a > 5 {
            game_session.team_a.player_spawns[player_a] -= 3;
        }
        if spawns_b > 5 {
            game_session.team_b.player_spawns[player_b] -= 3;
        }
    }

    let final_spawns_a = game_session.team_a.player_spawns[player_a];
    let final_spawns_b = game_session.team_b.player_spawns[player_b];

    assert!(final_spawns_a > 0, "Player A should still have spawns");
    assert!(final_spawns_b > 0, "Player B should still have spawns");
    assert_eq!(final_spawns_a, 141);
    assert_eq!(final_spawns_b, 141);
    assert_eq!(game_session.spawn_purchases, 40);

    let mut bounded = game_session.clone();
    bounded.limits = bounded_limits();
    assert_eq!(bounded.add_spawns(team_a, player_a, 10), Err(WagerError::SpawnLimitExceeded));
    assert_eq!(bounded, {
        let mut unchanged = game_session.clone();
        unchanged.limits = bounded_limits();
        unchanged
    });
}

#[test]
fn poc_7_test_recommended_spawn_limits() {
    let session_bet = 1000u64;
    let max_spawns_per_player = 50u16;
    let max_purchases_per_game = 10u16;

    let test_cases = vec![
        (10, 0, 5, true, "Should succeed - normal case"),
        (50, 5, 5, false, "Should fail - max spawns reached"),
        (30, 10, 5, false, "Should fail - max purchases reached"),
        (20, 5, 2, true, "Should succeed - below both limits"),
        (45, 9, 3, true, "Should succeed - within all limits"),
    ];

    for (spawns, purchases, _rounds_since_last_purchase, allowed, description) in test_cases {
        let buyer = unique();
        let mut game_session = session(
            "limits",
            session_bet,
            GameMode::PayToSpawnOneVsOne,
            team(one(buyer), session_bet, [spawns, 0, 0, 0, 0], [0; 5]),
            team(one(unique()), session_bet, [10, 0, 0, 0, 0], [0; 5]),
            GameStatus::InProgress,
        );
        game_session.limits.max_spawns_per_player = max_spawns_per_player;
        game_session.limits.max_purchases_per_session = max_purchases_per_game;
        game_session.spawn_purchases = purchases;
        let before = game_session.clone();

        let result = pay_to_spawn(&mut game_session, 0, buyer);
        if allowed {
            assert_eq!(result, Ok(()), "{}", description);
            assert_eq!(game_session.team_a.player_spawns[0], spawns + 10);
            assert_eq!(game_session.spawn_purchases, purchases + 1);
        } else {
            assert_eq!(result, Err(WagerError::SpawnLimitExceeded), "{}", description);
            assert_eq!(game_session, before);
        }
    }
}

#[test]
fn poc_8_test_refund_completed_games() {
    let mut game_session = session(
        "completed_game_refund",
        1000,
        GameMode::WinnerTakesAllOneVsOne,
        team(one(unique()), 1000, [0, 0, 0, 0, 0], [5, 0, 0, 0, 0]),
        team(one(unique()), 1000, [3, 0, 0, 0, 0], [2, 0, 0, 0, 0]),
        GameStatus::Completed,
    );
    let status_before = game_session.status;
    println!("Game status: {:?}", game_session.status);

    let players = game_session.get_all_players();
    let total_refund_amount = players.len() as u64 * game_session.session_bet;
    assert_eq!(total_refund_amount, 2000);

    assert_eq!(refund_wager(&mut game_session, total_refund_amount), Err(WagerError::InvalidState));
    println!("Status before: {:?}", status_before);
    println!("New status: {:?}", game_session.status);
    assert_eq!(game_session.status, status_before);
}

#[test]
fn test_double_refund_vulnerability() {
    let mut game_session = session(
        "double_refund_test",
        500,
        GameMode::WinnerTakesAllThreeVsThree,
        team(three(), 1500, [10, 10, 10, 0, 0], [0, 0, 0, 0, 0]),
        team(three(), 1500, [10, 10, 10, 0, 0], [0, 0, 0, 0, 0]),
        GameStatus::WaitingForPlayers,
    );
    println!("Initial game status: {:?}", game_session.status);
    let players = game_session.get_all_players();

    let first = refund_wager(&mut game_session, 6000).unwrap();
    let first_refund_total: u64 = first.iter().map(|p| p.amount).sum();
    assert_eq!(first.len(), 6);
    for (refund, player) in first.iter().zip(players.iter()) {
        assert_eq!(refund.recipient, *player);
        assert_eq!(refund.amount, 500);
    }
    assert_eq!(game_session.status, GameStatus::Refunded);

    let after_first = game_session.clone();
    let second = refund_wager(&mut game_session, 6000);
    assert_eq!(second, Err(WagerError::AlreadySettled));
    assert_eq!(game_session, after_first);
    let second_refund_total: u64 = second.map(|p| p.iter().map(|q| q.amount).sum()).unwrap_or(0);

    assert_eq!(first_refund_total, 3000);
    assert_eq!(second_refund_total, 0);
    assert_eq!(first_refund_total + second_refund_total, 3000);
}

#[test]
fn poc_8_test_vault_balance_validation_missing() {
    let game_session = session(
        "vault_balance_test",
        10000,
        GameMode::WinnerTakesAllFiveVsFive,
        team(five(), 50000, [10; 5], [0; 5]),
        team(five(), 50000, [10; 5], [0; 5]),
        GameStatus::WaitingForPlayers,
    );

    let active_players = game_session.get_all_players();
    assert_eq!(active_players.len(), 10);
    let total_refund_needed = active_players.len() as u64 * game_session.session_bet;

    let vault_scenarios = vec![
        ("Sufficient vault", total_refund_needed),
        ("Insufficient vault", total_refund_needed / 2),
        ("Empty vault", 0),
        ("Partial vault", total_refund_needed - 10000),
    ];

    for (scenario_name, vault_balance) in vault_scenarios {
        println!("{}: vault {} of {}", scenario_name, vault_balance, total_refund_needed);
        let mut refunded = game_session.clone();
        let result = refund_wager(&mut refunded, vault_balance);
        if vault_balance < total_refund_needed {
            assert_eq!(result, Err(WagerError::InsufficientVaultBalance));
            assert_eq!(refunded, game_session);
        } else {
            let refunds = result.unwrap();
            assert_eq!(refunds.iter().map(|p| p.amount).sum::<u64>(), total_refund_needed);
            assert_eq!(refunded.status, GameStatus::Refunded);
        }
    }
}

#[test]
fn test_inappropriate_state_refunds() {
    let states_to_test = vec![
        (GameStatus::InProgress, "Active game in progress"),
        (GameStatus::Completed, "Already completed game"),
    ];

    for (status, description) in states_to_test {
        println!("Testing refund: {}", description);
        let mut game_session = session(
            &format!("state_test_{:?}", status),
            1000,
            GameMode::WinnerTakesAllOneVsOne,
            team(one(unique()), 1000, [5, 0, 0, 0, 0], [3, 0, 0, 0, 0]),
            team(one(unique()), 1000, [2, 0, 0, 0, 0], [1, 0, 0, 0, 0]),
            status,
        );

        let should_allow_refund = matches!(status, GameStatus::WaitingForPlayers);
        let before = game_session.clone();
        let result = refund_wager(&mut game_session, u64::MAX);

        assert_eq!(result.is_ok(), should_allow_refund);
        assert_eq!(result, Err(WagerError::InvalidState));
        assert_eq!(game_session, before);
    }
}

#[test]
fn poc_8_test_recommended_refund_validation() {
    let test_cases = vec![
        (GameStatus::WaitingForPlayers, 10000, 5000, false, None, "Should succeed - valid refund"),
        (
            GameStatus::InProgress,
            10000,
            5000,
            false,
            Some(WagerError::InvalidState),
            "Should fail - game in progress",
        ),
        (
            GameStatus::Completed,
            10000,
            5000,
            false,
            Some(WagerError::InvalidState),
            "Should fail - game completed",
        ),
        (
            GameStatus::WaitingForPlayers,
            3000,
            5000,
            false,
            Some(WagerError::InsufficientVaultBalance),
            "Should fail - insufficient vault",
        ),
        (
            GameStatus::WaitingForPlayers,
            10000,
            5000,
            true,
            Some(WagerError::AlreadySettled),
            "Should fail - already refunded",
        ),
    ];

    for (status, vault_balance, refund_needed, already_refunded, refusal, description) in
        test_cases
    {
        let mut game_session = session(
            "refund_validation",
            1000,
            GameMode::WinnerTakesAllFiveVsFive,
            team(five(), 5000, [10; 5], [0; 5]),
            team([None; 5], 0, [0; 5], [0; 5]),
            status,
        );
        if already_refunded {
            refund_wager(&mut game_session, vault_balance).unwrap();
        }

        let result = refund_wager(&mut game_session, vault_balance);
        match refusal {
            None => {
                let refunds = result.unwrap();
                assert_eq!(
                    refunds.iter().map(|p| p.amount).sum::<u64>(),
                    refund_needed,
                    "{}",
                    description
                );
            }
            Some(reason) => assert_eq!(result, Err(reason), "{}", description),
        }
    }
}
