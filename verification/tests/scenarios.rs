use wager_program::{
    create_game_session, distribute_winnings, join_user, record_kill, GameMode, GameStatus,
    Limits, PlayerId, WagerError,
};

fn player(tag: u8) -> PlayerId {
    PlayerId::new([tag; 32])
}

fn limits() -> Limits {
    Limits {
        min_bet: 100,
        max_bet: 1_000_000,
        max_spawns_per_player: 50,
        max_purchases_per_session: 10,
    }
}

#[test]
fn one_vs_one_winner_takes_all_pays_the_winner_everything() {
    let mut session = create_game_session(
        "duel".to_string(),
        player(9),
        1000,
        GameMode::WinnerTakesAllOneVsOne,
        0,
        limits(),
    )
    .unwrap();
    assert_eq!(join_user(&mut session, 0, player(1)), Ok(0));
    assert_eq!(session.status, GameStatus::WaitingForPlayers);
    assert_eq!(join_user(&mut session, 1, player(2)), Ok(0));
    assert_eq!(session.status, GameStatus::InProgress);
    assert_eq!(record_kill(&mut session, 0, player(1), 1, player(2)), Ok(()));
    let payouts = distribute_winnings(&mut session, 0, 2000).unwrap();
    assert_eq!(payouts.len(), 1);
    assert_eq!(payouts[0].recipient, player(1));
    assert_eq!(payouts[0].amount, 2000);
    assert_eq!(session.status, GameStatus::Completed);
    assert_eq!(
        distribute_winnings(&mut session, 0, 2000),
        Err(WagerError::InvalidState)
    );
}
