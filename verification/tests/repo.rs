use myconnect4::game::victory::GameOver;
use myconnect4::repo::{Connect4Repo, PAST_GAMES_LIMIT};

fn users(a: &str, b: &str) -> (String, String) {
    (a.to_string(), b.to_string())
}

#[test]
fn create_new_game_records_both_users() {
    let mut repo = Connect4Repo::default();
    let id = repo.create_new_game(users("Alice", "Bob"));
    assert_eq!(repo.get_game_id("Alice"), Some(id));
    assert_eq!(repo.get_game_id("Bob"), Some(id));
    assert_eq!(repo.get_game_id("Carl"), None);
    assert_eq!(repo.get_game_ids(), vec![id]);
    let mut names = repo.get_users();
    names.sort();
    assert_eq!(names, vec!["Alice".to_string(), "Bob".to_string()]);
    let game = repo.get_game(id).expect("the game exists");
    assert_eq!(game.users, users("Alice", "Bob"));
    assert_eq!(game.game_id, id);
    assert!(repo.get_game(id.wrapping_add(1)).is_none());
}

#[test]
fn get_game_changes_the_stored_game() {
    let mut repo = Connect4Repo::default();
    let id = repo.create_new_game(users("Alice", "Bob"));
    {
        let game = repo.get_game(id).unwrap();
        assert!(game.play_no_user(3));
    }
    let game = repo.get_game(id).unwrap();
    assert_eq!(game.board_to_str().lines().last(), Some(if game.user_first == "Alice" { "...T..." } else { "...F..." }));
}

#[test]
fn delete_user_removes_the_game_and_names_the_rival() {
    let mut repo = Connect4Repo::default();
    let id = repo.create_new_game(users("Alice", "Bob"));
    assert!(repo.can_delete_user("Bob"));
    assert_eq!(repo.delete_user("Bob"), Some("Alice".to_string()));
    assert_eq!(repo.get_game_id("Alice"), None);
    assert_eq!(repo.get_game_id("Bob"), None);
    assert!(repo.get_game(id).is_none());
    assert_eq!(repo.delete_user("Bob"), None);
    assert!(repo.get_users().is_empty());
}

#[test]
fn delete_game_keeps_it_among_the_past_games() {
    let mut repo = Connect4Repo::default();
    let id = repo.create_new_game(users("Alice", "Bob"));
    {
        let game = repo.get_game(id).unwrap();
        game.board_from_str(".......\n.......\n.......\n.......\n.......\nTTTT...\n");
    }
    repo.delete_game(id);
    assert_eq!(repo.total_games_played, 1);
    assert!(repo.get_game_ids().is_empty());
    assert_eq!(repo.get_game_id("Alice"), None);
    let past = repo.get_past_games(10);
    assert_eq!(past.len(), 1);
    assert_eq!(past[0].0.game_id, id);
    match &past[0].1 {
        Some(GameOver::Winner(w)) => assert_eq!(w, "Alice"),
        other => panic!("unexpected {other:?}"),
    }
}

#[test]
fn past_games_stay_below_the_limit_oldest_first() {
    let mut repo = Connect4Repo::default();
    let mut ids = vec![];
    for i in 0..(PAST_GAMES_LIMIT + 5) {
        let id = repo.create_new_game(users(&format!("a{i}"), &format!("b{i}")));
        ids.push(id);
        repo.delete_game(id);
    }
    let past = repo.get_past_games(1000);
    assert_eq!(past.len(), PAST_GAMES_LIMIT - 1);
    // the oldest kept game comes first, the newest last
    assert_eq!(past[past.len() - 1].0.game_id, ids[ids.len() - 1]);
    assert_eq!(past[0].0.game_id, ids[ids.len() - (PAST_GAMES_LIMIT - 1)]);
    assert_eq!(repo.get_past_games(2).len(), 2);
    assert_eq!(repo.total_games_played, (PAST_GAMES_LIMIT + 5) as u128);
}

#[test]
fn total_games_played_wraps_to_zero() {
    let mut repo = Connect4Repo::default();
    repo.total_games_played = u128::MAX - 1;
    let id = repo.create_new_game(users("Alice", "Bob"));
    repo.delete_game(id);
    assert_eq!(repo.total_games_played, 0);
}
