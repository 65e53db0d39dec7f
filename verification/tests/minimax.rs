use myconnect4::game::Connect4Game;
use myconnect4::minimax;

#[test]
fn test_obvious_best_move() {
    let tcases = vec![
        (
            ".......\n\
             .......\n\
             .......\n\
             ....T..\n\
             ...TTFT\n\
             TFTFTFT\n",
            Some(4)
        ),
        (
            ".......\n\
             .......\n\
             .......\n\
             ....F..\n\
             ...TFFT\n\
             TFTFFFT\n",
            Some(4)
        ),
        (
            ".......\n\
             .......\n\
             .......\n\
             .F..TF.\n\
             .F.TFTT\n\
             TFTFFFT\n",
            Some(5)
        ),
        (
            ".......\n\
             .......\n\
             .T.....\n\
             .F..TF.\n\
             .F.FFTT\n\
             TFTFFFT\n",
            Some(2)
        ),
    ];
    let users = ("Alice".to_owned(), "Bob".to_owned());
    for (i, (board, solution)) in tcases.into_iter().enumerate() {
        let mut game = Connect4Game::new_custom(0, users.0.clone(), users.1.clone(), true);
        game.board_from_str(board);
        let best_move = minimax::best_move(&mut game);
        assert_eq!(best_move, solution, "Failure at testcase#{i}");
    }
}

#[test]
fn best_move_is_none_when_the_game_is_over() {
    let mut game = Connect4Game::new_custom(0, "Alice".to_owned(), "Bob".to_owned(), true);
    game.board_from_str(".......\n.......\n.......\n.......\n.......\nTTTT...\n");
    let before = game.board_to_str();
    assert_eq!(minimax::best_move(&mut game), None);
    assert_eq!(game.board_to_str(), before);
}

#[test]
fn best_move_plays_the_winning_move() {
    let mut game = Connect4Game::new_custom(0, "Alice".to_owned(), "Bob".to_owned(), true);
    game.board_from_str(".......\n.......\n.......\nT......\nT.....F\nT.....F\n");
    assert_eq!(minimax::best_move(&mut game), Some(0));
    assert_eq!(game.check_victory(), Some(true));
}

#[test]
fn minscore_scores_an_immediate_win_and_leaves_the_game() {
    let mut game = Connect4Game::new_custom(0, "Alice".to_owned(), "Bob".to_owned(), true);
    game.board_from_str(".......\n.......\n.......\n.......\n.......\nTTTT...\n");
    assert_eq!(minimax::minscore(&mut game, 3), 4);
    assert_eq!(minimax::maxscore(&mut game, 3), -4);
    let mut game = Connect4Game::new_custom(0, "Alice".to_owned(), "Bob".to_owned(), true);
    assert_eq!(minimax::minscore(&mut game, 0), 0);
    assert_eq!(minimax::maxscore(&mut game, 2), 0);
    assert_eq!(game.board_to_str(), ".......\n".repeat(6));
}

#[test]
fn score_column_refuses_a_full_column() {
    let mut game = Connect4Game::new_custom(0, "Alice".to_owned(), "Bob".to_owned(), true);
    game.board_from_str("T......\nF......\nT......\nF......\nT......\nF......\n");
    assert_eq!(minimax::score_column(&game, 0), None);
    assert!(minimax::score_column(&game, 1).is_some());
}

#[test]
fn best_move_with_picks_by_the_draw_among_best_columns() {
    let mut game = Connect4Game::new_custom(1, "A".to_string(), "B".to_string(), true);
    game.board_from_str("TFT.TF.\nFTF.FT.\nTFT.TF.\nFTF.FT.\nTFT.TF.\nFTF.FT.\n");
    let scores: Vec<(i64, u8)> = (0..7).filter_map(|c| minimax::score_column(&game, c)).collect();
    assert_eq!(scores.iter().map(|x| x.1).collect::<Vec<u8>>(), vec![3, 6]);
    let best = scores.iter().map(|x| x.0).max().unwrap();
    let best_cols: Vec<u8> = scores.iter().filter(|x| x.0 == best).map(|x| x.1).collect();
    for draw in [0usize, 1, 2, 5] {
        let mut g = game.clone();
        let col = best_cols[draw % best_cols.len()];
        assert_eq!(minimax::best_move_with(&mut g, draw), Some(col));
        let mut expected = game.clone();
        assert!(expected.play_no_user(col));
        assert_eq!(g.board_to_str(), expected.board_to_str());
    }
    let mut game = Connect4Game::new_custom(1, "A".to_string(), "B".to_string(), true);
    game.board_from_str(".......\n.......\n.......\n....T..\n...TTFT\nTFTFTFT\n");
    for draw in [0usize, 1, 5] {
        let mut g = game.clone();
        assert_eq!(minimax::best_move_with(&mut g, draw), Some(4));
    }
}
