use myconnect4::game::Connect4Game;
use myconnect4::game::victory::GameOver;

#[test]
fn test_draw() {
    let positive_test_cases = vec![

        "FTFTFTF\n\
        TFTFTFT\n\
        FTFTFTF\n\
        TFTFTFT\n\
        FTFTFTF\n\
        TFTFTFT",

        "TTTFFFT\n\
        FTTTFFF\n\
        TFTFTFT\n\
        FTFTFTF\n\
        TFTFTFT\n\
        FTFTFFF",

        "FFTTFTT\n\
        TTFFTFF\n\
        FTFTFTF\n\
        TFTFTFT\n\
        FTFTFTF\n\
        TFTFTFT",

        "FTFTFTF\n\
        TFTFTFT\n\
        FTFTFTF\n\
        TFTFTFT\n\
        FTFTFTF\n\
        TFTFTFT",
    ];

    let negative_test_cases = vec![
        ".......\n\
        .......\n\
        .......\n\
        .......\n\
        .......\n\
        .......",

        ".TFTFTF\n\
        .FTFTFT\n\
        .TFTFTF\n\
        .FTFTFT\n\
        .TFTFTF\n\
        .FTFTFT",

        "FF.....\n\
        TTFFTFF\n\
        FTFTFTF\n\
        TFTFTFT\n\
        FTFTFTF\n\
        TFTFTFT",

        "FTFTFT.\n\
        TFTFTFT\n\
        FTFTFTF\n\
        TFTFTFT\n\
        FTFTFTF\n\
        TFTFTFT",
    ];

    let mut game = Connect4Game::new(0, ("Alice".to_string(), "Bob".to_string()));
    for board in positive_test_cases {
        game.board_from_str(board);
        assert!(game.check_draw(), "Positive case failed");
    }
    for board in negative_test_cases {
        game.board_from_str(board);
        assert!(!game.check_draw(), "Negative case failed");
    }
}

#[test]
fn test_victory() {
    let test_cases = vec![
        (
            "horizontal_positive_T",
           ".......\n\
            .......\n\
            .......\n\
            .......\n\
            ...TTTT\n\
            .......\n",
            Some(true)
        ),
        (
            "horizontal_positive_F",
           ".......\n\
            .......\n\
            .FFFF..\n\
            .......\n\
            .......\n\
            .......\n",
            Some(false)
        ),
        (
            "horizontal_negative",
           ".......\n\
            ...FFF.\n\
            .......\n\
            .TTTFF.\n\
            ...FFFT.\n\
            .......\n",
            None
        ),
        (
            "vertical_positive_T",
           ".......\n\
            ....T..\n\
            ....T..\n\
            ....T..\n\
            ...TTFT\n\
            .......\n",
            Some(true)
        ),
        (
            "vertical_positive_F",
           "F......\n\
            F......\n\
            FTFFF..\n\
            F......\n\
            F......\n\
            .......\n",
            Some(false)
        ),
        (
            "vertical_negative",
           ".......\n\
            ...FFF.\n\
            ...FT..\n\
            .TTTFF.\n\
            ...FFFT\n\
            .....F.\n",
            None
        ),
        (
            "diag_slope_up_positive_T",
           ".......\n\
            ......T\n\
            .....T.\n\
            ....T..\n\
            ...TFTT\n\
            .......\n",
            Some(true)
        ),
        (
            "diag_slope_up_positive_F",
           ".......\n\
            .......\n\
            .FFFTTF\n\
            .....FT\n\
            ....FTF\n\
            ...FTTT\n",
            Some(false)
        ),
        (
            "diag_slope_up_negative",
           ".......\n\
            ...FFF.\n\
            ...T...\n\
            .TTTFF.\n\
            .T.FFFT.\n\
            .......\n",
            None
        ),
        (
            "diag_slope_down_positive_T",
           ".......\n\
            ..T...T\n\
            ...T.F.\n\
            ....T..\n\
            ...TFTT\n\
            .......\n",
            Some(true)
        ),
        (
            "diag_slope_down_positive_F",
           ".F.....\n\
            ..F....\n\
            .FFFTTF\n\
            ....FFT\n\
            ....TTF\n\
            ...FTTT\n",
            Some(false)
        ),
        (
            "diag_slope_down_negative",
           "F......\n\
            .F.FFF.\n\
            T.FT.T.\n\
            .TTTFF.\n\
            .TTFFFT.\n\
            .FF...F\n",
            None
        )
    ];

    let mut game = Connect4Game::new(0, ("Alice".to_string(), "Bob".to_string()));
    for (test_title, board, winner) in test_cases {
        game.board_from_str(board);
        assert_eq!(
            game.check_victory(),
            winner,
            "Test case failed: {}",
            test_title
        );
    }
}

fn custom_game() -> Connect4Game {
    Connect4Game::new_custom(7, "Alice".to_string(), "Bob".to_string(), true)
}

#[test]
fn new_custom_orders_users_by_first_turn() {
    let game = Connect4Game::new_custom(3, "Alice".to_string(), "Bob".to_string(), false);
    assert_eq!(game.users, ("Bob".to_string(), "Alice".to_string()));
    assert_eq!(game.user_first, "Bob");
    assert_eq!(game.game_id, 3);
    assert_eq!(game.board_to_str(), ".......\n".repeat(6));
}

#[test]
fn new_game_first_user_is_one_of_the_users() {
    for id in 0..20 {
        let game = Connect4Game::new(id, ("Alice".to_string(), "Bob".to_string()));
        assert!(game.user_first == "Alice" || game.user_first == "Bob");
        assert_eq!(game.users, ("Alice".to_string(), "Bob".to_string()));
    }
}

#[test]
fn play_stacks_pieces_and_alternates_turns() {
    let mut game = custom_game();
    assert!(game.play("Alice", 3));
    assert!(!game.play("Alice", 3), "not Alice's turn");
    assert!(game.play("Bob", 3));
    assert!(game.play_no_user(4));
    assert_eq!(
        game.board_to_str(),
        ".......\n.......\n.......\n.......\n...F...\n...TT..\n"
    );
}

#[test]
fn play_refuses_bad_columns_and_full_columns() {
    let mut game = custom_game();
    assert!(!game.play("Alice", 7));
    assert!(!game.play("Alice", 200));
    for _ in 0..6 {
        assert!(game.play_no_user(0));
    }
    assert!(!game.play_no_user(0), "column 0 is full");
    assert!(game.play_no_user(1));
}

#[test]
fn play_lands_on_top_of_the_highest_piece() {
    let mut game = custom_game();
    game.board_from_str(".......\n.......\n..T....\n.......\n.......\n.......\n");
    assert!(game.play("Alice", 2));
    assert_eq!(
        game.board_to_str(),
        ".......\n..T....\n..T....\n.......\n.......\n.......\n"
    );
}

#[test]
fn undo_play_takes_back_the_last_move() {
    let mut game = custom_game();
    assert!(game.play_no_user(2));
    let before = game.board_to_str();
    assert!(game.play_no_user(2));
    assert!(game.undo_play(2));
    assert_eq!(game.board_to_str(), before);
    assert!(game.play("Bob", 5), "the turn came back to Bob");
    assert!(!game.undo_play(0), "empty column");
    assert!(!game.undo_play(9), "no such column");
}

#[test]
fn get_rival_names_the_other_user() {
    let game = custom_game();
    assert_eq!(game.get_rival("Alice"), "Bob");
    assert_eq!(game.get_rival("Bob"), "Alice");
    assert_eq!(game.get_rival("Carl"), "Alice");
}

#[test]
fn is_gameover_reports_winner_and_draw() {
    let mut game = custom_game();
    game.board_from_str(".......\n.......\n.......\n.......\n.......\nFFFF...\n");
    match game.is_gameover() {
        Some(GameOver::Winner(name)) => assert_eq!(name, "Bob"),
        other => panic!("unexpected {other:?}"),
    }
    game.board_from_str("FTFTFTF\nFTTTFTF\nTTTFTTT\nFFTFFFT\nTTFFFTF\nFTFTFFT");
    assert!(matches!(game.is_gameover(), Some(GameOver::Draw)));
    game.board_from_str(".......\n.......\n.......\n.......\n.......\n.......\n");
    assert!(game.is_gameover().is_none());
}

#[test]
fn board_text_round_trip() {
    let text = "T......\n.F.....\nTFTFTFT\n..F....\nFFT.T..\nTTFFTFF\n";
    let mut game = custom_game();
    game.board_from_str(text);
    assert_eq!(game.board_to_str(), text);
    let mut other = custom_game();
    other.board_from_str(&game.board_to_str());
    assert_eq!(other.board_to_str(), text);
}

#[test]
fn board_from_str_reads_the_last_six_lines_and_crlf() {
    let mut game = custom_game();
    game.board_from_str("TTTTTTT\r\n.......\r\n.......\r\n.......\r\n.......\r\n.......\r\nF......\r\n");
    assert_eq!(
        game.board_to_str(),
        ".......\n.......\n.......\n.......\n.......\nF......\n"
    );
}

#[test]
fn clone_keeps_the_game() {
    let mut game = custom_game();
    game.play_no_user(3);
    let copy = game.clone();
    assert_eq!(copy.board_to_str(), game.board_to_str());
    assert_eq!(copy.users, game.users);
    let mut copy = copy;
    assert!(copy.play("Bob", 3));
}

#[test]
fn new_with_first_picks_who_moves_first() {
    let mut game = Connect4Game::new_with_first(4, ("Alice".to_string(), "Bob".to_string()), true);
    assert_eq!(game.user_first, "Alice");
    assert!(!game.play("Bob", 0));
    assert!(game.play("Alice", 0));
    let mut game = Connect4Game::new_with_first(4, ("Alice".to_string(), "Bob".to_string()), false);
    assert_eq!(game.user_first, "Bob");
    assert_eq!(game.game_id, 4);
    assert!(!game.play("Alice", 0));
    assert!(game.play("Bob", 0));
    assert_eq!(game.board_to_str(), ".......\n.......\n.......\n.......\n.......\nF......\n");
}

#[test]
fn exact_board_text_round_trips() {
    let text = "TFT.TF.\nFTF.FT.\nTFT.TF.\nFTF.FT.\nTFT.TF.\nFTF.FT.\n";
    let mut game = Connect4Game::new_custom(1, "A".to_string(), "B".to_string(), true);
    game.board_from_str(text);
    assert_eq!(game.board_to_str(), text);
}
