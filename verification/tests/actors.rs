use std::collections::VecDeque;

use myconnect4::actor::bot::{play_with, BotAction, BotActor, MessageIn as BotIn};
use myconnect4::actor::botmanager::{self, QueueOneAction};
use myconnect4::actor::controller::{self, ActorType, HeartbeatTable, Route};
use myconnect4::actor::game::{self as g, MessageIn, MessageOut, Response};
use myconnect4::actor::match_making::{MatchMakingActor, MessageRequest, MessageResponse};
use myconnect4::actor::matchmaking as mm;
use myconnect4::actor::service as s;
use myconnect4::game::COLS;
use myconnect4::myconnect4::{Empty, Event, GameEvent, GameOver, Kind, Move, MoveValid, NewGame, Winner};
use myconnect4::repo::Connect4Repo;

fn sent(r: Vec<Response>) -> Vec<MessageOut> {
    r.into_iter()
        .map(|x| match x {
            Response::Send(m) => m,
            Response::Reply(_) => panic!("unexpected reply"),
        })
        .collect()
}

fn new_game(repo: &mut Connect4Repo, a: &str, b: &str) -> (u64, (String, String), String) {
    let resp = sent(g::handle_msg_in(repo, MessageIn::NewGame { users: (a.to_string(), b.to_string()) }));
    let Some(MessageOut::NewGame { game_id, users, first_turn }) = resp.into_iter().next() else {
        panic!("New Game test failed, did not get NewGame response");
    };
    (game_id, users, first_turn)
}

#[test]
fn test_new_game_and_user_alr_exists() {
    let mut repo = Connect4Repo::default();
    let _ = new_game(&mut repo, "Alice", "Bob");
    let resp = sent(g::handle_msg_in(
        &mut repo,
        MessageIn::NewGame { users: ("Alice".to_string(), "Carl".to_string()) },
    ));
    assert_eq!(
        resp,
        vec![MessageOut::UserAlreadyInGame {
            reject_users: vec!["Alice".to_string()],
            rematchmake_users: vec!["Carl".to_string()]
        }]
    );
}

#[test]
fn test_move_valid_and_invalid() {
    let mut repo = Connect4Repo::default();
    let user = "Alice".to_string();
    let resp = sent(g::handle_msg_in(&mut repo, MessageIn::Move { user: user.clone(), col: 1 }));
    assert_eq!(resp, vec![MessageOut::UserNotInGame { user }]);

    let (_, users, first_turn) = new_game(&mut repo, "Alice", "Bob");
    let first = first_turn;
    let second = if first == users.0 { users.1 } else { users.0 };
    let resp = sent(g::handle_msg_in(&mut repo, MessageIn::Move { user: first.clone(), col: 1 }));
    assert_eq!(
        resp,
        vec![MessageOut::MoveValid { player: first.clone(), rival: second.clone(), valid: true, col: 1 }]
    );
    let resp = sent(g::handle_msg_in(&mut repo, MessageIn::Move { user: first.clone(), col: 1 }));
    assert_eq!(
        resp,
        vec![MessageOut::MoveValid { player: first.clone(), rival: second.clone(), valid: false, col: 1 }]
    );
    let resp = sent(g::handle_msg_in(&mut repo, MessageIn::Move { user: second.clone(), col: COLS as u8 + 1 }));
    assert_eq!(
        resp,
        vec![MessageOut::MoveValid {
            player: second.clone(),
            rival: first.clone(),
            valid: false,
            col: COLS as u8 + 1
        }]
    );
    let resp = sent(g::handle_msg_in(&mut repo, MessageIn::Move { user: second.clone(), col: 1 }));
    assert_eq!(
        resp,
        vec![MessageOut::MoveValid { player: second.clone(), rival: first.clone(), valid: true, col: 1 }]
    );
}

#[test]
fn test_game_over() {
    let mut repo = Connect4Repo::default();
    let (_, users, first_turn) = new_game(&mut repo, "Alice", "Bob");
    let first = first_turn;
    let second = if first == users.0 { users.1 } else { users.0 };
    for _ in 0..3 {
        let resp = sent(g::handle_msg_in(&mut repo, MessageIn::Move { user: first.clone(), col: 0 }));
        assert_eq!(
            resp,
            vec![MessageOut::MoveValid { player: first.clone(), rival: second.clone(), valid: true, col: 0 }]
        );
        let resp = sent(g::handle_msg_in(&mut repo, MessageIn::Move { user: second.clone(), col: 1 }));
        assert_eq!(
            resp,
            vec![MessageOut::MoveValid { player: second.clone(), rival: first.clone(), valid: true, col: 1 }]
        );
    }
    let resp = sent(g::handle_msg_in(&mut repo, MessageIn::Move { user: first.clone(), col: 0 }));
    assert_eq!(
        resp,
        vec![
            MessageOut::MoveValid { player: first.clone(), rival: second.clone(), valid: true, col: 0 },
            MessageOut::GameOverWinner { winner: first.clone(), loser: second.clone() },
        ]
    );
    assert_eq!(repo.get_game_id(&first), None);
    assert_eq!(repo.total_games_played, 1);
}

#[test]
fn test_user_left() {
    let mut repo = Connect4Repo::default();
    let _ = new_game(&mut repo, "Alice", "Bob");
    let resp = sent(g::handle_msg_in(&mut repo, MessageIn::UserLeft { user: "Bob".to_string() }));
    assert_eq!(resp, vec![MessageOut::AbortGame { user: "Alice".to_string() }]);
    let resp = sent(g::handle_msg_in(&mut repo, MessageIn::UserLeft { user: "Bob".to_string() }));
    assert!(resp.is_empty());
}

#[test]
fn game_actor_reports_its_state() {
    let mut repo = Connect4Repo::default();
    let (id, _, _) = new_game(&mut repo, "Alice", "Bob");
    let resp = g::handle_msg_in(&mut repo, MessageIn::QueryGetState);
    let Some(Response::Reply(state)) = resp.into_iter().next() else {
        panic!("no state");
    };
    assert_eq!(state._num_users_playing, 2);
    assert_eq!(state._num_games, 1);
    assert_eq!(state._games, vec![id]);
    assert_eq!(state._total_games_played, 0);
}

fn mm_sent(r: Vec<mm::Response>) -> Vec<mm::MessageOut> {
    r.into_iter()
        .filter_map(|x| match x {
            mm::Response::Send(m) => Some(m),
            mm::Response::Reply(_) => None,
        })
        .collect()
}

fn mm_queue(q: &mut mm::MatchQueue) -> Vec<String> {
    match q.handle_msg_in(mm::MessageIn::QueryGetState, 0).into_iter().next() {
        Some(mm::Response::Reply(state)) => state.queue,
        _ => panic!("no state"),
    }
}

#[test]
fn test_normal_matchmaking() {
    let mut q = mm::MatchQueue::new();
    let users = ("Alice".to_string(), "Bob".to_string());
    assert!(mm_sent(q.handle_msg_in(mm::MessageIn::Search { user: users.0.clone() }, 1)).is_empty());
    assert_eq!(mm_queue(&mut q), vec!["Alice".to_string()]);
    let resp = mm_sent(q.handle_msg_in(mm::MessageIn::Search { user: users.1.clone() }, 2));
    assert_eq!(resp, vec![mm::MessageOut::UsersFound { users }]);
    assert_eq!(mm_queue(&mut q), Vec::<String>::new());
}

#[test]
fn test_cancel_search() {
    let mut q = mm::MatchQueue::new();
    let user = String::from("Alice");
    q.handle_msg_in(mm::MessageIn::Search { user: user.clone() }, 0);
    q.handle_msg_in(mm::MessageIn::CancelSearch { user }, 0);
    assert_eq!(mm_queue(&mut q), Vec::<String>::new());
}

#[test]
fn test_duplicate_search() {
    let mut q = mm::MatchQueue::new();
    let user = String::from("Alice");
    q.handle_msg_in(mm::MessageIn::Search { user: user.clone() }, 0);
    q.handle_msg_in(mm::MessageIn::Search { user: user.clone() }, 0);
    assert_eq!(mm_queue(&mut q), vec![user]);
}

#[test]
fn test_long_wait() {
    const TEST_WAIT_LIMIT: u64 = 10;
    let mut q = mm::MatchQueue::new();
    let user = String::from("Alice");
    q.handle_msg_in(mm::MessageIn::Search { user: user.clone() }, 0);
    let resp: Vec<mm::MessageOut> = q
        .delayed_users(TEST_WAIT_LIMIT * 2, TEST_WAIT_LIMIT)
        .into_iter()
        .map(|user| mm::MessageOut::LongWait { user })
        .collect();
    assert_eq!(resp, vec![mm::MessageOut::LongWait { user: user.clone() }]);
    assert!(q.delayed_users(5, TEST_WAIT_LIMIT).is_empty());
}

#[test]
fn matchmaking_pairs_the_two_last_users() {
    let mut q = mm::MatchQueue::new();
    for u in ["a", "b", "c"] {
        q.handle_msg_in(mm::MessageIn::Search { user: u.to_string() }, 0);
    }
    // a and b were paired at once; c waits
    assert_eq!(mm_queue(&mut q), vec!["c".to_string()]);
    q.handle_msg_in(mm::MessageIn::Search { user: "d".to_string() }, 0);
    assert!(mm_queue(&mut q).is_empty());
    assert!(mm_sent(q.handle_msg_in(mm::MessageIn::Poll, 0)).is_empty());
}

#[test]
fn test_normal_matchmaking_flow() {
    let mut actor = MatchMakingActor::new();
    let users = ("Alice".to_string(), "Bob".to_string());
    assert_eq!(actor.handle_request(MessageRequest::Search { user: users.0.clone() }), None);
    assert_eq!(
        actor.handle_request(MessageRequest::DebugGetQueue),
        Some(MessageResponse::DebugGetQueueResponse { queue: vec!["Alice".to_string()] })
    );
    assert_eq!(
        actor.handle_request(MessageRequest::Search { user: users.1.clone() }),
        Some(MessageResponse::UsersFound { users })
    );
    assert_eq!(
        actor.handle_request(MessageRequest::DebugGetQueue),
        Some(MessageResponse::DebugGetQueueResponse { queue: vec![] })
    );
}

#[test]
fn test_cancel_search_flow() {
    let mut actor = MatchMakingActor::new();
    let user = String::from("Alice");
    actor.handle_request(MessageRequest::Search { user: user.clone() });
    actor.handle_request(MessageRequest::CancelSearch { user });
    assert_eq!(
        actor.handle_request(MessageRequest::DebugGetQueue),
        Some(MessageResponse::DebugGetQueueResponse { queue: vec![] })
    );
}

/// The controller with the matchmaking and game actors, run by hand: what
/// reaches the service is collected.
struct Server {
    queue: mm::MatchQueue,
    repo: Connect4Repo,
    to_service: VecDeque<s::MessageIn>,
    now: u64,
}

impl Server {
    fn new() -> Self {
        Server { queue: mm::MatchQueue::new(), repo: Connect4Repo::default(), to_service: VecDeque::new(), now: 0 }
    }

    fn route(&mut self, routes: Vec<Route>) {
        for route in routes {
            match route {
                Route::ToMatchMaking(m) => {
                    self.now += 1;
                    for r in self.queue.handle_msg_in(m, self.now) {
                        if let mm::Response::Send(out) = r {
                            let next = controller::handle_msg_mm_out(out);
                            self.route(next);
                        }
                    }
                }
                Route::ToGame(m) => {
                    for r in g::handle_msg_in(&mut self.repo, m) {
                        if let Response::Send(out) = r {
                            let next = controller::handle_msg_g_out(out);
                            self.route(next);
                        }
                    }
                }
                Route::ToService(m) => self.to_service.push_back(m),
                Route::ToBotManagerService(_) | Route::ToBotManager(_) | Route::Heartbeat(_) | Route::QueryState => {}
            }
        }
    }

    fn send(&mut self, user: &str, inner: s::MessageOutInner) {
        let routes = controller::handle_msg_s_out(s::MessageOut { user: user.to_string(), inner });
        self.route(routes);
    }

    fn recv(&mut self) -> s::MessageIn {
        self.to_service.pop_front().expect("a message for the service")
    }
}

#[test]
fn test_normal_game() {
    let mut server = Server::new();
    let users = ("Alice".to_string(), "Bob".to_string());
    server.send(&users.0, s::MessageOutInner::SearchGame);
    server.send(&users.1, s::MessageOutInner::SearchGame);

    let s::MessageIn { user: user1, inner: s::MessageInInner::NewGame { game_id: gid1, rival: rival1, first_turn: fturn1 } } =
        server.recv()
    else {
        panic!("user 1 did not send newgame");
    };
    let s::MessageIn { user: user2, inner: s::MessageInInner::NewGame { game_id: gid2, rival: rival2, first_turn: fturn2 } } =
        server.recv()
    else {
        panic!("user 2 did not send newgame");
    };
    assert_ne!(user1, user2);
    assert_eq!(gid1, gid2);
    assert_ne!(fturn1, fturn2);
    assert_eq!(users.0, rival2);
    assert_eq!(users.1, rival1);

    let users = if fturn1 { (users.0, users.1) } else { (users.1, users.0) };
    for _ in 0..3 {
        server.send(&users.0, s::MessageOutInner::Move { col: 0 });
        assert_eq!(server.recv(), s::MessageIn { user: users.0.clone(), inner: s::MessageInInner::MoveValid { valid: true } });
        assert_eq!(server.recv(), s::MessageIn { user: users.1.clone(), inner: s::MessageInInner::RivalMove { col: 0 } });
        server.send(&users.1, s::MessageOutInner::Move { col: 1 });
        assert_eq!(server.recv(), s::MessageIn { user: users.1.clone(), inner: s::MessageInInner::MoveValid { valid: true } });
        assert_eq!(server.recv(), s::MessageIn { user: users.0.clone(), inner: s::MessageInInner::RivalMove { col: 1 } });
    }
    server.send(&users.0, s::MessageOutInner::Move { col: 0 });
    assert_eq!(server.recv(), s::MessageIn { user: users.0.clone(), inner: s::MessageInInner::MoveValid { valid: true } });
    assert_eq!(server.recv(), s::MessageIn { user: users.1.clone(), inner: s::MessageInInner::RivalMove { col: 0 } });
    assert_eq!(server.recv(), s::MessageIn { user: users.0.clone(), inner: s::MessageInInner::GameOver { won: Some(true) } });
    assert_eq!(server.recv(), s::MessageIn { user: users.1.clone(), inner: s::MessageInInner::GameOver { won: Some(false) } });
}

#[test]
fn controller_routes_user_left_and_heartbeats() {
    let routes = controller::handle_msg_s_out(s::MessageOut { user: "Alice".to_string(), inner: s::MessageOutInner::UserLeft });
    assert_eq!(routes.len(), 2);
    assert!(matches!(&routes[0], Route::ToGame(g::MessageIn::UserLeft { user }) if user == "Alice"));
    assert!(matches!(&routes[1], Route::ToMatchMaking(mm::MessageIn::CancelSearch { user }) if user == "Alice"));
    let routes = controller::handle_msg_mm_out(mm::MessageOut::LongWait { user: "Alice".to_string() });
    assert!(matches!(&routes[..], [Route::ToBotManager(botmanager::MessageIn::QueueOne)]));
    let routes = controller::handle_msg_g_out(g::MessageOut::HeartBeat);
    assert!(matches!(&routes[..], [Route::Heartbeat(ActorType::Game)]));
    let routes = controller::handle_msg_bm_out(botmanager::MessageOut::HeartBeat);
    assert!(matches!(&routes[..], [Route::Heartbeat(ActorType::BotManager)]));
    let routes = controller::handle_msg_g_out(g::MessageOut::UserAlreadyInGame {
        reject_users: vec!["a".to_string()],
        rematchmake_users: vec!["b".to_string(), "c".to_string()],
    });
    assert_eq!(routes.len(), 2);
    assert!(matches!(&routes[1], Route::ToMatchMaking(mm::MessageIn::Search { user }) if user == "c"));
}

#[test]
fn send_to_service_goes_to_both() {
    let msg = s::MessageIn { user: "Bob".to_string(), inner: s::MessageInInner::RivalLeft };
    let routes = controller::send_to_service(msg.clone());
    assert!(matches!(&routes[0], Route::ToService(m) if *m == msg));
    assert!(matches!(&routes[1], Route::ToBotManagerService(m) if *m == msg));
}

#[test]
fn heartbeat_table_reports_stale_actors() {
    let mut table = HeartbeatTable::new(0);
    table.record(ActorType::Game, 15_000);
    let stale = table.stale(20_000, 10_000);
    let actors: Vec<ActorType> = stale.iter().map(|x| x.0).collect();
    assert_eq!(actors, vec![ActorType::MatchMaking, ActorType::Service, ActorType::BotManager]);
    assert!(stale.iter().all(|x| x.1 == 20_000));
    assert!(HeartbeatTable::empty().stale(99_999, 0).is_empty());
}

#[test]
fn service_turns_messages_into_events() {
    let ev = s::handle_msg_in_inner(s::MessageInInner::NewGame { game_id: 9, rival: "Bob".to_string(), first_turn: true });
    assert_eq!(ev, GameEvent { event: Some(Event::NewGame(NewGame { game_id: 9, rival: "Bob".to_string(), first_turn: true })) });
    assert_eq!(
        s::handle_msg_in_inner(s::MessageInInner::RivalMove { col: 3 }),
        GameEvent { event: Some(Event::Move(Move { col: 3 })) }
    );
    assert_eq!(
        s::handle_msg_in_inner(s::MessageInInner::MoveValid { valid: false }),
        GameEvent { event: Some(Event::MoveValid(MoveValid { valid: false })) }
    );
    assert_eq!(
        s::handle_msg_in_inner(s::MessageInInner::GameOver { won: Some(false) }),
        GameEvent { event: Some(Event::GameOver(GameOver { kind: Some(Kind::Winner(Winner { user_won: false })) })) }
    );
    assert_eq!(
        s::handle_msg_in_inner(s::MessageInInner::GameOver { won: None }),
        GameEvent { event: Some(Event::GameOver(GameOver { kind: Some(Kind::Draw(Empty {})) })) }
    );
    assert_eq!(s::handle_msg_in_inner(s::MessageInInner::RivalLeft), GameEvent { event: Some(Event::RivalLeft(Empty {})) });
}

#[test]
fn service_turns_client_events_into_messages() {
    let out = s::handle_game_evt("Alice", Event::Move(Move { col: 258 })).unwrap();
    assert_eq!(out.user, "Alice");
    assert!(matches!(out.inner, s::MessageOutInner::Move { col: 2 }));
    let out = s::handle_game_evt("Bob", Event::SearchGame(Empty {})).unwrap();
    assert!(matches!(out.inner, s::MessageOutInner::SearchGame));
    assert!(s::handle_game_evt("Bob", Event::RivalLeft(Empty {})).is_none());
}

#[test]
fn bot_searches_plays_and_searches_again() {
    let mut bot = BotActor::new();
    let id = bot.get_id();
    assert!(id.starts_with("bot-"));
    assert!(id[4..].chars().all(|c| c.is_ascii_digit()));
    assert!(matches!(bot.handle_msg_in(BotIn::QueryIdle)[..], [BotAction::ReplyIdle(true)]));
    assert!(bot.handle_msg_in(BotIn::PermaPlay(true)).is_empty());
    let actions = bot.handle_msg_in(BotIn::SearchForGame);
    assert!(matches!(&actions[..], [BotAction::ToService(s::MessageOut { user, inner: s::MessageOutInner::SearchGame })] if *user == id));
    assert!(bot.handle_msg_in(BotIn::SearchForGame).is_empty(), "already searching");
    assert!(matches!(bot.handle_msg_in(BotIn::QueryIdle)[..], [BotAction::ReplyIdle(false)]));

    let actions = bot.handle_service_msg_in(s::MessageInInner::NewGame { game_id: 1, rival: "Alice".to_string(), first_turn: true });
    assert!(matches!(actions[0], BotAction::Sleep { millis: 300 }));
    assert!(matches!(&actions[1], BotAction::ToService(s::MessageOut { inner: s::MessageOutInner::Move { col }, .. }) if (*col as usize) < COLS));
    let actions = bot.handle_service_msg_in(s::MessageInInner::RivalMove { col: 6 });
    assert_eq!(actions.len(), 2);
    let actions = bot.handle_service_msg_in(s::MessageInInner::GameOver { won: Some(true) });
    assert!(matches!(&actions[..], [BotAction::ToSelf(BotIn::SearchForGame)]));
    assert!(matches!(bot.handle_msg_in(BotIn::QueryIdle)[..], [BotAction::ReplyIdle(true)]));
}

#[test]
fn bot_ignores_messages_out_of_turn() {
    let mut bot = BotActor::new();
    assert!(bot.handle_service_msg_in(s::MessageInInner::NewGame { game_id: 1, rival: "A".to_string(), first_turn: false }).is_empty());
    assert!(bot.handle_service_msg_in(s::MessageInInner::RivalMove { col: 1 }).is_empty());
    assert!(bot.handle_service_msg_in(s::MessageInInner::RivalLeft).is_empty());
    bot.handle_msg_in(BotIn::SearchForGame);
    assert!(bot.handle_service_msg_in(s::MessageInInner::NewGame { game_id: 1, rival: "A".to_string(), first_turn: false }).is_empty());
    assert!(bot.handle_service_msg_in(s::MessageInInner::RivalMove { col: 9 }).is_empty(), "refused move");
    assert!(bot.handle_service_msg_in(s::MessageInInner::RivalLeft).is_empty(), "perma play is off");
    assert!(matches!(bot.handle_msg_in(BotIn::QueryIdle)[..], [BotAction::ReplyIdle(true)]));
}

#[test]
fn botmanager_picks_the_first_idle_bot() {
    assert!(matches!(botmanager::queue_one(&vec![false, true, true]), QueueOneAction::SearchWith(1)));
    assert!(matches!(botmanager::queue_one(&vec![false, false]), QueueOneAction::SpawnNew));
    assert!(matches!(botmanager::queue_one(&vec![]), QueueOneAction::SpawnNew));
    assert!(matches!(&botmanager::spawn_messages(true)[..], [BotIn::PermaPlay(true), BotIn::SearchForGame]));
    assert!(matches!(&botmanager::spawn_messages(false)[..], [BotIn::SearchForGame]));
}

#[test]
fn bot_moves_at_the_first_legal_draw() {
    let mut game = myconnect4::game::Connect4Game::new_custom(1, "bot".to_string(), "A".to_string(), true);
    game.board_from_str(".......\n.......\n.......\n.......\n.......\nTFTFTFT\n");
    assert_eq!(myconnect4::actor::bot::first_legal(&game, &vec![]), None);
    assert_eq!(myconnect4::actor::bot::first_legal(&game, &vec![10, 2]), Some(3));
    game.board_from_str("TFT.TFT\nFTF.FTF\nTFT.TFT\nFTF.FTF\nTFT.TFT\nFTF.FTF\n");
    assert_eq!(myconnect4::actor::bot::first_legal(&game, &vec![0, 7, 13, 3]), Some(3));
    assert_eq!(myconnect4::actor::bot::first_legal(&game, &vec![0, 1, 2]), None);
}

#[test]
fn bot_name_is_bot_and_a_number() {
    for _ in 0..20 {
        let id = BotActor::new().get_id();
        let digits = &id[4..];
        assert!(id.starts_with("bot-"));
        assert!(!digits.is_empty() && digits.chars().all(|c| c.is_ascii_digit()));
        assert!(digits == "0" || !digits.starts_with('0'));
        assert!(digits.parse::<u64>().is_ok());
    }
}

#[test]
fn first_moving_bot_always_moves_on_a_fresh_board() {
    for _ in 0..50 {
        let mut bot = BotActor::new();
        bot.handle_msg_in(BotIn::SearchForGame);
        let actions = bot.handle_service_msg_in(s::MessageInInner::NewGame { game_id: 1, rival: "A".to_string(), first_turn: true });
        assert_eq!(actions.len(), 2);
    }
}

#[test]
fn heartbeat_table_lists_stale_actors_in_order() {
    let mut table = HeartbeatTable::new(5_000);
    table.record(ActorType::Service, 1_000);
    table.record(ActorType::MatchMaking, 3_000);
    let stale = table.stale(20_000, 10_000);
    assert_eq!(
        stale,
        vec![(ActorType::MatchMaking, 17_000), (ActorType::Game, 15_000), (ActorType::Service, 19_000), (ActorType::BotManager, 15_000)]
    );
    assert_eq!(table.stale(14_000, 10_000), vec![(ActorType::MatchMaking, 11_000), (ActorType::Service, 13_000)]);
}

#[test]
fn bot_plays_the_first_legal_drawn_column() {
    let id = "bot-1".to_string();
    let mut game = myconnect4::game::Connect4Game::new_custom(1, id.clone(), "A".to_string(), true);
    game.board_from_str("TFT.TFT\nFTF.FTF\nTFT.TFT\nFTF.FTF\nTFT.TFT\nFTF.FTF\n");
    let before = game.board_to_str();
    let actions = play_with(&id, &mut game, &vec![0, 1, 2]);
    assert!(matches!(actions[..], [BotAction::Sleep { millis: 300 }]));
    assert_eq!(game.board_to_str(), before);
    let mut game = myconnect4::game::Connect4Game::new_custom(1, id.clone(), "A".to_string(), true);
    game.board_from_str("T......\nF......\nT......\nF......\nT......\nF......\n");
    let actions = play_with(&id, &mut game, &vec![7, 14, 12]);
    assert!(matches!(&actions[..], [BotAction::Sleep { .. }, BotAction::ToService(s::MessageOut { user, inner: s::MessageOutInner::Move { col: 5 } })] if *user == id));
    assert_eq!(game.board_to_str(), "T......\nF......\nT......\nF......\nT......\nF....T.\n");
}

#[test]
fn bot_answers_a_rival_move_with_the_drawn_column() {
    let mut bot = BotActor::new();
    let id = bot.get_id();
    bot.handle_msg_in(BotIn::SearchForGame);
    let actions = bot.handle_service_msg_in_with(
        s::MessageInInner::NewGame { game_id: 2, rival: "A".to_string(), first_turn: false },
        &vec![],
    );
    assert!(actions.is_empty());
    let actions = bot.handle_service_msg_in_with(s::MessageInInner::RivalMove { col: 3 }, &vec![10, 4]);
    assert!(matches!(&actions[..], [BotAction::Sleep { .. }, BotAction::ToService(s::MessageOut { user, inner: s::MessageOutInner::Move { col: 3 } })] if *user == id));
}
