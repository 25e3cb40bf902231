use trivia_game::menu::{after_admin_login, after_player_login, menu_option, menu_step, question_listed, MenuAction, Screen};
use trivia_game::parse::{parse_id, parse_order_list};
use trivia_game::config::{Config, DatabaseConfig};
use trivia_game::auth::{login_admin, login_player, check_new_player, AccountError, Session};
use trivia_game::input::{answer_from_input, contains_id, description_from_input, is_full_reordering, listed_order};
use trivia_game::links::{next_order, GameQuestionList, LinkError};
use trivia_game::models::{Admin, Answer, GameQuestionFull, InvalidAnswerCode, Player, Question};
use trivia_game::ordering::{apply_order_updates, final_order, reorder_plan, OrderUpdate};
use trivia_game::play::{percentage_tenths, score_band, Feedback, PlaySession, ScoreBand};

fn question(id: i32, text: &str, answer: bool) -> Question {
    Question { question_id: id, question_text: text.to_string(), correct_answer: Answer::from_bool(answer) }
}

fn row(id: i32, order: i32) -> GameQuestionFull {
    GameQuestionFull {
        question_id: id,
        question_text: format!("Q{}", id),
        correct_answer: Answer::True,
        question_order: order,
    }
}

fn orders(list: &GameQuestionList) -> Vec<(i32, i32)> {
    list.questions.iter().map(|q| (q.question_id, q.question_order)).collect()
}

fn player(id: i32, name: &str, pw: &str) -> Player {
    Player { player_id: id, username: name.to_string(), password_hash: pw.to_string(), created_at: Some(1_700_000_000) }
}

fn admin(id: i32, name: &str, pw: &str) -> Admin {
    Admin { admin_id: id, username: name.to_string(), password_hash: pw.to_string(), created_at: None }
}

#[test]
fn answer_code_round_trip() {
    assert_eq!(Answer::from_bool(true).to_code(), 1);
    assert_eq!(Answer::from_code(1), Ok(Answer::True));
    assert_eq!(Answer::from_bool(false).to_code(), 0);
    assert_eq!(Answer::from_code(0), Ok(Answer::False));
    assert!(Answer::from_code(1).unwrap().to_bool());
    assert!(!Answer::from_code(0).unwrap().to_bool());
    let as_i8: i8 = Answer::True.into();
    assert_eq!(as_i8, 1);
    let as_bool: bool = Answer::False.into();
    assert!(!as_bool);
    assert_eq!(Answer::from(true), Answer::True);
}

#[test]
fn answer_code_other_values_fail() {
    assert_eq!(Answer::from_code(2), Err(InvalidAnswerCode { code: 2 }));
    assert_eq!(Answer::from_code(-1), Err(InvalidAnswerCode { code: -1 }));
    assert_eq!(Answer::from_code(i8::MAX), Err(InvalidAnswerCode { code: i8::MAX }));
}

#[test]
fn answer_matching_is_structural() {
    assert!(Answer::True.is_matched_by(true));
    assert!(!Answer::True.is_matched_by(false));
    assert!(Answer::False.is_matched_by(false));
    assert!(!Answer::False.is_matched_by(true));
}

#[test]
fn geography_unlink_first_question() {
    let mut game = GameQuestionList::new(1);
    let q1 = question(1, "Is Paris in France?", true);
    let q2 = question(2, "Is the Nile in Peru?", false);
    assert_eq!(game.link(&q1, Some(1)), Ok(1));
    assert_eq!(game.link(&q2, Some(2)), Ok(2));
    let writes = game.unlink(1);
    assert_eq!(writes, vec![OrderUpdate { question_id: 2, new_order: 1 }]);
    assert_eq!(orders(&game), vec![(2, 1)]);
    assert_eq!(game.questions[0].correct_answer, Answer::False);
}

#[test]
fn unlink_middle_rewrites_only_trailing_items() {
    let mut game = GameQuestionList::new(7);
    for id in 1..=5 {
        assert_eq!(game.link(&question(id * 10, "q", true), None), Ok(id));
    }
    let writes = game.unlink(20);
    assert_eq!(
        writes,
        vec![
            OrderUpdate { question_id: 30, new_order: 2 },
            OrderUpdate { question_id: 40, new_order: 3 },
            OrderUpdate { question_id: 50, new_order: 4 },
        ]
    );
    assert_eq!(orders(&game), vec![(10, 1), (30, 2), (40, 3), (50, 4)]);
}

#[test]
fn unlink_last_writes_nothing() {
    let mut game = GameQuestionList::new(7);
    for id in 1..=3 {
        game.link(&question(id, "q", true), None).unwrap();
    }
    assert!(game.unlink(3).is_empty());
    assert_eq!(orders(&game), vec![(1, 1), (2, 2)]);
}

#[test]
fn link_unlink_sequence_stays_dense() {
    let mut game = GameQuestionList::new(3);
    game.link(&question(5, "a", true), None).unwrap();
    game.link(&question(6, "b", false), Some(9)).unwrap();
    game.link(&question(7, "c", true), Some(4)).unwrap();
    assert_eq!(orders(&game), vec![(5, 1), (7, 4), (6, 9)]);
    game.unlink(99);
    assert_eq!(orders(&game), vec![(5, 1), (7, 2), (6, 3)]);
    game.link(&question(8, "d", true), None).unwrap();
    game.unlink(5);
    assert_eq!(orders(&game), vec![(7, 1), (6, 2), (8, 3)]);
    game.unlink(6);
    game.unlink(7);
    game.unlink(8);
    assert!(game.questions.is_empty());
    assert_eq!(game.max_question_order(), 0);
}

#[test]
fn link_errors() {
    let mut game = GameQuestionList::new(1);
    game.link(&question(1, "a", true), Some(i32::MAX)).unwrap();
    assert_eq!(game.link(&question(1, "a", true), None), Err(LinkError::AlreadyLinked));
    assert_eq!(game.link(&question(2, "b", true), None), Err(LinkError::OrderOverflow));
    assert_eq!(game.link(&question(2, "b", true), Some(3)), Ok(3));
    assert_eq!(orders(&game), vec![(2, 3), (1, i32::MAX)]);
}

#[test]
fn max_order_and_next_order() {
    let mut game = GameQuestionList::new(1);
    assert_eq!(game.max_question_order(), 0);
    game.link(&question(1, "a", true), Some(-4)).unwrap();
    assert_eq!(game.max_question_order(), -4);
    game.link(&question(2, "a", true), Some(12)).unwrap();
    assert_eq!(game.max_question_order(), 12);
    assert!(game.contains(2));
    assert!(!game.contains(3));
    assert_eq!(next_order(0), Some(1));
    assert_eq!(next_order(41), Some(42));
    assert_eq!(next_order(i32::MAX), None);
}

#[test]
fn reorder_plan_skips_rows_in_place() {
    let rows = vec![row(4, 1), row(9, 3), row(2, 3), row(8, 7)];
    let plan = reorder_plan(&rows);
    assert_eq!(
        plan,
        vec![
            OrderUpdate { question_id: 9, new_order: 2 },
            OrderUpdate { question_id: 8, new_order: 4 },
        ]
    );
    let after = apply_order_updates(&rows, &plan);
    let got: Vec<i32> = after.iter().map(|q| q.question_order).collect();
    assert_eq!(got, vec![1, 2, 3, 4]);
    assert_eq!(after[1].question_text, "Q9");
}

#[test]
fn final_order_last_write_wins() {
    let ups = vec![
        OrderUpdate { question_id: 1, new_order: 5 },
        OrderUpdate { question_id: 2, new_order: 6 },
        OrderUpdate { question_id: 1, new_order: 7 },
    ];
    assert_eq!(final_order(&ups, 1, 0), 7);
    assert_eq!(final_order(&ups, 2, 0), 6);
    assert_eq!(final_order(&ups, 3, 9), 9);
}

#[test]
fn listed_order_numbers_from_one() {
    assert_eq!(
        listed_order(&vec![3, 1, 4, 2]),
        vec![
            OrderUpdate { question_id: 3, new_order: 1 },
            OrderUpdate { question_id: 1, new_order: 2 },
            OrderUpdate { question_id: 4, new_order: 3 },
            OrderUpdate { question_id: 2, new_order: 4 },
        ]
    );
    assert!(listed_order(&vec![]).is_empty());
}

#[test]
fn three_of_four_is_not_bad() {
    let qs = vec![row(1, 1), row(2, 2), row(3, 3), row(4, 4)];
    let mut play = PlaySession::new(qs);
    assert_eq!(play.total(), 4);
    assert_eq!(play.current().unwrap().question_id, 1);
    assert_eq!(play.submit(true), Feedback::Correct);
    assert_eq!(play.submit(true), Feedback::Correct);
    assert_eq!(play.submit(false), Feedback::Incorrect { answer: true });
    assert!(!play.is_finished());
    assert_eq!(play.submit(true), Feedback::Correct);
    assert!(play.is_finished());
    assert!(play.current().is_none());
    assert_eq!(play.submit(true), Feedback::Finished);
    assert_eq!(play.answered(), 4);
    assert_eq!(play.correct_answers(), 3);
    assert_eq!(play.percentage_tenths(), 750);
    assert_eq!(play.band(), ScoreBand::NotBad);
    assert_eq!(play.band().message(), "Not bad!");
}

#[test]
fn empty_game_scores_zero() {
    let play = PlaySession::new(vec![]);
    assert!(play.is_finished());
    assert_eq!(play.percentage_tenths(), 0);
    assert_eq!(play.band(), ScoreBand::KeepPracticing);
    assert_eq!(percentage_tenths(0, 0), 0);
    assert_eq!(score_band(0, 0), ScoreBand::KeepPracticing);
}

#[test]
fn score_bands_and_rounding() {
    assert_eq!(score_band(5, 5), ScoreBand::Perfect);
    assert_eq!(score_band(4, 5), ScoreBand::Great);
    assert_eq!(score_band(3, 5), ScoreBand::NotBad);
    assert_eq!(score_band(2, 5), ScoreBand::KeepPracticing);
    assert_eq!(score_band(0, 3), ScoreBand::KeepPracticing);
    assert_eq!(percentage_tenths(2, 3), 667);
    assert_eq!(percentage_tenths(1, 3), 333);
    assert_eq!(percentage_tenths(7, 7), 1000);
    assert_eq!(percentage_tenths(u32::MAX, u32::MAX), 1000);
    assert_eq!(ScoreBand::Perfect.message(), "Perfect score! Congratulations!");
    assert_eq!(ScoreBand::Great.message(), "Great job!");
    assert_eq!(ScoreBand::KeepPracticing.message(), "Keep practicing!");
}

#[test]
fn login_needs_matching_password() {
    let players = vec![player(1, "ann", "pw1"), player(2, "bob", "pw2")];
    let got = login_player(&players, &"bob".to_string(), &"pw2".to_string()).unwrap();
    assert_eq!(got.player_id, 2);
    assert_eq!(got.username, "bob");
    assert_eq!(got.password_hash, "pw2");
    assert_eq!(got.created_at, Some(1_700_000_000));
    let bad = login_player(&players, &"bob".to_string(), &"pw1".to_string());
    assert_eq!(bad.unwrap_err(), AccountError::NotFound);
    let admins = vec![admin(3, "root", "s3cret")];
    assert_eq!(login_admin(&admins, &"root".to_string(), &"s3cret".to_string()).unwrap().admin_id, 3);
    assert_eq!(
        login_admin(&admins, &"root".to_string(), &"S3CRET".to_string()).unwrap_err(),
        AccountError::NotFound
    );
    assert_eq!(login_admin(&vec![], &"root".to_string(), &"s3cret".to_string()).unwrap_err(), AccountError::NotFound);
}

#[test]
fn duplicate_player_username_fails() {
    let players = vec![player(1, "ann", "pw1")];
    assert_eq!(check_new_player(&players, &"ann".to_string()), Err(AccountError::DuplicateUsername));
    assert_eq!(check_new_player(&players, &"bea".to_string()), Ok(()));
    assert_eq!(check_new_player(&vec![], &"ann".to_string()), Ok(()));
}

#[test]
fn session_roles_replace_each_other() {
    let mut s = Session::new();
    assert_eq!(s.admin_id(), None);
    s.set_admin(admin(3, "root", "x"));
    assert_eq!(s.admin_id(), Some(3));
    assert!(!s.is_player());
    s.set_player(player(1, "ann", "y"));
    assert!(s.is_player());
    assert_eq!(s.admin_id(), None);
}

#[test]
fn typed_answers_and_descriptions() {
    assert!(answer_from_input("true"));
    assert!(answer_from_input("TRUE"));
    assert!(answer_from_input("tRuE"));
    assert!(!answer_from_input("false"));
    assert!(!answer_from_input("yes"));
    assert!(!answer_from_input("true!"));
    assert!(!answer_from_input(""));
    assert_eq!(description_from_input(String::new()), None);
    assert_eq!(description_from_input("Capitals".to_string()), Some("Capitals".to_string()));
}

#[test]
fn config_holds_connection_settings() {
    let c = Config { database: DatabaseConfig { url: "mysql://localhost/trivia".to_string(), max_connections: 5 } };
    assert_eq!(c.database.max_connections, 5);
    assert_eq!(c.database.url, "mysql://localhost/trivia");
}

#[test]
fn reordering_must_list_every_question_once() {
    let qs = vec![row(1, 1), row(2, 2), row(3, 3)];
    assert!(is_full_reordering(&vec![3, 1, 2], &qs));
    assert!(!is_full_reordering(&vec![3, 1], &qs));
    assert!(!is_full_reordering(&vec![3, 1, 1], &qs));
    assert!(!is_full_reordering(&vec![3, 1, 4], &qs));
    assert!(!is_full_reordering(&vec![3, 1, 2, 4], &qs));
    assert!(is_full_reordering(&vec![], &vec![]));
    assert!(contains_id(&vec![5, 6], 6));
    assert!(!contains_id(&vec![5, 6], 7));
}

#[test]
fn menu_steps_follow_the_screens() {
    let out = Session::new();
    let mut admin_in = Session::new();
    admin_in.set_admin(admin(1, "root", "x"));
    let mut player_in = Session::new();
    player_in.set_player(player(2, "ann", "y"));
    assert_eq!(menu_step(Screen::Main, &out, "1"), (Screen::Main, MenuAction::AskAdminLogin));
    assert_eq!(menu_step(Screen::Main, &admin_in, "1"), (Screen::Admin, MenuAction::Nothing));
    assert_eq!(menu_step(Screen::Main, &out, "2"), (Screen::Main, MenuAction::AskPlayerLogin));
    assert_eq!(menu_step(Screen::Main, &player_in, "2"), (Screen::Main, MenuAction::ChooseGameToPlay));
    assert_eq!(menu_step(Screen::Main, &out, "3"), (Screen::Exit, MenuAction::Nothing));
    assert_eq!(menu_step(Screen::Main, &out, "9"), (Screen::Main, MenuAction::InvalidOption));
    assert_eq!(menu_step(Screen::Main, &out, "11"), (Screen::Main, MenuAction::InvalidOption));
    assert_eq!(menu_step(Screen::Admin, &admin_in, "2"), (Screen::Admin, MenuAction::CreateGame));
    assert_eq!(menu_step(Screen::Admin, &admin_in, "4"), (Screen::Main, MenuAction::Nothing));
    let b = Screen::BuildGame { game_id: 5 };
    assert_eq!(menu_step(b, &admin_in, "1"), (b, MenuAction::CreateAndLinkQuestion { game_id: 5 }));
    assert_eq!(menu_step(b, &admin_in, "2"), (b, MenuAction::LinkExistingQuestion { game_id: 5 }));
    assert_eq!(menu_step(b, &admin_in, "3"), (Screen::Admin, MenuAction::Nothing));
    let e = Screen::EditGame { game_id: 6 };
    assert_eq!(menu_step(e, &admin_in, "2"), (e, MenuAction::RemoveQuestion { game_id: 6 }));
    assert_eq!(menu_step(e, &admin_in, "3"), (e, MenuAction::ReorderQuestions { game_id: 6 }));
    assert_eq!(menu_step(e, &admin_in, "4"), (Screen::Admin, MenuAction::Nothing));
    assert_eq!(menu_step(e, &admin_in, ""), (e, MenuAction::InvalidOption));
    assert_eq!(menu_option("4"), 4);
    assert_eq!(menu_option("5"), 0);
}

#[test]
fn login_outcomes_update_the_session() {
    let mut s = Session::new();
    s.set_player(player(2, "ann", "y"));
    assert_eq!(after_admin_login(&mut s, Err(AccountError::NotFound)), (Screen::Main, MenuAction::InvalidLogin));
    assert!(s.is_player());
    assert_eq!(after_admin_login(&mut s, Ok(admin(1, "root", "x"))), (Screen::Admin, MenuAction::Nothing));
    assert_eq!(s.admin_id(), Some(1));
    assert_eq!(after_player_login(&mut s, Err(AccountError::NotFound)), (Screen::Main, MenuAction::InvalidLogin));
    assert_eq!(s.admin_id(), Some(1));
    assert_eq!(after_player_login(&mut s, Ok(player(2, "ann", "y"))), (Screen::Main, MenuAction::ChooseGameToPlay));
    assert!(s.is_player());
}

#[test]
fn ids_parse_as_decimal_i32() {
    assert_eq!(parse_id("42"), Some(42));
    assert_eq!(parse_id("+7"), Some(7));
    assert_eq!(parse_id("-15"), Some(-15));
    assert_eq!(parse_id("0"), Some(0));
    assert_eq!(parse_id("2147483647"), Some(i32::MAX));
    assert_eq!(parse_id("-2147483648"), Some(i32::MIN));
    assert_eq!(parse_id("2147483648"), None);
    assert_eq!(parse_id("99999999999999"), None);
    assert_eq!(parse_id(""), None);
    assert_eq!(parse_id("-"), None);
    assert_eq!(parse_id("4a"), None);
    assert_eq!(parse_id(" 4"), None);
}

#[test]
fn order_list_drops_malformed_fields() {
    assert_eq!(parse_order_list("3,1,4,2"), vec![3, 1, 4, 2]);
    assert_eq!(parse_order_list(" 3 , x,1,,\t2 "), vec![3, 1, 2]);
    assert_eq!(parse_order_list(""), Vec::<i32>::new());
    assert_eq!(parse_order_list("-1,abc"), vec![-1]);
}

#[test]
fn listed_question_membership() {
    let qs = vec![question(3, "a", true), question(8, "b", false)];
    assert!(question_listed(&qs, 8));
    assert!(!question_listed(&qs, 4));
    assert!(!question_listed(&vec![], 3));
}
