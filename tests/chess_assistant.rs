use rustygen::assistants::chess::{game_open, move_texts, play_move, MoveError};
use rustygen::assistants::gpt::{
    chess_prompt, clean_reply, engine_prompt, game_chat, history, push_first_choice, ChessError, MoveHunt,
    ReplyError, Step,
};
use rustygen::agent::{Agent, Either};
use rustygen::control_flow::while_loop::While;
use rustygen::record::{ChatRecord, Message, Record, Role};
use rustygen::{Conversation, MainConversation};

const START_FEN: &str = "rnbqkbnr/pppppppp/8/8/8/8/PPPPPPPP/RNBQKBNR w KQkq - 0 1";

fn strings(items: &[&str]) -> Vec<String> {
    items.iter().map(|s| s.to_string()).collect()
}

#[test]
fn game_takes_a_legal_move() {
    let mut game = chess::Game::new();
    assert!(game.push(Role::Assistant, String::from("e2e4")).is_ok());
    assert_eq!(move_texts(&game), strings(&["e2e4"]));
}

#[test]
fn game_refuses_malformed_move_unchanged() {
    let mut game = chess::Game::new();
    game.push(Role::User, String::from("e2e4")).unwrap();
    let before = game.actions().clone();
    let r = game.push(Role::User, String::from("hello"));
    assert!(matches!(r, Err(MoveError::Chess(_))));
    assert_eq!(game.actions(), &before);
    assert!(matches!(play_move(&mut game, "z9"), Err(MoveError::Chess(_))));
    assert_eq!(game.actions(), &before);
}

#[test]
fn game_refuses_illegal_move_unchanged() {
    let mut game = chess::Game::new();
    let before = game.actions().clone();
    let r = game.push(Role::User, String::from("e2e5"));
    assert!(matches!(r, Err(MoveError::IllegalMove(_))));
    assert_eq!(game.actions(), &before);
    assert_eq!(game.current_position(), chess::Game::new().current_position());
}

#[test]
fn game_takes_a_promotion() {
    let mut game = chess::Game::new_from_fen("8/P7/8/8/8/8/8/k6K w - - 0 1").unwrap();
    assert!(play_move(&mut game, "a7a8q").is_ok());
    assert_eq!(move_texts(&game), strings(&["a7a8q"]));
}

#[test]
fn clean_reply_drops_trailing_punctuation() {
    assert_eq!(clean_reply("I play e2e4."), "e2e4");
    assert_eq!(clean_reply("e7e5!"), "e7e5");
}

#[test]
fn clean_reply_takes_last_word() {
    assert_eq!(clean_reply("Move: g1f3"), "g1f3");
    assert_eq!(clean_reply("  d2d4 \n"), "d2d4");
    assert_eq!(clean_reply("e2e4"), "e2e4");
}

#[test]
fn clean_reply_keeps_text_without_words() {
    assert_eq!(clean_reply(""), "");
    assert_eq!(clean_reply("   "), "  ");
    assert_eq!(clean_reply("?"), "");
}

#[test]
fn prompt_without_illegal_moves() {
    assert_eq!(
        chess_prompt(&Vec::new(), "FEN"),
        "You're a chess engine. Respond only with the next move to play, based on the previous moves, using the UCI format. The current state of the board is FEN (using FEN notation)."
    );
}

#[test]
fn prompt_with_illegal_moves() {
    assert_eq!(
        chess_prompt(&strings(&["e2e5", "a1a8"]), "FEN"),
        "You're a chess engine. Respond only with the next move to play, based on the previous moves and knowing (e2e5, a1a8) are illegal moves., using the UCI format. The current state of the board is FEN (using FEN notation)."
    );
}

#[test]
fn history_alternates_roles() {
    let told = history(&strings(&["e2e4", "e7e5", "g1f3"]), true);
    let roles: Vec<Role> = told.iter().map(|m| m.role).collect();
    assert_eq!(roles, vec![Role::Assistant, Role::User, Role::Assistant]);
    let told = history(&strings(&["e2e4", "e7e5"]), false);
    assert_eq!(told[0].role, Role::User);
    assert_eq!(told[0].content, "e2e4");
    assert_eq!(told[1].role, Role::Assistant);
    assert_eq!(told[1].content, "e7e5");
}

#[test]
fn game_chat_tells_the_moves() {
    let mut game = chess::Game::new();
    let chat = game_chat(&game);
    assert_eq!(chat.len(), 1);
    assert_eq!(chat[0].role, Role::System);
    assert_eq!(chat[0].content, engine_prompt());
    play_move(&mut game, "e2e4").unwrap();
    let chat = game_chat(&game);
    assert_eq!(chat.len(), 2);
    assert_eq!(chat[1].role, Role::User);
    assert_eq!(chat[1].content, "e2e4");
    play_move(&mut game, "e7e5").unwrap();
    let chat = game_chat(&game);
    assert_eq!(chat[1].role, Role::Assistant);
    assert_eq!(chat[2].role, Role::User);
    assert_eq!(chat[2].content, "e7e5");
}

#[test]
fn move_hunt_notes_illegal_moves_and_stops_at_a_legal_one() {
    let mut game = chess::Game::new();
    let mut hunt = MoveHunt::new(2);
    assert!(hunt.can_ask());
    assert_eq!(hunt.take_reply(&mut game, "My move is e2e5.").unwrap(), false);
    assert_eq!(hunt.illegal_moves(), &strings(&["e2e5"]));
    assert!(move_texts(&game).is_empty());
    assert!(hunt.prompt("FEN").contains("knowing (e2e5) are illegal moves."));
    assert!(hunt.can_ask());
    assert_eq!(hunt.take_reply(&mut game, "e2e4").unwrap(), true);
    assert_eq!(hunt.attempts(), 2);
    assert!(!hunt.can_ask());
    assert_eq!(move_texts(&game), strings(&["e2e4"]));
}

#[test]
fn move_hunt_reports_a_reply_without_a_move() {
    let mut game = chess::Game::new();
    let mut hunt = MoveHunt::new(3);
    assert!(matches!(hunt.take_reply(&mut game, "I resign"), Err(ChessError::Chess(_))));
    assert!(hunt.illegal_moves().is_empty());
    assert!(move_texts(&game).is_empty());
}

#[test]
fn move_hunt_request_ends_with_the_position() {
    let game = chess::Game::new();
    let hunt = MoveHunt::new(1);
    let request = hunt.request(&game);
    let last = request.last().unwrap();
    assert_eq!(last.role, Role::System);
    assert_eq!(last.content, chess_prompt(&Vec::new(), START_FEN));
}

#[test]
fn first_choice_needs_a_choice() {
    let mut record = ChatRecord::new();
    assert!(matches!(push_first_choice(&mut record, Vec::new()), Err(ReplyError::NoChoices)));
    assert!(record.messages().is_empty());
}

#[test]
fn first_choice_is_pushed() {
    let mut record = ChatRecord::new();
    let choices = vec![
        Message::new(Role::Assistant, String::from("first")),
        Message::new(Role::Assistant, String::from("second")),
    ];
    assert!(push_first_choice(&mut record, choices).is_ok());
    assert_eq!(record.messages().len(), 1);
    assert_eq!(record.messages()[0].content, "first");
    let mut game = chess::Game::new();
    let bad = vec![Message::new(Role::Assistant, String::from("e2e5"))];
    assert!(matches!(push_first_choice(&mut game, bad), Err(ReplyError::Record(MoveError::IllegalMove(_)))));
}

#[test]
fn game_refusal_carries_the_parsed_move() {
    let mut game = chess::Game::new();
    let expected: chess::ChessMove = "e2e5".parse().unwrap();
    match game.push(Role::User, String::from("e2e5")) {
        Err(MoveError::IllegalMove(m)) => assert_eq!(m, expected),
        other => panic!("expected an illegal move, got {other:?}"),
    }
    assert!(game.actions().is_empty());
}

#[test]
fn game_reads_moves_as_the_chess_crate_does() {
    let mut game = chess::Game::new();
    assert!(matches!(play_move(&mut game, "e2e4x"), Err(MoveError::Chess(_))));
    assert!(game.actions().is_empty());
    assert!(play_move(&mut game, "e2e4xy").is_ok());
    assert_eq!(move_texts(&game), strings(&["e2e4"]));
}

#[test]
fn move_hunt_gives_up_without_tries() {
    let hunt = MoveHunt::new(0);
    assert!(matches!(hunt.begin(), Step::Failed(ChessError::NoLegalMoveFound)));
    assert!(matches!(MoveHunt::new(1).begin(), Step::Ask));
}

#[test]
fn move_hunt_step_without_choices_fails() {
    let mut game = chess::Game::new();
    let mut hunt = MoveHunt::new(2);
    assert!(matches!(hunt.step(&mut game, Vec::new()), Step::Failed(ChessError::ChatGpt(_))));
    assert_eq!(hunt.attempts(), 0);
}

#[test]
fn move_hunt_step_runs_out_of_tries() {
    let mut game = chess::Game::new();
    let mut hunt = MoveHunt::new(2);
    let reply = |text: &str| vec![Message::new(Role::Assistant, String::from(text))];
    assert!(matches!(hunt.step(&mut game, reply("e2e5")), Step::Ask));
    assert!(matches!(hunt.step(&mut game, reply("a1a8")), Step::Failed(ChessError::NoLegalMoveFound)));
    assert_eq!(hunt.illegal_moves(), &strings(&["e2e5", "a1a8"]));
    assert!(game.actions().is_empty());
}

#[test]
fn move_hunt_step_makes_a_legal_move() {
    let mut game = chess::Game::new();
    let mut hunt = MoveHunt::new(2);
    let replies = vec![
        Message::new(Role::Assistant, String::from("I play d2d4.")),
        Message::new(Role::Assistant, String::from("e2e4")),
    ];
    assert!(matches!(hunt.step(&mut game, replies), Step::Done));
    assert_eq!(move_texts(&game), strings(&["d2d4"]));
}

#[test]
fn move_hunt_request_tells_the_moves() {
    let mut game = chess::Game::new();
    play_move(&mut game, "e2e4").unwrap();
    play_move(&mut game, "e7e5").unwrap();
    let hunt = MoveHunt::new(1);
    let request = hunt.request(&game);
    assert_eq!(request.len(), 3);
    assert_eq!(request[0].role, Role::Assistant);
    assert_eq!(request[0].content, "e2e4");
    assert_eq!(request[1].role, Role::User);
    assert_eq!(request[1].content, "e7e5");
    assert_eq!(request[2].content, chess_prompt(&Vec::new(), &game.current_position().to_string()));
}

#[test]
fn game_open_until_checkmate() {
    let mut game = chess::Game::new();
    for m in ["f2f3", "e7e5", "g2g4"] {
        play_move(&mut game, m).unwrap();
        assert!(game_open(&game));
    }
    play_move(&mut game, "d8h4").unwrap();
    assert!(!game_open(&game));
    assert!(matches!(play_move(&mut game, "a2a3"), Err(MoveError::IllegalMove(_))));
}

#[test]
fn loop_over_a_game_stops_when_it_is_over() {
    let mut looped = While {
        predicate: |g: &chess::Game| game_open(g),
        conversation: MainConversation::new().agent(Either::Left(String::from("f2f3")))
            .agent(Either::Right(Ok::<(), String>(()))),
    };
    let mut game = chess::Game::new();
    assert!(matches!(looped.handle(&mut game), Err(Either::Left(MoveError::IllegalMove(_)))));
    assert_eq!(move_texts(&game), strings(&["f2f3"]));
}
