use rustygen::agent::{Agent, AgentRef, Either};
use rustygen::control_flow::error::{Catch, CatchError};
use rustygen::control_flow::while_loop::While;
use rustygen::assistants::chess::MoveError;
use rustygen::record::{ChatRecord, Message, Record, Role};
use rustygen::{Conversation, MainConversation};

fn game_moves(game: &chess::Game) -> Vec<String> {
    game.actions()
        .iter()
        .map(|a| match a {
            chess::Action::MakeMove(m) => m.to_string(),
            other => format!("{other:?}"),
        })
        .collect()
}

fn contents(record: &ChatRecord) -> Vec<String> {
    record.messages().iter().map(|m| m.content.clone()).collect()
}

#[test]
fn conversation_stops_at_first_failure() {
    let mut conversation = MainConversation::new()
        .agent(String::from("e2e4"))
        .agent(String::from("e2e4"))
        .agent(String::from("e7e5"));
    let mut game = chess::Game::new();
    let r = conversation.play_with(&mut game);
    assert!(matches!(r, Err(MoveError::IllegalMove(_))));
    assert_eq!(game_moves(&game), vec!["e2e4"]);
}

#[test]
fn conversation_runs_all_in_order() {
    let mut conversation = MainConversation::new()
        .agent(String::from("a"))
        .agent(String::from("b"))
        .agent(String::from("c"));
    assert_eq!(conversation.len(), 3);
    let mut record = ChatRecord::new();
    assert!(conversation.play_with(&mut record).is_ok());
    assert_eq!(contents(&record), vec!["a", "b", "c"]);
    assert!(conversation.play_with(&mut record).is_ok());
    assert_eq!(contents(&record), vec!["a", "b", "c", "a", "b", "c"]);
}

#[test]
fn conversation_on_a_game_plays_each_move() {
    let mut conversation = MainConversation::new()
        .agent(String::from("e2e4"))
        .agent(String::from("e7e5"))
        .agent(String::from("g1f3"));
    let mut game = chess::Game::new();
    assert!(conversation.play_with(&mut game).is_ok());
    assert_eq!(game_moves(&game), vec!["e2e4", "e7e5", "g1f3"]);
}

#[test]
fn empty_conversation_changes_nothing() {
    let mut conversation: MainConversation<String> = MainConversation::new();
    let mut record = ChatRecord::new();
    record.push(Role::System, String::from("hi")).unwrap();
    assert!(conversation.play_with(&mut record).is_ok());
    assert_eq!(contents(&record), vec!["hi"]);
}

#[test]
fn text_agent_pushes_one_user_message() {
    let mut conversation = MainConversation::new().agent(String::from("Tell me about yourself"));
    let record: ChatRecord = conversation.play().unwrap();
    let messages = record.messages();
    assert_eq!(messages.len(), 1);
    assert_eq!(messages[0].role, Role::User);
    assert_eq!(messages[0].content, "Tell me about yourself");
}

#[test]
fn text_agent_through_shared_reference() {
    let text = String::from("hello");
    let mut record = ChatRecord::default();
    text.handle_ref(&mut record).unwrap();
    text.handle_ref(&mut record).unwrap();
    assert_eq!(contents(&record), vec!["hello", "hello"]);
    assert!(record.messages().iter().all(|m| m.role == Role::User));
}

#[test]
fn boxed_and_shared_agents_run_the_inner_agent() {
    let mut record = ChatRecord::new();
    let mut boxed = Box::new(String::from("boxed"));
    boxed.handle(&mut record).unwrap();
    let mut shared = std::rc::Rc::new(String::from("shared"));
    shared.handle(&mut record).unwrap();
    let mut atomic = std::sync::Arc::new(String::from("atomic"));
    atomic.handle(&mut record).unwrap();
    assert_eq!(contents(&record), vec!["boxed", "shared", "atomic"]);
}

#[test]
fn chat_record_push_message_keeps_role() {
    let mut record = ChatRecord::new();
    assert!(record.messages().is_empty());
    record.push_message(Message::system(String::from("be brief"))).unwrap();
    record.push_message(Message::new(Role::Assistant, String::from("ok"))).unwrap();
    let messages = record.messages();
    assert_eq!(messages.len(), 2);
    assert_eq!(messages[0].role, Role::System);
    assert_eq!(messages[0].content, "be brief");
    assert_eq!(messages[1].role, Role::Assistant);
    assert_eq!(messages[1].content, "ok");
}

#[test]
fn catch_passes_success_through() {
    let mut caught = Agent::<chess::Game>::catch(String::from("e2e4"), |_e: MoveError| Ok::<String, MoveError>(String::from("d2d4")));
    let mut game = chess::Game::new();
    assert!(caught.handle(&mut game).is_ok());
    assert_eq!(game_moves(&game), vec!["e2e4"]);
}

#[test]
fn catch_runs_substitute_on_failure() {
    let mut caught = Agent::<chess::Game>::catch(String::from("e2e5"), |e: MoveError| {
        assert!(matches!(e, MoveError::IllegalMove(_)));
        Ok::<String, MoveError>(String::from("d2d4"))
    });
    let mut game = chess::Game::new();
    assert!(caught.handle(&mut game).is_ok());
    assert_eq!(game_moves(&game), vec!["d2d4"]);
}

#[test]
fn catch_reports_substitute_failure() {
    let mut caught = Catch { agent: String::from("e2e5"), f: |_e: MoveError| Ok::<String, MoveError>(String::from("xyz")) };
    let mut game = chess::Game::new();
    match caught.handle(&mut game) {
        Err(CatchError::Substitute(MoveError::Chess(_))) => {}
        other => panic!("expected the substitute's error, got {other:?}"),
    }
    assert!(game_moves(&game).is_empty());
}

#[test]
fn catch_recovery_error_supersedes() {
    let mut caught = Agent::<chess::Game>::catch(String::from("e2e5"), |_e: MoveError| Err::<String, MoveError>(MoveError::Chess(chess::Error::InvalidUciMove)));
    let mut game = chess::Game::new();
    match caught.handle(&mut game) {
        Err(CatchError::Recovery(MoveError::Chess(_))) => {}
        other => panic!("expected the recovery error, got {other:?}"),
    }
    assert!(game_moves(&game).is_empty());
}

#[test]
fn catch_substitute_equals_running_it_alone() {
    let caught = Catch { agent: String::from("e2e5x"), f: |_e: MoveError| Ok::<String, MoveError>(String::from("e2e4")) };
    let mut game = chess::Game::new();
    let mut game_alone = chess::Game::new();
    String::from("e2e4").handle(&mut game_alone).unwrap();
    assert!(caught.handle_ref(&mut game).is_ok());
    assert_eq!(game.actions(), game_alone.actions());
}

#[test]
fn while_false_at_start_runs_nothing() {
    let mut looped = While { predicate: |_r: &ChatRecord| false, conversation: MainConversation::new().agent(String::from("x")) };
    let mut record = ChatRecord::new();
    assert!(looped.handle(&mut record).is_ok());
    assert!(record.messages().is_empty());
}

#[test]
fn while_runs_until_predicate_fails() {
    let mut looped = While {
        predicate: |r: &ChatRecord| r.messages().len() < 6,
        conversation: MainConversation::new().agent(String::from("x")).agent(String::from("y")),
    };
    let mut record = ChatRecord::new();
    assert!(looped.handle(&mut record).is_ok());
    assert_eq!(contents(&record), vec!["x", "y", "x", "y", "x", "y"]);
}

#[test]
fn while_stops_on_nested_error() {
    let mut looped = While {
        predicate: |_r: &chess::Game| true,
        conversation: MainConversation::new().agent(String::from("e2e4")).agent(String::from("e7e5")),
    };
    let mut game = chess::Game::new();
    assert!(matches!(looped.handle(&mut game), Err(MoveError::IllegalMove(_))));
    assert_eq!(game_moves(&game), vec!["e2e4", "e7e5"]);
}

#[test]
fn while_builder_closes_into_parent() {
    let parent: MainConversation<While<_, String>> = MainConversation::new();
    let mut conversation = parent
        .while_loop(|r: &ChatRecord| r.messages().len() < 4)
        .agent(String::from("ping"))
        .agent(String::from("pong"))
        .end_while();
    assert_eq!(conversation.len(), 1);
    let mut record = ChatRecord::new();
    assert!(conversation.play_with(&mut record).is_ok());
    assert_eq!(contents(&record), vec!["ping", "pong", "ping", "pong"]);
}

#[test]
fn either_mixes_agent_types() {
    let mut conversation = MainConversation::new()
        .agent(Either::Left(String::from("a")))
        .agent(Either::Right(Ok::<(), String>(())))
        .agent(Either::Left(String::from("b")))
        .agent(Either::Right(Err::<(), String>(String::from("stop"))))
        .agent(Either::Left(String::from("c")));
    let mut record = ChatRecord::new();
    match conversation.play_with(&mut record) {
        Err(Either::Right(e)) => assert_eq!(e, "stop"),
        other => panic!("expected the fixed failure, got {other:?}"),
    }
    assert_eq!(contents(&record), vec!["a", "b"]);
}

#[test]
fn fixed_outcome_leaves_record_alone() {
    let mut record = ChatRecord::new();
    let mut ok: Result<(), String> = Ok(());
    assert_eq!(ok.handle(&mut record), Ok(()));
    let failing: Result<(), String> = Err(String::from("no"));
    assert_eq!(failing.handle_ref(&mut record), Err(String::from("no")));
    assert!(record.messages().is_empty());
}

#[test]
fn catch_ref_keeps_the_agent_shared() {
    let caught = AgentRef::<chess::Game>::catch_ref(String::from("e9e4"), |_e: MoveError| Ok::<String, MoveError>(String::from("g1f3")));
    let mut game = chess::Game::new();
    assert!(caught.handle_ref(&mut game).is_ok());
    assert_eq!(game_moves(&game), vec!["g1f3"]);
}
