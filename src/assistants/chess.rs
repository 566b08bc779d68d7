use crate::agent::Agent;
use crate::control_flow::while_loop::{rounds, While, MAX_ROUNDS};
use crate::record::{Record, Role};
use vstd::prelude::*;

verus! {

#[verifier::external_type_specification]
#[verifier::external_body]
pub struct ExGame(chess::Game);

#[verifier::external_type_specification]
#[verifier::external_body]
pub struct ExChessMove(chess::ChessMove);

#[verifier::external_type_specification]
#[verifier::external_body]
pub struct ExChessError(chess::Error);

#[verifier::external_type_specification]
#[verifier::external_body]
pub struct ExAction(chess::Action);

/// Why a game refused a pushed move.
#[derive(Debug)]
pub enum MoveError {
    /// The text is no move in UCI notation.
    Chess(chess::Error),
    /// The move is not legal in the current position, or the game is over.
    IllegalMove(chess::ChessMove),
}

pub open spec fn is_file(c: char) -> bool {
    'a' <= c <= 'h'
}

pub open spec fn is_rank(c: char) -> bool {
    '1' <= c <= '8'
}

pub open spec fn is_promotion(c: char) -> bool {
    c == 'q' || c == 'r' || c == 'n' || c == 'b'
}

/// The text starts with two squares, as a UCI move does.
pub open spec fn names_squares(s: Seq<char>) -> bool {
    &&& s.len() >= 4
    &&& is_file(s[0]) && is_rank(s[1])
    &&& is_file(s[2]) && is_rank(s[3])
}

/// The text is a move to the chess crate's reader: two squares, then, if
/// exactly one ASCII character follows, a promotion piece. A longer tail is
/// not read.
pub open spec fn parses(s: Seq<char>) -> bool {
    &&& names_squares(s)
    &&& !(s.len() == 5 && s[4] <= '\x7f' && !is_promotion(s[4]))
}

/// The move that the chess crate reads from a text.
pub uninterp spec fn move_of_text(s: Seq<char>) -> chess::ChessMove;

/// Whether the chess crate's game takes the move: the game is not over and
/// the move is legal in its current position.
pub uninterp spec fn legal_in(game: chess::Game, chess_move: chess::ChessMove) -> bool;

/// The moves made in a game, in order.
pub uninterp spec fn moves_of(game: chess::Game) -> Seq<chess::ChessMove>;

/// The move that an action of the chess crate makes, if it makes one.
pub uninterp spec fn made_move(action: chess::Action) -> Option<chess::ChessMove>;

/// The UCI notation of a move.
pub uninterp spec fn uci_of(chess_move: chess::ChessMove) -> Seq<char>;

/// Whether white is to move in a game.
pub uninterp spec fn white_next(game: chess::Game) -> bool;

/// The current position of a game in FEN notation.
pub uninterp spec fn fen_of(game: chess::Game) -> Seq<char>;

/// Whether a game has a result: checkmate, stalemate, a draw or a resignation.
pub uninterp spec fn finished(game: chess::Game) -> bool;

/// The moves that a sequence of actions makes, in order.
pub open spec fn made_moves(actions: Seq<chess::Action>) -> Seq<chess::ChessMove>
    decreases actions.len(),
{
    if actions.len() == 0 {
        Seq::empty()
    } else {
        let before = made_moves(actions.drop_last());
        match made_move(actions.last()) {
            Some(m) => before.push(m),
            None => before,
        }
    }
}

/// Relies on `ChessMove::from_str` of the chess crate: it reads a source
/// square and a target square from the first four bytes and, when the text
/// is five bytes long, a promotion piece from the last.
#[verifier::external_body]
fn parse_move(s: &str) -> (r: Result<chess::ChessMove, chess::Error>)
    ensures
        r is Ok <==> parses(s@),
        r is Ok ==> r->Ok_0 == move_of_text(s@),
{
    <chess::ChessMove as std::str::FromStr>::from_str(s)
}

/// Relies on `Game::make_move` of the chess crate: a move that it takes is
/// added to the game's moves; otherwise the game stays as it was.
#[verifier::external_body]
fn make_move(game: &mut chess::Game, chess_move: chess::ChessMove) -> (r: bool)
    ensures
        r == legal_in(*old(game), chess_move),
        r ==> moves_of(*final(game)) == moves_of(*old(game)).push(chess_move),
        !r ==> *final(game) == *old(game),
{
    game.make_move(chess_move)
}

/// Relies on `Game::actions` of the chess crate: the actions taken so far,
/// among them the moves made.
#[verifier::external_body]
fn game_actions(game: &chess::Game) -> (r: Vec<chess::Action>)
    ensures
        made_moves(r@) == moves_of(*game),
{
    game.actions().clone()
}

/// Tells the `MakeMove` variant of the chess crate's `Action` apart.
#[verifier::external_body]
fn action_move(action: &chess::Action) -> (r: Option<chess::ChessMove>)
    ensures
        r == made_move(*action),
{
    match action {
        chess::Action::MakeMove(m) => Some(*m),
        _ => None,
    }
}

/// Relies on the `Display` of the chess crate's `ChessMove`: its UCI
/// notation, two squares and an optional promotion piece.
#[verifier::external_body]
pub(crate) fn move_text(chess_move: &chess::ChessMove) -> (r: String)
    ensures
        r@ == uci_of(*chess_move),
        4 <= r@.len() <= 5,
{
    chess_move.to_string()
}

/// Relies on `Game::side_to_move` of the chess crate: whether white moves next.
#[verifier::external_body]
pub(crate) fn white_to_move(game: &chess::Game) -> (r: bool)
    ensures
        r == white_next(*game),
{
    game.side_to_move() == chess::Color::White
}

/// Relies on the `Display` of the chess crate's `Board`: the current
/// position of the game in FEN notation.
#[verifier::external_body]
pub(crate) fn position_text(game: &chess::Game) -> (r: String)
    ensures
        r@ == fen_of(*game),
{
    game.current_position().to_string()
}

/// Relies on `Game::result` of the chess crate: whether the game has a result.
#[verifier::external_body]
fn has_result(game: &chess::Game) -> (r: bool)
    ensures
        r == finished(*game),
{
    game.result().is_some()
}

/// Whether the game goes on: it has no result yet.
pub fn game_open(game: &chess::Game) -> (r: bool)
    ensures
        r == !finished(*game),
{
    !has_result(game)
}

/// Plays the move written in `text`: a text that is no move is refused
/// with `Chess`, a move that the game does not take with `IllegalMove`, and
/// a refused move leaves the game as it was.
pub fn play_move(game: &mut chess::Game, text: &str) -> (r: Result<(), MoveError>)
    ensures
        !parses(text@) ==> (r matches Err(MoveError::Chess(_))) && *final(game) == *old(game),
        parses(text@) ==> {
            let m = move_of_text(text@);
            &&& legal_in(*old(game), m) ==> r is Ok && moves_of(*final(game)) == moves_of(*old(game)).push(m)
            &&& !legal_in(*old(game), m) ==> (r matches Err(MoveError::IllegalMove(x)) && x == m)
                && *final(game) == *old(game)
        },
{
    let chess_move = match parse_move(text) {
        Ok(m) => m,
        Err(e) => return Err(MoveError::Chess(e)),
    };
    if !make_move(game, chess_move) {
        return Err(MoveError::IllegalMove(chess_move));
    }
    Ok(())
}

/// The UCI texts of the moves made so far, in order.
pub fn move_texts(game: &chess::Game) -> (r: Vec<String>)
    ensures
        r@.len() == moves_of(*game).len(),
        forall|i: int| 0 <= i < r@.len() ==> (#[trigger] r@[i])@ == uci_of(moves_of(*game)[i]),
{
    let actions = game_actions(game);
    let mut texts: Vec<String> = Vec::new();
    let mut i: usize = 0;
    while i < actions.len()
        invariant
            i <= actions@.len(),
            made_moves(actions@) == moves_of(*game),
            texts@.len() == made_moves(actions@.take(i as int)).len(),
            forall|j: int|
                0 <= j < texts@.len() ==> (#[trigger] texts@[j])@ == uci_of(made_moves(actions@.take(i as int))[j]),
        decreases actions@.len() - i,
    {
        let ghost done = made_moves(actions@.take(i as int));
        assert(actions@.take(i + 1).drop_last() =~= actions@.take(i as int));
        assert(actions@.take(i + 1).last() == actions@[i as int]);
        if let Some(m) = action_move(&actions[i]) {
            texts.push(move_text(&m));
            assert(made_moves(actions@.take(i + 1)) == done.push(m));
        } else {
            assert(made_moves(actions@.take(i + 1)) == done);
        }
        i = i + 1;
    }
    assert(actions@.take(actions@.len() as int) =~= actions@);
    texts
}

/// A game takes a pushed text as a move in UCI notation, whatever the role.
impl Record for chess::Game {
    type Error = MoveError;

    open spec fn accepts(&self, role: Role, content: Seq<char>) -> bool {
        parses(content) && legal_in(*self, move_of_text(content))
    }

    open spec fn pushed(&self, role: Role, content: Seq<char>, after: chess::Game) -> bool {
        &&& parses(content)
        &&& legal_in(*self, move_of_text(content))
        &&& moves_of(after) == moves_of(*self).push(move_of_text(content))
    }

    /// Text that is no move is refused with `Chess`; a move that the game
    /// does not take, with `IllegalMove` of that move.
    fn push(&mut self, role: Role, content: String) -> (r: Result<(), MoveError>)
        ensures
            !parses(content@) ==> (r matches Err(MoveError::Chess(_))) && *final(self) == *old(self),
            parses(content@) ==> {
                let m = move_of_text(content@);
                &&& legal_in(*old(self), m) ==> r is Ok && moves_of(*final(self)) == moves_of(*old(self)).push(m)
                &&& !legal_in(*old(self), m) ==> (r matches Err(MoveError::IllegalMove(x)) && x == m)
                    && *final(self) == *old(self)
            },
    {
        play_move(self, content.as_str())
    }
}

/// A loop over a game that goes on while the game has no result ends, when
/// it succeeds, with a finished game, or after `MAX_ROUNDS` rounds.
pub proof fn lemma_played_until_over<F: Fn(&chess::Game) -> bool, A: Agent<chess::Game>>(
    w: While<F, A>,
    pre: chess::Game,
    after: While<F, A>,
    post: chess::Game,
)
    requires
        w.handles(pre, after, post, Ok(())),
        forall|g: chess::Game, b: bool| #[trigger] w.predicate.ensures((&g,), b) ==> b == !finished(g),
    ensures
        finished(post) || rounds(w.predicate, w.conversation@, after.conversation@, pre, post, MAX_ROUNDS as nat),
{
    let n = choose|n: nat|
        #![trigger rounds(w.predicate, w.conversation@, after.conversation@, pre, post, n)]
        rounds(w.predicate, w.conversation@, after.conversation@, pre, post, n) && (w.predicate.ensures(
            (&post,),
            false,
        ) || n == MAX_ROUNDS);
    if w.predicate.ensures((&post,), false) {
        assert(finished(post));
    }
}

} // verus!
