use crate::assistants::chess::{
    fen_of,
    legal_in,
    move_of_text,
    move_text,
    move_texts,
    moves_of,
    parses,
    play_move,
    position_text,
    uci_of,
    white_next,
    white_to_move,
    MoveError,
};
use crate::record::{Message, MessageView, Record, Role};
use vstd::prelude::*;
use vstd::string::{StrSliceExecFns, StringExecFns};

verus! {

#[verifier::external_type_specification]
#[verifier::external_body]
pub struct ExOpenAiError(libopenai::error::Error);

/// Why a chat model could not make a move.
#[derive(Debug)]
pub enum ChessError {
    /// The chat service failed, or gave no reply.
    ChatGpt(libopenai::error::Error),
    /// A reply held no move in UCI notation.
    Chess(chess::Error),
    /// Every reply allowed held an illegal move.
    NoLegalMoveFound,
}

/// Why a chat reply could not be added to a record.
#[derive(Debug)]
pub enum ReplyError<E> {
    /// The service gave no candidate reply.
    NoChoices,
    /// The record refused the first candidate.
    Record(E),
}

/// Adds the first of the candidate replies to the record.
pub fn push_first_choice<R: Record>(record: &mut R, choices: Vec<Message>) -> (r: Result<(), ReplyError<R::Error>>)
    ensures
        choices@.len() == 0 ==> (r matches Err(ReplyError::NoChoices)) && *final(record) == *old(record),
        choices@.len() > 0 ==> {
            let m = choices@[0];
            &&& old(record).accepts(m.role, m.content@) ==> r is Ok
            &&& r is Ok ==> old(record).pushed(m.role, m.content@, *final(record))
            &&& r is Err ==> (r matches Err(ReplyError::Record(_))) && *final(record) == *old(record)
        },
{
    let mut choices = choices;
    if choices.len() == 0 {
        return Err(ReplyError::NoChoices);
    }
    let first = choices.swap_remove(0);
    match record.push_message(first) {
        Ok(u) => Ok(u),
        Err(e) => Err(ReplyError::Record(e)),
    }
}

pub uninterp spec fn alphanumeric(c: char) -> bool;

pub uninterp spec fn whitespace(c: char) -> bool;

pub open spec fn ascii_alphanumeric(c: char) -> bool {
    ('a' <= c <= 'z') || ('A' <= c <= 'Z') || ('0' <= c <= '9')
}

pub open spec fn ascii_whitespace(c: char) -> bool {
    c == ' ' || ('\t' <= c <= '\r')
}

/// Relies on `char::is_alphanumeric`: Unicode letters and numbers, which on
/// ASCII are the letters and the digits.
#[verifier::external_body]
fn is_alphanumeric(c: char) -> (r: bool)
    ensures
        r == alphanumeric(c),
        c <= '\x7f' ==> (r <==> ascii_alphanumeric(c)),
{
    c.is_alphanumeric()
}

/// Relies on `char::is_whitespace`: the Unicode White_Space property, which
/// on ASCII holds of the space and of tab through carriage return.
#[verifier::external_body]
fn is_whitespace(c: char) -> (r: bool)
    ensures
        r == whitespace(c),
        c <= '\x7f' ==> (r <==> ascii_whitespace(c)),
{
    c.is_whitespace()
}

/// The length of the first `i` characters of `s` without trailing whitespace.
pub open spec fn text_end(s: Seq<char>, i: int) -> int
    decreases i,
{
    if i > 0 && whitespace(s[i - 1]) {
        text_end(s, i - 1)
    } else {
        i
    }
}

/// Where the run of non-whitespace characters that ends at `i` starts.
pub open spec fn word_start(s: Seq<char>, i: int) -> int
    decreases i,
{
    if i > 0 && !whitespace(s[i - 1]) {
        word_start(s, i - 1)
    } else {
        i
    }
}

/// The last whitespace-separated word of `s`, or `s` itself if it has none.
pub open spec fn last_word(s: Seq<char>) -> Seq<char> {
    let e = text_end(s, s.len() as int);
    if e == 0 {
        s
    } else {
        s.subrange(word_start(s, e), e)
    }
}

/// The move read from a reply: a trailing character that is not
/// alphanumeric goes, and the last word of what is left is kept.
pub open spec fn reply_move(s: Seq<char>) -> Seq<char> {
    if s.len() > 0 && !alphanumeric(s.last()) {
        last_word(s.drop_last())
    } else {
        last_word(s)
    }
}

/// Reads the move out of a chat reply.
pub fn clean_reply(reply: &str) -> (r: String)
    ensures
        r@ == reply_move(reply@),
{
    let n = reply.unicode_len();
    let mut len = n;
    if n > 0 && !is_alphanumeric(reply.get_char(n - 1)) {
        len = n - 1;
    }
    let ghost t = reply@.subrange(0, len as int);
    assert(reply@.len() > 0 && !alphanumeric(reply@.last()) ==> t =~= reply@.drop_last());
    assert(!(reply@.len() > 0 && !alphanumeric(reply@.last())) ==> t =~= reply@);
    let mut e = len;
    while e > 0 && is_whitespace(reply.get_char(e - 1))
        invariant
            e <= len <= n == reply@.len(),
            t == reply@.subrange(0, len as int),
            text_end(t, len as int) == text_end(t, e as int),
        decreases e,
    {
        e = e - 1;
    }
    if e == 0 {
        return String::from_str(reply.substring_char(0, len));
    }
    let mut b = e;
    while b > 0 && !is_whitespace(reply.get_char(b - 1))
        invariant
            b <= e <= len <= n == reply@.len(),
            t == reply@.subrange(0, len as int),
            text_end(t, len as int) == e,
            word_start(t, e as int) == word_start(t, b as int),
        decreases b,
    {
        b = b - 1;
    }
    let word = String::from_str(reply.substring_char(b, e));
    assert(word@ =~= t.subrange(b as int, e as int));
    word
}

/// `items` with `sep` between each two.
pub open spec fn joined(items: Seq<Seq<char>>, sep: Seq<char>) -> Seq<char>
    decreases items.len(),
{
    if items.len() == 0 {
        Seq::empty()
    } else if items.len() == 1 {
        items[0]
    } else {
        joined(items.drop_last(), sep) + sep + items.last()
    }
}

pub open spec fn texts(v: Seq<String>) -> Seq<Seq<char>> {
    v.map_values(|s: String| s@)
}

/// The instruction to a chat model that plays chess, given the moves found
/// illegal so far and the position in FEN notation.
pub open spec fn prompt_text(illegal: Seq<Seq<char>>, fen: Seq<char>) -> Seq<char> {
    "You're a chess engine. Respond only with the next move to play, based on the previous moves"@
        + (if illegal.len() == 0 {
        Seq::empty()
    } else {
        " and knowing ("@ + joined(illegal, ", "@) + ") are illegal moves."@
    }) + ", using the UCI format. The current state of the board is "@ + fen
        + " (using FEN notation)."@
}

/// Builds the instruction for a chat model that plays chess. The clause that
/// names the moves found illegal is added only when some were found, so
/// that the model is never told of an empty list of illegal moves; the
/// first request carries no such clause.
pub fn chess_prompt(illegal: &Vec<String>, fen: &str) -> (r: String)
    ensures
        r@ == prompt_text(texts(illegal@), fen@),
{
    let mut text = String::from_str(
        "You're a chess engine. Respond only with the next move to play, based on the previous moves",
    );
    let ghost head = text@;
    if illegal.len() > 0 {
        text.append(" and knowing (");
        let ghost opened = text@;
        let mut i: usize = 0;
        while i < illegal.len()
            invariant
                i <= illegal@.len(),
                text@ == opened + joined(texts(illegal@).take(i as int), ", "@),
            decreases illegal@.len() - i,
        {
            let ghost before = text@;
            if i > 0 {
                text.append(", ");
            }
            text.append(illegal[i].as_str());
            proof {
                let items = texts(illegal@).take(i + 1);
                assert(items.drop_last() =~= texts(illegal@).take(i as int));
                if i == 0 {
                    assert(joined(texts(illegal@).take(0), ", "@) =~= Seq::<char>::empty());
                    assert(text@ =~= opened + joined(items, ", "@));
                } else {
                    assert(text@ =~= opened + joined(items, ", "@));
                }
            }
            i = i + 1;
        }
        assert(texts(illegal@).take(illegal@.len() as int) =~= texts(illegal@));
        text.append(") are illegal moves.");
        assert(text@ =~= head + (" and knowing ("@ + joined(texts(illegal@), ", "@) + ") are illegal moves."@));
    } else {
        assert(text@ =~= head + Seq::<char>::empty());
    }
    let ghost middle = text@;
    text.append(", using the UCI format. The current state of the board is ");
    text.append(fen);
    text.append(" (using FEN notation).");
    assert(text@ =~= prompt_text(texts(illegal@), fen@));
    text
}

/// The role of the `i`-th move of a game told as a chat: roles alternate,
/// and the first is the assistant's exactly when `assistant_first` holds.
pub open spec fn move_role(i: int, assistant_first: bool) -> Role {
    if (i % 2 == 0) == assistant_first {
        Role::Assistant
    } else {
        Role::User
    }
}

/// Tells the moves of a game as a chat, one message per move.
pub fn history(moves: &Vec<String>, assistant_first: bool) -> (r: Vec<Message>)
    ensures
        r@.len() == moves@.len(),
        forall|i: int|
            0 <= i < r@.len() ==> (#[trigger] r@[i])@ == (MessageView {
                role: move_role(i, assistant_first),
                content: moves@[i]@,
            }),
{
    let mut messages: Vec<Message> = Vec::new();
    let mut is_assistant = assistant_first;
    let mut i: usize = 0;
    while i < moves.len()
        invariant
            i <= moves@.len(),
            messages@.len() == i,
            is_assistant == ((i % 2 == 0) == assistant_first),
            forall|j: int|
                0 <= j < i ==> (#[trigger] messages@[j])@ == (MessageView {
                    role: move_role(j, assistant_first),
                    content: moves@[j]@,
                }),
        decreases moves@.len() - i,
    {
        let role = if is_assistant {
            Role::Assistant
        } else {
            Role::User
        };
        messages.push(Message::new(role, moves[i].clone()));
        is_assistant = !is_assistant;
        i = i + 1;
    }
    messages
}

/// The opening instruction of a chat model that plays chess.
pub fn engine_prompt() -> (r: String)
    ensures
        r@ == "You're a chess engine. Respond only with the next move to play, based on the previous moves, using the UCI format."@,
{
    String::from_str(
        "You're a chess engine. Respond only with the next move to play, based on the previous moves, using the UCI format.",
    )
}

/// The moves of a game told as a chat, one message per move in UCI notation.
pub open spec fn told(moves: Seq<chess::ChessMove>, assistant_first: bool) -> Seq<MessageView> {
    Seq::new(moves.len(), |i: int| MessageView { role: move_role(i, assistant_first), content: uci_of(moves[i]) })
}

/// The messages of a chat, as their views.
pub open spec fn views(v: Seq<Message>) -> Seq<MessageView> {
    v.map_values(|m: Message| m@)
}

/// Tells the moves of `game` as a chat, the model's own first when white
/// is to move.
fn game_history(game: &chess::Game) -> (r: Vec<Message>)
    ensures
        views(r@) == told(moves_of(*game), white_next(*game)),
{
    let texts = move_texts(game);
    let r = history(&texts, white_to_move(game));
    assert(views(r@) =~= told(moves_of(*game), white_next(*game)));
    r
}

/// The chat to send to a model asked for the next move of `game`: the
/// opening instruction, then the moves made so far.
pub fn game_chat(game: &chess::Game) -> (r: Vec<Message>)
    ensures
        views(r@) == seq![
            MessageView {
                role: Role::System,
                content: "You're a chess engine. Respond only with the next move to play, based on the previous moves, using the UCI format."@,
            },
        ] + told(moves_of(*game), white_next(*game)),
{
    let mut messages: Vec<Message> = Vec::new();
    messages.push(Message::system(engine_prompt()));
    let ghost first = views(messages@);
    let mut told_moves = game_history(game);
    let ghost rest = views(told_moves@);
    messages.append(&mut told_moves);
    assert(views(messages@) =~= first + rest);
    messages
}

/// Relies on `Error::msg` of libopenai: an error that carries a message.
#[verifier::external_body]
fn chat_error(message: &'static str) -> (r: libopenai::error::Error) {
    libopenai::error::Error::msg(message)
}

/// What a chat model's search for a legal move does next.
#[derive(Debug)]
pub enum Step {
    /// Ask the model for another reply.
    Ask,
    /// A move was made.
    Done,
    /// The search ends with this error.
    Failed(ChessError),
}

/// The state of a chat model's search for a legal move: how many replies it
/// may give, how many it gave, and the moves among them found illegal.
pub struct MoveHunt {
    max_tries: usize,
    tries: usize,
    illegal_moves: Vec<String>,
}

impl MoveHunt {
    pub closed spec fn max_tries(&self) -> nat {
        self.max_tries as nat
    }

    pub closed spec fn tries(&self) -> nat {
        self.tries as nat
    }

    pub closed spec fn illegal(&self) -> Seq<Seq<char>> {
        texts(self.illegal_moves@)
    }

    pub fn new(max_tries: usize) -> (r: MoveHunt)
        ensures
            r.max_tries() == max_tries,
            r.tries() == 0,
            r.illegal() == Seq::<Seq<char>>::empty(),
    {
        let r = MoveHunt { max_tries, tries: 0, illegal_moves: Vec::new() };
        assert(r.illegal() =~= Seq::<Seq<char>>::empty());
        r
    }

    /// The moves found illegal so far, in the order in which they came.
    pub fn illegal_moves(&self) -> (r: &Vec<String>)
        ensures
            texts(r@) == self.illegal(),
    {
        &self.illegal_moves
    }

    /// How many replies were taken so far.
    pub fn attempts(&self) -> (r: usize)
        ensures
            r == self.tries(),
    {
        self.tries
    }

    /// Whether another reply may be asked for.
    pub fn can_ask(&self) -> (r: bool)
        ensures
            r == (self.tries() < self.max_tries()),
    {
        self.tries < self.max_tries
    }

    /// The instruction for the next request, for the position `fen`. The
    /// moves found illegal are named in it only when there are some.
    pub fn prompt(&self, fen: &str) -> (r: String)
        ensures
            r@ == prompt_text(self.illegal(), fen@),
    {
        chess_prompt(&self.illegal_moves, fen)
    }

    /// The chat for the next request: the moves of `game`, one message
    /// each, then the instruction for its current position.
    pub fn request(&self, game: &chess::Game) -> (r: Vec<Message>)
        ensures
            views(r@) == told(moves_of(*game), white_next(*game)).push(
                MessageView { role: Role::System, content: prompt_text(self.illegal(), fen_of(*game)) },
            ),
    {
        let mut messages = game_history(game);
        let ghost before = views(messages@);
        let fen = position_text(game);
        let instruction = Message::system(self.prompt(fen.as_str()));
        messages.push(instruction);
        assert(views(messages@) =~= before.push(instruction@));
        messages
    }

    /// What to do before any reply: ask, or give up at once when no reply
    /// may be given.
    pub fn begin(&self) -> (r: Step)
        ensures
            r is Ask <==> self.tries() < self.max_tries(),
            !(r is Ask) ==> (r matches Step::Failed(ChessError::NoLegalMoveFound)),
    {
        if self.can_ask() {
            Step::Ask
        } else {
            Step::Failed(ChessError::NoLegalMoveFound)
        }
    }

    /// Takes one reply of the model and plays the move read from it.
    /// `Ok(true)`: the game took the move. `Ok(false)`: the game refused it,
    /// and its notation is noted among the illegal moves. `Err`: the reply
    /// held no move.
    pub fn take_reply(&mut self, game: &mut chess::Game, reply: &str) -> (r: Result<bool, ChessError>)
        requires
            old(self).tries() < old(self).max_tries(),
        ensures
            final(self).max_tries() == old(self).max_tries(),
            final(self).tries() == old(self).tries() + 1,
            ({
                let text = reply_move(reply@);
                let m = move_of_text(text);
                &&& !parses(text) ==> (r matches Err(ChessError::Chess(_))) && *final(game) == *old(game)
                    && final(self).illegal() == old(self).illegal()
                &&& parses(text) && legal_in(*old(game), m) ==> r == Ok::<bool, ChessError>(true)
                    && moves_of(*final(game)) == moves_of(*old(game)).push(m)
                    && final(self).illegal() == old(self).illegal()
                &&& parses(text) && !legal_in(*old(game), m) ==> r == Ok::<bool, ChessError>(false)
                    && *final(game) == *old(game)
                    && final(self).illegal() == old(self).illegal().push(uci_of(m))
            }),
    {
        self.tries = self.tries + 1;
        let text = clean_reply(reply);
        match play_move(game, text.as_str()) {
            Ok(()) => Ok(true),
            Err(MoveError::IllegalMove(m)) => {
                let ghost before = self.illegal_moves@;
                let seen = move_text(&m);
                self.illegal_moves.push(seen);
                assert(texts(self.illegal_moves@) =~= texts(before).push(seen@));
                assert(self.illegal() == old(self).illegal().push(seen@));
                Ok(false)
            },
            Err(MoveError::Chess(e)) => Err(ChessError::Chess(e)),
        }
    }

    /// Takes the candidate replies of one request: none is a failure of the
    /// service; otherwise the first is taken, and a refused move leads to
    /// another request while one may be made, else to `NoLegalMoveFound`.
    pub fn step(&mut self, game: &mut chess::Game, choices: Vec<Message>) -> (r: Step)
        requires
            old(self).tries() < old(self).max_tries(),
        ensures
            final(self).max_tries() == old(self).max_tries(),
            choices@.len() == 0 ==> (r matches Step::Failed(ChessError::ChatGpt(_))) && *final(game)
                == *old(game) && final(self).tries() == old(self).tries() && final(self).illegal()
                == old(self).illegal(),
            choices@.len() > 0 ==> {
                let text = reply_move(choices@[0].content@);
                let m = move_of_text(text);
                &&& final(self).tries() == old(self).tries() + 1
                &&& !parses(text) ==> (r matches Step::Failed(ChessError::Chess(_))) && *final(game)
                    == *old(game) && final(self).illegal() == old(self).illegal()
                &&& parses(text) && legal_in(*old(game), m) ==> r is Done && moves_of(*final(game))
                    == moves_of(*old(game)).push(m) && final(self).illegal() == old(self).illegal()
                &&& parses(text) && !legal_in(*old(game), m) ==> *final(game) == *old(game)
                    && final(self).illegal() == old(self).illegal().push(uci_of(m))
                    && (final(self).tries() < final(self).max_tries() ==> r is Ask)
                    && (final(self).tries() >= final(self).max_tries() ==> (r matches Step::Failed(
                    ChessError::NoLegalMoveFound,
                )))
            },
    {
        if choices.len() == 0 {
            return Step::Failed(ChessError::ChatGpt(chat_error("No response choices found")));
        }
        match self.take_reply(game, choices[0].content.as_str()) {
            Ok(true) => Step::Done,
            Ok(false) => self.begin(),
            Err(e) => Step::Failed(e),
        }
    }
}

} // verus!
