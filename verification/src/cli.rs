//! The decisions of an interactive session: which command a typed word
//! names, what a command does to the game, whether the session goes on, and
//! the text that shows the state of the game. Reading and printing are left
//! to the caller.

use crate::card::{listing, CardVec};
use crate::error::GameError;
use crate::game::{requested_codes, Game};
use crate::player::{position_by_code, without_codes};
use crate::text::{chars_of, decimal, normalized, push_decimal};
use vstd::prelude::*;

verus! {

/// What a player can ask for.
#[derive(Debug, Clone, Copy, PartialEq, Eq, Structural)]
pub enum Command {
    /// Draw a card from the stockpile.
    Draw,
    /// Show the melds of all players.
    Melds,
    /// Meld cards from the hand.
    Meld,
    /// Lay off a card on a meld.
    Layoff,
    /// Discard a card, which ends the turn.
    Discard,
    /// Show the commands.
    Help,
    /// Leave the game.
    Quit,
    /// Anything else.
    Unknown,
}

/// What the caller is to do after a command.
#[derive(Debug, Clone, PartialEq)]
pub enum Outcome {
    /// The command was carried out; there is nothing to report.
    Done,
    /// The melds of all players are to be shown.
    ShowMelds,
    /// The list of commands is to be shown.
    ShowHelp,
    /// The command is none that the game knows.
    NotImplemented,
    /// The command was refused and the game is as it was.
    Failed(GameError),
    /// The player wants to leave.
    Quit,
}

/// How a session stands after a command.
#[derive(Debug, Clone, Copy, PartialEq, Eq, Structural)]
pub enum Session {
    /// The next command is awaited.
    Continues,
    /// The round is over, and the session with it.
    RoundOver,
    /// The player has left.
    Ended,
}

/// The lower-case form that `str::to_lowercase` of std gives a text.
pub uninterp spec fn lowercase(text: Seq<char>) -> Seq<char>;

/// `str::to_lowercase` of std: the text in lower case, as Unicode defines it.
#[verifier::external_body]
fn to_lowercase(text: &str) -> (lower: String)
    ensures
        lower@ == lowercase(text@),
{
    text.to_lowercase()
}

/// The command that a word in lower case names, by its full name or its
/// short form.
pub open spec fn command_named(word: Seq<char>) -> Command {
    if word == "draw"@ || word == "d"@ {
        Command::Draw
    } else if word == "melds"@ || word == "ms"@ {
        Command::Melds
    } else if word == "meld"@ || word == "m"@ {
        Command::Meld
    } else if word == "layoff"@ || word == "l"@ {
        Command::Layoff
    } else if word == "discard"@ || word == "disc"@ {
        Command::Discard
    } else if word == "help"@ || word == "h"@ {
        Command::Help
    } else if word == "quit"@ || word == "q"@ {
        Command::Quit
    } else {
        Command::Unknown
    }
}

/// Whether two strings hold the same text.
fn same_text(a: &str, b: &str) -> (same: bool)
    ensures
        same == (a@ == b@),
{
    let x = chars_of(a);
    let y = chars_of(b);
    if x.len() != y.len() {
        return false;
    }
    let mut i: usize = 0;
    while i < x.len()
        invariant
            i <= x.len(),
            x.len() == y.len(),
            x@ == a@,
            y@ == b@,
            forall|k: int| 0 <= k < i ==> x@[k] == y@[k],
        decreases x.len() - i,
    {
        if x[i] != y[i] {
            return false;
        }
        i += 1;
    }
    assert(x@ =~= y@);
    true
}

impl Command {
    /// The command that a word in lower case names.
    pub fn named(word: &str) -> (command: Command)
        ensures
            command == command_named(word@),
    {
        if same_text(word, "draw") || same_text(word, "d") {
            Command::Draw
        } else if same_text(word, "melds") || same_text(word, "ms") {
            Command::Melds
        } else if same_text(word, "meld") || same_text(word, "m") {
            Command::Meld
        } else if same_text(word, "layoff") || same_text(word, "l") {
            Command::Layoff
        } else if same_text(word, "discard") || same_text(word, "disc") {
            Command::Discard
        } else if same_text(word, "help") || same_text(word, "h") {
            Command::Help
        } else if same_text(word, "quit") || same_text(word, "q") {
            Command::Quit
        } else {
            Command::Unknown
        }
    }

    /// Whether the command needs the codes of the cards it is about.
    pub fn needs_cards(&self) -> (needed: bool)
        ensures
            needed == (*self == Command::Meld || *self == Command::Discard),
    {
        match self {
            Command::Meld | Command::Discard => true,
            _ => false,
        }
    }
}

/// The command that a typed word names, whatever its case.
pub fn parse_command(input: &str) -> (command: Command)
    ensures
        command == command_named(lowercase(input@)),
{
    let lower = to_lowercase(input);
    Command::named(lower.as_str())
}

/// Carries out a command for the player whose turn it is. `card_input` is
/// what the player typed when asked for cards, and is read by `Meld` and
/// `Discard` only.
///
/// `Draw` takes the top card of the stockpile into the hand. `Meld` takes
/// the named cards out of the hand. `Discard` moves the named card to the
/// discard pile and passes the turn. Each of the three is refused, and
/// changes nothing, where the game refuses the move. `Layoff` changes
/// nothing. The other commands change nothing and tell the caller what to
/// show.
pub fn update_game_state(game: &mut Game, command: Command, card_input: &str) -> (outcome: Outcome)
    requires
        old(game).wf(),
    ensures
        final(game).wf(),
        match command {
            Command::Draw => if old(game).deck.cards@.len() > 0 {
                &&& outcome == Outcome::Done
                &&& final(game).deck.cards@ == old(game).deck.cards@.drop_last()
                &&& final(game).hand() == old(game).hand().push(old(game).deck.cards@.last())
                &&& final(game).same_players_but_hand(*old(game))
                &&& final(game).discard == old(game).discard
            } else {
                &&& outcome == Outcome::Failed(GameError::StockpileExhausted)
                &&& *final(game) == *old(game)
            },
            Command::Meld => match without_codes(old(game).hand(), requested_codes(card_input@)) {
                Ok(hand) => {
                    &&& outcome == Outcome::Done
                    &&& final(game).hand() == hand
                    &&& final(game).same_players_but_hand(*old(game))
                    &&& final(game).deck == old(game).deck
                    &&& final(game).discard == old(game).discard
                },
                Err(code) => {
                    &&& outcome matches Outcome::Failed(GameError::CardNotFound(text)) && text@
                        == code
                    &&& *final(game) == *old(game)
                },
            },
            Command::Discard => match position_by_code(old(game).hand(), normalized(card_input@)) {
                Some(i) => {
                    &&& outcome == Outcome::Done
                    &&& final(game).cur_plr == (old(game).cur_plr + 1) % (
                    old(game).plrs@.len() as int)
                    &&& final(game).plrs@.len() == old(game).plrs@.len()
                    &&& final(game).plrs@[old(game).cur_plr as int].cards@ == old(
                        game,
                    ).hand().remove(i)
                    &&& final(game).discard.cards@ == old(game).discard.cards@.push(
                        old(game).hand()[i],
                    )
                    &&& (Game { cur_plr: old(game).cur_plr, ..*final(game) }).same_players_but_hand(
                        *old(game),
                    )
                    &&& final(game).deck == old(game).deck
                },
                None => {
                    &&& outcome matches Outcome::Failed(GameError::CardNotFound(text)) && text@
                        == normalized(card_input@)
                    &&& *final(game) == *old(game)
                },
            },
            Command::Melds => outcome == Outcome::ShowMelds && *final(game) == *old(game),
            Command::Help => outcome == Outcome::ShowHelp && *final(game) == *old(game),
            Command::Quit => outcome == Outcome::Quit && *final(game) == *old(game),
            Command::Layoff => outcome == Outcome::Done && *final(game) == *old(game),
            Command::Unknown => outcome == Outcome::NotImplemented && *final(game) == *old(game),
        },
{
    match command {
        Command::Draw => {
            if game.deck.cards.is_empty() {
                return Outcome::Failed(GameError::StockpileExhausted);
            }
            let cur = game.cur_plr;
            match game.plrs[cur].draw(&mut game.deck) {
                Ok(()) => Outcome::Done,
                Err(error) => Outcome::Failed(error),
            }
        },
        Command::Meld => match game.play_cards(card_input) {
            Ok(()) => Outcome::Done,
            Err(error) => Outcome::Failed(error),
        },
        Command::Discard => match game.discard_card(card_input) {
            Ok(()) => {
                game.next_player();
                Outcome::Done
            },
            Err(error) => Outcome::Failed(error),
        },
        Command::Melds => Outcome::ShowMelds,
        Command::Help => Outcome::ShowHelp,
        Command::Quit => Outcome::Quit,
        Command::Layoff => Outcome::Done,
        Command::Unknown => Outcome::NotImplemented,
    }
}

/// The line that shows one player: the cards of the hand for the player
/// whose turn it is, the number of cards for any other.
pub open spec fn player_line(game: Game, seat: int) -> Seq<char> {
    "Player "@ + decimal((seat + 1) as nat) + ": "@ + (if seat == game.cur_plr {
        listing(game.plrs@[seat].cards@)
    } else {
        decimal(game.plrs@[seat].cards@.len())
    }) + "\n"@
}

/// The lines that show the first `count` players.
pub open spec fn player_lines(game: Game, count: nat) -> Seq<char>
    decreases count,
{
    if count == 0 {
        Seq::<char>::empty()
    } else {
        player_lines(game, (count - 1) as nat) + player_line(game, count - 1)
    }
}

/// The text that shows the state of the game to the player whose turn it is.
pub open spec fn game_state_text(game: Game) -> Seq<char> {
    "\n******************************\n"@ + "Player "@ + decimal((game.cur_plr + 1) as nat)
        + "'s Turn:\n\n"@ + player_lines(game, game.plrs@.len()) + "\nDeck: "@ + decimal(
        game.deck.cards@.len(),
    ) + " Cards\n"@ + "Discard: "@ + listing(game.discard.cards@) + "\n"@
        + "\n******************************\n"@
}

/// The line that shows one player's melds.
pub open spec fn melds_line(game: Game, seat: int) -> Seq<char> {
    "Player "@ + decimal((seat + 1) as nat) + " Melds: "@ + listing(game.plrs@[seat].melds@)
        + "\n"@
}

/// The lines that show the melds of the first `count` players.
pub open spec fn melds_lines(game: Game, count: nat) -> Seq<char>
    decreases count,
{
    if count == 0 {
        Seq::<char>::empty()
    } else {
        melds_lines(game, (count - 1) as nat) + melds_line(game, count - 1)
    }
}

/// The text that shows the state of the game: whose turn it is, the hand of
/// that player and the size of every other hand, the size of the stockpile,
/// and the discard pile.
pub fn render_game_state(game: &Game) -> (text: String)
    requires
        game.wf(),
    ensures
        text@ == game_state_text(*game),
{
    let num_players = game.plrs.len();
    let mut text = String::new();
    text.append("\n******************************\n");
    text.append("Player ");
    push_decimal(&mut text, game.cur_plr + 1);
    text.append("'s Turn:\n\n");
    let ghost head = text@;
    assert(head == "\n******************************\n"@ + "Player "@ + decimal(
        (game.cur_plr + 1) as nat,
    ) + "'s Turn:\n\n"@);
    let mut seat: usize = 0;
    assert(text@ == head + player_lines(*game, 0));
    while seat < num_players
        invariant
            seat <= num_players == game.plrs@.len(),
            text@ == head + player_lines(*game, seat as nat),
        decreases num_players - seat,
    {
        let mut line = String::new();
        line.append("Player ");
        push_decimal(&mut line, seat + 1);
        line.append(": ");
        if seat == game.cur_plr {
            let hand = CardVec(&game.plrs[seat].cards).to_string();
            line.append(hand.as_str());
        } else {
            push_decimal(&mut line, game.plrs[seat].cards.len());
        }
        line.append("\n");
        assert(line@ == player_line(*game, seat as int));
        text.append(line.as_str());
        seat += 1;
    }
    text.append("\nDeck: ");
    push_decimal(&mut text, game.deck.cards.len());
    text.append(" Cards\n");
    text.append("Discard: ");
    let pile = CardVec(&game.discard.cards).to_string();
    text.append(pile.as_str());
    text.append("\n");
    text.append("\n******************************\n");
    text
}

/// The text that shows the melds of every player, a line for each.
pub fn render_melds(game: &Game) -> (text: String)
    ensures
        text@ == melds_lines(*game, game.plrs@.len()),
{
    let mut text = String::new();
    let mut seat: usize = 0;
    while seat < game.plrs.len()
        invariant
            seat <= game.plrs@.len(),
            text@ == melds_lines(*game, seat as nat),
        decreases game.plrs.len() - seat,
    {
        let mut line = String::new();
        line.append("Player ");
        push_decimal(&mut line, seat + 1);
        line.append(" Melds: ");
        let melds = CardVec(&game.plrs[seat].melds).to_string();
        line.append(melds.as_str());
        line.append("\n");
        assert(line@ == melds_line(*game, seat as int));
        text.append(line.as_str());
        seat += 1;
    }
    text
}

/// How the session stands after a command: it ends when the player leaves,
/// and when the round is over.
pub fn session_after(game: &Game, outcome: &Outcome) -> (session: Session)
    ensures
        session == if *outcome == Outcome::Quit {
            Session::Ended
        } else if game.round_over() {
            Session::RoundOver
        } else {
            Session::Continues
        },
{
    match outcome {
        Outcome::Quit => Session::Ended,
        _ => if game.is_round_over() {
            Session::RoundOver
        } else {
            Session::Continues
        },
    }
}

} // verus!
