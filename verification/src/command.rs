//! The command language of a text front end: what a line of input asks for.
//! Lines are taken as they are; trimming and lower-casing is the caller's
//! business.

use vstd::prelude::*;
use vstd::string::StrSliceExecFns;
use crate::notation::{algebraic_to_index, is_square_name, named_square};

verus! {

/// What a line of input asks for.
#[derive(Debug, Clone, Copy, PartialEq, Eq)]
pub enum Command {
    /// `quit` or `exit`.
    Quit,
    /// `help`.
    Help,
    /// `print`.
    Print,
    /// `legal` and a square: show the moves from that square. `None` if
    /// what follows `legal ` is not the name of a square.
    Legal(Option<usize>),
    /// Four characters: move from the first named square to the second.
    /// `None` unless both halves name a square.
    Move(Option<(usize, usize)>),
    /// Two characters: choose among the moves from the named square.
    /// `None` if they do not name a square.
    Select(Option<usize>),
    /// Anything else.
    Unrecognized,
}

/// What the answer to "which of the listed moves?" asks for.
#[derive(Debug, Clone, Copy, PartialEq, Eq, Structural)]
pub enum Choice {
    /// The number 0.
    Cancelled,
    /// The destination listed under the number given.
    Destination(usize),
    /// A number beyond the end of the list.
    OutOfRange,
}

/// The square that `name` stands for, if it is the name of a square.
pub open spec fn square_of(name: Seq<char>) -> Option<usize> {
    if is_square_name(name) {
        Some(named_square(name) as usize)
    } else {
        None
    }
}

/// The two squares of a move written as four characters.
pub open spec fn move_of(input: Seq<char>) -> Option<(usize, usize)> {
    match (square_of(input.subrange(0, 2)), square_of(input.subrange(2, 4))) {
        (Some(from), Some(to)) => Some((from, to)),
        _ => None,
    }
}

/// `input` begins with `prefix`.
pub open spec fn begins_with(input: Seq<char>, prefix: Seq<char>) -> bool {
    prefix.len() <= input.len() && input.subrange(0, prefix.len() as int) == prefix
}

/// The command that a line stands for. The first rule that applies decides:
/// the four words, then the `legal ` prefix, then the length of the line.
pub open spec fn command_of(input: Seq<char>) -> Command {
    if input == "quit"@ || input == "exit"@ {
        Command::Quit
    } else if input == "help"@ {
        Command::Help
    } else if input == "print"@ {
        Command::Print
    } else if begins_with(input, "legal "@) {
        Command::Legal(square_of(input.subrange("legal "@.len() as int, input.len() as int)))
    } else if input.len() == 4 {
        Command::Move(move_of(input))
    } else if input.len() == 2 {
        Command::Select(square_of(input))
    } else {
        Command::Unrecognized
    }
}

/// Whether `input` begins with `prefix`.
pub fn starts_with(input: &str, prefix: &str) -> (found: bool)
    ensures
        found == begins_with(input@, prefix@),
{
    let length: usize = prefix.unicode_len();
    if input.unicode_len() < length {
        return false;
    }
    let mut i: usize = 0;
    while i < length
        invariant
            i <= length,
            length == prefix@.len(),
            length <= input@.len(),
            forall|k: int| 0 <= k < i ==> input@[k] == prefix@[k],
        decreases length - i,
    {
        if input.get_char(i) != prefix.get_char(i) {
            return false;
        }
        i += 1;
    }
    proof {
        assert(input@.subrange(0, length as int) =~= prefix@);
    }
    true
}

/// Whether `input` is the word `word`.
pub fn is_word(input: &str, word: &str) -> (same: bool)
    ensures
        same == (input@ == word@),
{
    let same: bool = input.unicode_len() == word.unicode_len() && starts_with(input, word);
    proof {
        if input@.len() == word@.len() {
            assert(input@.subrange(0, input@.len() as int) =~= input@);
        }
    }
    same
}

/// The command that the line `input` stands for.
pub fn parse_command(input: &str) -> (command: Command)
    ensures
        command == command_of(input@),
{
    if is_word(input, "quit") || is_word(input, "exit") {
        return Command::Quit;
    }
    if is_word(input, "help") {
        return Command::Help;
    }
    if is_word(input, "print") {
        return Command::Print;
    }
    let length: usize = input.unicode_len();
    if starts_with(input, "legal ") {
        let square_str: &str = input.substring_char("legal ".unicode_len(), length);
        return Command::Legal(algebraic_to_index(square_str));
    }
    if length == 4 {
        let from_str: &str = input.substring_char(0, 2);
        let to_str: &str = input.substring_char(2, 4);
        return match (algebraic_to_index(from_str), algebraic_to_index(to_str)) {
            (Some(from), Some(to)) => Command::Move(Some((from, to))),
            _ => Command::Move(None),
        };
    }
    if length == 2 {
        return Command::Select(algebraic_to_index(input));
    }
    Command::Unrecognized
}

/// What the number `number` picks from the listed destinations: nothing
/// for 0, the entry `number - 1` for a number up to the length of the list.
pub fn choose_move(legal_moves: &Vec<usize>, number: usize) -> (choice: Choice)
    ensures
        choice == if number == 0 {
            Choice::Cancelled
        } else if number <= legal_moves.len() {
            Choice::Destination(legal_moves[number - 1])
        } else {
            Choice::OutOfRange
        },
{
    if number == 0 {
        return Choice::Cancelled;
    }
    if number <= legal_moves.len() {
        Choice::Destination(legal_moves[number - 1])
    } else {
        Choice::OutOfRange
    }
}

} // verus!
