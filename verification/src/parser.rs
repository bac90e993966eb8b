use vstd::prelude::*;
use vstd::utf8::is_ascii_chars;
use crate::words::{split_words, views_of, words, lemma_words_nonempty};
use crate::laws::law_parsed_arguments_are_the_words;

verus! {

broadcast use vstd::string::group_string_axioms;

/// The command-line parser of the interactive prompt.
pub struct Parser;

/// A command read from the prompt.
pub enum Command {
    Get {
        /// An ID associated to the secret
        name: String,
    },
    SetSecret {
        /// An ID associated to the secret
        name: String,
        /// Username associated to the secret
        username: String,
        /// Password associated to the secret
        password: String,
    },
    Del {
        /// An ID associated to the secret
        name: String,
    },
    All,
    Exit,
    Help,
}

/// A command, with its strings as sequences of characters.
pub enum CommandView {
    Get { name: Seq<char> },
    SetSecret { name: Seq<char>, username: Seq<char>, password: Seq<char> },
    Del { name: Seq<char> },
    All,
    Exit,
    Help,
}

impl View for Command {
    type V = CommandView;

    open spec fn view(&self) -> CommandView {
        match self {
            Command::Get { name } => CommandView::Get { name: name@ },
            Command::SetSecret { name, username, password } => CommandView::SetSecret {
                name: name@,
                username: username@,
                password: password@,
            },
            Command::Del { name } => CommandView::Del { name: name@ },
            Command::All => CommandView::All,
            Command::Exit => CommandView::Exit,
            Command::Help => CommandView::Help,
        }
    }
}

#[derive(Debug)]
pub enum ParserError {
    UnknownCommand,
    MissingArgument,
    InvalidArgument,
}

impl ParserError {
    /// The text shown for the error.
    pub fn message(&self) -> (m: &'static str)
        ensures
            m@ == match self {
                ParserError::UnknownCommand => "unknown command"@,
                ParserError::MissingArgument => "missing argument"@,
                ParserError::InvalidArgument => "invalid argument"@,
            },
    {
        match self {
            ParserError::UnknownCommand => "unknown command",
            ParserError::MissingArgument => "missing argument",
            ParserError::InvalidArgument => "invalid argument",
        }
    }
}

/// What parsing gives for a lowercased command word `cmd` followed by the words `args`.
pub open spec fn parse_spec(cmd: Seq<char>, args: Seq<Seq<char>>) -> Result<CommandView, ParserError> {
    if cmd == "get"@ {
        if args.len() != 1 {
            Err(ParserError::MissingArgument)
        } else if args[0].len() == 0 {
            Err(ParserError::InvalidArgument)
        } else {
            Ok(CommandView::Get { name: args[0] })
        }
    } else if cmd == "del"@ {
        if args.len() != 1 {
            Err(ParserError::MissingArgument)
        } else if args[0].len() == 0 {
            Err(ParserError::InvalidArgument)
        } else {
            Ok(CommandView::Del { name: args[0] })
        }
    } else if cmd == "set"@ {
        if args.len() != 3 {
            Err(ParserError::MissingArgument)
        } else if args[0].len() == 0 || args[1].len() == 0 || args[2].len() == 0 {
            Err(ParserError::InvalidArgument)
        } else {
            Ok(CommandView::SetSecret { name: args[0], username: args[1], password: args[2] })
        }
    } else if cmd == "all"@ {
        Ok(CommandView::All)
    } else if cmd == "exit"@ {
        Ok(CommandView::Exit)
    } else if cmd == "help"@ {
        Ok(CommandView::Help)
    } else {
        Err(ParserError::UnknownCommand)
    }
}

/// The outcome of a parse, with the command taken by its view.
pub open spec fn outcome(r: Result<Command, ParserError>) -> Result<CommandView, ParserError> {
    match r {
        Ok(c) => Ok(c@),
        Err(e) => Err(e),
    }
}

/// What `str::to_lowercase` gives for a string.
pub uninterp spec fn lowercase(s: Seq<char>) -> Seq<char>;

/// An ASCII letter `A`-`Z` made lowercase; any other character unchanged.
pub open spec fn ascii_lower(c: char) -> char {
    if 'A' <= c && c <= 'Z' {
        ((c as u32) + 32) as char
    } else {
        c
    }
}

/// Calls `str::to_lowercase`. Claimed: the result is a function of the characters of the
/// argument alone, named `lowercase`, and on ASCII text it maps `A`-`Z` to `a`-`z` one
/// character at a time and keeps every other character (Unicode's lowercase mapping of the
/// ASCII range). Nothing is stated of other characters.
#[verifier::external_body]
fn to_lowercase(s: &str) -> (r: String)
    ensures
        r@ == lowercase(s@),
        is_ascii_chars(s@) ==> r@ == s@.map_values(|c: char| ascii_lower(c)),
{
    s.to_lowercase()
}

/// Calls `==` on two `str`s. Claimed: true exactly when they hold the same characters.
#[verifier::external_body]
pub(crate) fn str_eq(a: &str, b: &str) -> (r: bool)
    ensures
        r == (a@ == b@),
{
    a == b
}

const GET_CMD: &'static str = "get";
const DEL_CMD: &'static str = "del";
const SET_CMD: &'static str = "set";
const ALL_CMD: &'static str = "all";
const EXT_CMD: &'static str = "exit";
const HELP_CMD: &'static str = "help";

impl Parser {
    /// Reads a command from a line of input: its first word, lowercased, names the
    /// command and the words after it are the arguments.
    pub fn parse(input: &str) -> (r: Result<Command, ParserError>)
        requires
            words(input@).len() > 0,
        ensures
            outcome(r) == parse_spec(lowercase(words(input@)[0]), words(input@).skip(1)),
            is_ascii_chars(words(input@)[0]) ==> outcome(r) == parse_spec(
                words(input@)[0].map_values(|c: char| ascii_lower(c)),
                words(input@).skip(1),
            ),
            !(r matches Err(ParserError::InvalidArgument)),
            r matches Ok(Command::Get { name }) ==> words(input@).skip(1) == seq![name@],
            r matches Ok(Command::Del { name }) ==> words(input@).skip(1) == seq![name@],
            r matches Ok(Command::SetSecret { name, username, password }) ==> words(input@).skip(1)
                == seq![name@, username@, password@],
    {
        let pts = split_words(input);
        proof {
            lemma_words_nonempty(input@);
        }
        let cmd = to_lowercase(pts[0]);
        let mut args: Vec<&str> = Vec::new();
        let mut i: usize = 1;
        while i < pts.len()
            invariant
                1 <= i <= pts.len(),
                views_of(pts@) == words(input@),
                views_of(args@) =~= views_of(pts@).subrange(1, i as int),
            decreases pts.len() - i,
        {
            let ghost before = args@;
            args.push(pts[i]);
            assert(views_of(args@) =~= views_of(before).push(pts@[i as int]@));
            i = i + 1;
        }
        assert(views_of(args@) =~= words(input@).skip(1));
        Parser::parse_command(cmd.as_str(), args.as_slice())
    }

    /// Builds the command named by `cmd` (already lowercased) from its arguments `args`.
    pub fn parse_command(cmd: &str, args: &[&str]) -> (r: Result<Command, ParserError>)
        ensures
            outcome(r) == parse_spec(cmd@, views_of(args@)),
            r matches Ok(Command::Get { name }) ==> views_of(args@) == seq![name@],
            r matches Ok(Command::Del { name }) ==> views_of(args@) == seq![name@],
            r matches Ok(Command::SetSecret { name, username, password }) ==> views_of(args@)
                == seq![name@, username@, password@],
    {
        proof {
            law_parsed_arguments_are_the_words(cmd@, views_of(args@));
        }
        if str_eq(cmd, GET_CMD) {
            if args.len() != 1 {
                return Err(ParserError::MissingArgument);
            }
            let name = args[0];
            if name.is_empty() {
                return Err(ParserError::InvalidArgument);
            }
            return Ok(Command::Get { name: name.to_string() });
        } else if str_eq(cmd, DEL_CMD) {
            if args.len() != 1 {
                return Err(ParserError::MissingArgument);
            }
            let name = args[0];
            if name.is_empty() {
                return Err(ParserError::InvalidArgument);
            }
            return Ok(Command::Del { name: name.to_string() });
        } else if str_eq(cmd, SET_CMD) {
            if args.len() != 3 {
                return Err(ParserError::MissingArgument);
            }
            let name = args[0];
            let user = args[1];
            let pass = args[2];
            if name.is_empty() || user.is_empty() || pass.is_empty() {
                return Err(ParserError::InvalidArgument);
            }
            return Ok(
                Command::SetSecret {
                    name: name.to_string(),
                    username: user.to_string(),
                    password: pass.to_string(),
                },
            );
        } else if str_eq(cmd, ALL_CMD) {
            return Ok(Command::All);
        } else if str_eq(cmd, EXT_CMD) {
            return Ok(Command::Exit);
        } else if str_eq(cmd, HELP_CMD) {
            return Ok(Command::Help);
        } else {
            return Err(ParserError::UnknownCommand);
        }
    }
}

} // verus!
