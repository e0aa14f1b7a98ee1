//! The commands of the interactive client: what a line of input asks for.
//!
//! A line is cut into words at white space. The first word names the command,
//! the others are its arguments. A command whose arguments are missing is
//! answered with its usage; a file id that is no number is reported.
//! Reading the line, running the command and printing are the caller's part.

use vstd::prelude::*;
use vstd::string::StringExecFns;
use vstd::utf8::encode_utf8;
use crate::text::{is_white_space, parse_i32, parsed_i32, same_text};

verus! {

/// The commands that the client knows.
#[derive(Debug, Clone, Copy, PartialEq, Eq, Structural)]
pub enum Command {
    Delete,
    Download,
    Exit,
    Help,
    ListFile,
    Login,
    Register,
    Upload,
}

impl Command {
    /// The word that calls the command.
    pub open spec fn name_text(self) -> Seq<char> {
        match self {
            Command::Delete => "delete"@,
            Command::Download => "download"@,
            Command::Exit => "exit"@,
            Command::Help => "help"@,
            Command::ListFile => "list_file"@,
            Command::Login => "login"@,
            Command::Register => "register"@,
            Command::Upload => "upload"@,
        }
    }

    /// The word that calls the command.
    pub fn name(&self) -> (word: &'static str)
        ensures
            word@ == self.name_text(),
    {
        match self {
            Command::Delete => "delete",
            Command::Download => "download",
            Command::Exit => "exit",
            Command::Help => "help",
            Command::ListFile => "list_file",
            Command::Login => "login",
            Command::Register => "register",
            Command::Upload => "upload",
        }
    }
}

/// The command that a word calls.
pub open spec fn command_of(word: Seq<char>) -> Option<Command> {
    if word == Command::Delete.name_text() {
        Some(Command::Delete)
    } else if word == Command::Download.name_text() {
        Some(Command::Download)
    } else if word == Command::Exit.name_text() {
        Some(Command::Exit)
    } else if word == Command::Help.name_text() {
        Some(Command::Help)
    } else if word == Command::ListFile.name_text() {
        Some(Command::ListFile)
    } else if word == Command::Login.name_text() {
        Some(Command::Login)
    } else if word == Command::Register.name_text() {
        Some(Command::Register)
    } else if word == Command::Upload.name_text() {
        Some(Command::Upload)
    } else {
        None
    }
}

/// What one line of input asks for.
#[derive(Debug)]
pub enum Request {
    /// An empty line: nothing.
    Nothing,
    /// A first word that calls no command.
    Unknown(String),
    /// Help is asked for: on the topic given, or on everything.
    Help(Option<String>),
    /// A command without the arguments it needs: its help is due.
    Usage(Command),
    /// A file id that is no number.
    IllegalFileId(String),
    Exit,
    Login { user_name: String, password: String },
    Register { user_name: String, password: String },
    Delete { file_id: i32 },
    Download { file_id: i32, target_path: String },
    Upload { file_name: String, path: String },
    ListFile { filter: String },
}

/// What a [`Request`] holds.
pub enum Plan {
    Nothing,
    Unknown(Seq<char>),
    Help(Option<Seq<char>>),
    Usage(Command),
    IllegalFileId(Seq<char>),
    Exit,
    Login { user_name: Seq<char>, password: Seq<char> },
    Register { user_name: Seq<char>, password: Seq<char> },
    Delete { file_id: i32 },
    Download { file_id: i32, target_path: Seq<char> },
    Upload { file_name: Seq<char>, path: Seq<char> },
    ListFile { filter: Seq<char> },
}

/// The texts of a list of strings.
pub open spec fn texts(words: Seq<String>) -> Seq<Seq<char>> {
    Seq::new(words.len(), |i: int| words[i]@)
}

impl View for Request {
    type V = Plan;

    open spec fn view(&self) -> Plan {
        match *self {
            Request::Nothing => Plan::Nothing,
            Request::Unknown(word) => Plan::Unknown(word@),
            Request::Help(topic) => Plan::Help(
                match topic {
                    Some(word) => Some(word@),
                    None => None,
                },
            ),
            Request::Usage(command) => Plan::Usage(command),
            Request::IllegalFileId(word) => Plan::IllegalFileId(word@),
            Request::Exit => Plan::Exit,
            Request::Login { user_name, password } => Plan::Login {
                user_name: user_name@,
                password: password@,
            },
            Request::Register { user_name, password } => Plan::Register {
                user_name: user_name@,
                password: password@,
            },
            Request::Delete { file_id } => Plan::Delete { file_id },
            Request::Download { file_id, target_path } => Plan::Download {
                file_id,
                target_path: target_path@,
            },
            Request::Upload { file_name, path } => Plan::Upload {
                file_name: file_name@,
                path: path@,
            },
            Request::ListFile { filter } => Plan::ListFile { filter: filter@ },
        }
    }
}

/// The plan for a command with its arguments.
pub open spec fn plan_of(word: Seq<char>, args: Option<Seq<Seq<char>>>) -> Plan {
    let given: nat = match args {
        Some(words) => words.len(),
        None => 0,
    };
    match command_of(word) {
        None => if word.len() == 0 {
            Plan::Nothing
        } else {
            Plan::Unknown(word)
        },
        Some(Command::Help) => Plan::Help(
            if given < 1 {
                None
            } else {
                Some(args->0[0])
            },
        ),
        Some(Command::Exit) => Plan::Exit,
        Some(Command::Login) => if given < 2 {
            Plan::Usage(Command::Login)
        } else {
            Plan::Login { user_name: args->0[0], password: args->0[1] }
        },
        Some(Command::Register) => if given < 2 {
            Plan::Usage(Command::Register)
        } else {
            Plan::Register { user_name: args->0[0], password: args->0[1] }
        },
        Some(Command::Delete) => if given < 1 {
            Plan::Usage(Command::Delete)
        } else {
            match parsed_i32(encode_utf8(args->0[0])) {
                Some(file_id) => Plan::Delete { file_id },
                None => Plan::IllegalFileId(args->0[0]),
            }
        },
        Some(Command::Download) => if given < 2 {
            Plan::Usage(Command::Download)
        } else {
            match parsed_i32(encode_utf8(args->0[0])) {
                Some(file_id) => Plan::Download { file_id, target_path: args->0[1] },
                None => Plan::IllegalFileId(args->0[0]),
            }
        },
        Some(Command::Upload) => if given < 2 {
            Plan::Usage(Command::Upload)
        } else {
            Plan::Upload { file_name: args->0[0], path: args->0[1] }
        },
        Some(Command::ListFile) => Plan::ListFile {
            filter: if given < 1 {
                Seq::empty()
            } else {
                args->0[0]
            },
        },
    }
}

/// The words of a text: its longest runs of characters that are no white
/// space, in their order.
pub open spec fn words_of(text: Seq<char>) -> Seq<Seq<char>>
    decreases text.len(),
{
    if text.len() == 0 {
        Seq::empty()
    } else {
        let behind = words_of(text.skip(1));
        if is_white_space(text[0]) {
            behind
        } else if text.len() > 1 && !is_white_space(text[1]) {
            behind.update(0, seq![text[0]] + behind[0])
        } else {
            seq![seq![text[0]]] + behind
        }
    }
}

/// Calls `str::split_whitespace` and collects the words.
///
/// Trusted: the words are the longest runs of characters without the Unicode
/// property `White_Space`, in the order they stand in.
#[verifier::external_body]
fn split_words(line: &str) -> (words: Vec<String>)
    ensures
        texts(words@) == words_of(line@),
{
    line.split_whitespace().map(String::from).collect()
}

/// The command that a word calls.
pub fn find_command(word: &str) -> (found: Option<Command>)
    ensures
        found == command_of(word@),
{
    if same_text(word, Command::Delete.name()) {
        Some(Command::Delete)
    } else if same_text(word, Command::Download.name()) {
        Some(Command::Download)
    } else if same_text(word, Command::Exit.name()) {
        Some(Command::Exit)
    } else if same_text(word, Command::Help.name()) {
        Some(Command::Help)
    } else if same_text(word, Command::ListFile.name()) {
        Some(Command::ListFile)
    } else if same_text(word, Command::Login.name()) {
        Some(Command::Login)
    } else if same_text(word, Command::Register.name()) {
        Some(Command::Register)
    } else if same_text(word, Command::Upload.name()) {
        Some(Command::Upload)
    } else {
        None
    }
}

/// The view of optional arguments.
pub open spec fn args_texts(args: Option<Vec<String>>) -> Option<Seq<Seq<char>>> {
    match args {
        Some(words) => Some(texts(words@)),
        None => None,
    }
}

/// The number of arguments.
fn count(args: &Option<Vec<String>>) -> (given: usize)
    ensures
        given == match *args {
            Some(words) => words@.len(),
            None => 0,
        },
{
    match args {
        Some(words) => words.len(),
        None => 0,
    }
}

/// The argument at `index`.
fn argument(args: &Option<Vec<String>>, index: usize) -> (word: String)
    requires
        args matches Some(words) && index < words@.len(),
    ensures
        word == args->0@[index as int],
{
    match args {
        Some(words) => words[index].clone(),
        None => String::new(),
    }
}

/// Decides what a command with its arguments asks for.
///
/// An empty word asks for nothing, an unknown one is reported. `help` takes
/// its topic from the first argument and is about everything without one. `login`,
/// `register`, `download` and `upload` take two arguments, `delete` one;
/// with fewer, the command's usage is the answer. The file id of
/// `delete` and `download` must be a number. `list_file` takes its filter
/// from the first argument and filters nothing without one.
pub fn dispatch(cmd: &str, args: Option<Vec<String>>) -> (request: Request)
    ensures
        request@ == plan_of(cmd@, args_texts(args)),
{
    let given = count(&args);
    match find_command(cmd) {
        None => {
            if cmd.is_empty() {
                Request::Nothing
            } else {
                Request::Unknown(String::from_str(cmd))
            }
        },
        Some(Command::Help) => {
            if given < 1 {
                Request::Help(None)
            } else {
                Request::Help(Some(argument(&args, 0)))
            }
        },
        Some(Command::Exit) => Request::Exit,
        Some(Command::Login) => {
            if given < 2 {
                Request::Usage(Command::Login)
            } else {
                Request::Login { user_name: argument(&args, 0), password: argument(&args, 1) }
            }
        },
        Some(Command::Register) => {
            if given < 2 {
                Request::Usage(Command::Register)
            } else {
                Request::Register { user_name: argument(&args, 0), password: argument(&args, 1) }
            }
        },
        Some(Command::Delete) => {
            if given < 1 {
                Request::Usage(Command::Delete)
            } else {
                let word = argument(&args, 0);
                match parse_i32(word.as_str().as_bytes()) {
                    Some(file_id) => Request::Delete { file_id },
                    None => Request::IllegalFileId(word),
                }
            }
        },
        Some(Command::Download) => {
            if given < 2 {
                Request::Usage(Command::Download)
            } else {
                let word = argument(&args, 0);
                match parse_i32(word.as_str().as_bytes()) {
                    Some(file_id) => Request::Download { file_id, target_path: argument(&args, 1) },
                    None => Request::IllegalFileId(word),
                }
            }
        },
        Some(Command::Upload) => {
            if given < 2 {
                Request::Usage(Command::Upload)
            } else {
                Request::Upload { file_name: argument(&args, 0), path: argument(&args, 1) }
            }
        },
        Some(Command::ListFile) => {
            if given < 1 {
                Request::ListFile { filter: String::new() }
            } else {
                Request::ListFile { filter: argument(&args, 0) }
            }
        },
    }
}

/// The command and the arguments of a line: its first word, the empty word
/// for a line without words, and the words behind it if there are any.
pub open spec fn line_parts(words: Seq<Seq<char>>) -> (Seq<char>, Option<Seq<Seq<char>>>) {
    if words.len() == 0 {
        (Seq::empty(), None)
    } else if words.len() == 1 {
        (words[0], None)
    } else {
        (words[0], Some(words.skip(1)))
    }
}

/// Cuts a line of input into the command and its arguments.
pub fn input(line: &str) -> (parts: (String, Option<Vec<String>>))
    ensures
        parts.0@ == line_parts(words_of(line@)).0,
        args_texts(parts.1) == line_parts(words_of(line@)).1,
        parts.1 matches Some(words) ==> words@.len() > 0,
{
    let mut words = split_words(line);
    if words.len() == 0 {
        return (String::new(), None);
    }
    let ghost all = words@;
    let cmd = words.remove(0);
    assert(texts(words@) =~= texts(all).skip(1));
    if words.len() == 0 {
        (cmd, None)
    } else {
        (cmd, Some(words))
    }
}

} // verus!
