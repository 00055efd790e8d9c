use vstd::prelude::*;
use vstd::string::StrSliceExecFns;

use crate::grammar::spec_import;
use crate::import_parser::import;
use crate::tree::{ErrorKind, ParseError, Path, SegmentModel};

verus! {

/// The words that `shlex::split` makes of a line, or `None` where the line's quoting
/// is malformed.
pub uninterp spec fn shell_words(line: Seq<char>) -> Option<Seq<Seq<char>>>;

/// The characters of each word.
pub open spec fn words_view(v: Seq<String>) -> Seq<Seq<char>> {
    v.map_values(|w: String| w@)
}

/// Relies on `shlex::split`: it splits a line into words by POSIX shell rules and
/// gives `None` where the quoting is malformed; the result depends on the text alone.
#[verifier::external_body]
fn split_words(line: &str) -> (r: Option<Vec<String>>)
    ensures
        r matches Some(v) ==> shell_words(line@) == Some(words_view(v@)),
        r is None ==> shell_words(line@) is None,
{
    shlex::split(line)
}

/// What a line asks the shell to do.
#[derive(Debug, PartialEq, Eq)]
pub enum Execution<'a> {
    /// Run `program` with `args`.
    Run { program: String, args: Vec<String> },
    /// Report the working directory.
    Pwd,
    /// Change the working directory.
    Cd,
    /// Bring the programs that a path names into reach.
    Use(Path<'a>),
}

/// Why a line could not be turned into an `Execution`.
#[derive(Debug, Clone, Copy, PartialEq, Eq, Structural)]
pub enum CommandError {
    /// The line starts with `:` but is no valid import.
    Import(ParseError),
    /// The line's shell quoting is malformed.
    Unsplittable,
    /// The line holds no word.
    Empty,
}

pub open spec fn pwd_word() -> Seq<char> {
    seq!['p', 'w', 'd']
}

pub open spec fn cd_word() -> Seq<char> {
    seq!['c', 'd']
}

/// `r` is what the words `ws` of a line ask for: nothing for no word, the built-ins
/// `pwd` and `cd` by name, and otherwise the first word run with the others as its
/// arguments.
pub open spec fn classified<'a>(ws: Seq<Seq<char>>, r: Result<Execution<'a>, CommandError>) -> bool {
    if ws.len() == 0 {
        r == Err::<Execution<'a>, CommandError>(CommandError::Empty)
    } else if ws[0] == pwd_word() {
        r matches Ok(Execution::Pwd)
    } else if ws[0] == cd_word() {
        r matches Ok(Execution::Cd)
    } else {
        r matches Ok(Execution::Run { program, args }) && program@ == ws[0] && words_view(args@)
            == ws.subrange(1, ws.len() as int)
    }
}

/// A line whose first character is `:` is an import.
pub open spec fn is_import_line(line: Seq<char>) -> bool {
    line.len() > 0 && line[0] == ':'
}

/// What a call of `parse_command` on `line` returning `r` means.
pub open spec fn command_result<'a>(line: Seq<char>, r: Result<Execution<'a>, CommandError>) -> bool {
    if is_import_line(line) {
        match r {
            Ok(Execution::Use(ph)) => spec_import(line) == Ok::<Seq<SegmentModel>, (ErrorKind, int)>(
                ph@,
            ),
            Err(CommandError::Import(e)) => spec_import(line) == Err::<
                Seq<SegmentModel>,
                (ErrorKind, int),
            >(e@),
            _ => false,
        }
    } else {
        match shell_words(line) {
            None => r == Err::<Execution<'a>, CommandError>(CommandError::Unsplittable),
            Some(ws) => classified(ws, r),
        }
    }
}

fn word_is(w: &String, lit: &str) -> (b: bool)
    ensures
        b == (w@ == lit@),
{
    let t = w.as_str();
    let n = t.unicode_len();
    if n != lit.unicode_len() {
        return false;
    }
    let mut i: usize = 0;
    while i < n
        invariant
            t@ == w@,
            n == t@.len(),
            n == lit@.len(),
            i <= n,
            forall|j: int| 0 <= j < i ==> t@[j] == lit@[j],
        decreases n - i,
    {
        if t.get_char(i) != lit.get_char(i) {
            return false;
        }
        i = i + 1;
    }
    assert(t@ =~= lit@);
    true
}

/// Turns the words of a line into what they ask for.
pub fn classify_words<'a>(words: Vec<String>) -> (r: Result<Execution<'a>, CommandError>)
    ensures
        classified(words_view(words@), r),
{
    let ghost ws = words_view(words@);
    if words.len() == 0 {
        return Err(CommandError::Empty);
    }
    proof {
        reveal_strlit("pwd");
        reveal_strlit("cd");
        assert("pwd"@ =~= pwd_word());
        assert("cd"@ =~= cd_word());
    }
    if word_is(&words[0], "pwd") {
        Ok(Execution::Pwd)
    } else if word_is(&words[0], "cd") {
        Ok(Execution::Cd)
    } else {
        let mut args = words;
        let program = args.remove(0);
        assert(words_view(args@) =~= ws.subrange(1, ws.len() as int));
        Ok(Execution::Run { program, args })
    }
}

/// Reads a command line: an import where it starts with `:`, and otherwise the
/// words that shell splitting makes of it.
pub fn parse_command<'a>(inp: &'a str) -> (r: Result<Execution<'a>, CommandError>)
    ensures
        command_result(inp@, r),
{
    if inp.unicode_len() > 0 && inp.get_char(0) == ':' {
        return match import(inp) {
            Ok(ph) => Ok(Execution::Use(ph)),
            Err(e) => Err(CommandError::Import(e)),
        };
    }
    match split_words(inp) {
        None => Err(CommandError::Unsplittable),
        Some(words) => classify_words(words),
    }
}

} // verus!
