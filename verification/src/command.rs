//! The one command of the client's shell: `message <identity> <text...>`.
//!
//! A line is the word `message`, white space, an identity made of ASCII
//! letters and digits, white space, and the text, which runs to the end of
//! the line and may be empty. White space is any run of spaces, tabs,
//! carriage returns and line feeds.

use crate::aead::copy_range;
use vstd::prelude::*;

verus! {

/// A parsed command: whom to message, and what.
#[derive(Debug)]
pub struct Command {
    pub to: Vec<u8>,
    pub msg: Vec<u8>,
}

/// The word that opens a command, "message" in ASCII.
pub open spec fn keyword() -> Seq<u8> {
    seq![0x6du8, 0x65u8, 0x73u8, 0x73u8, 0x61u8, 0x67u8, 0x65u8]
}

/// A space, a tab, a carriage return or a line feed.
pub open spec fn is_space(byte: u8) -> bool {
    byte == 0x20 || byte == 0x09 || byte == 0x0d || byte == 0x0a
}

/// An ASCII letter or digit.
pub open spec fn is_alphanumeric(byte: u8) -> bool {
    (0x30 <= byte <= 0x39) || (0x41 <= byte <= 0x5a) || (0x61 <= byte <= 0x7a)
}

/// Whether `byte` belongs to a run of white space (`spaces`) or of letters
/// and digits.
pub open spec fn in_run(byte: u8, spaces: bool) -> bool {
    if spaces {
        is_space(byte)
    } else {
        is_alphanumeric(byte)
    }
}

/// Where the run that starts at `from` ends: the first index at or behind
/// `from` whose byte does not belong to the run, or the end of the input.
pub open spec fn run_end(input: Seq<u8>, from: int, spaces: bool) -> int
    decreases input.len() - from,
{
    if 0 <= from < input.len() && in_run(input[from], spaces) {
        run_end(input, from + 1, spaces)
    } else {
        from
    }
}

/// The identity and the text of a command line, where the line is one.
pub open spec fn parse_command_spec(input: Seq<u8>) -> Option<(Seq<u8>, Seq<u8>)> {
    if input.len() < 7 || input.subrange(0, 7) != keyword() {
        None
    } else {
        let name_start = run_end(input, 7, true);
        let name_end = run_end(input, name_start, false);
        let text_start = run_end(input, name_end, true);
        if name_start == 7 || name_end == name_start || text_start == name_end {
            None
        } else {
            Some(
                (
                    input.subrange(name_start, name_end),
                    input.subrange(text_start, input.len() as int),
                ),
            )
        }
    }
}

fn byte_in_run(byte: u8, spaces: bool) -> (belongs: bool)
    ensures
        belongs == in_run(byte, spaces),
{
    if spaces {
        byte == 0x20 || byte == 0x09 || byte == 0x0d || byte == 0x0a
    } else {
        (0x30 <= byte && byte <= 0x39) || (0x41 <= byte && byte <= 0x5a) || (0x61 <= byte && byte
            <= 0x7a)
    }
}

fn skip_run(input: &[u8], from: usize, spaces: bool) -> (end: usize)
    requires
        from <= input@.len(),
    ensures
        end == run_end(input@, from as int, spaces),
        from <= end <= input@.len(),
{
    let mut i: usize = from;
    while i < input.len() && byte_in_run(input[i], spaces)
        invariant
            from <= i <= input@.len(),
            run_end(input@, from as int, spaces) == run_end(input@, i as int, spaces),
        decreases input@.len() - i,
    {
        i = i + 1;
    }
    i
}

fn starts_with_keyword(input: &[u8]) -> (starts: bool)
    ensures
        starts == (input@.len() >= 7 && input@.subrange(0, 7) == keyword()),
{
    if input.len() < 7 {
        return false;
    }
    let starts = input[0] == 0x6d && input[1] == 0x65 && input[2] == 0x73 && input[3] == 0x73
        && input[4] == 0x61 && input[5] == 0x67 && input[6] == 0x65;
    proof {
        let head = input@.subrange(0, 7);
        if starts {
            assert(head =~= keyword());
        } else {
            assert(head[0] == input@[0] && head[1] == input@[1] && head[2] == input@[2] && head[3]
                == input@[3] && head[4] == input@[4] && head[5] == input@[5] && head[6]
                == input@[6]);
            assert(keyword()[0] == 0x6du8 && keyword()[1] == 0x65u8 && keyword()[2] == 0x73u8
                && keyword()[3] == 0x73u8 && keyword()[4] == 0x61u8 && keyword()[5] == 0x67u8
                && keyword()[6] == 0x65u8);
        }
    }
    starts
}

/// Reads a command line. `None` where the line is not of the form
/// `message <identity> <text...>`.
pub fn parse_command(input: &[u8]) -> (command: Option<Command>)
    ensures
        match parse_command_spec(input@) {
            Some((to, msg)) => command is Some && command->Some_0.to@ == to && command->Some_0.msg@
                == msg,
            None => command is None,
        },
{
    if !starts_with_keyword(input) {
        return None;
    }
    let name_start = skip_run(input, 7, true);
    let name_end = skip_run(input, name_start, false);
    let text_start = skip_run(input, name_end, true);
    if name_start == 7 || name_end == name_start || text_start == name_end {
        return None;
    }
    Some(
        Command {
            to: copy_range(input, name_start, name_end),
            msg: copy_range(input, text_start, input.len()),
        },
    )
}

/// The identity of a command is never empty and holds letters and digits
/// only.
pub proof fn lemma_command_identity(input: Seq<u8>)
    requires
        parse_command_spec(input) is Some,
    ensures
        parse_command_spec(input)->Some_0.0.len() > 0,
        forall|i: int|
            0 <= i < parse_command_spec(input)->Some_0.0.len() ==> is_alphanumeric(
                #[trigger] parse_command_spec(input)->Some_0.0[i],
            ),
{
    let name_start = run_end(input, 7, true);
    lemma_run_bounds(input, 7, true);
    lemma_run_bounds(input, name_start, false);
    let name_end = run_end(input, name_start, false);
    assert forall|i: int| 0 <= i < name_end - name_start implies is_alphanumeric(
        #[trigger] input.subrange(name_start, name_end)[i],
    ) by {
        lemma_run_members(input, name_start, false, name_start + i);
    }
}

/// A run ends at or behind its start, within the input.
pub proof fn lemma_run_bounds(input: Seq<u8>, from: int, spaces: bool)
    requires
        0 <= from <= input.len(),
    ensures
        from <= run_end(input, from, spaces) <= input.len(),
    decreases input.len() - from,
{
    if from < input.len() && in_run(input[from], spaces) {
        lemma_run_bounds(input, from + 1, spaces);
    }
}

/// Every byte between the start of a run and its end belongs to the run.
pub proof fn lemma_run_members(input: Seq<u8>, from: int, spaces: bool, at: int)
    requires
        0 <= from <= at < run_end(input, from, spaces),
    ensures
        at < input.len(),
        in_run(input[at], spaces),
    decreases input.len() - from,
{
    if from < input.len() && in_run(input[from], spaces) {
        if at > from {
            lemma_run_members(input, from + 1, spaces, at);
        }
    }
}

} // verus!
