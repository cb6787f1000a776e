//! The decisions of the interactive prompt: when the lines typed so far form
//! a whole input, which prompt to show, and what a command asks for.
use vstd::prelude::*;

verus! {

/// `c` opens a bracket.
pub open spec fn opens(c: char) -> bool {
    c == '{' || c == '(' || c == '['
}

/// `c` closes a bracket.
pub open spec fn closes(c: char) -> bool {
    c == '}' || c == ')' || c == ']'
}

/// Whether the input is complete, reading from `i` with `depth` brackets open:
/// a closing bracket with none open ends the input at once (the parser will
/// report it); otherwise the input is complete when every bracket is closed.
pub open spec fn complete_from(s: Seq<char>, i: int, depth: int) -> bool
    decreases s.len() - i,
{
    if i < 0 || i >= s.len() {
        depth == 0
    } else if opens(s[i]) {
        complete_from(s, i + 1, depth + 1)
    } else if closes(s[i]) {
        if depth <= 0 {
            true
        } else {
            complete_from(s, i + 1, depth - 1)
        }
    } else {
        complete_from(s, i + 1, depth)
    }
}

/// Whether the text typed so far is a whole input.
pub open spec fn input_complete(s: Seq<char>) -> bool {
    complete_from(s, 0, 0)
}

/// Whether the text typed so far is a whole input, or more lines must follow
/// to close its brackets.
pub fn is_input_complete(input: &str) -> (r: bool)
    ensures
        r == input_complete(input@),
{
    let mut chars: Vec<char> = Vec::new();
    for c in it: input.chars()
        invariant
            chars@ == it.seq().take(it.index() as int),
    {
        chars.push(c);
    }
    assert(chars@ =~= input@);
    let mut depth: usize = 0;
    let mut i: usize = 0;
    while i < chars.len()
        invariant
            i <= chars.len(),
            depth <= i,
            chars@ == input@,
            input_complete(input@) == complete_from(chars@, i as int, depth as int),
        decreases chars.len() - i,
    {
        let c = chars[i];
        if c == '{' || c == '(' || c == '[' {
            depth += 1;
        } else if c == '}' || c == ')' || c == ']' {
            if depth == 0 {
                return true;
            }
            depth -= 1;
        }
        i += 1;
    }
    depth == 0
}

/// The number of open brackets after the first `k` characters.
pub open spec fn depth(s: Seq<char>, k: int) -> int
    decreases k,
{
    if k <= 0 || k > s.len() {
        0
    } else {
        depth(s, k - 1) + if opens(s[k - 1]) {
            1int
        } else if closes(s[k - 1]) {
            -1int
        } else {
            0int
        }
    }
}

/// No prefix of `s` closes more brackets than it opens.
pub open spec fn never_unbalanced(s: Seq<char>) -> bool {
    forall|k: int| 0 <= k <= s.len() ==> #[trigger] depth(s, k) >= 0
}

proof fn lemma_complete_from_depth(s: Seq<char>, i: int)
    requires
        0 <= i <= s.len(),
        never_unbalanced(s),
    ensures
        complete_from(s, i, depth(s, i)) == (depth(s, s.len() as int) == 0),
    decreases s.len() - i,
{
    if i < s.len() {
        assert(depth(s, i + 1) >= 0);
        lemma_complete_from_depth(s, i + 1);
    }
}

/// An input in which no closing bracket comes too early is complete exactly
/// when all its brackets are closed: the prompt asks for more lines while a
/// bracket is open.
pub proof fn lemma_complete_iff_balanced(s: Seq<char>)
    requires
        never_unbalanced(s),
    ensures
        input_complete(s) == (depth(s, s.len() as int) == 0),
{
    lemma_complete_from_depth(s, 0);
}

/// The prompt to show: a fresh one when nothing is pending, a continuation
/// one while an input is still open.
pub fn prompt(buffer: &str) -> (r: &'static str)
    ensures
        buffer@.len() == 0 ==> r@ == ">>> "@,
        buffer@.len() != 0 ==> r@ == "...  "@,
{
    if buffer.is_empty() {
        ">>> "
    } else {
        "...  "
    }
}

/// What a line typed at the prompt asks for.
#[derive(Clone, Copy, Debug, PartialEq, Eq, Structural)]
pub enum Command {
    Help,
    Copyright,
    License,
    Credits,
    /// Leave the prompt (`exit` or `quit`).
    Exit,
    /// Source code to parse and evaluate.
    Source,
}

/// The command a line names.
pub open spec fn command_named(s: Seq<char>) -> Command {
    if s == "help"@ {
        Command::Help
    } else if s == "copyright"@ {
        Command::Copyright
    } else if s == "license"@ {
        Command::License
    } else if s == "credits"@ {
        Command::Credits
    } else if s == "exit"@ || s == "quit"@ {
        Command::Exit
    } else {
        Command::Source
    }
}

/// The command that `command` names; anything else is source code.
pub fn command_of(command: &str) -> (r: Command)
    ensures
        r == command_named(command@),
{
    let c = command.to_owned();
    if c == "help".to_owned() {
        Command::Help
    } else if c == "copyright".to_owned() {
        Command::Copyright
    } else if c == "license".to_owned() {
        Command::License
    } else if c == "credits".to_owned() {
        Command::Credits
    } else if c == "exit".to_owned() || c == "quit".to_owned() {
        Command::Exit
    } else {
        Command::Source
    }
}

} // verus!
