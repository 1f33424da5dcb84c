//! Commands typed at the debugger prompt.

use vstd::prelude::*;

verus! {

/// A command of the debugger.
#[derive(Clone, Debug, PartialEq, Eq)]
pub enum DebuggerCommand {
    Quit,
    /// Start the program afresh with these arguments.
    Run(Vec<String>),
    Continue,
    BackTrace,
    /// Set a breakpoint at the location the argument names.
    BreakPoint(String),
}

/// Whether `s` spells `lit`.
fn same_text(s: &str, lit: &str) -> (r: bool)
    ensures
        r == (s@ == lit@),
{
    let n = s.unicode_len();
    if n != lit.unicode_len() {
        return false;
    }
    let mut i: usize = 0;
    while i < n
        invariant
            n == s@.len(),
            n == lit@.len(),
            i <= n,
            s@.take(i as int) == lit@.take(i as int),
        decreases n - i,
    {
        if s.get_char(i) != lit.get_char(i) {
            assert(s@[i as int] != lit@[i as int]);
            return false;
        }
        assert(s@.take(i + 1) =~= s@.take(i as int).push(s@[i as int]));
        assert(lit@.take(i + 1) =~= lit@.take(i as int).push(lit@[i as int]));
        i = i + 1;
    }
    assert(s@.take(n as int) =~= s@);
    assert(lit@.take(n as int) =~= lit@);
    true
}

/// `q` or `quit`.
pub open spec fn is_quit_word(w: Seq<char>) -> bool {
    w == seq!['q']
        || w == seq!['q', 'u', 'i', 't']
}

/// `r` or `run`.
pub open spec fn is_run_word(w: Seq<char>) -> bool {
    w == seq!['r']
        || w == seq!['r', 'u', 'n']
}

/// `c`, `cont` or `continue`.
pub open spec fn is_continue_word(w: Seq<char>) -> bool {
    w == seq!['c']
        || w == seq!['c', 'o', 'n', 't']
        || w == seq!['c', 'o', 'n', 't', 'i', 'n', 'u', 'e']
}

/// `bt`, `back` or `backtrace`.
pub open spec fn is_backtrace_word(w: Seq<char>) -> bool {
    w == seq!['b', 't']
        || w == seq!['b', 'a', 'c', 'k']
        || w == seq!['b', 'a', 'c', 'k', 't', 'r', 'a', 'c', 'e']
}

/// `b`, `break` or `breakpoint`.
pub open spec fn is_break_word(w: Seq<char>) -> bool {
    w == seq!['b']
        || w == seq!['b', 'r', 'e', 'a', 'k']
        || w == seq!['b', 'r', 'e', 'a', 'k', 'p', 'o', 'i', 'n', 't']
}

/// What the spellings used by `from_tokens` hold: no two of them are the
/// same, as their lengths or first letters tell.
proof fn lemma_spellings()
    ensures
        "q"@ == seq!['q'],
        seq!['q'].len() == 1 && seq!['q'][0] == 'q',
        "quit"@ == seq!['q', 'u', 'i', 't'],
        seq!['q', 'u', 'i', 't'].len() == 4 && seq!['q', 'u', 'i', 't'][0] == 'q',
        "r"@ == seq!['r'],
        seq!['r'].len() == 1 && seq!['r'][0] == 'r',
        "run"@ == seq!['r', 'u', 'n'],
        seq!['r', 'u', 'n'].len() == 3 && seq!['r', 'u', 'n'][0] == 'r',
        "c"@ == seq!['c'],
        seq!['c'].len() == 1 && seq!['c'][0] == 'c',
        "cont"@ == seq!['c', 'o', 'n', 't'],
        seq!['c', 'o', 'n', 't'].len() == 4 && seq!['c', 'o', 'n', 't'][0] == 'c',
        "continue"@ == seq!['c', 'o', 'n', 't', 'i', 'n', 'u', 'e'],
        seq!['c', 'o', 'n', 't', 'i', 'n', 'u', 'e'].len() == 8 && seq!['c', 'o', 'n', 't', 'i', 'n', 'u', 'e'][0] == 'c',
        "bt"@ == seq!['b', 't'],
        seq!['b', 't'].len() == 2 && seq!['b', 't'][0] == 'b',
        "back"@ == seq!['b', 'a', 'c', 'k'],
        seq!['b', 'a', 'c', 'k'].len() == 4 && seq!['b', 'a', 'c', 'k'][0] == 'b',
        "backtrace"@ == seq!['b', 'a', 'c', 'k', 't', 'r', 'a', 'c', 'e'],
        seq!['b', 'a', 'c', 'k', 't', 'r', 'a', 'c', 'e'].len() == 9 && seq!['b', 'a', 'c', 'k', 't', 'r', 'a', 'c', 'e'][0] == 'b',
        "b"@ == seq!['b'],
        seq!['b'].len() == 1 && seq!['b'][0] == 'b',
        "break"@ == seq!['b', 'r', 'e', 'a', 'k'],
        seq!['b', 'r', 'e', 'a', 'k'].len() == 5 && seq!['b', 'r', 'e', 'a', 'k'][0] == 'b',
        "breakpoint"@ == seq!['b', 'r', 'e', 'a', 'k', 'p', 'o', 'i', 'n', 't'],
        seq!['b', 'r', 'e', 'a', 'k', 'p', 'o', 'i', 'n', 't'].len() == 10 && seq!['b', 'r', 'e', 'a', 'k', 'p', 'o', 'i', 'n', 't'][0] == 'b',
{
    reveal_strlit("q");
    assert("q"@ =~= seq!['q']);
    reveal_strlit("quit");
    assert("quit"@ =~= seq!['q', 'u', 'i', 't']);
    reveal_strlit("r");
    assert("r"@ =~= seq!['r']);
    reveal_strlit("run");
    assert("run"@ =~= seq!['r', 'u', 'n']);
    reveal_strlit("c");
    assert("c"@ =~= seq!['c']);
    reveal_strlit("cont");
    assert("cont"@ =~= seq!['c', 'o', 'n', 't']);
    reveal_strlit("continue");
    assert("continue"@ =~= seq!['c', 'o', 'n', 't', 'i', 'n', 'u', 'e']);
    reveal_strlit("bt");
    assert("bt"@ =~= seq!['b', 't']);
    reveal_strlit("back");
    assert("back"@ =~= seq!['b', 'a', 'c', 'k']);
    reveal_strlit("backtrace");
    assert("backtrace"@ =~= seq!['b', 'a', 'c', 'k', 't', 'r', 'a', 'c', 'e']);
    reveal_strlit("b");
    assert("b"@ =~= seq!['b']);
    reveal_strlit("break");
    assert("break"@ =~= seq!['b', 'r', 'e', 'a', 'k']);
    reveal_strlit("breakpoint");
    assert("breakpoint"@ =~= seq!['b', 'r', 'e', 'a', 'k', 'p', 'o', 'i', 'n', 't']);
}

impl DebuggerCommand {
    /// Reads a command from the words of one input line. The first word
    /// names the command; `run` takes the rest as the program's arguments,
    /// and a breakpoint takes the next word as its location. Anything else,
    /// an empty line included, is no command.
    pub fn from_tokens(tokens: &Vec<&str>) -> (r: Option<DebuggerCommand>)
        ensures
            tokens@.len() == 0 ==> r is None,
            tokens@.len() > 0 ==> {
                let w = tokens@[0]@;
                &&& is_quit_word(w) ==> r == Some(DebuggerCommand::Quit)
                &&& is_run_word(w) ==> (r matches Some(DebuggerCommand::Run(args)) && args@.len()
                    == tokens@.len() - 1 && forall|i: int|
                    0 <= i < args@.len() ==> #[trigger] args@[i]@ == tokens@[i + 1]@)
                &&& is_continue_word(w) ==> r == Some(DebuggerCommand::Continue)
                &&& is_backtrace_word(w) ==> r == Some(DebuggerCommand::BackTrace)
                &&& is_break_word(w) && tokens@.len() >= 2 ==> (r matches Some(
                    DebuggerCommand::BreakPoint(loc),
                ) && loc@ == tokens@[1]@)
                &&& is_break_word(w) && tokens@.len() < 2 ==> r is None
                &&& !is_quit_word(w) && !is_run_word(w) && !is_continue_word(w)
                    && !is_backtrace_word(w) && !is_break_word(w) ==> r is None
            },
    {
        proof {
            lemma_spellings();
        }
        if tokens.len() == 0 {
            return None;
        }
        let w = tokens[0];
        if same_text(w, "q") || same_text(w, "quit") {
            Some(DebuggerCommand::Quit)
        } else if same_text(w, "r") || same_text(w, "run") {
            let mut args: Vec<String> = Vec::new();
            let mut i: usize = 1;
            while i < tokens.len()
                invariant
                    1 <= i <= tokens@.len(),
                    args@.len() == i - 1,
                    forall|k: int| 0 <= k < args@.len() ==> #[trigger] args@[k]@ == tokens@[k + 1]@,
                decreases tokens@.len() - i,
            {
                args.push(String::from_str(tokens[i]));
                i = i + 1;
            }
            Some(DebuggerCommand::Run(args))
        } else if same_text(w, "c") || same_text(w, "cont") || same_text(w, "continue") {
            Some(DebuggerCommand::Continue)
        } else if same_text(w, "bt") || same_text(w, "back") || same_text(w, "backtrace") {
            Some(DebuggerCommand::BackTrace)
        } else if same_text(w, "b") || same_text(w, "break") || same_text(w, "breakpoint") {
            if tokens.len() >= 2 {
                Some(DebuggerCommand::BreakPoint(String::from_str(tokens[1])))
            } else {
                None
            }
        } else {
            None
        }
    }
}

} // verus!
