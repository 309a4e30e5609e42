//! The per-line dispatch decision: from the words of a line to what the
//! shell does with them.
//!
//! The caller tokenizes the line, looks the first word up on the search
//! path when it may name an external program, and then asks `plan_line`
//! what to do: nothing, stop, run a builtin, launch the program, or report
//! that the command was not found.

use crate::builtins::Builtin;
use crate::text::str_eq;
use vstd::prelude::*;
use vstd::string::StringExecFns;

verus! {

broadcast use vstd::string::group_string_axioms;

/// What the shell does with one line.
pub enum LineAction {
    /// Nothing: the line held no words.
    Continue,
    /// Stop the loop: the line was the exit keyword.
    Exit,
    /// Run this builtin with these arguments.
    RunBuiltin { builtin: Builtin, args: Vec<String> },
    /// Launch the named program with these arguments.
    RunExternal { program: String, args: Vec<String> },
    /// Print this line: the command resolved to nothing.
    NotFound { message: String },
}

/// The decision for the words `tokens`, where `resolved` is the search-path
/// match for the first word: empty lines do nothing, `exit` stops the loop,
/// a builtin name runs that builtin, anything else launches the resolved
/// program or reports it not found.
pub open spec fn plan_ensures(
    tokens: Seq<Seq<char>>,
    resolved: Option<Seq<char>>,
    r: LineAction,
) -> bool {
    if tokens.len() == 0 {
        r is Continue
    } else {
        let cmd = tokens[0];
        if cmd == "exit"@ {
            r is Exit
        } else if cmd == "echo"@ || cmd == "cd"@ || cmd == "pwd"@ || cmd == "type"@ {
            &&& r matches LineAction::RunBuiltin { builtin, args }
            &&& cmd == "echo"@ ==> builtin is Echo
            &&& cmd == "cd"@ ==> builtin is Cd
            &&& cmd == "pwd"@ ==> builtin is Pwd
            &&& cmd == "type"@ ==> builtin is Type
            &&& args.deep_view() == tokens.drop_first()
        } else {
            match resolved {
                Some(_) => r matches LineAction::RunExternal { program, args } && program@ == cmd
                    && args.deep_view() == tokens.drop_first(),
                None => r matches LineAction::NotFound { message } && message@ == cmd
                    + ": command not found"@,
            }
        }
    }
}

/// The words after the command word, in order.
fn rest_args(tokens: &Vec<String>) -> (r: Vec<String>)
    requires
        tokens@.len() >= 1,
    ensures
        r.deep_view() == tokens.deep_view().drop_first(),
{
    let mut r: Vec<String> = Vec::new();
    proof {
        assert(r.deep_view() =~= tokens.deep_view().subrange(1, 1));
    }
    let mut i: usize = 1;
    while i < tokens.len()
        invariant
            1 <= i <= tokens@.len(),
            r.deep_view() =~= tokens.deep_view().subrange(1, i as int),
        decreases tokens@.len() - i,
    {
        let ghost prev = r.deep_view();
        r.push(tokens[i].clone());
        proof {
            assert(r.deep_view() =~= prev.push(tokens.deep_view()[i as int]));
            assert(r.deep_view() =~= tokens.deep_view().subrange(1, i + 1));
        }
        i += 1;
    }
    proof {
        assert(tokens.deep_view().subrange(1, tokens.deep_view().len() as int)
            =~= tokens.deep_view().drop_first());
    }
    r
}

/// Decides what the shell does with the words of one line, as
/// `plan_ensures` describes.  `resolved` is the search-path match for the
/// first word, where the caller looked one up.
pub fn plan_line(tokens: &Vec<String>, resolved: &Option<String>) -> (r: LineAction)
    ensures
        plan_ensures(tokens.deep_view(), resolved.deep_view(), r),
{
    if tokens.len() == 0 {
        return LineAction::Continue;
    }
    let cmd = &tokens[0];
    proof {
        assert(tokens.deep_view()[0] == tokens@[0]@);
        reveal_strlit("exit");
        reveal_strlit("echo");
        reveal_strlit("cd");
        reveal_strlit("pwd");
        reveal_strlit("type");
        assert("exit"@.len() == 4);
        assert("echo"@.len() == 4);
        assert("cd"@.len() == 2);
        assert("pwd"@.len() == 3);
        assert("type"@.len() == 4);
        assert("exit"@[1] == 'x' && "echo"@[1] == 'c' && "type"@[1] == 'y');
    }
    if str_eq(cmd.as_str(), "exit") {
        return LineAction::Exit;
    }
    let args = rest_args(tokens);
    match Builtin::from_name(cmd.as_str()) {
        Some(b) => LineAction::RunBuiltin { builtin: b, args },
        None => match resolved {
            Some(_) => LineAction::RunExternal { program: cmd.clone(), args },
            None => {
                let mut m = cmd.clone();
                m.append(": command not found");
                LineAction::NotFound { message: m }
            },
        },
    }
}

} // verus!
