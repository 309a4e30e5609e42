//! The built-in command table: the shell context, the closed set of
//! builtins, and the `Execute` trait they share.
//!
//! A builtin never touches the terminal or the file system itself.  Its
//! `execute` is a pure decision: from the arguments, the context and a
//! `HostInfo` snapshot of outside facts it returns the action the shell
//! must carry out, or the error text to report.

pub mod cd;
pub mod echo;
pub mod pwd;
pub mod type_builtin;

use crate::builtins::cd::CdBuiltin;
use crate::builtins::echo::EchoBuiltin;
use crate::builtins::pwd::PwdBuiltin;
use crate::builtins::type_builtin::TypeBuiltin;
use crate::text::str_eq;
use vstd::prelude::*;

verus! {

broadcast use vstd::string::group_string_axioms;

/// The names the shell treats as built in, in their fixed order.
pub open spec fn builtin_names_spec() -> Seq<Seq<char>> {
    seq!["exit"@, "echo"@, "type"@, "pwd"@, "cd"@]
}

/// Whether `w` is one of `names`.
pub open spec fn contains_word(names: Seq<Seq<char>>, w: Seq<char>) -> bool {
    exists|i: int| 0 <= i < names.len() && names[i] == w
}

/// Process-wide shell state: the ordered search-path directories and the
/// fixed set of builtin names.
pub struct ShellContext {
    pub path_dirs: Vec<String>,
    pub builtin_names: Vec<&'static str>,
}

impl ShellContext {
    /// A fresh context over the given search-path directories.
    pub fn new(path_dirs: Vec<String>) -> (ctx: ShellContext)
        ensures
            ctx.path_dirs == path_dirs,
            ctx.builtin_names.deep_view() == builtin_names_spec(),
    {
        let mut names: Vec<&'static str> = Vec::new();
        names.push("exit");
        names.push("echo");
        names.push("type");
        names.push("pwd");
        names.push("cd");
        proof {
            assert(names.deep_view() =~= builtin_names_spec());
        }
        ShellContext { path_dirs, builtin_names: names }
    }
}

/// Whether `name` is one of `names`, by character-wise comparison.
pub fn name_in_list(names: &Vec<&'static str>, name: &str) -> (r: bool)
    ensures
        r == contains_word(names.deep_view(), name@),
{
    let mut i: usize = 0;
    while i < names.len()
        invariant
            i <= names@.len(),
            forall|j: int| 0 <= j < i ==> names.deep_view()[j] != name@,
        decreases names@.len() - i,
    {
        if str_eq(names[i], name) {
            proof {
                assert(names.deep_view()[i as int] == name@);
            }
            return true;
        }
        i += 1;
    }
    false
}

/// Outside facts a builtin decides on, gathered by the caller: the home
/// directory if one is set, the current working directory or the error text
/// from reading it, and the search-path match for the first argument, where
/// the caller looked one up.
pub struct HostInfo {
    pub home: Option<String>,
    pub cwd: Result<String, String>,
    pub resolved: Option<String>,
}

/// What the shell must do after a builtin has decided: print a line to
/// standard output or standard error, or change the working directory.
/// `ChangeDir` names both the directory to enter and the `target` word the
/// user gave, for error messages about it.
#[derive(Debug)]
pub enum BuiltinAction {
    Print(String),
    PrintErr(String),
    ChangeDir { path: String, target: String },
}

/// A builtin's single operation: decide what to do with `args`.
pub trait Execute {
    /// What this builtin's decision looks like, as a relation between the
    /// inputs and the returned action or error text.
    spec fn execute_ensures(
        &self,
        args: Seq<Seq<char>>,
        ctx: &ShellContext,
        host: &HostInfo,
        r: Result<BuiltinAction, String>,
    ) -> bool;

    /// Decides the action for `args`, as `execute_ensures` describes.
    fn execute(&self, args: &Vec<String>, ctx: &ShellContext, host: &HostInfo) -> (r: Result<
        BuiltinAction,
        String,
    >)
        ensures
            self.execute_ensures(args.deep_view(), ctx, host, r),
    ;
}

/// The closed set of built-in commands.
pub enum Builtin {
    Echo(EchoBuiltin),
    Cd(CdBuiltin),
    Pwd(PwdBuiltin),
    Type(TypeBuiltin),
}

impl Builtin {
    /// The builtin a command name denotes, if any.
    pub fn from_name(name: &str) -> (r: Option<Builtin>)
        ensures
            name@ == "echo"@ ==> (r matches Some(b) && b is Echo),
            name@ == "cd"@ ==> (r matches Some(b) && b is Cd),
            name@ == "pwd"@ ==> (r matches Some(b) && b is Pwd),
            name@ == "type"@ ==> (r matches Some(b) && b is Type),
            r is Some ==> name@ == "echo"@ || name@ == "cd"@ || name@ == "pwd"@ || name@
                == "type"@,
    {
        proof {
            reveal_strlit("echo");
            reveal_strlit("cd");
            reveal_strlit("pwd");
            reveal_strlit("type");
            assert("echo"@.len() == 4);
            assert("cd"@.len() == 2);
            assert("pwd"@.len() == 3);
            assert("type"@.len() == 4);
            assert("echo"@[0] == 'e' && "type"@[0] == 't');
        }
        if str_eq(name, "echo") {
            Some(Builtin::Echo(EchoBuiltin {  }))
        } else if str_eq(name, "cd") {
            Some(Builtin::Cd(CdBuiltin {  }))
        } else if str_eq(name, "pwd") {
            Some(Builtin::Pwd(PwdBuiltin {  }))
        } else if str_eq(name, "type") {
            Some(Builtin::Type(TypeBuiltin {  }))
        } else {
            None
        }
    }
}

impl Execute for Builtin {
    /// The decision of whichever builtin this is.
    open spec fn execute_ensures(
        &self,
        args: Seq<Seq<char>>,
        ctx: &ShellContext,
        host: &HostInfo,
        r: Result<BuiltinAction, String>,
    ) -> bool {
        match self {
            Builtin::Echo(b) => b.execute_ensures(args, ctx, host, r),
            Builtin::Cd(b) => b.execute_ensures(args, ctx, host, r),
            Builtin::Pwd(b) => b.execute_ensures(args, ctx, host, r),
            Builtin::Type(b) => b.execute_ensures(args, ctx, host, r),
        }
    }

    fn execute(&self, args: &Vec<String>, ctx: &ShellContext, host: &HostInfo) -> (r: Result<
        BuiltinAction,
        String,
    >) {
        match self {
            Builtin::Echo(b) => b.execute(args, ctx, host),
            Builtin::Cd(b) => b.execute(args, ctx, host),
            Builtin::Pwd(b) => b.execute(args, ctx, host),
            Builtin::Type(b) => b.execute(args, ctx, host),
        }
    }
}

} // verus!
