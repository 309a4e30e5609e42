//! `echo`: prints its arguments joined by single spaces.

use crate::builtins::BuiltinAction;
use crate::builtins::Execute;
use crate::builtins::HostInfo;
use crate::builtins::ShellContext;
use crate::text::join_with_spaces;
use crate::text::join_words;
use vstd::prelude::*;

verus! {

/// The `echo` builtin.  Always succeeds.
pub struct EchoBuiltin {}

impl Execute for EchoBuiltin {
    /// One line to standard output: the arguments joined by single spaces.
    open spec fn execute_ensures(
        &self,
        args: Seq<Seq<char>>,
        ctx: &ShellContext,
        host: &HostInfo,
        r: Result<BuiltinAction, String>,
    ) -> bool {
        r matches Ok(BuiltinAction::Print(s)) && s@ == join_words(args)
    }

    fn execute(&self, args: &Vec<String>, ctx: &ShellContext, host: &HostInfo) -> (r: Result<
        BuiltinAction,
        String,
    >) {
        Ok(BuiltinAction::Print(join_with_spaces(args)))
    }
}

} // verus!
