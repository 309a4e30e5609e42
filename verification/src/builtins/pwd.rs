//! `pwd`: prints the current working directory.

use crate::builtins::BuiltinAction;
use crate::builtins::Execute;
use crate::builtins::HostInfo;
use crate::builtins::ShellContext;
use vstd::prelude::*;
use vstd::string::StringExecFns;

verus! {

/// The `pwd` builtin.  Reports a failure to read the working directory on
/// the error stream, but never fails itself.
pub struct PwdBuiltin {}

impl Execute for PwdBuiltin {
    /// The working directory to standard output; if reading it failed, the
    /// error text, prefixed, to standard error.
    open spec fn execute_ensures(
        &self,
        args: Seq<Seq<char>>,
        ctx: &ShellContext,
        host: &HostInfo,
        r: Result<BuiltinAction, String>,
    ) -> bool {
        match host.cwd {
            Ok(c) => r matches Ok(BuiltinAction::Print(s)) && s@ == c@,
            Err(e) => r matches Ok(BuiltinAction::PrintErr(s)) && s@
                == "pwd: error getting current directory: "@ + e@,
        }
    }

    fn execute(&self, args: &Vec<String>, ctx: &ShellContext, host: &HostInfo) -> (r: Result<
        BuiltinAction,
        String,
    >) {
        match &host.cwd {
            Ok(c) => Ok(BuiltinAction::Print(c.clone())),
            Err(e) => {
                let mut m = String::from_str("pwd: error getting current directory: ");
                m.append(e.as_str());
                Ok(BuiltinAction::PrintErr(m))
            },
        }
    }
}

} // verus!
