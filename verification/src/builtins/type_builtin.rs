//! `type`: says whether a name is a shell builtin, an executable on the
//! search path, or not found.

use crate::builtins::contains_word;
use crate::builtins::name_in_list;
use crate::builtins::BuiltinAction;
use crate::builtins::Execute;
use crate::builtins::HostInfo;
use crate::builtins::ShellContext;
use vstd::prelude::*;
use vstd::string::StringExecFns;

verus! {

/// The `type` builtin.  Fails only when invoked with no arguments.
pub struct TypeBuiltin {}

impl Execute for TypeBuiltin {
    /// One line about the first argument: a shell builtin, the resolved
    /// path the caller looked up, or not found.
    open spec fn execute_ensures(
        &self,
        args: Seq<Seq<char>>,
        ctx: &ShellContext,
        host: &HostInfo,
        r: Result<BuiltinAction, String>,
    ) -> bool {
        if args.len() == 0 {
            r matches Err(m) && m@ == "Type args cannot be empty"@
        } else {
            let name = args[0];
            if contains_word(ctx.builtin_names.deep_view(), name) {
                r matches Ok(BuiltinAction::Print(s)) && s@ == name + " is a shell builtin"@
            } else {
                match host.resolved {
                    Some(p) => r matches Ok(BuiltinAction::Print(s)) && s@ == name + " is "@ + p@,
                    None => r matches Ok(BuiltinAction::Print(s)) && s@ == name + ": not found"@,
                }
            }
        }
    }

    fn execute(&self, args: &Vec<String>, ctx: &ShellContext, host: &HostInfo) -> (r: Result<
        BuiltinAction,
        String,
    >) {
        if args.len() == 0 {
            return Err(String::from_str("Type args cannot be empty"));
        }
        let name = &args[0];
        proof {
            assert(args.deep_view()[0] == args@[0]@);
        }
        if name_in_list(&ctx.builtin_names, name.as_str()) {
            let mut m = name.clone();
            m.append(" is a shell builtin");
            Ok(BuiltinAction::Print(m))
        } else {
            match &host.resolved {
                Some(p) => {
                    let mut m = name.clone();
                    m.append(" is ");
                    m.append(p.as_str());
                    Ok(BuiltinAction::Print(m))
                },
                None => {
                    let mut m = name.clone();
                    m.append(": not found");
                    Ok(BuiltinAction::Print(m))
                },
            }
        }
    }
}

} // verus!
