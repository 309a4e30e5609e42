//! `cd`: decides which directory the shell should enter.
//!
//! With no argument the target is `~`; a leading tilde expands to the home
//! directory; a relative target is resolved against the current working
//! directory.  Whether the decided path exists and is a directory is a file
//! system question, so the caller checks it after the decision and reports
//! with the messages built here.

use crate::builtins::BuiltinAction;
use crate::builtins::Execute;
use crate::builtins::HostInfo;
use crate::builtins::ShellContext;
use crate::path_utils::expand_tilde;
use crate::path_utils::expand_tilde_spec;
use crate::path_utils::is_absolute_path;
use crate::path_utils::join_path;
use crate::path_utils::join_path_spec;
use vstd::prelude::*;
use vstd::string::StringExecFns;

verus! {

/// The word `cd` resolves: its first argument, or `~` with no arguments.
pub open spec fn cd_target_spec(args: Seq<Seq<char>>) -> Seq<char> {
    if args.len() == 0 {
        seq!['~']
    } else {
        args[0]
    }
}

/// The `cd` builtin.
pub struct CdBuiltin {}

impl Execute for CdBuiltin {
    /// A `ChangeDir` for the expanded target — as given when absolute, else
    /// joined to the working directory — or the error text when no home
    /// directory is set or the working directory cannot be read.
    open spec fn execute_ensures(
        &self,
        args: Seq<Seq<char>>,
        ctx: &ShellContext,
        host: &HostInfo,
        r: Result<BuiltinAction, String>,
    ) -> bool {
        let target = cd_target_spec(args);
        match expand_tilde_spec(target, host.home.deep_view()) {
            Err(_) => r matches Err(m) && m@ == "cd: HOME environment variable not set"@,
            Ok(exp) => if exp.len() > 0 && exp[0] == '/' {
                r matches Ok(BuiltinAction::ChangeDir { path, target: t }) && path@ == exp && t@
                    == target
            } else {
                match host.cwd {
                    Ok(c) => r matches Ok(BuiltinAction::ChangeDir { path, target: t }) && path@
                        == join_path_spec(c@, exp) && t@ == target,
                    Err(e) => r matches Err(m) && m@ == "cd: error getting current directory: "@
                        + e@,
                }
            },
        }
    }

    fn execute(&self, args: &Vec<String>, ctx: &ShellContext, host: &HostInfo) -> (r: Result<
        BuiltinAction,
        String,
    >) {
        let target: String = if args.len() == 0 {
            let t = String::from_str("~");
            proof {
                reveal_strlit("~");
                assert("~"@ =~= seq!['~']);
            }
            t
        } else {
            args[0].clone()
        };
        match expand_tilde(target.as_str(), &host.home) {
            Err(_) => Err(String::from_str("cd: HOME environment variable not set")),
            Ok(exp) => {
                if is_absolute_path(exp.as_str()) {
                    Ok(BuiltinAction::ChangeDir { path: exp, target })
                } else {
                    match &host.cwd {
                        Ok(c) => {
                            let path = join_path(c.as_str(), exp.as_str());
                            Ok(BuiltinAction::ChangeDir { path, target })
                        },
                        Err(e) => {
                            let mut m = String::from_str("cd: error getting current directory: ");
                            m.append(e.as_str());
                            Err(m)
                        },
                    }
                }
            },
        }
    }
}

/// The report when the decided directory does not exist or is not a
/// directory.
pub fn cd_missing_dir_message(target: &str) -> (r: String)
    ensures
        r@ == "cd: "@ + target@ + ": No such file or directory"@,
{
    let mut m = String::from_str("cd: ");
    m.append(target);
    m.append(": No such file or directory");
    m
}

/// The report when entering the directory failed with the error text `err`.
pub fn cd_chdir_error_message(target: &str, err: &str) -> (r: String)
    ensures
        r@ == "cd: "@ + target@ + ": "@ + err@,
{
    let mut m = String::from_str("cd: ");
    m.append(target);
    m.append(": ");
    m.append(err);
    m
}

} // verus!
