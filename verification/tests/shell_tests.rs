use rush::builtins::cd::cd_chdir_error_message;
use rush::builtins::cd::cd_missing_dir_message;
use rush::builtins::cd::CdBuiltin;
use rush::builtins::echo::EchoBuiltin;
use rush::builtins::pwd::PwdBuiltin;
use rush::builtins::type_builtin::TypeBuiltin;
use rush::builtins::Builtin;
use rush::builtins::BuiltinAction;
use rush::builtins::Execute;
use rush::builtins::HostInfo;
use rush::builtins::ShellContext;
use rush::dispatch::plan_line;
use rush::dispatch::LineAction;
use rush::path_utils::expand_tilde;
use rush::path_utils::find_in_path;
use rush::path_utils::is_absolute_path;
use rush::path_utils::join_path;
use rush::text::join_with_spaces;
use rush::tokenizer::tokenize;
use rush::tokenizer::LexError;

fn ctx_with(dirs: Vec<&str>) -> ShellContext {
    ShellContext::new(dirs.into_iter().map(|s| s.to_string()).collect())
}

fn host(home: Option<&str>, cwd: Result<&str, &str>, resolved: Option<&str>) -> HostInfo {
    HostInfo {
        home: home.map(|s| s.to_string()),
        cwd: cwd.map(|s| s.to_string()).map_err(|e| e.to_string()),
        resolved: resolved.map(|s| s.to_string()),
    }
}

#[test]
fn empty_quotes_yield_an_empty_word() {
    assert_eq!(tokenize("''").unwrap(), vec![""]);
    assert_eq!(tokenize("\"\"").unwrap(), vec![""]);
    assert_eq!(tokenize("''\"\"").unwrap(), vec![""]);
}

#[test]
fn exit_stops_the_loop_even_when_resolved() {
    let exit = vec!["exit".to_string()];
    let resolved = Some("/bin/exit".to_string());
    assert!(matches!(plan_line(&exit, &resolved), LineAction::Exit));
}

#[test]
fn blank_lines_have_no_words() {
    assert_eq!(tokenize(" \t \t ").unwrap(), Vec::<String>::new());
    assert_eq!(tokenize("\t").unwrap(), Vec::<String>::new());
    assert_eq!(tokenize(" \n ").unwrap(), Vec::<String>::new());
    assert_eq!(tokenize("\u{000B}").unwrap(), Vec::<String>::new());
    assert_eq!(tokenize("\u{000C}\u{0085}\u{00A0}\u{2003}\u{3000}").unwrap(), Vec::<String>::new());
}

#[test]
fn exotic_whitespace_is_trimmed_but_separates_nothing() {
    // Only space and tab split words; other whitespace inside a line is an
    // ordinary character, as `str::trim` only touches the line's ends.
    assert_eq!(tokenize("\u{00A0}a\u{00A0}b\u{00A0}").unwrap(), vec!["a\u{00A0}b"]);
    assert_eq!(tokenize("\u{000B}x\u{000B}").unwrap(), vec!["x"]);
}

#[test]
fn plain_words_round_trip() {
    let words = vec!["foo".to_string(), "bar".to_string(), "baz".to_string()];
    let line = join_with_spaces(&words);
    assert_eq!(line, "foo bar baz");
    assert_eq!(tokenize(&line).unwrap(), words);
    let one = vec!["solo".to_string()];
    assert_eq!(tokenize(&join_with_spaces(&one)).unwrap(), one);
}

#[test]
fn unmatched_quotes_fail_with_their_error() {
    assert_eq!(tokenize("abc'def").unwrap_err(), LexError::UnterminatedSingleQuote);
    assert_eq!(tokenize("ab\"cd").unwrap_err(), LexError::UnterminatedDoubleQuote);
    assert_eq!(tokenize("a'b'c'").unwrap_err(), LexError::UnterminatedSingleQuote);
}

#[test]
fn adjacent_segments_form_one_word() {
    assert_eq!(tokenize(r#"'ab'"cd"ef"#).unwrap(), vec!["abcdef"]);
    assert_eq!(tokenize(r#"echo 'it'"'"'s fine'"#).unwrap(), vec!["echo", "it's fine"]);
}

#[test]
fn double_quote_escape_set_is_exact() {
    assert_eq!(tokenize("\"a\\$b\"").unwrap(), vec!["a$b"]);
    assert_eq!(tokenize("\"a\\`b\"").unwrap(), vec!["a`b"]);
    assert_eq!(tokenize("\"a\\\nb\"").unwrap(), vec!["a\nb"]);
    assert_eq!(tokenize("\"a\\zb\"").unwrap(), vec!["a\\zb"]);
}

#[test]
fn trailing_backslash_is_an_error() {
    assert_eq!(tokenize("hello\\").unwrap_err(), LexError::TrailingBackslash);
    assert_eq!(tokenize("\\").unwrap_err(), LexError::TrailingBackslash);
}

#[test]
fn lex_error_messages() {
    assert_eq!(LexError::UnterminatedSingleQuote.message(), "Unterminated single quote");
    assert_eq!(LexError::UnterminatedDoubleQuote.message(), "Unterminated double quote");
    assert_eq!(LexError::TrailingBackslash.message(), "Trailing backslash");
}

#[test]
fn join_path_inserts_one_slash() {
    assert_eq!(join_path("/usr/bin", "ls"), "/usr/bin/ls");
    assert_eq!(join_path("/usr/bin/", "ls"), "/usr/bin/ls");
    assert_eq!(join_path("", "ls"), "/ls");
}

#[test]
fn find_in_path_takes_first_match() {
    let dirs: Vec<String> = vec!["/a".to_string(), "/b".to_string(), "/c".to_string()];
    let flags = vec![false, true, true];
    assert_eq!(find_in_path("prog", &dirs, &flags), Some("/b/prog".to_string()));
    let none = vec![false, false, false];
    assert_eq!(find_in_path("prog", &dirs, &none), None);
    let empty: Vec<String> = Vec::new();
    assert_eq!(find_in_path("prog", &empty, &Vec::new()), None);
}

#[test]
fn absolute_paths_start_with_the_root_marker() {
    assert!(is_absolute_path("/usr"));
    assert!(is_absolute_path("/"));
    assert!(!is_absolute_path("usr"));
    assert!(!is_absolute_path(""));
    assert!(!is_absolute_path("~/x"));
}

#[test]
fn tilde_expansion() {
    let home = Some("/home/u".to_string());
    assert_eq!(expand_tilde("~", &home).unwrap(), "/home/u");
    assert_eq!(expand_tilde("~/docs", &home).unwrap(), "/home/u/docs");
    assert_eq!(expand_tilde("plain", &home).unwrap(), "plain");
    assert_eq!(expand_tilde("~elsewhere", &home).unwrap(), "~elsewhere");
    let unset: Option<String> = None;
    let err = expand_tilde("~", &unset).unwrap_err();
    assert_eq!(err.message(), "HOME environment variable not set");
    assert!(expand_tilde("~/docs", &unset).is_err());
    assert_eq!(expand_tilde("plain", &unset).unwrap(), "plain");
}

#[test]
fn context_holds_dirs_and_builtin_names() {
    let ctx = ctx_with(vec!["/bin", "/usr/bin"]);
    assert_eq!(ctx.path_dirs, vec!["/bin", "/usr/bin"]);
    assert_eq!(ctx.builtin_names, vec!["exit", "echo", "type", "pwd", "cd"]);
}

#[test]
fn from_name_knows_the_closed_set() {
    assert!(matches!(Builtin::from_name("echo"), Some(Builtin::Echo(_))));
    assert!(matches!(Builtin::from_name("cd"), Some(Builtin::Cd(_))));
    assert!(matches!(Builtin::from_name("pwd"), Some(Builtin::Pwd(_))));
    assert!(matches!(Builtin::from_name("type"), Some(Builtin::Type(_))));
    assert!(Builtin::from_name("exit").is_none());
    assert!(Builtin::from_name("ls").is_none());
    assert!(Builtin::from_name("").is_none());
}

#[test]
fn echo_joins_arguments() {
    let ctx = ctx_with(vec![]);
    let h = host(None, Ok("/"), None);
    let args = vec!["Hello,".to_string(), "World!".to_string()];
    match (EchoBuiltin {}).execute(&args, &ctx, &h).unwrap() {
        BuiltinAction::Print(s) => assert_eq!(s, "Hello, World!"),
        _ => panic!("echo must print"),
    }
    match (EchoBuiltin {}).execute(&Vec::new(), &ctx, &h).unwrap() {
        BuiltinAction::Print(s) => assert_eq!(s, ""),
        _ => panic!("echo must print"),
    }
}

#[test]
fn pwd_prints_the_working_directory() {
    let ctx = ctx_with(vec![]);
    match (PwdBuiltin {}).execute(&Vec::new(), &ctx, &host(None, Ok("/work"), None)).unwrap() {
        BuiltinAction::Print(s) => assert_eq!(s, "/work"),
        _ => panic!("pwd must print"),
    }
    match (PwdBuiltin {}).execute(&Vec::new(), &ctx, &host(None, Err("oops"), None)).unwrap() {
        BuiltinAction::PrintErr(s) => {
            assert_eq!(s, "pwd: error getting current directory: oops")
        },
        _ => panic!("pwd must report on the error stream"),
    }
}

#[test]
fn cd_with_no_argument_goes_home() {
    let ctx = ctx_with(vec![]);
    let h = host(Some("/home/u"), Ok("/work"), None);
    match (CdBuiltin {}).execute(&Vec::new(), &ctx, &h).unwrap() {
        BuiltinAction::ChangeDir { path, target } => {
            assert_eq!(path, "/home/u");
            assert_eq!(target, "~");
        },
        _ => panic!("cd must change directory"),
    }
}

#[test]
fn cd_resolves_relative_and_absolute_targets() {
    let ctx = ctx_with(vec![]);
    let h = host(Some("/home/u"), Ok("/base"), None);
    let rel = vec!["sub".to_string()];
    match (CdBuiltin {}).execute(&rel, &ctx, &h).unwrap() {
        BuiltinAction::ChangeDir { path, target } => {
            assert_eq!(path, "/base/sub");
            assert_eq!(target, "sub");
        },
        _ => panic!("cd must change directory"),
    }
    let abs = vec!["/abs/dir".to_string()];
    match (CdBuiltin {}).execute(&abs, &ctx, &h).unwrap() {
        BuiltinAction::ChangeDir { path, target } => {
            assert_eq!(path, "/abs/dir");
            assert_eq!(target, "/abs/dir");
        },
        _ => panic!("cd must change directory"),
    }
    let tilde = vec!["~/docs".to_string()];
    match (CdBuiltin {}).execute(&tilde, &ctx, &h).unwrap() {
        BuiltinAction::ChangeDir { path, target } => {
            assert_eq!(path, "/home/u/docs");
            assert_eq!(target, "~/docs");
        },
        _ => panic!("cd must change directory"),
    }
}

#[test]
fn cd_errors_without_home_or_cwd() {
    let ctx = ctx_with(vec![]);
    let no_home = host(None, Ok("/base"), None);
    let err = (CdBuiltin {}).execute(&Vec::new(), &ctx, &no_home).unwrap_err();
    assert_eq!(err, "cd: HOME environment variable not set");
    let no_cwd = host(Some("/home/u"), Err("gone"), None);
    let rel = vec!["sub".to_string()];
    let err = (CdBuiltin {}).execute(&rel, &ctx, &no_cwd).unwrap_err();
    assert_eq!(err, "cd: error getting current directory: gone");
}

#[test]
fn cd_report_messages() {
    assert_eq!(cd_missing_dir_message("lost"), "cd: lost: No such file or directory");
    assert_eq!(cd_chdir_error_message("lost", "denied"), "cd: lost: denied");
}

#[test]
fn type_reports_builtins_paths_and_misses() {
    let ctx = ctx_with(vec!["/bin"]);
    let h = host(None, Ok("/"), None);
    let cd_args = vec!["cd".to_string()];
    match (TypeBuiltin {}).execute(&cd_args, &ctx, &h).unwrap() {
        BuiltinAction::Print(s) => assert_eq!(s, "cd is a shell builtin"),
        _ => panic!("type must print"),
    }
    let exit_args = vec!["exit".to_string()];
    match (TypeBuiltin {}).execute(&exit_args, &ctx, &h).unwrap() {
        BuiltinAction::Print(s) => assert_eq!(s, "exit is a shell builtin"),
        _ => panic!("type must print"),
    }
    let ls_args = vec!["ls".to_string()];
    let found = host(None, Ok("/"), Some("/bin/ls"));
    match (TypeBuiltin {}).execute(&ls_args, &ctx, &found).unwrap() {
        BuiltinAction::Print(s) => assert_eq!(s, "ls is /bin/ls"),
        _ => panic!("type must print"),
    }
    let missing = vec!["nonexistent_xyz".to_string()];
    match (TypeBuiltin {}).execute(&missing, &ctx, &h).unwrap() {
        BuiltinAction::Print(s) => assert_eq!(s, "nonexistent_xyz: not found"),
        _ => panic!("type must print"),
    }
    let err = (TypeBuiltin {}).execute(&Vec::new(), &ctx, &h).unwrap_err();
    assert_eq!(err, "Type args cannot be empty");
}

#[test]
fn builtin_dispatch_reaches_each_variant() {
    let ctx = ctx_with(vec![]);
    let h = host(Some("/home/u"), Ok("/work"), None);
    let echo = Builtin::from_name("echo").unwrap();
    let args = vec!["hi".to_string()];
    match echo.execute(&args, &ctx, &h).unwrap() {
        BuiltinAction::Print(s) => assert_eq!(s, "hi"),
        _ => panic!("echo must print"),
    }
    let pwd = Builtin::from_name("pwd").unwrap();
    match pwd.execute(&Vec::new(), &ctx, &h).unwrap() {
        BuiltinAction::Print(s) => assert_eq!(s, "/work"),
        _ => panic!("pwd must print"),
    }
}

#[test]
fn plan_line_decides_each_case() {
    let none: Option<String> = None;
    let empty: Vec<String> = Vec::new();
    assert!(matches!(plan_line(&empty, &none), LineAction::Continue));
    let exit = vec!["exit".to_string()];
    assert!(matches!(plan_line(&exit, &none), LineAction::Exit));
    let echo = vec!["echo".to_string(), "hi".to_string()];
    match plan_line(&echo, &none) {
        LineAction::RunBuiltin { builtin, args } => {
            assert!(matches!(builtin, Builtin::Echo(_)));
            assert_eq!(args, vec!["hi"]);
        },
        _ => panic!("echo must run as a builtin"),
    }
    let ls = vec!["ls".to_string(), "-l".to_string()];
    let resolved = Some("/bin/ls".to_string());
    match plan_line(&ls, &resolved) {
        LineAction::RunExternal { program, args } => {
            assert_eq!(program, "ls");
            assert_eq!(args, vec!["-l"]);
        },
        _ => panic!("a resolved command must launch"),
    }
    let nope = vec!["nope".to_string()];
    match plan_line(&nope, &none) {
        LineAction::NotFound { message } => assert_eq!(message, "nope: command not found"),
        _ => panic!("an unresolved command is not found"),
    }
}
