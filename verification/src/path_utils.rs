//! Search-path resolution and path shaping: joining a directory and a file
//! name, recognising absolute paths, and expanding a leading tilde.
//!
//! The library fixes the POSIX path model: `/` is the root marker and the
//! separator. Platform specifics outside that model — a drive-letter
//! prefix, the search-path separator, what counts as an executable file —
//! belong to the surrounding program.
//!
//! Whether a candidate file is executable is a fact about the file system,
//! so `find_in_path` takes it as data: one flag per directory, computed by
//! the caller for the name being resolved.

use vstd::prelude::*;
use vstd::string::StrSliceExecFns;
use vstd::string::StringExecFns;

verus! {

/// Directory and file name joined with a single `/`, unless the directory
/// already ends with one.
pub open spec fn join_path_spec(dir: Seq<char>, name: Seq<char>) -> Seq<char> {
    if dir.len() > 0 && dir.last() == '/' {
        dir + name
    } else {
        dir + seq!['/'] + name
    }
}

/// Joins `dir` and `name` as `join_path_spec` describes.
pub fn join_path(dir: &str, name: &str) -> (r: String)
    ensures
        r@ == join_path_spec(dir@, name@),
{
    let dir_len = dir.unicode_len();
    let mut r = String::from_str(dir);
    if dir_len == 0 || dir.get_char(dir_len - 1) != '/' {
        r.append("/");
        proof {
            reveal_strlit("/");
            assert(dir@ + "/"@ =~= dir@ + seq!['/']);
        }
    }
    r.append(name);
    r
}

/// The first directory whose flag is set decides the match: the joined
/// path from it, or `None` when no flag is set.
pub open spec fn find_in_path_spec(
    name: Seq<char>,
    dirs: Seq<Seq<char>>,
    executable: Seq<bool>,
) -> Option<Seq<char>>
    decreases dirs.len(),
{
    if dirs.len() == 0 {
        None
    } else if executable[0] {
        Some(join_path_spec(dirs[0], name))
    } else {
        find_in_path_spec(name, dirs.drop_first(), executable.drop_first())
    }
}

/// Walks `path_dirs` in order and returns the joined candidate path from
/// the first directory marked executable; `executable[i]` says whether the
/// candidate in `path_dirs[i]` is an executable file.
pub fn find_in_path(program_name: &str, path_dirs: &Vec<String>, executable: &Vec<bool>) -> (r:
    Option<String>)
    requires
        path_dirs@.len() == executable@.len(),
    ensures
        match r {
            Some(p) => find_in_path_spec(program_name@, path_dirs.deep_view(), executable@)
                == Some(p@),
            None => find_in_path_spec(program_name@, path_dirs.deep_view(), executable@) is None,
        },
{
    let ghost dirs = path_dirs.deep_view();
    let ghost flags = executable@;
    proof {
        assert(dirs.skip(0) =~= dirs);
        assert(flags.skip(0) =~= flags);
    }
    let mut i: usize = 0;
    while i < path_dirs.len()
        invariant
            i <= dirs.len(),
            dirs.len() == flags.len(),
            dirs == path_dirs.deep_view(),
            flags == executable@,
            find_in_path_spec(program_name@, dirs, flags) == find_in_path_spec(
                program_name@,
                dirs.skip(i as int),
                flags.skip(i as int),
            ),
        decreases dirs.len() - i,
    {
        proof {
            assert(dirs.skip(i as int)[0] == dirs[i as int]);
            assert(flags.skip(i as int)[0] == flags[i as int]);
            assert(dirs.skip(i as int).drop_first() =~= dirs.skip(i + 1));
            assert(flags.skip(i as int).drop_first() =~= flags.skip(i + 1));
        }
        if executable[i] {
            let p = join_path(path_dirs[i].as_str(), program_name);
            return Some(p);
        }
        i += 1;
    }
    proof {
        assert(dirs.skip(dirs.len() as int).len() == 0);
    }
    None
}

/// Whether `path` is absolute: it starts with the root marker `/`.
pub fn is_absolute_path(path: &str) -> (r: bool)
    ensures
        r == (path@.len() > 0 && path@[0] == '/'),
{
    if path.unicode_len() == 0 {
        false
    } else {
        path.get_char(0) == '/'
    }
}

/// Tilde expansion asked for a home directory, and none is set.
#[derive(Clone, Copy, Debug, PartialEq, Eq, Structural)]
pub struct HomeNotSet {}

impl HomeNotSet {
    /// The text the shell reports for this error.
    pub fn message(&self) -> (r: String)
        ensures
            r@ == "HOME environment variable not set"@,
    {
        String::from_str("HOME environment variable not set")
    }
}

/// What `expand_tilde` yields: `~` alone becomes the home directory,
/// `~/rest` has the tilde replaced by it, anything else passes through;
/// the first two fail when no home directory is set.
pub open spec fn expand_tilde_spec(path: Seq<char>, home: Option<Seq<char>>) -> Result<
    Seq<char>,
    HomeNotSet,
> {
    if path =~= seq!['~'] || (path.len() >= 2 && path[0] == '~' && path[1] == '/') {
        match home {
            Some(h) => if path =~= seq!['~'] {
                Ok(h)
            } else {
                Ok(h + path.skip(1))
            },
            None => Err(HomeNotSet {}),
        }
    } else {
        Ok(path)
    }
}

/// Expands a leading tilde in `path` against `home`, the home directory if
/// one is set, as `expand_tilde_spec` describes.
pub fn expand_tilde(path: &str, home: &Option<String>) -> (r: Result<String, HomeNotSet>)
    ensures
        match r {
            Ok(p) => expand_tilde_spec(path@, home.deep_view()) == Ok::<Seq<char>, HomeNotSet>(p@),
            Err(e) => expand_tilde_spec(path@, home.deep_view()) == Err::<Seq<char>, HomeNotSet>(e),
        },
{
    let len = path.unicode_len();
    let is_bare_tilde = len == 1 && path.get_char(0) == '~';
    let is_tilde_slash = len >= 2 && path.get_char(0) == '~' && path.get_char(1) == '/';
    proof {
        assert(is_bare_tilde == (path@ =~= seq!['~']));
    }
    if is_bare_tilde || is_tilde_slash {
        match home {
            Some(h) => {
                if is_bare_tilde {
                    Ok(h.clone())
                } else {
                    let rest = path.substring_char(1, len);
                    let mut out = h.clone();
                    out.append(rest);
                    proof {
                        assert(path@.subrange(1, path@.len() as int) =~= path@.skip(1));
                    }
                    Ok(out)
                }
            },
            None => Err(HomeNotSet {}),
        }
    } else {
        Ok(String::from_str(path))
    }
}

} // verus!
