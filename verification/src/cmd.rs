use vstd::prelude::*;
use crate::error::DrtError;
use crate::text::{join_with, joined, views};

verus! {

/// The characters of each string slice.
pub open spec fn str_views(v: Seq<&str>) -> Seq<Seq<char>> {
    v.map_values(|a: &str| a@)
}

/// The command line of a program and its arguments: all of them, separated
/// by single spaces.
pub fn cmdline(cmd: String, args: Vec<&str>) -> (line: String)
    ensures
        line@ == joined(seq![cmd@] + str_views(args@), " "@),
{
    let mut full: Vec<String> = Vec::new();
    full.push(cmd);
    let mut i: usize = 0;
    while i < args.len()
        invariant
            i <= args@.len(),
            views(full@) == seq![cmd@] + str_views(args@).take(i as int),
        decreases args@.len() - i,
    {
        let ghost before = full@;
        full.push(args[i].to_owned());
        proof {
            assert(views(full@) =~= views(before) + seq![args@[i as int]@]);
            assert(str_views(args@).take(i + 1) =~= str_views(args@).take(i as int) + seq![args@[i as int]@]);
        }
        i = i + 1;
    }
    proof {
        assert(str_views(args@).take(args@.len() as int) =~= str_views(args@));
    }
    join_with(&full, " ")
}

/// `path` ends with `name`.
pub open spec fn ends_with(path: Seq<char>, name: Seq<char>) -> bool {
    name.len() <= path.len() && path.subrange(path.len() - name.len(), path.len() as int) == name
}

/// `name` is an absolute path: it starts at the root `/`.
pub open spec fn starts_at_root(name: Seq<char>) -> bool {
    name.len() > 0 && name[0] == '/'
}

/// The text of an error of `which::which`, one for each variant of
/// `which::Error`.
pub open spec fn which_error_text(t: Seq<char>) -> bool {
    ||| t == "cannot find binary path"@
    ||| t == "no path to search and provided name is not an absolute path"@
    ||| t == "cannot canonicalize path"@
}

/// Looks `prg` up on the search path: `which::which`.
///
/// Trusted: whether a program is found, and in which directory, depends on
/// the environment and the disk, and is left unsaid. The contract states
/// that a name without `/` is found as a file of that name: on Unix
/// `which::which` joins each directory of the search path with the name
/// (`Finder::find` and `WhichFindIterator::new_paths` in which 8.0.6) and
/// returns such a path unchanged; the text ends with the name, which is
/// valid UTF-8 behind an ASCII `/`. An absolute name is not searched: it
/// is checked as it stands and, when found, returned unchanged
/// (`WhichFindIterator::new_path`; a `PathBuf` keeps its text as given).
/// A failed lookup is handed back as the text of its error, which is the
/// `Display` text of one of the three variants of `which::Error`
/// (`error.rs` in which 8.0.6).
#[verifier::external_body]
pub(crate) fn which_program(prg: &str) -> (r: Result<String, String>)
    ensures
        !prg@.contains('/') ==> (r matches Ok(p) ==> ends_with(p@, prg@)),
        starts_at_root(prg@) ==> (r matches Ok(p) ==> p@ == prg@),
        r matches Err(reason) ==> which_error_text(reason@),
{
    which::which(prg).map(|p| p.to_string_lossy().into_owned()).map_err(|e| e.to_string())
}

/// The full path of the program `prg`, given what the search for it found:
/// the path if it was found, otherwise `CommandNotFound` naming `prg`.
pub fn exectable_full_path_which(prg: &str, maybe_prg: Option<String>) -> (r: Result<String, DrtError>)
    ensures
        maybe_prg matches Some(p) ==> r == Ok::<String, DrtError>(p),
        maybe_prg is None ==> (r matches Err(DrtError::CommandNotFound(c)) && c@ == prg@),
{
    match maybe_prg {
        Some(prg_path) => Ok(prg_path),
        None => Err(DrtError::CommandNotFound(prg.to_owned())),
    }
}

/// The full path of the program `prg` on the search path, or
/// `CommandNotFound` naming `prg`. A found path for a name without `/` is
/// a file of that name; an absolute name is found as itself.
pub fn exectable_full_path(prg: &str) -> (r: Result<String, DrtError>)
    ensures
        r matches Err(e) ==> (e matches DrtError::CommandNotFound(c) && c@ == prg@),
        !prg@.contains('/') ==> (r matches Ok(p) ==> ends_with(p@, prg@)),
        starts_at_root(prg@) ==> (r matches Ok(p) ==> p@ == prg@),
{
    let maybe_prg = match which_program(prg) {
        Ok(p) => Some(p),
        Err(_) => None,
    };
    exectable_full_path_which(prg, maybe_prg)
}

} // verus!
