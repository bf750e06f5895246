//! Settings used where neither the registry nor the caller gives one.
use vstd::prelude::*;
use vstd::string::*;

use crate::error::PierError;
use crate::script::{opt_text, texts};

verus! {

/// How many characters of a command a listing shows when nothing else says.
pub const FALLBACK_COMMAND_DISPLAY_WIDTH: usize = 80;

/// The shell that runs scripts when the environment names none.
pub const FALLBACK_SHELL: &'static str = "/bin/sh";

/// The interpreter used when the registry sets none: the given shell, or
/// `/bin/sh` without one, told by `-c` to run its next argument.
pub fn fallback_shell(shell: Option<String>) -> (r: Vec<String>)
    ensures
        texts(r@) == seq![
            match shell {
                Some(s) => s@,
                None => FALLBACK_SHELL@,
            },
            "-c"@,
        ],
{
    let program = match shell {
        Some(s) => s,
        None => String::from_str(FALLBACK_SHELL),
    };
    let r = vec![program, String::from_str("-c")];
    assert(texts(r@) =~= seq![r@[0]@, "-c"@]);
    r
}

/// `rel` inside the directory `base`.
pub open spec fn joined_path(base: Seq<char>, rel: Seq<char>) -> Seq<char> {
    if base.len() > 0 && base.last() == '/' {
        base + rel
    } else {
        base + "/"@ + rel
    }
}

/// `rel` inside each directory that is given.
pub open spec fn under(base: Option<Seq<char>>, rel: Seq<char>) -> Option<Seq<char>> {
    match base {
        Some(b) => Some(joined_path(b, rel)),
        None => None,
    }
}

/// The places searched for a configuration file, in order.
pub open spec fn candidate_paths(
    config_dir: Option<Seq<char>>,
    home_dir: Option<Seq<char>>,
) -> Seq<Option<Seq<char>>> {
    seq![
        Some("pier.toml"@),
        under(config_dir, "pier/config.toml"@),
        under(config_dir, "pier/config"@),
        under(config_dir, "pier.toml"@),
        under(home_dir, ".pier.toml"@),
        under(home_dir, ".pier"@),
    ]
}

fn join_path(base: &String, rel: &str) -> (r: String)
    ensures
        r@ == joined_path(base@, rel@),
{
    let cs = crate::text::chars_of(base.as_str());
    let mut r = base.clone();
    if !(cs.len() > 0 && cs[cs.len() - 1] == '/') {
        r.append("/");
    }
    r.append(rel);
    r
}

fn path_under(base: &Option<String>, rel: &str) -> (r: Option<String>)
    ensures
        opt_text(r) == under(opt_text(*base), rel@),
{
    match base {
        Some(b) => Some(join_path(b, rel)),
        None => None,
    }
}

/// The places searched for a configuration file, in order: `pier.toml` in
/// the working directory, then three under the user's configuration
/// directory, then two under the home directory.
pub fn config_candidates(config_dir: Option<String>, home_dir: Option<String>) -> (r: Vec<
    Option<String>,
>)
    ensures
        r@.map_values(|o: Option<String>| opt_text(o)) == candidate_paths(
            opt_text(config_dir),
            opt_text(home_dir),
        ),
{
    let r = vec![
        Some(String::from_str("pier.toml")),
        path_under(&config_dir, "pier/config.toml"),
        path_under(&config_dir, "pier/config"),
        path_under(&config_dir, "pier.toml"),
        path_under(&home_dir, ".pier.toml"),
        path_under(&home_dir, ".pier"),
    ];
    assert(r@.map_values(|o: Option<String>| opt_text(o)) =~= candidate_paths(
        opt_text(config_dir),
        opt_text(home_dir),
    ));
    r
}

/// The first candidate that is given and marked present in `present` (which
/// tells, for each candidate, whether a file is there).
pub fn fallback_path(candidates: &Vec<Option<String>>, present: &Vec<bool>) -> (r: Result<
    String,
    PierError,
>)
    requires
        candidates.len() == present.len(),
    ensures
        match r {
            Ok(p) => exists|i: int|
                0 <= i < candidates.len() && present@[i] && #[trigger] candidates@[i] == Some(p)
                    && forall|j: int| 0 <= j < i ==> !(present@[j] && candidates@[j] is Some),
            Err(e) => e is NoConfigFile && forall|j: int|
                0 <= j < candidates.len() ==> !(present@[j] && #[trigger] candidates@[j] is Some),
        },
{
    let mut i: usize = 0;
    while i < candidates.len()
        invariant
            0 <= i <= candidates.len(),
            candidates.len() == present.len(),
            forall|j: int| 0 <= j < i ==> !(present@[j] && #[trigger] candidates@[j] is Some),
        decreases candidates.len() - i,
    {
        if present[i] {
            match &candidates[i] {
                Some(p) => {
                    return Ok(p.clone());
                },
                None => {},
            }
        }
        i = i + 1;
    }
    Err(PierError::NoConfigFile)
}

} // verus!
