//! Path handling: expanding a leading `~/` to the user's home
//! directory, and joining a directory with a file name.

use vstd::prelude::*;
use crate::text::{has_prefix, str_has_prefix};
use vstd::string::StrSliceExecFns;
use vstd::string::StringExecFns;

verus! {

/// Relies on `dirs::home_dir`: the user's home directory as the
/// platform reports it. The result depends on the environment (and is
/// `None` when the directory is unknown or not valid UTF-8), so
/// nothing more is promised of it.
#[verifier::external_body]
fn home_dir_string() -> (r: Option<String>) {
    dirs::home_dir().and_then(|p| p.to_str().map(|s| s.to_string()))
}

/// `p` with a leading `~/` replaced by `home`, when a home directory
/// is known; otherwise `p` unchanged.
pub open spec fn spec_expand(p: Seq<char>, home: Option<Seq<char>>) -> Seq<char> {
    if has_prefix(p, seq!['~', '/']) && home is Some {
        home->0 + seq!['/'] + p.skip(2)
    } else {
        p
    }
}

/// Expansion against an explicitly supplied home directory.
pub fn expand_path_with(path: &str, home: Option<&str>) -> (r: String)
    ensures
        r@ == spec_expand(
            path@,
            match home {
                Some(h) => Some(h@),
                None => None,
            },
        ),
{
    proof {
        reveal_strlit("~/");
        assert("~/"@ =~= seq!['~', '/']);
    }
    if str_has_prefix(path, "~/") {
        match home {
            Some(h) => {
                let mut out = String::from_str(h);
                out.append("/");
                let rest = path.substring_char(2, path.unicode_len());
                out.append(rest);
                proof {
                    reveal_strlit("/");
                    assert("/"@ =~= seq!['/']);
                    assert(out@ =~= h@ + seq!['/'] + path@.skip(2));
                }
                out
            },
            None => String::from_str(path),
        }
    } else {
        String::from_str(path)
    }
}

/// Expansion against the environment's home directory. A path that
/// does not begin with `~/` always comes back unchanged; one that
/// does is either joined under some home directory or, when none is
/// known, kept as it is.
pub fn expand_path(path: &str) -> (r: String)
    ensures
        !has_prefix(path@, seq!['~', '/']) ==> r@ == path@,
        has_prefix(path@, seq!['~', '/']) ==> (r@ == path@ || exists|h: Seq<char>|
            r@ == h + seq!['/'] + path@.skip(2)),
{
    let home = home_dir_string();
    match home {
        Some(h) => {
            let r = expand_path_with(path, Some(h.as_str()));
            proof {
                assert(r@ == spec_expand(path@, Some(h@)));
            }
            r
        },
        None => {
            let r = expand_path_with(path, None);
            proof {
                assert(r@ == spec_expand(path@, None::<Seq<char>>));
            }
            r
        },
    }
}

/// A directory joined with a file name by `/`; an empty directory
/// leaves the name alone.
pub open spec fn spec_join(dir: Seq<char>, name: Seq<char>) -> Seq<char> {
    if dir.len() == 0 {
        name
    } else {
        dir + seq!['/'] + name
    }
}

pub fn join_path(dir: &str, name: &str) -> (r: String)
    ensures
        r@ == spec_join(dir@, name@),
{
    if dir.unicode_len() == 0 {
        String::from_str(name)
    } else {
        let mut out = String::from_str(dir);
        out.append("/");
        out.append(name);
        proof {
            reveal_strlit("/");
            assert("/"@ =~= seq!['/']);
            assert(out@ =~= dir@ + seq!['/'] + name@);
        }
        out
    }
}

} // verus!
