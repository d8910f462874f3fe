//! Tilde expansion for the metadata file's default, home-relative location.

use vstd::prelude::*;
use vstd::string::{StrSliceExecFns, StringExecFns};
use crate::bridge::home_dir_text;

verus! {

/// A path with a leading tilde expanded against the given home directory: a
/// bare `~` is the home itself, any other `~`-prefixed path is joined to it
/// with its first two characters dropped, and anything else passes through.
pub open spec fn expand_spec(path: Seq<char>, home: Seq<char>) -> Seq<char> {
    if path =~= seq!['~'] {
        home
    } else if path.len() > 0 && path[0] == '~' {
        home + seq!['/'] + path.skip(2)
    } else {
        path
    }
}

/// Expand a leading tilde against a known home directory.
pub fn expand_with_home(path: &str, home: &str) -> (r: String)
    ensures
        r@ == expand_spec(path@, home@),
{
    let n: usize = path.unicode_len();
    if n >= 1 && path.get_char(0) == '~' {
        if n == 1 {
            proof {
                assert(path@ =~= seq!['~']);
            }
            home.to_owned()
        } else {
            proof {
                assert(!(path@ =~= seq!['~']));
            }
            let mut s = home.to_owned();
            s.append("/");
            s.append(path.substring_char(2, n));
            proof {
                reveal_strlit("/");
                assert("/"@ =~= seq!['/']);
                assert(s@ =~= home@ + seq!['/'] + path@.skip(2));
            }
            s
        }
    } else {
        proof {
            assert(!(path@ =~= seq!['~']));
        }
        path.to_owned()
    }
}

/// Expand a path with an optional leading tilde (`~`) against the home
/// directory. A path without a tilde passes through unchanged; a tilde path
/// yields nothing when no home directory can be found.
pub fn expanduser(path: &str) -> (r: Option<String>)
    ensures
        r matches Some(s) ==> exists|h: Seq<char>| s@ == #[trigger] expand_spec(path@, h),
        (path@.len() == 0 || path@[0] != '~') ==> (r matches Some(s) && s@ == path@),
        r is None ==> path@.len() > 0 && path@[0] == '~',
{
    let n: usize = path.unicode_len();
    if n >= 1 && path.get_char(0) == '~' {
        match home_dir_text() {
            Some(home) => {
                let s = expand_with_home(path, home.as_str());
                proof {
                    assert(s@ == expand_spec(path@, home@));
                }
                Some(s)
            },
            None => None,
        }
    } else {
        let s = path.to_owned();
        proof {
            assert(!(path@ =~= seq!['~']));
            assert(s@ == expand_spec(path@, Seq::<char>::empty()));
        }
        Some(s)
    }
}

} // verus!
