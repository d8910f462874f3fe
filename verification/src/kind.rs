//! Provenance classification: every installed package is Local, Git or
//! External, decided by the prefix of its source string.

use vstd::prelude::*;

verus! {

/// Provenance of an installed package, derived from the prefix of its
/// source string.
#[derive(Debug, Clone, Copy, PartialEq, Eq, Hash, Structural)]
pub enum Kind {
    Local,
    Git,
    External,
}

/// All package kinds, in presentation order.
pub const ALL_KINDS: [Kind; 3] = [Kind::Local, Kind::Git, Kind::External];

/// The source prefix that marks a version-control install.
pub open spec fn git_prefix() -> Seq<char> {
    seq!['g', 'i', 't', '+']
}

/// The source prefix that marks a local-path install.
pub open spec fn path_prefix() -> Seq<char> {
    seq!['p', 'a', 't', 'h', '+']
}

/// The kind that a source string classifies as: `git+` means Git, `path+`
/// means Local, anything else is an external registry.
pub open spec fn kind_of_source(source: Seq<char>) -> Kind {
    if git_prefix().is_prefix_of(source) {
        Kind::Git
    } else if path_prefix().is_prefix_of(source) {
        Kind::Local
    } else {
        Kind::External
    }
}

impl Kind {
    /// Classify a source string by its prefix.
    pub fn from(source: &str) -> (r: Kind)
        ensures
            r == kind_of_source(source@),
    {
        let n: usize = source.unicode_len();
        if n >= 4 && source.get_char(0) == 'g' && source.get_char(1) == 'i' && source.get_char(2)
            == 't' && source.get_char(3) == '+' {
            proof {
                assert(git_prefix().is_prefix_of(source@)) by {
                    assert(source@.subrange(0, 4) =~= git_prefix());
                }
            }
            Kind::Git
        } else if n >= 5 && source.get_char(0) == 'p' && source.get_char(1) == 'a'
            && source.get_char(2) == 't' && source.get_char(3) == 'h' && source.get_char(4)
            == '+' {
            proof {
                assert(!git_prefix().is_prefix_of(source@)) by {
                    assert(source@.subrange(0, 4)[0] == 'p');
                }
                assert(path_prefix().is_prefix_of(source@)) by {
                    assert(source@.subrange(0, 5) =~= path_prefix());
                }
            }
            Kind::Local
        } else {
            proof {
                if git_prefix().is_prefix_of(source@) {
                    assert(source@.subrange(0, 4) =~= git_prefix());
                    assert(source@[0] == 'g' && source@[1] == 'i' && source@[2] == 't'
                        && source@[3] == '+');
                }
                if path_prefix().is_prefix_of(source@) {
                    assert(source@.subrange(0, 5) =~= path_prefix());
                    assert(source@[0] == 'p' && source@[1] == 'a' && source@[2] == 't'
                        && source@[3] == 'h' && source@[4] == '+');
                }
            }
            Kind::External
        }
    }
}

/// Law: classification is Git exactly on sources with the version-control
/// prefix, Local exactly on sources with the local-path prefix and not the
/// version-control one, and External exactly on the rest.
pub proof fn lemma_kind_by_prefix(source: Seq<char>)
    ensures
        (kind_of_source(source) == Kind::Git) <==> git_prefix().is_prefix_of(source),
        (kind_of_source(source) == Kind::Local) <==> (!git_prefix().is_prefix_of(source)
            && path_prefix().is_prefix_of(source)),
        (kind_of_source(source) == Kind::External) <==> (!git_prefix().is_prefix_of(source)
            && !path_prefix().is_prefix_of(source)),
{
}

impl Default for Kind {
    /// The default kind, as for a freshly deserialized record: External.
    fn default() -> (r: Kind)
        ensures
            r == Kind::External,
    {
        Kind::External
    }
}

} // verus!
