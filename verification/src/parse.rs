//! Parsers for the metadata file's composite keys, for the compiler string
//! embedded in each record, and for the toolchain manager's output.
//!
//! A composite key has the shape `"<name> <version> (<source>)"`. The parser
//! takes the first three space-separated tokens and requires the third to be
//! parenthesized; extra tokens after the third are ignored, as the metadata
//! writer emits none.

use vstd::prelude::*;
use vstd::string::StrSliceExecFns;
use crate::text::{clean_of, lemma_token_end_pinned, token_end, lemma_token_end, scan_to, segment_eq};

verus! {

/// The three fields recovered from a composite key.
#[derive(Debug, Clone, PartialEq)]
pub struct KeyParts {
    pub name: String,
    pub installed: String,
    pub source: String,
}

/// The mathematical model of [`KeyParts`].
#[verifier::ext_equal]
pub struct KeyPartsModel {
    pub name: Seq<char>,
    pub installed: Seq<char>,
    pub source: Seq<char>,
}

impl View for KeyParts {
    type V = KeyPartsModel;

    open spec fn view(&self) -> KeyPartsModel {
        KeyPartsModel { name: self.name@, installed: self.installed@, source: self.source@ }
    }
}

impl DeepView for KeyParts {
    type V = KeyPartsModel;

    open spec fn deep_view(&self) -> KeyPartsModel {
        self.view()
    }
}

/// What parsing a composite key yields: the first token is the name, the
/// second the installed version, and the third must be `(<source>)`. `None`
/// when fewer than three tokens are present or the third is not
/// parenthesized.
pub open spec fn parse_key_spec(k: Seq<char>) -> Option<KeyPartsModel> {
    let e1 = token_end(k, ' ', 0);
    if e1 >= k.len() {
        None
    } else {
        let e2 = token_end(k, ' ', e1 + 1);
        if e2 >= k.len() {
            None
        } else {
            let e3 = token_end(k, ' ', e2 + 1);
            let t3 = k.subrange(e2 + 1, e3);
            if t3.len() >= 2 && t3[0] == '(' && t3[t3.len() - 1] == ')' {
                Some(
                    KeyPartsModel {
                        name: k.subrange(0, e1),
                        installed: k.subrange(e1 + 1, e2),
                        source: t3.subrange(1, t3.len() - 1),
                    },
                )
            } else {
                None
            }
        }
    }
}

/// Split a composite key into name, installed version and source.
pub fn parse_key(k: &str) -> (r: Option<KeyParts>)
    ensures
        r is Some <==> parse_key_spec(k@) is Some,
        r is Some ==> r->0@ == parse_key_spec(k@)->0,
{
    let n: usize = k.unicode_len();
    let e1 = scan_to(k, ' ', 0);
    if e1 >= n {
        return None;
    }
    let e2 = scan_to(k, ' ', e1 + 1);
    if e2 >= n {
        return None;
    }
    let e3 = scan_to(k, ' ', e2 + 1);
    proof {
        lemma_token_end(k@, ' ', e2 + 1);
    }
    let t3_len: usize = e3 - (e2 + 1);
    let ghost t3 = k@.subrange(e2 + 1, e3 as int);
    if t3_len < 2 {
        return None;
    }
    if k.get_char(e2 + 1) != '(' {
        proof {
            assert(t3[0] != '(');
        }
        return None;
    }
    if k.get_char(e3 - 1) != ')' {
        proof {
            assert(t3[t3.len() - 1] != ')');
        }
        return None;
    }
    proof {
        assert(t3[0] == '(' && t3[t3.len() - 1] == ')');
        assert(k@.subrange(e2 + 2, e3 - 1) =~= t3.subrange(1, t3.len() - 1));
    }
    Some(
        KeyParts {
            name: k.substring_char(0, e1).to_owned(),
            installed: k.substring_char(e1 + 1, e2).to_owned(),
            source: k.substring_char(e2 + 2, e3 - 1).to_owned(),
        },
    )
}

/// Law: a composite key assembled as `<name> <version> (<source>)` parses
/// back to exactly those three fields, unchanged, as long as none of them
/// contains a space.
pub proof fn lemma_key_round_trip(name: Seq<char>, version: Seq<char>, source: Seq<char>)
    requires
        clean_of(name, ' '),
        clean_of(version, ' '),
        clean_of(source, ' '),
    ensures
        parse_key_spec(
            name + seq![' '] + version + seq![' '] + seq!['('] + source + seq![')'],
        ) == Some(KeyPartsModel { name, installed: version, source }),
{
    let k = name + seq![' '] + version + seq![' '] + seq!['('] + source + seq![')'];
    let e1 = name.len() as int;
    let e2 = e1 + 1 + version.len();
    let e3 = k.len() as int;
    assert(k.len() == name.len() + version.len() + source.len() + 4);
    assert forall|j: int| 0 <= j < e1 implies k[j] != ' ' by {
        assert(k[j] == name[j]);
    }
    assert(k[e1] == ' ');
    lemma_token_end_pinned(k, ' ', 0, e1);
    assert forall|j: int| e1 + 1 <= j < e2 implies k[j] != ' ' by {
        assert(k[j] == version[j - (e1 + 1)]);
    }
    assert(k[e2] == ' ');
    lemma_token_end_pinned(k, ' ', e1 + 1, e2);
    assert(k[e2 + 1] == '(');
    assert(k[e3 - 1] == ')');
    assert forall|j: int| e2 + 1 <= j < e3 implies k[j] != ' ' by {
        if j > e2 + 1 && j < e3 - 1 {
            assert(k[j] == source[j - (e2 + 2)]);
        }
    }
    lemma_token_end_pinned(k, ' ', e2 + 1, e3);
    let t3 = k.subrange(e2 + 1, e3);
    assert(t3.len() == source.len() + 2);
    assert(t3[0] == '(' && t3[t3.len() - 1] == ')');
    assert(k.subrange(0, e1) =~= name);
    assert(k.subrange(e1 + 1, e2) =~= version);
    assert(t3.subrange(1, t3.len() - 1) =~= source);
    assert(parse_key_spec(k) == Some(KeyPartsModel { name, installed: version, source }));
}

/// The compiler-string prefix that every record's compiler field must carry.
pub open spec fn rustc_prefix() -> Seq<char> {
    seq!['r', 'u', 's', 't', 'c', ' ']
}

/// The compiler version embedded in a record's compiler string: the token
/// after the `"rustc "` prefix, up to the next space or the end. `None` when
/// the prefix is absent.
pub open spec fn parse_rustc_spec(rustc: Seq<char>) -> Option<Seq<char>> {
    if rustc_prefix().is_prefix_of(rustc) {
        Some(rustc.subrange(6, token_end(rustc, ' ', 6)))
    } else {
        None
    }
}

/// Extract the compiler version out of a record's compiler string.
pub fn parse_rustc_version(rustc: &str) -> (r: Option<String>)
    ensures
        r is Some <==> parse_rustc_spec(rustc@) is Some,
        r is Some ==> r->0@ == parse_rustc_spec(rustc@)->0,
{
    let n: usize = rustc.unicode_len();
    if n < 6 {
        proof {
            assert(!rustc_prefix().is_prefix_of(rustc@));
        }
        return None;
    }
    proof {
        reveal_strlit("rustc ");
        assert("rustc "@ =~= rustc_prefix());
    }
    if !segment_eq(rustc, 0, 6, "rustc ") {
        proof {
            assert(!rustc_prefix().is_prefix_of(rustc@));
        }
        return None;
    }
    proof {
        assert(rustc_prefix().is_prefix_of(rustc@)) by {
            assert(rustc@.subrange(0, 6) =~= rustc_prefix());
        }
    }
    let e = scan_to(rustc, ' ', 6);
    Some(rustc.substring_char(6, e).to_owned())
}

/// The word that introduces the compiler version in the toolchain manager's
/// output.
pub open spec fn rustc_word() -> Seq<char> {
    seq!['r', 'u', 's', 't', 'c']
}

/// A line with its trailing carriage return removed.
pub open spec fn strip_cr(line: Seq<char>) -> Seq<char> {
    if line.len() > 0 && line[line.len() - 1] == '\r' {
        line.drop_last()
    } else {
        line
    }
}

/// The token after the first `rustc` token of a line, scanning from `from`:
/// `None` when no `rustc` token follows, or nothing follows it.
pub open spec fn line_version_from(line: Seq<char>, from: int) -> Option<Seq<char>>
    decreases line.len() - from,
    via line_version_from_decreases
{
    if from < 0 || from > line.len() {
        None
    } else {
        let e = token_end(line, ' ', from);
        if line.subrange(from, e) == rustc_word() {
            if e < line.len() {
                Some(line.subrange(e + 1, token_end(line, ' ', e + 1)))
            } else {
                None
            }
        } else if e >= line.len() {
            None
        } else {
            line_version_from(line, e + 1)
        }
    }
}

#[via_fn]
proof fn line_version_from_decreases(line: Seq<char>, from: int) {
    if 0 <= from <= line.len() {
        lemma_token_end(line, ' ', from);
    }
}

/// The compiler version found in the toolchain output at or after `from`:
/// the first line that yields one decides, and a run with none yields the
/// empty string.
pub open spec fn active_version_from(out: Seq<char>, from: int) -> Seq<char>
    decreases out.len() - from,
    via active_version_from_decreases
{
    if from < 0 || from > out.len() {
        Seq::empty()
    } else {
        let e = token_end(out, '\n', from);
        let line = strip_cr(out.subrange(from, e));
        match line_version_from(line, 0) {
            Some(v) => v,
            None => if e >= out.len() {
                Seq::empty()
            } else {
                active_version_from(out, e + 1)
            },
        }
    }
}

#[via_fn]
proof fn active_version_from_decreases(out: Seq<char>, from: int) {
    if 0 <= from <= out.len() {
        lemma_token_end(out, '\n', from);
    }
}

/// The compiler version the toolchain output names, or the empty string when
/// its shape is not recognized (staleness checks are then never triggered).
pub open spec fn active_version_spec(out: Seq<char>) -> Seq<char> {
    active_version_from(out, 0)
}

/// The token after the first `rustc` token of one line.
fn line_version(line: &str) -> (r: Option<String>)
    ensures
        r is Some <==> line_version_from(line@, 0) is Some,
        r is Some ==> r->0@ == line_version_from(line@, 0)->0,
{
    let n: usize = line.unicode_len();
    proof {
        reveal_strlit("rustc");
        assert("rustc"@ =~= rustc_word());
    }
    let mut p: usize = 0;
    loop
        invariant
            0 <= p <= n,
            n == line@.len(),
            "rustc"@ == rustc_word(),
            line_version_from(line@, 0) == line_version_from(line@, p as int),
        decreases n - p,
    {
        let e = scan_to(line, ' ', p);
        if segment_eq(line, p, e, "rustc") {
            proof {
                assert(line@.subrange(p as int, e as int) == rustc_word());
            }
            if e < n {
                let e2 = scan_to(line, ' ', e + 1);
                proof {
                    assert(line_version_from(line@, p as int) == Some(
                        line@.subrange(e + 1, e2 as int),
                    ));
                }
                return Some(line.substring_char(e + 1, e2).to_owned());
            } else {
                proof {
                    assert(line_version_from(line@, p as int) is None);
                }
                return None;
            }
        } else if e >= n {
            proof {
                assert(line@.subrange(p as int, e as int) != rustc_word());
                assert(line_version_from(line@, p as int) is None);
            }
            return None;
        } else {
            proof {
                assert(line@.subrange(p as int, e as int) != rustc_word());
                assert(line_version_from(line@, p as int) == line_version_from(
                    line@,
                    e + 1 as int,
                ));
            }
            p = e + 1;
        }
    }
}

/// Extract the active compiler version from the toolchain manager's output.
/// An output whose shape is not recognized yields the empty string, so that
/// staleness against the toolchain is simply never flagged.
pub fn active_version_of(out: &str) -> (r: String)
    ensures
        r@ == active_version_spec(out@),
{
    let n: usize = out.unicode_len();
    let mut p: usize = 0;
    loop
        invariant
            0 <= p <= n,
            n == out@.len(),
            active_version_spec(out@) == active_version_from(out@, p as int),
        decreases n - p,
    {
        let e = scan_to(out, '\n', p);
        let raw_line = out.substring_char(p, e);
        proof {
            lemma_token_end(out@, '\n', p as int);
        }
        let rn: usize = raw_line.unicode_len();
        let line = if rn > 0 && raw_line.get_char(rn - 1) == '\r' {
            raw_line.substring_char(0, rn - 1)
        } else {
            raw_line
        };
        proof {
            assert(line@ =~= strip_cr(out@.subrange(p as int, e as int)));
        }
        match line_version(line) {
            Some(v) => {
                return v;
            },
            None => {
                if e >= n {
                    let r = String::new();
                    proof {
                        assert(active_version_from(out@, p as int) =~= Seq::<char>::empty());
                    }
                    return r;
                }
                p = e + 1;
            },
        }
    }
}

} // verus!
