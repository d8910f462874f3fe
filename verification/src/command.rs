//! Reading an update command line back: the inverse of the command builder.
//! Re-parsing the tokens of a generated command recovers the build metadata
//! that produced it, which the round-trip law at the bottom states.

use vstd::prelude::*;
use crate::kind::Kind;
use crate::pkg::{git_url_of, update_command_spec, update_ready, CrateModel};
use crate::text::{clean_of, join_char, lemma_split_join, split_char, split_commas, str_eq};

verus! {

/// The build metadata recovered from an update command line.
#[derive(Debug, Clone, PartialEq)]
pub struct UpdateParts {
    pub no_default_features: bool,
    pub features: Vec<String>,
    pub version_req: Option<String>,
    pub profile: String,
    pub target: String,
    pub force: bool,
    pub git_url: Option<String>,
    pub bins: Vec<String>,
    pub name: Option<String>,
}

/// The mathematical model of [`UpdateParts`].
#[verifier::ext_equal]
pub struct UpdatePartsModel {
    pub no_default_features: bool,
    pub features: Seq<Seq<char>>,
    pub version_req: Option<Seq<char>>,
    pub profile: Seq<char>,
    pub target: Seq<char>,
    pub force: bool,
    pub git_url: Option<Seq<char>>,
    pub bins: Seq<Seq<char>>,
    pub name: Option<Seq<char>>,
}

impl View for UpdateParts {
    type V = UpdatePartsModel;

    open spec fn view(&self) -> UpdatePartsModel {
        UpdatePartsModel {
            no_default_features: self.no_default_features,
            features: self.features.deep_view(),
            version_req: self.version_req.deep_view(),
            profile: self.profile@,
            target: self.target@,
            force: self.force,
            git_url: self.git_url.deep_view(),
            bins: self.bins.deep_view(),
            name: self.name.deep_view(),
        }
    }
}

impl DeepView for UpdateParts {
    type V = UpdatePartsModel;

    open spec fn deep_view(&self) -> UpdatePartsModel {
        self.view()
    }
}

/// Whether position `p` of the token list exists and holds exactly `w`.
pub open spec fn tok_at(toks: Seq<Seq<char>>, p: int, w: Seq<char>) -> bool {
    0 <= p < toks.len() && toks[p] == w
}

/// What re-parsing an update command line yields: the flags and values the
/// builder lays down, read back in the builder's order. `None` when the
/// tokens do not have that shape.
pub open spec fn parse_update_spec(toks: Seq<Seq<char>>) -> Option<UpdatePartsModel> {
    if toks.len() < 2 || toks[0] != "cargo"@ || toks[1] != "install"@ {
        None
    } else {
        let ndf = tok_at(toks, 2, "--no-default-features"@);
        let p1: int = if ndf {
            3
        } else {
            2
        };
        let hasf = tok_at(toks, p1, "-F"@);
        if hasf && p1 + 1 >= toks.len() {
            None
        } else {
            let features = if hasf {
                split_char(toks[p1 + 1], ',')
            } else {
                Seq::<Seq<char>>::empty()
            };
            let p2: int = if hasf {
                p1 + 2
            } else {
                p1
            };
            let hasv = tok_at(toks, p2, "--version"@);
            if hasv && p2 + 1 >= toks.len() {
                None
            } else {
                let version_req = if hasv {
                    Some(toks[p2 + 1])
                } else {
                    None::<Seq<char>>
                };
                let p3: int = if hasv {
                    p2 + 2
                } else {
                    p2
                };
                if !(tok_at(toks, p3, "--profile"@) && p3 + 1 < toks.len() && tok_at(
                    toks,
                    p3 + 2,
                    "--target"@,
                ) && p3 + 3 < toks.len()) {
                    None
                } else {
                    let profile = toks[p3 + 1];
                    let target = toks[p3 + 3];
                    let p4 = p3 + 4;
                    let force = tok_at(toks, p4, "--force"@);
                    let p5: int = if force {
                        p4 + 1
                    } else {
                        p4
                    };
                    if tok_at(toks, p5, "--git"@) {
                        if p5 + 1 >= toks.len() {
                            None
                        } else {
                            Some(
                                UpdatePartsModel {
                                    no_default_features: ndf,
                                    features,
                                    version_req,
                                    profile,
                                    target,
                                    force,
                                    git_url: Some(toks[p5 + 1]),
                                    bins: toks.skip(p5 + 2),
                                    name: None,
                                },
                            )
                        }
                    } else if p5 == toks.len() - 1 {
                        Some(
                            UpdatePartsModel {
                                no_default_features: ndf,
                                features,
                                version_req,
                                profile,
                                target,
                                force,
                                git_url: None,
                                bins: Seq::empty(),
                                name: Some(toks[p5]),
                            },
                        )
                    } else {
                        None
                    }
                }
            }
        }
    }
}

/// Whether the token at `p` equals `w`.
fn is_tok(toks: &Vec<String>, p: usize, w: &str) -> (r: bool)
    ensures
        r == tok_at(toks.deep_view(), p as int, w@),
{
    p < toks.len() && str_eq(toks[p].as_str(), w)
}

/// Re-parse an update command line into the build metadata it encodes.
#[verifier::rlimit(60)]
pub fn parse_update_command(toks: &Vec<String>) -> (r: Option<UpdateParts>)
    ensures
        r is Some <==> parse_update_spec(toks.deep_view()) is Some,
        r matches Some(u) ==> u@ == parse_update_spec(toks.deep_view())->0,
{
    let ghost tm = toks.deep_view();
    if toks.len() < 2 || !str_eq(toks[0].as_str(), "cargo") || !str_eq(
        toks[1].as_str(),
        "install",
    ) {
        return None;
    }
    let ndf = is_tok(toks, 2, "--no-default-features");
    let p1: usize = if ndf {
        3
    } else {
        2
    };
    let hasf = is_tok(toks, p1, "-F");
    if hasf && p1 + 1 >= toks.len() {
        return None;
    }
    let features: Vec<String> = if hasf {
        split_commas(toks[p1 + 1].as_str())
    } else {
        Vec::new()
    };
    proof {
        if !hasf {
            assert(features.deep_view() =~= Seq::<Seq<char>>::empty());
        }
    }
    let p2: usize = if hasf {
        p1 + 2
    } else {
        p1
    };
    let hasv = is_tok(toks, p2, "--version");
    if hasv && p2 + 1 >= toks.len() {
        return None;
    }
    let version_req: Option<String> = if hasv {
        Some(toks[p2 + 1].clone())
    } else {
        None
    };
    let p3: usize = if hasv {
        p2 + 2
    } else {
        p2
    };
    if !(is_tok(toks, p3, "--profile") && p3 + 1 < toks.len() && is_tok(toks, p3 + 2, "--target")
        && p3 + 3 < toks.len()) {
        return None;
    }
    let profile = toks[p3 + 1].clone();
    let target = toks[p3 + 3].clone();
    let p4 = p3 + 4;
    let force = is_tok(toks, p4, "--force");
    let p5: usize = if force {
        p4 + 1
    } else {
        p4
    };
    if is_tok(toks, p5, "--git") {
        if p5 + 1 >= toks.len() {
            return None;
        }
        let git_url = Some(toks[p5 + 1].clone());
        let mut bins: Vec<String> = Vec::new();
        let mut i: usize = p5 + 2;
        while i < toks.len()
            invariant
                p5 + 2 <= i <= toks.len(),
                tm == toks.deep_view(),
                bins.deep_view() == tm.subrange(p5 + 2 as int, i as int),
            decreases toks.len() - i,
        {
            let ghost prev = bins.deep_view();
            bins.push(toks[i].clone());
            proof {
                assert(bins.deep_view() =~= prev.push(tm[i as int]));
                assert(bins.deep_view() =~= tm.subrange(p5 + 2 as int, i + 1 as int));
            }
            i = i + 1;
        }
        proof {
            assert(bins.deep_view() =~= tm.skip(p5 + 2 as int));
        }
        Some(
            UpdateParts {
                no_default_features: ndf,
                features,
                version_req,
                profile,
                target,
                force,
                git_url,
                bins,
                name: None,
            },
        )
    } else if p5 == toks.len() - 1 {
        Some(
            UpdateParts {
                no_default_features: ndf,
                features,
                version_req,
                profile,
                target,
                force,
                git_url: None,
                bins: Vec::new(),
                name: Some(toks[p5].clone()),
            },
        )
    } else {
        None
    }
}

/// A package whose update command survives the round trip: no feature name
/// carries a comma, and — for packages reinstalled by name — the name is not
/// itself one of the trailing flags.
pub open spec fn command_clean(c: CrateModel) -> bool {
    &&& forall|i: int| 0 <= i < c.features.len() ==> clean_of(#[trigger] c.features[i], ',')
    &&& c.kind != Kind::Git ==> c.name != "--force"@ && c.name != "--git"@
}

/// Law: re-parsing a generated update command recovers the originating
/// package's build metadata — its feature flags, profile, target and force
/// flag always; its version pin whenever the command was built to respect
/// it; and its repository and binaries (for a version-control package) or
/// its name (otherwise).
#[verifier::rlimit(100)]
pub proof fn lemma_command_round_trip(c: CrateModel, pinned: bool)
    requires
        update_ready(c),
        command_clean(c),
    ensures
        parse_update_spec(update_command_spec(c, pinned)) == Some(
            UpdatePartsModel {
                no_default_features: c.no_default_features,
                features: c.features,
                version_req: if pinned {
                    None
                } else {
                    c.version_req
                },
                profile: c.profile,
                target: c.target,
                force: c.outdated_rust,
                git_url: if c.kind == Kind::Git {
                    Some(git_url_of(c.source))
                } else {
                    None
                },
                bins: if c.kind == Kind::Git {
                    c.bins
                } else {
                    Seq::empty()
                },
                name: if c.kind == Kind::Git {
                    None
                } else {
                    Some(c.name)
                },
            },
        ),
{
    reveal_strlit("cargo");
    reveal_strlit("install");
    reveal_strlit("--no-default-features");
    reveal_strlit("-F");
    reveal_strlit("--version");
    reveal_strlit("--profile");
    reveal_strlit("--target");
    reveal_strlit("--force");
    reveal_strlit("--git");
    assert("--no-default-features"@.len() == 21);
    assert("-F"@.len() == 2);
    assert("--version"@.len() == 9);
    assert("--profile"@.len() == 9);
    assert("--version"@[2] == 'v');
    assert("--profile"@[2] == 'p');
    assert("--target"@.len() == 8);
    assert("--force"@.len() == 7);
    assert("--git"@.len() == 5);
    let toks = update_command_spec(c, pinned);
    let s_ndf = if c.no_default_features {
        seq!["--no-default-features"@]
    } else {
        Seq::<Seq<char>>::empty()
    };
    let s_f = if c.features.len() > 0 {
        seq!["-F"@, join_char(c.features, ',')]
    } else {
        Seq::<Seq<char>>::empty()
    };
    let s_v = match c.version_req {
        Some(v) => if !pinned {
            seq!["--version"@, v]
        } else {
            Seq::<Seq<char>>::empty()
        },
        None => Seq::<Seq<char>>::empty(),
    };
    let s_pt = seq!["--profile"@, c.profile, "--target"@, c.target];
    let s_force = if c.outdated_rust {
        seq!["--force"@]
    } else {
        Seq::<Seq<char>>::empty()
    };
    let s_tail = if c.kind == Kind::Git {
        seq!["--git"@, git_url_of(c.source)] + c.bins
    } else {
        seq![c.name]
    };
    assert(toks =~= seq!["cargo"@, "install"@] + s_ndf + s_f + s_v + s_pt + s_force + s_tail);
    let p1: int = 2 + s_ndf.len() as int;
    let p2: int = p1 + s_f.len() as int;
    let p3: int = p2 + s_v.len() as int;
    let p4: int = p3 + 4;
    let p5: int = p4 + s_force.len() as int;
    assert(toks.len() == p5 + s_tail.len());
    assert(toks[0] == "cargo"@ && toks[1] == "install"@);
    assert(tok_at(toks, 2, "--no-default-features"@) <==> c.no_default_features) by {
        if c.no_default_features {
            assert(toks[2] == s_ndf[0]);
        } else {
            if c.features.len() > 0 {
                assert(toks[2] == "-F"@);
            } else {
                match c.version_req {
                    Some(v) => if !pinned {
                        assert(toks[2] == "--version"@);
                    } else {
                        assert(toks[2] == "--profile"@);
                    },
                    None => {
                        assert(toks[2] == "--profile"@);
                    },
                }
            }
        }
    }
    assert(tok_at(toks, p1, "-F"@) <==> c.features.len() > 0) by {
        if c.features.len() > 0 {
            assert(toks[p1] == s_f[0]);
        } else {
            match c.version_req {
                Some(v) => if !pinned {
                    assert(toks[p1] == "--version"@);
                } else {
                    assert(toks[p1] == "--profile"@);
                },
                None => {
                    assert(toks[p1] == "--profile"@);
                },
            }
        }
    }
    if c.features.len() > 0 {
        assert(toks[p1 + 1] == join_char(c.features, ','));
        lemma_split_join(c.features, ',');
    }
    assert(tok_at(toks, p2, "--version"@) <==> (!pinned && c.version_req is Some)) by {
        match c.version_req {
            Some(v) => if !pinned {
                assert(toks[p2] == s_v[0]);
            } else {
                assert(toks[p2] == "--profile"@);
                assert("--version"@[2] != "--profile"@[2]);
            },
            None => {
                assert(toks[p2] == "--profile"@);
                assert("--version"@[2] != "--profile"@[2]);
            },
        }
    }
    if !pinned && c.version_req is Some {
        assert(toks[p2 + 1] == c.version_req->0);
    }
    assert(toks[p3] == "--profile"@ && toks[p3 + 1] == c.profile);
    assert(toks[p3 + 2] == "--target"@ && toks[p3 + 3] == c.target);
    assert(tok_at(toks, p4, "--force"@) <==> c.outdated_rust);
    assert(tok_at(toks, p5, "--git"@) <==> c.kind == Kind::Git);
    if c.kind == Kind::Git {
        assert(toks[p5 + 1] == git_url_of(c.source));
        assert(toks.skip(p5 + 2) =~= c.bins);
    } else {
        assert(toks[p5] == c.name);
        assert(p5 == toks.len() - 1);
    }
}

} // verus!
