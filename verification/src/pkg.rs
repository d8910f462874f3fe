//! One installed package: the raw metadata record it was loaded from, the
//! classified and enriched form, and the command line that would update it.

use vstd::prelude::*;
use vstd::string::{StrSliceExecFns, StringExecFns};
use crate::errors::{Error, ErrorKind, ErrorModel};
use crate::kind::{git_prefix, kind_of_source, Kind};
use crate::parse::{parse_key, parse_key_spec, parse_rustc_spec, parse_rustc_version};
use crate::resolve::{latest, latest_spec, VersionRecord, VersionRecordModel};
use crate::text::{clone_opt, clone_strings, join_char, join_commas, scan_to, str_eq, token_end};

verus! {

/// The per-package object of the metadata file, as deserialized: everything
/// the installer recorded at install time.
#[derive(Debug, Clone, PartialEq)]
pub struct RawCrate {
    pub version_req: Option<String>,
    pub bins: Vec<String>,
    pub features: Vec<String>,
    pub all_features: bool,
    pub no_default_features: bool,
    pub profile: String,
    pub target: String,
    pub rustc: String,
}

/// The mathematical model of a [`RawCrate`].
#[verifier::ext_equal]
pub struct RawCrateModel {
    pub version_req: Option<Seq<char>>,
    pub bins: Seq<Seq<char>>,
    pub features: Seq<Seq<char>>,
    pub all_features: bool,
    pub no_default_features: bool,
    pub profile: Seq<char>,
    pub target: Seq<char>,
    pub rustc: Seq<char>,
}

impl View for RawCrate {
    type V = RawCrateModel;

    open spec fn view(&self) -> RawCrateModel {
        RawCrateModel {
            version_req: self.version_req.deep_view(),
            bins: self.bins.deep_view(),
            features: self.features.deep_view(),
            all_features: self.all_features,
            no_default_features: self.no_default_features,
            profile: self.profile@,
            target: self.target@,
            rustc: self.rustc@,
        }
    }
}

impl DeepView for RawCrate {
    type V = RawCrateModel;

    open spec fn deep_view(&self) -> RawCrateModel {
        self.view()
    }
}

/// One classified and enriched installed package.
#[derive(Debug, Clone, PartialEq)]
pub struct Crate {
    pub name: String,
    pub kind: Kind,
    pub installed: String,
    pub available: String,
    pub newer: Vec<String>,
    pub rust_version: String,
    pub outdated: bool,
    pub outdated_rust: bool,
    pub source: String,
    pub version_req: Option<String>,
    pub bins: Vec<String>,
    pub features: Vec<String>,
    pub all_features: bool,
    pub no_default_features: bool,
    pub profile: String,
    pub target: String,
    pub rustc: String,
}

/// The mathematical model of a [`Crate`].
#[verifier::ext_equal]
pub struct CrateModel {
    pub name: Seq<char>,
    pub kind: Kind,
    pub installed: Seq<char>,
    pub available: Seq<char>,
    pub newer: Seq<Seq<char>>,
    pub rust_version: Seq<char>,
    pub outdated: bool,
    pub outdated_rust: bool,
    pub source: Seq<char>,
    pub version_req: Option<Seq<char>>,
    pub bins: Seq<Seq<char>>,
    pub features: Seq<Seq<char>>,
    pub all_features: bool,
    pub no_default_features: bool,
    pub profile: Seq<char>,
    pub target: Seq<char>,
    pub rustc: Seq<char>,
}

impl View for Crate {
    type V = CrateModel;

    open spec fn view(&self) -> CrateModel {
        CrateModel {
            name: self.name@,
            kind: self.kind,
            installed: self.installed@,
            available: self.available@,
            newer: self.newer.deep_view(),
            rust_version: self.rust_version@,
            outdated: self.outdated,
            outdated_rust: self.outdated_rust,
            source: self.source@,
            version_req: self.version_req.deep_view(),
            bins: self.bins.deep_view(),
            features: self.features.deep_view(),
            all_features: self.all_features,
            no_default_features: self.no_default_features,
            profile: self.profile@,
            target: self.target@,
            rustc: self.rustc@,
        }
    }
}

impl DeepView for Crate {
    type V = CrateModel;

    open spec fn deep_view(&self) -> CrateModel {
        self.view()
    }
}

/// The model of a fallible step that yields a package.
pub open spec fn crate_result_model(r: Result<Crate, Error>) -> Result<CrateModel, ErrorModel> {
    match r {
        Ok(c) => Ok(c@),
        Err(e) => Err(e@),
    }
}

/// What classification yields for one record: the key split into name,
/// installed version and source; the kind decided by the source prefix; the
/// compiler version pulled out of the record's compiler string; and the
/// staleness flag against the active compiler version (never set when that
/// version is unknown, i.e. empty). Version fields that only enrichment can
/// fill stay empty and the package is not yet outdated.
pub open spec fn classify_spec(
    key: Seq<char>,
    raw: RawCrateModel,
    active_version: Seq<char>,
) -> Result<CrateModel, ErrorModel> {
    match parse_key_spec(key) {
        None => Err(
            ErrorModel { kind: ErrorKind::Parse, detail: key + ": invalid crate key"@ },
        ),
        Some(parts) => match parse_rustc_spec(raw.rustc) {
            None => Err(
                ErrorModel {
                    kind: ErrorKind::Parse,
                    detail: key + ": invalid rustc version string"@,
                },
            ),
            Some(rv) => Ok(
                CrateModel {
                    name: parts.name,
                    kind: kind_of_source(parts.source),
                    installed: parts.installed,
                    available: Seq::empty(),
                    newer: Seq::empty(),
                    rust_version: rv,
                    outdated: false,
                    outdated_rust: active_version.len() > 0 && rv != active_version,
                    source: parts.source,
                    version_req: raw.version_req,
                    bins: raw.bins,
                    features: raw.features,
                    all_features: raw.all_features,
                    no_default_features: raw.no_default_features,
                    profile: raw.profile,
                    target: raw.target,
                    rustc: raw.rustc,
                },
            ),
        },
    }
}

impl Crate {
    /// Classify one raw record under its composite key: parse the key and
    /// the compiler string, decide the kind, and flag staleness against the
    /// active compiler version.
    pub fn classify(key: &str, raw: &RawCrate, active_version: &str) -> (r: Result<Crate, Error>)
        ensures
            crate_result_model(r) == classify_spec(key@, raw@, active_version@),
    {
        let parts = match parse_key(key) {
            Some(p) => p,
            None => {
                let mut d = key.to_owned();
                d.append(": invalid crate key");
                return Err(Error::new(ErrorKind::Parse, d));
            },
        };
        let rv = match parse_rustc_version(raw.rustc.as_str()) {
            Some(v) => v,
            None => {
                let mut d = key.to_owned();
                d.append(": invalid rustc version string");
                return Err(Error::new(ErrorKind::Parse, d));
            },
        };
        let kd = Kind::from(parts.source.as_str());
        let stale = active_version.unicode_len() > 0 && !str_eq(
            rv.as_str(),
            active_version,
        );
        let c = Crate {
            name: parts.name,
            kind: kd,
            installed: parts.installed,
            available: String::new(),
            newer: Vec::new(),
            rust_version: rv,
            outdated: false,
            outdated_rust: stale,
            source: parts.source,
            version_req: clone_opt(&raw.version_req),
            bins: clone_strings(&raw.bins),
            features: clone_strings(&raw.features),
            all_features: raw.all_features,
            no_default_features: raw.no_default_features,
            profile: raw.profile.clone(),
            target: raw.target.clone(),
            rustc: raw.rustc.clone(),
        };
        proof {
            assert(c@.newer =~= Seq::<Seq<char>>::empty());
            assert(c@ =~= classify_spec(key@, raw@, active_version@)->Ok_0);
        }
        Ok(c)
    }
}

/// The model of a fetch of one package's registry versions: the records, or
/// the text of the failure.
pub open spec fn outcome_model(o: Result<Vec<VersionRecord>, String>) -> Result<
    Seq<VersionRecordModel>,
    Seq<char>,
> {
    match o {
        Ok(v) => Ok(v.deep_view()),
        Err(s) => Err(s@),
    }
}

/// What enrichment yields: packages that are not external pass through
/// unchanged; an external package takes the resolved available version and
/// the newer list, and is outdated exactly when the installed version is not
/// the available one. A failed fetch, and a failed resolution, are owed as
/// errors prefixed with the package name.
pub open spec fn enrich_spec(
    c: CrateModel,
    outcome: Result<Seq<VersionRecordModel>, Seq<char>>,
) -> Result<CrateModel, ErrorModel> {
    if c.kind != Kind::External {
        Ok(c)
    } else {
        match outcome {
            Err(msg) => Err(
                ErrorModel { kind: ErrorKind::Response, detail: c.name + ": "@ + msg },
            ),
            Ok(rs) => match latest_spec(rs, c.version_req) {
                Ok(p) => Ok(
                    CrateModel {
                        available: p.0,
                        newer: p.1,
                        outdated: c.installed != p.0,
                        ..c
                    },
                ),
                Err(e) => Err(
                    ErrorModel { kind: e.kind, detail: c.name + ": "@ + e.detail },
                ),
            },
        }
    }
}

impl Crate {
    /// Enrich an external package with what its registry fetch returned:
    /// resolve the available version and decide staleness. Packages of other
    /// kinds pass through unchanged.
    pub fn enrich(self, outcome: &Result<Vec<VersionRecord>, String>) -> (r: Result<Crate, Error>)
        ensures
            crate_result_model(r) == enrich_spec(self@, outcome_model(*outcome)),
    {
        if self.kind != Kind::External {
            return Ok(self);
        }
        let records = match outcome {
            Err(msg) => {
                let mut d = self.name.clone();
                d.append(": ");
                d.append(msg.as_str());
                return Err(Error::new(ErrorKind::Response, d));
            },
            Ok(records) => records,
        };
        match latest(records, &self.version_req) {
            Ok((avail, newer)) => {
                let stale = !str_eq(self.installed.as_str(), avail.as_str());
                let mut c = self;
                c.available = avail;
                c.newer = newer;
                c.outdated = stale;
                proof {
                    assert(c@ =~= enrich_spec(self@, outcome_model(*outcome))->Ok_0);
                }
                Ok(c)
            },
            Err(e) => {
                let mut d = self.name.clone();
                d.append(": ");
                d.append(e.detail.as_str());
                Err(Error::new(e.kind, d))
            },
        }
    }
}

/// The repository address inside a version-control source: what stands
/// between the `git+` prefix and the revision fragment.
pub open spec fn git_url_of(source: Seq<char>) -> Seq<char> {
    source.subrange(4, token_end(source, '#', 0))
}

/// A package whose fields fit together well enough to build an update
/// command: the kind is the one its source classifies as, and a
/// version-control source carries a revision fragment.
pub open spec fn update_ready(c: CrateModel) -> bool {
    &&& c.kind == kind_of_source(c.source)
    &&& c.kind == Kind::Git ==> token_end(c.source, '#', 0) < c.source.len()
}

/// The tokens of the command that reinstalls the package: the base command,
/// the recorded feature flags, the version pin unless asked to ignore it,
/// the recorded profile and target, a force flag when the package was built
/// by a stale compiler, and either the repository plus its binaries for a
/// version-control package or the bare name otherwise.
pub open spec fn update_command_spec(c: CrateModel, pinned: bool) -> Seq<Seq<char>> {
    seq!["cargo"@, "install"@] + (if c.no_default_features {
        seq!["--no-default-features"@]
    } else {
        Seq::<Seq<char>>::empty()
    }) + (if c.features.len() > 0 {
        seq!["-F"@, join_char(c.features, ',')]
    } else {
        Seq::<Seq<char>>::empty()
    }) + (match c.version_req {
        Some(v) => if !pinned {
            seq!["--version"@, v]
        } else {
            Seq::<Seq<char>>::empty()
        },
        None => Seq::<Seq<char>>::empty(),
    }) + seq!["--profile"@, c.profile, "--target"@, c.target] + (if c.outdated_rust {
        seq!["--force"@]
    } else {
        Seq::<Seq<char>>::empty()
    }) + (if c.kind == Kind::Git {
        seq!["--git"@, git_url_of(c.source)] + c.bins
    } else {
        seq![c.name]
    })
}

impl Crate {
    /// Build the command line that reinstalls this package; with `pinned`
    /// set, the recorded version requirement is left out so the newest
    /// version wins.
    #[verifier::rlimit(60)]
    pub fn update_command(&self, pinned: bool) -> (r: Vec<String>)
        requires
            update_ready(self@),
        ensures
            r.deep_view() == update_command_spec(self@, pinned),
    {
        let mut r: Vec<String> = Vec::new();
        r.push(String::from_str("cargo"));
        r.push(String::from_str("install"));
        let ghost g0 = seq!["cargo"@, "install"@];
        proof {
            assert(r.deep_view() =~= g0);
        }

        if self.no_default_features {
            r.push(String::from_str("--no-default-features"));
        }
        let ghost g1 = g0 + (if self@.no_default_features {
            seq!["--no-default-features"@]
        } else {
            Seq::<Seq<char>>::empty()
        });
        proof {
            assert(r.deep_view() =~= g1);
        }

        if self.features.len() > 0 {
            r.push(String::from_str("-F"));
            r.push(join_commas(&self.features));
        }
        let ghost g2 = g1 + (if self@.features.len() > 0 {
            seq!["-F"@, join_char(self@.features, ',')]
        } else {
            Seq::<Seq<char>>::empty()
        });
        proof {
            assert(r.deep_view() =~= g2);
        }

        if !pinned {
            match &self.version_req {
                Some(v) => {
                    r.push(String::from_str("--version"));
                    r.push(v.clone());
                },
                None => {},
            }
        }
        let ghost g3 = g2 + (match self@.version_req {
            Some(v) => if !pinned {
                seq!["--version"@, v]
            } else {
                Seq::<Seq<char>>::empty()
            },
            None => Seq::<Seq<char>>::empty(),
        });
        proof {
            assert(r.deep_view() =~= g3);
        }

        r.push(String::from_str("--profile"));
        r.push(self.profile.clone());
        r.push(String::from_str("--target"));
        r.push(self.target.clone());
        let ghost g4 = g3 + seq!["--profile"@, self@.profile, "--target"@, self@.target];
        proof {
            assert(r.deep_view() =~= g4);
        }

        if self.outdated_rust {
            r.push(String::from_str("--force"));
        }
        let ghost g5 = g4 + (if self@.outdated_rust {
            seq!["--force"@]
        } else {
            Seq::<Seq<char>>::empty()
        });
        proof {
            assert(r.deep_view() =~= g5);
        }

        if self.kind == Kind::Git {
            proof {
                assert(git_prefix().is_prefix_of(self@.source));
            }
            let e = scan_to(self.source.as_str(), '#', 0);
            proof {
                crate::text::lemma_token_end(self@.source, '#', 0);
                assert(e < self@.source.len());
                assert(self@.source[e as int] == '#');
                assert(e >= 4) by {
                    if e < 4 {
                        assert(self@.source.subrange(0, 4) =~= git_prefix());
                        assert(self@.source[e as int] == git_prefix()[e as int]);
                        assert(git_prefix()[e as int] != '#');
                    }
                }
            }
            r.push(String::from_str("--git"));
            r.push(self.source.as_str().substring_char(4, e).to_owned());
            let ghost g6 = g5 + seq!["--git"@, git_url_of(self@.source)];
            proof {
                assert(r.deep_view() =~= g6);
            }
            let n = self.bins.len();
            let mut i: usize = 0;
            while i < n
                invariant
                    0 <= i <= n,
                    n == self.bins.len(),
                    r.deep_view() == g6 + self@.bins.take(i as int),
                decreases n - i,
            {
                let ghost prev = r.deep_view();
                r.push(self.bins[i].clone());
                proof {
                    assert(r.deep_view() =~= prev.push(self@.bins[i as int]));
                    assert(r.deep_view() =~= g6 + self@.bins.take(i + 1));
                }
                i = i + 1;
            }
            proof {
                assert(self@.bins.take(n as int) =~= self@.bins);
                assert(r.deep_view() =~= update_command_spec(self@, pinned));
            }
        } else {
            r.push(self.name.clone());
            proof {
                assert(r.deep_view() =~= g5 + seq![self@.name]);
                assert(r.deep_view() =~= update_command_spec(self@, pinned));
            }
        }
        r
    }
}

} // verus!
