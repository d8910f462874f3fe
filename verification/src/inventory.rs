//! The inventory itself: load every record of the metadata file — optionally
//! pre-filtered by name patterns — classify it, enrich external packages from
//! their registry responses, and expose the filtered views the listing shows.
//!
//! Loading collects every per-record failure and, when any occurred, reports
//! them all together rather than stopping at the first.

use vstd::prelude::*;
use vstd::string::{StrSliceExecFns, StringExecFns};
use crate::bridge::{patterns_match, patterns_match_text, patterns_ok};
use crate::errors::{Error, ErrorKind, ErrorModel};
use crate::kind::Kind;
use crate::parse::{active_version_of, active_version_spec};
use crate::pkg::{
    classify_spec, enrich_spec, outcome_model, Crate, CrateModel, RawCrate, RawCrateModel,
};
use crate::resolve::{VersionRecord, VersionRecordModel};
use crate::text::{lemma_filter_push, scan_to, str_eq, token_end};

verus! {

/// One record of the metadata file: the composite key and the object under
/// it.
#[derive(Debug, Clone, PartialEq)]
pub struct RawEntry {
    pub key: String,
    pub info: RawCrate,
}

/// The mathematical model of a [`RawEntry`].
#[verifier::ext_equal]
pub struct RawEntryModel {
    pub key: Seq<char>,
    pub info: RawCrateModel,
}

impl View for RawEntry {
    type V = RawEntryModel;

    open spec fn view(&self) -> RawEntryModel {
        RawEntryModel { key: self.key@, info: self.info@ }
    }
}

impl DeepView for RawEntry {
    type V = RawEntryModel;

    open spec fn deep_view(&self) -> RawEntryModel {
        self.view()
    }
}

/// What the registry returned for one package name: its version records, or
/// the text of the failure.
#[derive(Debug, PartialEq)]
pub struct RegistryEntry {
    pub name: String,
    pub outcome: Result<Vec<VersionRecord>, String>,
}

/// The mathematical model of a [`RegistryEntry`].
#[verifier::ext_equal]
pub struct RegistryEntryModel {
    pub name: Seq<char>,
    pub outcome: Result<Seq<VersionRecordModel>, Seq<char>>,
}

impl View for RegistryEntry {
    type V = RegistryEntryModel;

    open spec fn view(&self) -> RegistryEntryModel {
        RegistryEntryModel { name: self.name@, outcome: outcome_model(self.outcome) }
    }
}

impl DeepView for RegistryEntry {
    type V = RegistryEntryModel;

    open spec fn deep_view(&self) -> RegistryEntryModel {
        self.view()
    }
}

/// The registry outcome recorded for a name: the first entry with that name
/// decides.
pub open spec fn registry_lookup(reg: Seq<RegistryEntryModel>, name: Seq<char>) -> Option<
    Result<Seq<VersionRecordModel>, Seq<char>>,
>
    decreases reg.len(),
{
    if reg.len() == 0 {
        None
    } else if reg[0].name == name {
        Some(reg[0].outcome)
    } else {
        registry_lookup(reg.drop_first(), name)
    }
}

/// Find the registry outcome fetched for a package name.
fn lookup<'a>(registry: &'a Vec<RegistryEntry>, name: &str) -> (r: Option<
    &'a Result<Vec<VersionRecord>, String>,
>)
    ensures
        r is Some <==> registry_lookup(registry.deep_view(), name@) is Some,
        r matches Some(o) ==> outcome_model(*o) == registry_lookup(registry.deep_view(), name@)->0,
{
    let ghost rm = registry.deep_view();
    let n = registry.len();
    let mut i: usize = 0;
    proof {
        assert(rm.skip(0int) =~= rm);
    }
    while i < n
        invariant
            0 <= i <= n,
            n == registry.len(),
            rm == registry.deep_view(),
            registry_lookup(rm, name@) == registry_lookup(rm.skip(i as int), name@),
        decreases n - i,
    {
        proof {
            assert(rm.skip(i as int)[0] == rm[i as int]);
            assert(rm.skip(i as int).drop_first() =~= rm.skip(i + 1));
        }
        if str_eq(registry[i].name.as_str(), name) {
            return Some(&registry[i].outcome);
        }
        i = i + 1;
    }
    proof {
        assert(rm.skip(n as int) =~= Seq::<RegistryEntryModel>::empty());
    }
    None
}

/// The name part of a composite key: everything before the first space.
pub open spec fn name_of_key(k: Seq<char>) -> Seq<char> {
    k.subrange(0, token_end(k, ' ', 0))
}

/// The records kept under the include patterns: all of them when no pattern
/// was given, else those whose name part matches some pattern.
pub open spec fn include_spec(entries: Seq<RawEntryModel>, patterns: Seq<Seq<char>>) -> Seq<
    RawEntryModel,
> {
    if patterns.len() == 0 {
        entries
    } else {
        entries.filter(|e: RawEntryModel| patterns_match(patterns, name_of_key(e.key)))
    }
}

/// What loading one record yields: its classification, and for an external
/// package the enrichment from its registry outcome — a missing outcome is
/// owed as an error naming the package.
pub open spec fn process_entry_spec(
    e: RawEntryModel,
    active_version: Seq<char>,
    reg: Seq<RegistryEntryModel>,
) -> Result<CrateModel, ErrorModel> {
    match classify_spec(e.key, e.info, active_version) {
        Err(err) => Err(err),
        Ok(c) => if c.kind == Kind::External {
            match registry_lookup(reg, c.name) {
                None => Err(
                    ErrorModel { kind: ErrorKind::Response, detail: c.name + ": no registry data"@ },
                ),
                Some(outcome) => enrich_spec(c, outcome),
            }
        } else {
            Ok(c)
        },
    }
}

/// What loading a whole record list yields: the packages classified and
/// enriched, in order, and every per-record failure, in order.
pub open spec fn load_all_spec(
    entries: Seq<RawEntryModel>,
    active_version: Seq<char>,
    reg: Seq<RegistryEntryModel>,
) -> (Seq<CrateModel>, Seq<ErrorModel>)
    decreases entries.len(),
{
    if entries.len() == 0 {
        (Seq::empty(), Seq::empty())
    } else {
        let (cs, es) = load_all_spec(entries.drop_last(), active_version, reg);
        match process_entry_spec(entries.last(), active_version, reg) {
            Ok(c) => (cs.push(c), es),
            Err(e) => (cs, es.push(e)),
        }
    }
}

/// All installed packages, after classification and enrichment, with the
/// toolchain probe's output and the active compiler version parsed from it.
#[derive(Debug, Clone, PartialEq)]
pub struct Crates {
    installs: Vec<Crate>,
    pub active_toolchain: String,
    pub active_version: String,
}

/// The mathematical model of [`Crates`].
#[verifier::ext_equal]
pub struct CratesModel {
    pub installs: Seq<CrateModel>,
    pub active_toolchain: Seq<char>,
    pub active_version: Seq<char>,
}

impl View for Crates {
    type V = CratesModel;

    closed spec fn view(&self) -> CratesModel {
        CratesModel {
            installs: self.installs.deep_view(),
            active_toolchain: self.active_toolchain@,
            active_version: self.active_version@,
        }
    }
}

impl DeepView for Crates {
    type V = CratesModel;

    open spec fn deep_view(&self) -> CratesModel {
        self.view()
    }
}

/// What loading the whole metadata yields: invalid include patterns are
/// fatal at once; otherwise the kept records are loaded, and either every
/// failure is reported together, or the inventory stands.
pub open spec fn from_include_spec(
    entries: Seq<RawEntryModel>,
    patterns: Seq<Seq<char>>,
    toolchain: Seq<char>,
    reg: Seq<RegistryEntryModel>,
) -> Result<CratesModel, Seq<ErrorModel>> {
    if patterns.len() > 0 && !patterns_ok(patterns) {
        Err(seq![ErrorModel { kind: ErrorKind::Pattern, detail: "invalid include pattern"@ }])
    } else {
        let av = active_version_spec(toolchain);
        let (cs, es) = load_all_spec(include_spec(entries, patterns), av, reg);
        if es.len() > 0 {
            Err(es)
        } else {
            Ok(CratesModel { installs: cs, active_toolchain: toolchain, active_version: av })
        }
    }
}

/// The model of the load's result.
pub open spec fn crates_result_model(r: Result<Crates, Vec<Error>>) -> Result<
    CratesModel,
    Seq<ErrorModel>,
> {
    match r {
        Ok(c) => Ok(c@),
        Err(es) => Err(es.deep_view()),
    }
}

impl Crates {
    /// Load an inventory out of the metadata records, the toolchain probe's
    /// output and the registry outcomes, keeping only records whose name
    /// matches one of the include patterns (or all records when no pattern
    /// is given).
    pub fn from_include(
        entries: Vec<RawEntry>,
        patterns: &Vec<String>,
        toolchain: &str,
        registry: &Vec<RegistryEntry>,
    ) -> (r: Result<Crates, Vec<Error>>)
        ensures
            crates_result_model(r) == from_include_spec(
                entries.deep_view(),
                patterns.deep_view(),
                toolchain@,
                registry.deep_view(),
            ),
    {
        let ghost em = entries.deep_view();
        let ghost pm = patterns.deep_view();
        let ghost regm = registry.deep_view();

        // An empty probe settles up front whether every pattern compiles,
        // which the per-record matching below may then rely on.
        if patterns.len() > 0 {
            match patterns_match_text(patterns, "") {
                None => {
                    let mut es: Vec<Error> = Vec::new();
                    es.push(
                        Error::new(ErrorKind::Pattern, String::from_str("invalid include pattern")),
                    );
                    proof {
                        assert(es.deep_view() =~= seq![
                            ErrorModel {
                                kind: ErrorKind::Pattern,
                                detail: "invalid include pattern"@,
                            },
                        ]);
                    }
                    return Err(es);
                },
                Some(_) => {},
            }
        }

        let mut kept: Vec<RawEntry> = Vec::new();
        let mut rest = entries;
        if patterns.len() == 0 {
            kept = rest;
            proof {
                assert(kept.deep_view() =~= include_spec(em, pm));
            }
        } else {
            let ghost pred = |e: RawEntryModel| patterns_match(pm, name_of_key(e.key));
            let n = rest.len();
            let mut i: usize = 0;
            proof {
                assert(em.take(0int).filter(pred) =~= Seq::<RawEntryModel>::empty());
                assert(kept.deep_view() =~= Seq::<RawEntryModel>::empty());
            }
            while i < n
                invariant
                    0 <= i <= n,
                    n == em.len(),
                    pm == patterns.deep_view(),
                    pm.len() > 0,
                    patterns_ok(pm),
                    rest.deep_view() == em.skip(i as int),
                    kept.deep_view() == em.take(i as int).filter(pred),
                    pred == (|e: RawEntryModel| patterns_match(pm, name_of_key(e.key))),
                decreases n - i,
            {
                proof {
                    assert(rest.deep_view()[0] == em[i as int]);
                    assert(em.skip(i as int).remove(0) =~= em.skip(i + 1));
                }
                let e = rest.remove(0);
                let ghost prevk = kept.deep_view();
                let nm_end = scan_to(e.key.as_str(), ' ', 0);
                let nm = e.key.as_str().substring_char(0, nm_end);
                let keep = match patterns_match_text(patterns, nm) {
                    Some(b) => b,
                    None => {
                        proof {
                            assert(false);
                        }
                        false
                    },
                };
                proof {
                    assert(nm@ == name_of_key(em[i as int].key));
                    lemma_filter_push(em.take(i as int), pred, em[i as int]);
                    assert(em.take(i + 1).drop_last() =~= em.take(i as int));
                    assert(em.take(i + 1) =~= em.take(i as int).push(em[i as int]));
                }
                if keep {
                    kept.push(e);
                    proof {
                        assert(kept.deep_view() =~= prevk.push(em[i as int]));
                        assert(kept.deep_view() =~= em.take(i + 1).filter(pred));
                    }
                } else {
                    proof {
                        assert(kept.deep_view() =~= em.take(i + 1).filter(pred));
                    }
                }
                i = i + 1;
            }
            proof {
                assert(em.take(n as int) =~= em);
                assert(kept.deep_view() =~= include_spec(em, pm));
            }
        }
        let ghost keptm = kept.deep_view();

        let active_version = active_version_of(toolchain);
        let ghost av = active_version@;

        let mut installs: Vec<Crate> = Vec::new();
        let mut errs: Vec<Error> = Vec::new();
        let kn = kept.len();
        let mut i: usize = 0;
        proof {
            assert(load_all_spec(keptm.take(0int), av, regm) == (
                Seq::<CrateModel>::empty(),
                Seq::<ErrorModel>::empty(),
            ));
            assert(installs.deep_view() =~= Seq::<CrateModel>::empty());
            assert(errs.deep_view() =~= Seq::<ErrorModel>::empty());
        }
        while i < kn
            invariant
                0 <= i <= kn,
                kn == kept.len(),
                keptm == kept.deep_view(),
                av == active_version@,
                regm == registry.deep_view(),
                installs.deep_view() == load_all_spec(keptm.take(i as int), av, regm).0,
                errs.deep_view() == load_all_spec(keptm.take(i as int), av, regm).1,
            decreases kn - i,
        {
            let ghost previ = installs.deep_view();
            let ghost preve = errs.deep_view();
            proof {
                assert(keptm.take(i + 1).drop_last() =~= keptm.take(i as int));
                assert(keptm.take(i + 1).last() == keptm[i as int]);
            }
            let entry = &kept[i];
            match Crate::classify(entry.key.as_str(), &entry.info, active_version.as_str()) {
                Err(err) => {
                    errs.push(err);
                    proof {
                        assert(errs.deep_view() =~= preve.push(
                            process_entry_spec(keptm[i as int], av, regm)->Err_0,
                        ));
                    }
                },
                Ok(c) => {
                    if c.kind == Kind::External {
                        match lookup(registry, c.name.as_str()) {
                            None => {
                                let mut d = c.name.clone();
                                d.append(": no registry data");
                                errs.push(Error::new(ErrorKind::Response, d));
                                proof {
                                    assert(errs.deep_view() =~= preve.push(
                                        process_entry_spec(keptm[i as int], av, regm)->Err_0,
                                    ));
                                }
                            },
                            Some(outcome) => {
                                match c.enrich(outcome) {
                                    Ok(c2) => {
                                        installs.push(c2);
                                        proof {
                                            assert(installs.deep_view() =~= previ.push(
                                                process_entry_spec(keptm[i as int], av, regm)->Ok_0,
                                            ));
                                        }
                                    },
                                    Err(err) => {
                                        errs.push(err);
                                        proof {
                                            assert(errs.deep_view() =~= preve.push(
                                                process_entry_spec(
                                                    keptm[i as int],
                                                    av,
                                                    regm,
                                                )->Err_0,
                                            ));
                                        }
                                    },
                                }
                            },
                        }
                    } else {
                        installs.push(c);
                        proof {
                            assert(installs.deep_view() =~= previ.push(
                                process_entry_spec(keptm[i as int], av, regm)->Ok_0,
                            ));
                        }
                    }
                },
            }
            i = i + 1;
        }
        proof {
            assert(keptm.take(kn as int) =~= keptm);
        }
        if errs.len() > 0 {
            Err(errs)
        } else {
            let r = Crates {
                installs,
                active_toolchain: toolchain.to_owned(),
                active_version,
            };
            proof {
                assert(r@ =~= from_include_spec(em, pm, toolchain@, regm)->Ok_0);
            }
            Ok(r)
        }
    }

    /// Load an inventory out of every metadata record, with no include
    /// patterns.
    pub fn from(
        entries: Vec<RawEntry>,
        toolchain: &str,
        registry: &Vec<RegistryEntry>,
    ) -> (r: Result<Crates, Vec<Error>>)
        ensures
            crates_result_model(r) == from_include_spec(
                entries.deep_view(),
                Seq::empty(),
                toolchain@,
                registry.deep_view(),
            ),
    {
        let none: Vec<String> = Vec::new();
        proof {
            assert(none.deep_view() =~= Seq::<Seq<char>>::empty());
        }
        Crates::from_include(entries, &none, toolchain, registry)
    }

    /// Whether no package is installed.
    pub fn is_empty(&self) -> (r: bool)
        ensures
            r == (self@.installs.len() == 0),
    {
        self.installs.len() == 0
    }

    /// Every package, in load order.
    pub fn crates(&self) -> (r: Vec<&Crate>)
        ensures
            r.deep_view() == self@.installs,
    {
        let n = self.installs.len();
        let mut r: Vec<&Crate> = Vec::new();
        let mut i: usize = 0;
        while i < n
            invariant
                0 <= i <= n,
                n == self.installs.len(),
                r.deep_view() == self@.installs.take(i as int),
            decreases n - i,
        {
            let ghost prev = r.deep_view();
            r.push(&self.installs[i]);
            proof {
                assert(r.deep_view() =~= prev.push(self@.installs[i as int]));
                assert(r.deep_view() =~= self@.installs.take(i + 1));
            }
            i = i + 1;
        }
        proof {
            assert(self@.installs.take(n as int) =~= self@.installs);
        }
        r
    }
}

/// An external-registry package.
pub open spec fn sel_external(c: CrateModel) -> bool {
    c.kind == Kind::External
}

/// An external package whose installed version is not the available one.
pub open spec fn sel_outdated(c: CrateModel) -> bool {
    c.kind == Kind::External && c.outdated
}

/// An external package built by a compiler other than the active one.
pub open spec fn sel_outdated_rust(c: CrateModel) -> bool {
    c.kind == Kind::External && c.outdated_rust
}

/// An external package that is current and freshly built, but whose pin
/// skipped newer versions.
pub open spec fn sel_outdated_pinned(c: CrateModel) -> bool {
    c.kind == Kind::External && !c.outdated && !c.outdated_rust && c.newer.len() > 0
}

impl Crates {
    /// The external-registry packages, in load order.
    pub fn external(&self) -> (r: Vec<&Crate>)
        ensures
            r.deep_view() == self@.installs.filter(|c: CrateModel| sel_external(c)),
    {
        let ghost pred = |c: CrateModel| sel_external(c);
        let n = self.installs.len();
        let mut r: Vec<&Crate> = Vec::new();
        let mut i: usize = 0;
        proof {
            assert(r.deep_view() =~= self@.installs.take(0int).filter(pred));
        }
        while i < n
            invariant
                0 <= i <= n,
                n == self.installs.len(),
                pred == (|c: CrateModel| sel_external(c)),
                r.deep_view() == self@.installs.take(i as int).filter(pred),
            decreases n - i,
        {
            let ghost prev = r.deep_view();
            proof {
                lemma_filter_push(self@.installs.take(i as int), pred, self@.installs[i as int]);
                assert(self@.installs.take(i + 1) =~= self@.installs.take(i as int).push(
                    self@.installs[i as int],
                ));
            }
            let c = &self.installs[i];
            if c.kind == Kind::External {
                r.push(c);
                proof {
                    assert(r.deep_view() =~= prev.push(self@.installs[i as int]));
                }
            }
            i = i + 1;
        }
        proof {
            assert(self@.installs.take(n as int) =~= self@.installs);
        }
        r
    }

    /// The outdated external packages, in load order.
    pub fn outdated(&self) -> (r: Vec<&Crate>)
        ensures
            r.deep_view() == self@.installs.filter(|c: CrateModel| sel_outdated(c)),
    {
        let ghost pred = |c: CrateModel| sel_outdated(c);
        let n = self.installs.len();
        let mut r: Vec<&Crate> = Vec::new();
        let mut i: usize = 0;
        proof {
            assert(r.deep_view() =~= self@.installs.take(0int).filter(pred));
        }
        while i < n
            invariant
                0 <= i <= n,
                n == self.installs.len(),
                pred == (|c: CrateModel| sel_outdated(c)),
                r.deep_view() == self@.installs.take(i as int).filter(pred),
            decreases n - i,
        {
            let ghost prev = r.deep_view();
            proof {
                lemma_filter_push(self@.installs.take(i as int), pred, self@.installs[i as int]);
                assert(self@.installs.take(i + 1) =~= self@.installs.take(i as int).push(
                    self@.installs[i as int],
                ));
            }
            let c = &self.installs[i];
            if c.kind == Kind::External && c.outdated {
                r.push(c);
                proof {
                    assert(r.deep_view() =~= prev.push(self@.installs[i as int]));
                }
            }
            i = i + 1;
        }
        proof {
            assert(self@.installs.take(n as int) =~= self@.installs);
        }
        r
    }

    /// The external packages built by a stale compiler, in load order.
    pub fn outdated_rust(&self) -> (r: Vec<&Crate>)
        ensures
            r.deep_view() == self@.installs.filter(|c: CrateModel| sel_outdated_rust(c)),
    {
        let ghost pred = |c: CrateModel| sel_outdated_rust(c);
        let n = self.installs.len();
        let mut r: Vec<&Crate> = Vec::new();
        let mut i: usize = 0;
        proof {
            assert(r.deep_view() =~= self@.installs.take(0int).filter(pred));
        }
        while i < n
            invariant
                0 <= i <= n,
                n == self.installs.len(),
                pred == (|c: CrateModel| sel_outdated_rust(c)),
                r.deep_view() == self@.installs.take(i as int).filter(pred),
            decreases n - i,
        {
            let ghost prev = r.deep_view();
            proof {
                lemma_filter_push(self@.installs.take(i as int), pred, self@.installs[i as int]);
                assert(self@.installs.take(i + 1) =~= self@.installs.take(i as int).push(
                    self@.installs[i as int],
                ));
            }
            let c = &self.installs[i];
            if c.kind == Kind::External && c.outdated_rust {
                r.push(c);
                proof {
                    assert(r.deep_view() =~= prev.push(self@.installs[i as int]));
                }
            }
            i = i + 1;
        }
        proof {
            assert(self@.installs.take(n as int) =~= self@.installs);
        }
        r
    }

    /// The external packages held back only by their pin, in load order.
    pub fn outdated_pinned(&self) -> (r: Vec<&Crate>)
        ensures
            r.deep_view() == self@.installs.filter(|c: CrateModel| sel_outdated_pinned(c)),
    {
        let ghost pred = |c: CrateModel| sel_outdated_pinned(c);
        let n = self.installs.len();
        let mut r: Vec<&Crate> = Vec::new();
        let mut i: usize = 0;
        proof {
            assert(r.deep_view() =~= self@.installs.take(0int).filter(pred));
        }
        while i < n
            invariant
                0 <= i <= n,
                n == self.installs.len(),
                pred == (|c: CrateModel| sel_outdated_pinned(c)),
                r.deep_view() == self@.installs.take(i as int).filter(pred),
            decreases n - i,
        {
            let ghost prev = r.deep_view();
            proof {
                lemma_filter_push(self@.installs.take(i as int), pred, self@.installs[i as int]);
                assert(self@.installs.take(i + 1) =~= self@.installs.take(i as int).push(
                    self@.installs[i as int],
                ));
            }
            let c = &self.installs[i];
            if c.kind == Kind::External && !c.outdated && !c.outdated_rust && c.newer.len() > 0 {
                r.push(c);
                proof {
                    assert(r.deep_view() =~= prev.push(self@.installs[i as int]));
                }
            }
            i = i + 1;
        }
        proof {
            assert(self@.installs.take(n as int) =~= self@.installs);
        }
        r
    }
}

/// Every package a load yields is never outdated unless it is external.
proof fn lemma_load_all_only_external(
    entries: Seq<RawEntryModel>,
    active_version: Seq<char>,
    reg: Seq<RegistryEntryModel>,
)
    ensures
        forall|j: int|
            0 <= j < load_all_spec(entries, active_version, reg).0.len() ==> ((#[trigger] load_all_spec(
                entries,
                active_version,
                reg,
            ).0[j]).kind != Kind::External ==> !load_all_spec(entries, active_version, reg).0[j].outdated),
    decreases entries.len(),
{
    if entries.len() > 0 {
        lemma_load_all_only_external(entries.drop_last(), active_version, reg);
    }
}

/// Law: staleness is defined for external packages only — a loaded inventory
/// never flags a Local or Git package as outdated, whatever its version
/// fields.
pub proof fn lemma_only_external_outdated(
    entries: Seq<RawEntryModel>,
    patterns: Seq<Seq<char>>,
    toolchain: Seq<char>,
    reg: Seq<RegistryEntryModel>,
    j: int,
)
    requires
        from_include_spec(entries, patterns, toolchain, reg) matches Ok(m) && 0 <= j
            < m.installs.len() && m.installs[j].kind != Kind::External,
    ensures
        from_include_spec(entries, patterns, toolchain, reg) matches Ok(m)
            ==> !m.installs[j].outdated,
{
    let av = active_version_spec(toolchain);
    lemma_load_all_only_external(include_spec(entries, patterns), av, reg);
}

/// Law: loading is deterministic in its inputs — two loads of the same
/// records, patterns, toolchain output and registry outcomes yield the same
/// inventory, and in particular the same update command lines.
pub proof fn lemma_load_repeatable(
    a: Result<CratesModel, Seq<ErrorModel>>,
    b: Result<CratesModel, Seq<ErrorModel>>,
    entries: Seq<RawEntryModel>,
    patterns: Seq<Seq<char>>,
    toolchain: Seq<char>,
    reg: Seq<RegistryEntryModel>,
    pinned: bool,
)
    requires
        a == from_include_spec(entries, patterns, toolchain, reg),
        b == from_include_spec(entries, patterns, toolchain, reg),
    ensures
        a == b,
        a matches Ok(m) ==> forall|j: int|
            0 <= j < m.installs.len() ==> crate::pkg::update_command_spec(
                #[trigger] m.installs[j],
                pinned,
            ) == crate::pkg::update_command_spec(b->Ok_0.installs[j], pinned),
{
}

} // verus!
