//! Version resolution: out of the registry's version list, in the descending
//! order the registry returned, pick the newest available version — or, under
//! a pinned requirement, the first version that satisfies it, carrying along
//! every newer version that was skipped on the way.

use vstd::prelude::*;
use vstd::string::StringExecFns;
use crate::bridge::{
    requirement_match, requirement_matches, requirement_ok, requirement_valid,
    version_parse_state, version_state,
};
use crate::errors::{Error, ErrorKind, ErrorModel};

verus! {

/// One version entry of a registry response: the version text and whether it
/// was yanked.
#[derive(Debug, Clone, PartialEq)]
pub struct VersionRecord {
    pub num: String,
    pub yanked: bool,
}

/// The mathematical model of a [`VersionRecord`].
pub struct VersionRecordModel {
    pub num: Seq<char>,
    pub yanked: bool,
}

impl View for VersionRecord {
    type V = VersionRecordModel;

    open spec fn view(&self) -> VersionRecordModel {
        VersionRecordModel { num: self.num@, yanked: self.yanked }
    }
}

impl DeepView for VersionRecord {
    type V = VersionRecordModel;

    open spec fn deep_view(&self) -> VersionRecordModel {
        self.view()
    }
}

/// A record whose version text parses as a semantic version.
pub open spec fn record_valid(r: VersionRecordModel) -> bool {
    version_parse_state(r.num) is Some
}

/// A record that may be offered: parsed, no pre-release component, not
/// yanked.
pub open spec fn record_available(r: VersionRecordModel) -> bool {
    version_parse_state(r.num) == Some(true) && !r.yanked
}

/// Every record of the response parses.
pub open spec fn all_valid(rs: Seq<VersionRecordModel>) -> bool {
    forall|i: int| 0 <= i < rs.len() ==> record_valid(#[trigger] rs[i])
}

/// The version texts of the available records, in response order.
pub open spec fn available_of(rs: Seq<VersionRecordModel>) -> Seq<Seq<char>> {
    rs.filter(|r: VersionRecordModel| record_available(r)).map_values(
        |r: VersionRecordModel| r.num,
    )
}

/// Scanning the available versions in order for the first that satisfies the
/// requirement: that version, and the versions skipped before it. `None`
/// when none satisfies it.
pub open spec fn resolve_req_spec(req: Seq<char>, avail: Seq<Seq<char>>) -> Option<
    (Seq<char>, Seq<Seq<char>>),
>
    decreases avail.len(),
{
    if avail.len() == 0 {
        None
    } else if requirement_match(req, avail[0]) {
        Some((avail[0], Seq::empty()))
    } else {
        match resolve_req_spec(req, avail.drop_first()) {
            Some(p) => Some((p.0, seq![avail[0]] + p.1)),
            None => None,
        }
    }
}

/// What resolution returns for a whole response: the resolved version and
/// the newer-but-unmatched versions, or the error owed.
pub open spec fn latest_spec(rs: Seq<VersionRecordModel>, req: Option<Seq<char>>) -> Result<
    (Seq<char>, Seq<Seq<char>>),
    ErrorModel,
> {
    if !all_valid(rs) {
        Err(ErrorModel { kind: ErrorKind::Response, detail: "invalid version in registry response"@ })
    } else {
        match req {
            Some(r) => if !requirement_ok(r) {
                Err(ErrorModel { kind: ErrorKind::Parse, detail: "invalid version requirement"@ })
            } else {
                match resolve_req_spec(r, available_of(rs)) {
                    Some(p) => Ok(p),
                    None => Err(
                        ErrorModel {
                            kind: ErrorKind::NotFound,
                            detail: "Failed to find an available version matching the requirement"@,
                        },
                    ),
                }
            },
            None => if available_of(rs).len() == 0 {
                Err(
                    ErrorModel {
                        kind: ErrorKind::NotFound,
                        detail: "Failed to find any available version"@,
                    },
                )
            } else {
                Ok((available_of(rs)[0], Seq::empty()))
            },
        }
    }
}

/// Every available version text parses with no pre-release component.
proof fn lemma_available_elems(rs: Seq<VersionRecordModel>)
    ensures
        forall|i: int|
            0 <= i < available_of(rs).len() ==> version_parse_state(
                #[trigger] available_of(rs)[i],
            ) == Some(true),
{
    let pred = |r: VersionRecordModel| record_available(r);
    let filtered = rs.filter(pred);
    assert forall|i: int|
        0 <= i < available_of(rs).len() implies version_parse_state(available_of(rs)[i]) == Some(
        true,
    ) by {
        rs.lemma_filter_pred(pred, i);
        assert(record_available(filtered[i]));
    }
}

/// When every version before `i` misses and `i` hits, the scan resolves to
/// the version at `i` with exactly the prefix before it as the newer list.
proof fn lemma_resolve_hit(req: Seq<char>, avail: Seq<Seq<char>>, i: int)
    requires
        0 <= i < avail.len(),
        forall|j: int| 0 <= j < i ==> !requirement_match(req, #[trigger] avail[j]),
        requirement_match(req, avail[i]),
    ensures
        resolve_req_spec(req, avail) == Some((avail[i], avail.take(i))),
    decreases i,
{
    if i == 0 {
        assert(avail.take(0) =~= Seq::<Seq<char>>::empty());
    } else {
        let rest = avail.drop_first();
        assert(forall|j: int| 0 <= j < i - 1 ==> !requirement_match(req, #[trigger] rest[j]));
        lemma_resolve_hit(req, rest, i - 1);
        assert(avail.take(i) =~= seq![avail[0]] + rest.take(i - 1));
    }
}

/// When no available version satisfies the requirement the scan yields
/// nothing.
proof fn lemma_resolve_miss(req: Seq<char>, avail: Seq<Seq<char>>)
    requires
        forall|j: int| 0 <= j < avail.len() ==> !requirement_match(req, #[trigger] avail[j]),
    ensures
        resolve_req_spec(req, avail) is None,
    decreases avail.len(),
{
    if avail.len() > 0 {
        lemma_resolve_miss(req, avail.drop_first());
    }
}

/// Appending one record extends the available list by the record's version
/// when it is available and leaves it unchanged otherwise.
proof fn lemma_available_push(rs: Seq<VersionRecordModel>, r: VersionRecordModel)
    ensures
        record_available(r) ==> available_of(rs.push(r)) == available_of(rs).push(r.num),
        !record_available(r) ==> available_of(rs.push(r)) == available_of(rs),
{
    reveal(Seq::filter);
    let pred = |x: VersionRecordModel| record_available(x);
    let f = |x: VersionRecordModel| x.num;
    assert(rs.push(r).drop_last() =~= rs);
    if pred(r) {
        assert(rs.push(r).filter(pred) =~= rs.filter(pred).push(r));
        assert(rs.push(r).filter(pred).map_values(f) =~= rs.filter(pred).map_values(f).push(r.num));
    } else {
        assert(rs.push(r).filter(pred) =~= rs.filter(pred));
    }
}

/// Law: under a version requirement, resolution returns the first available
/// version that satisfies it, and the newer list is exactly the prefix of the
/// available versions strictly before that one, in order.
pub proof fn lemma_latest_first_match(rs: Seq<VersionRecordModel>, req: Seq<char>, i: int)
    requires
        all_valid(rs),
        requirement_ok(req),
        0 <= i < available_of(rs).len(),
        requirement_match(req, available_of(rs)[i]),
        forall|j: int| 0 <= j < i ==> !requirement_match(req, #[trigger] available_of(rs)[j]),
    ensures
        latest_spec(rs, Some(req)) == Ok::<(Seq<char>, Seq<Seq<char>>), ErrorModel>(
            (available_of(rs)[i], available_of(rs).take(i)),
        ),
{
    lemma_resolve_hit(req, available_of(rs), i);
}

/// Law: under a version requirement that no available version satisfies,
/// resolution owes the not-found error.
pub proof fn lemma_latest_no_match(rs: Seq<VersionRecordModel>, req: Seq<char>)
    requires
        all_valid(rs),
        requirement_ok(req),
        forall|j: int|
            0 <= j < available_of(rs).len() ==> !requirement_match(
                req,
                #[trigger] available_of(rs)[j],
            ),
    ensures
        latest_spec(rs, Some(req)) matches Err(e) && e.kind == ErrorKind::NotFound,
{
    lemma_resolve_miss(req, available_of(rs));
}

/// Resolve the latest available version out of a registry response, under an
/// optional pinned requirement.
pub fn latest(records: &Vec<VersionRecord>, version_req: &Option<String>) -> (r: Result<
    (String, Vec<String>),
    Error,
>)
    ensures
        r is Ok <==> latest_spec(records.deep_view(), version_req.deep_view()) is Ok,
        r matches Ok(p) ==> latest_spec(records.deep_view(), version_req.deep_view()) matches Ok(q)
            && p.0@ == q.0 && p.1.deep_view() == q.1,
        r matches Err(e) ==> latest_spec(records.deep_view(), version_req.deep_view()) matches Err(
            em,
        ) && e@ == em,
{
    let ghost rsm = records.deep_view();
    let n = records.len();
    let mut avail: Vec<String> = Vec::new();
    let mut i: usize = 0;
    while i < n
        invariant
            0 <= i <= n,
            n == records.len(),
            rsm == records.deep_view(),
            all_valid(rsm.take(i as int)),
            avail.deep_view() == available_of(rsm.take(i as int)),
        decreases n - i,
    {
        let rec = &records[i];
        match version_state(rec.num.as_str()) {
            None => {
                proof {
                    assert(!record_valid(rsm[i as int]));
                    assert(!all_valid(rsm));
                }
                return Err(
                    Error::new(
                        ErrorKind::Response,
                        String::from_str("invalid version in registry response"),
                    ),
                );
            },
            Some(plain) => {
                proof {
                    assert(rsm.take(i + 1).drop_last() =~= rsm.take(i as int));
                    assert(rsm.take(i + 1) =~= rsm.take(i as int).push(rsm[i as int]));
                    lemma_available_push(rsm.take(i as int), rsm[i as int]);
                }
                if plain && !rec.yanked {
                    proof {
                        assert(record_available(rsm[i as int]));
                    }
                    avail.push(rec.num.clone());
                    proof {
                        assert(avail.deep_view() =~= available_of(rsm.take(i + 1)));
                    }
                } else {
                    proof {
                        assert(!record_available(rsm[i as int]));
                        assert(avail.deep_view() =~= available_of(rsm.take(i + 1)));
                    }
                }
            },
        }
        i = i + 1;
    }
    proof {
        assert(rsm.take(n as int) =~= rsm);
        lemma_available_elems(rsm);
    }
    let ghost av = available_of(rsm);
    match version_req {
        Some(req) => {
            if !requirement_valid(req.as_str()) {
                return Err(
                    Error::new(ErrorKind::Parse, String::from_str("invalid version requirement")),
                );
            }
            let mut newer: Vec<String> = Vec::new();
            let mut j: usize = 0;
            let an = avail.len();
            while j < an
                invariant
                    0 <= j <= an,
                    an == avail.len(),
                    rsm == records.deep_view(),
                    avail.deep_view() == av,
                    av == available_of(rsm),
                    all_valid(rsm),
                    requirement_ok(req@),
                    version_req.deep_view() == Some(req@),
                    forall|k: int|
                        0 <= k < av.len() ==> version_parse_state(#[trigger] av[k]) == Some(true),
                    forall|k: int| 0 <= k < j ==> !requirement_match(req@, #[trigger] av[k]),
                    newer.deep_view() == av.take(j as int),
                decreases an - j,
            {
                let m = requirement_matches(req.as_str(), avail[j].as_str());
                proof {
                    assert(version_parse_state(av[j as int]) == Some(true));
                }
                let matched = match m {
                    Some(b) => b,
                    None => {
                        proof {
                            assert(false);
                        }
                        false
                    },
                };
                if matched {
                    proof {
                        lemma_resolve_hit(req@, av, j as int);
                    }
                    return Ok((avail[j].clone(), newer));
                }
                let ghost prev = newer.deep_view();
                let item = avail[j].clone();
                proof {
                    assert(item@ == av[j as int]);
                }
                newer.push(item);
                proof {
                    assert(newer.deep_view() =~= prev.push(av[j as int]));
                    assert(newer.deep_view() =~= av.take(j + 1));
                }
                j = j + 1;
            }
            proof {
                lemma_resolve_miss(req@, av);
            }
            Err(
                Error::new(
                    ErrorKind::NotFound,
                    String::from_str("Failed to find an available version matching the requirement"),
                ),
            )
        },
        None => {
            if avail.len() == 0 {
                Err(
                    Error::new(
                        ErrorKind::NotFound,
                        String::from_str("Failed to find any available version"),
                    ),
                )
            } else {
                let newer: Vec<String> = Vec::new();
                proof {
                    assert(newer.deep_view() =~= Seq::<Seq<char>>::empty());
                }
                Ok((avail[0].clone(), newer))
            }
        },
    }
}

} // verus!
