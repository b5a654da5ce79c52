use vstd::prelude::*;

use crate::date::spec_is_day_range;
use crate::date::spec_parse_date;
use crate::date::day_index;
use crate::date::generate_date_range;
use crate::validate::is_date_shape;
use crate::validate::spec_is_date_shape;
use crate::validate::resolve_repo_url;
use crate::validate::spec_resolve_repo_url;
use crate::validate::RepoRefError;

verus! {

/// An interactive scan request: one repository reference and an optional
/// `YYYY-MM-DD` cutoff.
#[derive(Debug)]
pub struct ScanRequest {
    pub repo: String,
    pub since: Option<String>,
}

/// A batch scan request: either an explicit list of scan dates or an
/// inclusive date range; at most one of the two forms is honored, and
/// neither defaults to today.
#[derive(Debug)]
pub struct IndexScanRequest {
    pub scan_dates: Option<Vec<String>>,
    pub from_date: Option<String>,
    pub to_date: Option<String>,
}

/// Why an interactive scan request was rejected before any work began.
#[derive(Debug, Clone, Copy, PartialEq, Eq, Structural)]
pub enum ScanRequestError {
    /// The `since` value does not match `YYYY-MM-DD`.
    InvalidSince,
    /// The reference began with `http` but is not a well-formed repository
    /// URL.
    InvalidRepoUrl,
    /// The reference is not a well-formed `owner/name` slug.
    InvalidRepoSlug,
}

/// Everything the scan unit needs, fixed before a subprocess is spawned:
/// the exact clone URL and the validated cutoff.
#[derive(Debug)]
pub struct ScanPlan {
    pub repo_url: String,
    pub since: String,
}

/// The cutoff an interactive request asks for, with its default.
pub open spec fn spec_effective_since(since: Option<String>) -> Seq<char> {
    match since {
        Option::Some(s) => s@,
        Option::None => "2025-01-01"@,
    }
}

/// Validate an interactive scan request and fix the clone URL and cutoff
/// it asks for. Rejects a malformed cutoff or repository reference before
/// any subprocess could be spawned.
pub fn prepare_scan(req: &ScanRequest) -> (r: Result<ScanPlan, ScanRequestError>)
    ensures
        match r {
            Result::Ok(p) => {
                &&& spec_is_date_shape(spec_effective_since(req.since))
                &&& p.since@ == spec_effective_since(req.since)
                &&& spec_resolve_repo_url(req.repo@) == Result::<Seq<char>, RepoRefError>::Ok(
                    p.repo_url@,
                )
            },
            Result::Err(e) => match e {
                ScanRequestError::InvalidSince => !spec_is_date_shape(
                    spec_effective_since(req.since),
                ),
                ScanRequestError::InvalidRepoUrl => spec_is_date_shape(
                    spec_effective_since(req.since),
                ) && spec_resolve_repo_url(req.repo@) == Result::<Seq<char>, RepoRefError>::Err(
                    RepoRefError::InvalidUrl,
                ),
                ScanRequestError::InvalidRepoSlug => spec_is_date_shape(
                    spec_effective_since(req.since),
                ) && spec_resolve_repo_url(req.repo@) == Result::<Seq<char>, RepoRefError>::Err(
                    RepoRefError::InvalidSlug,
                ),
            },
        },
{
    let since = match &req.since {
        Some(s) => s.clone(),
        None => "2025-01-01".to_owned(),
    };
    if !is_date_shape(since.as_str()) {
        return Err(ScanRequestError::InvalidSince);
    }
    match resolve_repo_url(req.repo.as_str()) {
        Ok(url) => Ok(ScanPlan { repo_url: url, since }),
        Err(RepoRefError::InvalidUrl) => Err(ScanRequestError::InvalidRepoUrl),
        Err(RepoRefError::InvalidSlug) => Err(ScanRequestError::InvalidRepoSlug),
    }
}

/// Why a batch request's dates were rejected.
#[derive(Debug, PartialEq, Eq)]
pub enum DatePlanError {
    /// `from_date` or `to_date` does not match `YYYY-MM-DD`.
    BadRangeShape,
    /// The range's endpoints are not valid calendar days, or the start
    /// lies after the end.
    BadRange,
    /// The first scan date that does not match `YYYY-MM-DD`.
    BadScanDate(String),
}

fn clone_string_vec(v: &Vec<String>) -> (r: Vec<String>)
    ensures
        r@ == v@,
{
    let n = v.len();
    let mut r: Vec<String> = Vec::new();
    let mut i: usize = 0;
    while i < n
        invariant
            n == v@.len(),
            i <= n,
            r@ =~= v@.take(i as int),
        decreases n - i,
    {
        r.push(v[i].clone());
        i = i + 1;
    }
    proof {
        assert(v@.take(n as int) =~= v@);
    }
    r
}

/// Turn a batch request into the list of scan dates it asks for: a
/// `from_date`/`to_date` pair wins over an explicit `scan_dates` list, and
/// an absent or empty request means today alone. Every date is checked
/// against `YYYY-MM-DD` before any scanning starts.
pub fn resolve_scan_dates(req: &IndexScanRequest, today: &str) -> (r: Result<
    Vec<String>,
    DatePlanError,
>)
    ensures
        req.from_date is Some && req.to_date is Some ==> {
            let f = req.from_date->0@;
            let t = req.to_date->0@;
            match r {
                Result::Ok(v) => {
                    &&& spec_is_date_shape(f)
                    &&& spec_is_date_shape(t)
                    &&& spec_parse_date(f) is Some
                    &&& spec_parse_date(t) is Some
                    &&& spec_is_day_range(v@, spec_parse_date(f)->0, spec_parse_date(t)->0)
                },
                Result::Err(e) => match e {
                    DatePlanError::BadRangeShape => !spec_is_date_shape(f) || !spec_is_date_shape(
                        t,
                    ),
                    DatePlanError::BadRange => spec_is_date_shape(f) && spec_is_date_shape(t) && {
                        ||| spec_parse_date(f) is None
                        ||| spec_parse_date(t) is None
                        ||| day_index(spec_parse_date(f)->0) > day_index(spec_parse_date(t)->0)
                    },
                    DatePlanError::BadScanDate(_) => false,
                },
            }
        },
        !(req.from_date is Some && req.to_date is Some) && req.scan_dates is Some ==> {
            let ds = req.scan_dates->0;
            match r {
                Result::Ok(v) => {
                    &&& forall|k: int| 0 <= k < ds@.len() ==> spec_is_date_shape(ds@[k]@)
                    &&& if ds@.len() == 0 {
                        v@.len() == 1 && v@[0]@ == today@
                    } else {
                        v@ == ds@
                    }
                },
                Result::Err(e) => match e {
                    DatePlanError::BadScanDate(d) => exists|k: int|
                        0 <= k < ds@.len() && !spec_is_date_shape(#[trigger] ds@[k]@) && d@
                            == ds@[k]@ && (forall|j: int|
                            0 <= j < k ==> spec_is_date_shape(#[trigger] ds@[j]@)),
                    _ => false,
                },
            }
        },
        !(req.from_date is Some && req.to_date is Some) && req.scan_dates is None ==> {
            match r {
                Result::Ok(v) => v@.len() == 1 && v@[0]@ == today@,
                Result::Err(_) => false,
            }
        },
{
    if req.from_date.is_some() && req.to_date.is_some() {
        let from = match &req.from_date {
            Some(f) => f.as_str(),
            None => "",
        };
        let to = match &req.to_date {
            Some(t) => t.as_str(),
            None => "",
        };
        if !is_date_shape(from) || !is_date_shape(to) {
            return Err(DatePlanError::BadRangeShape);
        }
        match generate_date_range(from, to) {
            Some(v) => Ok(v),
            None => Err(DatePlanError::BadRange),
        }
    } else if req.scan_dates.is_some() {
        let ds = match &req.scan_dates {
            Some(d) => d,
            None => {
                unreached()
            },
        };
        let n = ds.len();
        let mut i: usize = 0;
        while i < n
            invariant
                n == ds@.len(),
                i <= n,
                !(req.from_date is Some && req.to_date is Some),
                req.scan_dates is Some,
                (req.scan_dates->0)@ == ds@,
                forall|j: int| 0 <= j < i ==> spec_is_date_shape(#[trigger] ds@[j]@),
            decreases n - i,
        {
            if !is_date_shape(ds[i].as_str()) {
                return Err(DatePlanError::BadScanDate(ds[i].clone()));
            }
            i = i + 1;
        }
        if ds.len() == 0 {
            let mut v: Vec<String> = Vec::new();
            v.push(today.to_owned());
            Ok(v)
        } else {
            Ok(clone_string_vec(ds))
        }
    } else {
        let mut v: Vec<String> = Vec::new();
        v.push(today.to_owned());
        Ok(v)
    }
}

/// Whether a set of scan dates calls for backfill reconstruction: only a
/// run over more than one target date does.
pub fn is_backfill(dates: &Vec<String>) -> (r: bool)
    ensures
        r == (dates@.len() > 1),
{
    dates.len() > 1
}

/// The clone URL for a panel slug.
pub fn repo_url_for_slug(slug: &str) -> (r: String)
    ensures
        r@ == "https://github.com/"@ + slug@ + ".git"@,
{
    let mut url = "https://github.com/".to_owned();
    url.append(slug);
    url.append(".git");
    url
}

/// A character of a hyphenated UUID: lowercase hex or `-`.
pub open spec fn is_uuid_char(c: char) -> bool {
    (('0' as u32) <= (c as u32) && (c as u32) <= ('9' as u32)) || (('a' as u32) <= (c as u32) && (
    c as u32) <= ('f' as u32)) || c == '-'
}

/// Relies on `uuid::Uuid::new_v4` and its `Display` impl: a fresh random
/// UUID rendered as 36 characters of lowercase hex and hyphens. The value
/// is random, so only its shape is stated.
#[verifier::external_body]
fn new_uuid_string() -> (r: String)
    ensures
        r@.len() == 36,
        forall|i: int| 0 <= i < 36 ==> is_uuid_char(#[trigger] r@[i]),
{
    uuid::Uuid::new_v4().to_string()
}

/// A collision-free temporary workspace path for one scan unit: a fixed
/// prefix — a separate one for index units — followed by a fresh UUID, so
/// concurrent units never contend on the same directory.
pub fn fresh_workspace_dir(index: bool) -> (r: String)
    ensures
        exists|u: Seq<char>|
            u.len() == 36 && (forall|i: int| 0 <= i < 36 ==> is_uuid_char(#[trigger] u[i])) && r@
                == (if index {
                "/tmp/vibereport-idx-"@
            } else {
                "/tmp/vibereport-"@
            }) + u,
{
    let uuid = new_uuid_string();
    let mut r = if index {
        "/tmp/vibereport-idx-".to_owned()
    } else {
        "/tmp/vibereport-".to_owned()
    };
    r.append(uuid.as_str());
    proof {
        assert(r@ == (if index {
            "/tmp/vibereport-idx-"@
        } else {
            "/tmp/vibereport-"@
        }) + uuid@);
    }
    r
}

} // verus!
