use vstd::prelude::*;
use vstd::string::StringExecFns;

use crate::models::{ActionRecord, JenkinsFolderResponse, JenkinsJob};

verus! {

/// The two failure kinds every upstream call can surface: a transport
/// failure, or a response body that does not match the expected schema.
/// Each carries the underlying error's textual description.
#[derive(Debug, PartialEq)]
pub enum JenkinsClientError {
    RequestError(String),
    ParseError(String),
}

/// The textual description of an upstream failure.
pub open spec fn client_error_text(e: JenkinsClientError) -> Seq<char> {
    match e {
        JenkinsClientError::RequestError(m) => "HTTP request failed: "@ + m@,
        JenkinsClientError::ParseError(m) => "JSON parsing failed: "@ + m@,
    }
}

impl JenkinsClientError {
    /// The description the HTTP surface reports for this failure.
    pub fn describe(&self) -> (r: String)
        ensures
            r@ == client_error_text(*self),
    {
        match self {
            JenkinsClientError::RequestError(m) => {
                let mut s = "HTTP request failed: ".to_owned();
                s.append(m.as_str());
                s
            },
            JenkinsClientError::ParseError(m) => {
                let mut s = "JSON parsing failed: ".to_owned();
                s.append(m.as_str());
                s
            },
        }
    }
}

/// The decimal digits of a natural number, most significant first.
pub open spec fn dec_digits(n: nat) -> Seq<char>
    decreases n,
{
    if n < 10 {
        seq![digit_char(n)]
    } else {
        dec_digits(n / 10).push(digit_char(n % 10))
    }
}

/// The character for one decimal digit.
pub open spec fn digit_char(d: nat) -> char {
    ((d + 48) as u8) as char
}

/// The decimal rendering of a signed number: its digits, preceded by a
/// minus sign when negative.
pub open spec fn dec_str_i64(n: int) -> Seq<char> {
    if n < 0 {
        seq!['-'] + dec_digits((-n) as nat)
    } else {
        dec_digits(n as nat)
    }
}

/// Relies on i64's `Display` implementation: it writes the value's decimal
/// digits, preceded by a minus sign when the value is negative.
#[verifier::external_body]
fn i64_to_string(n: i64) -> (r: String)
    ensures
        r@ == dec_str_i64(n as int),
{
    n.to_string()
}

/// The URL of the "list builds for a job" endpoint.
pub fn job_api_url(base_url: &str, service_name: &str) -> (r: String)
    ensures
        r@ == base_url@ + "job/"@ + service_name@ + "/api/json"@,
{
    let mut url = base_url.to_owned();
    url.append("job/");
    url.append(service_name);
    url.append("/api/json");
    url
}

/// The URL of the folder-listing endpoint: the root listing when the parent
/// path is empty, the parent's listing otherwise.
pub fn folder_api_url(base_url: &str, job_parent: &str) -> (r: String)
    ensures
        job_parent@.len() == 0 ==> r@ == base_url@ + "api/json"@,
        job_parent@.len() > 0 ==> r@ == base_url@ + job_parent@ + "api/json"@,
{
    let mut url = base_url.to_owned();
    if !job_parent.is_empty() {
        url.append(job_parent);
    }
    url.append("api/json");
    url
}

/// The URL of the build-details endpoint for one build of a job.
pub fn build_details_url(base_url: &str, job_name: &str, build_number: i64) -> (r: String)
    ensures
        r@ == base_url@ + job_name@ + "/"@ + dec_str_i64(build_number as int) + "/api/json"@,
{
    let mut url = base_url.to_owned();
    url.append(job_name);
    url.append("/");
    let num = i64_to_string(build_number);
    url.append(num.as_str());
    url.append("/api/json");
    url
}

/// An action record whose class tag marks it as a cause action.
pub open spec fn is_cause_action(a: ActionRecord) -> bool {
    match a.class_tag {
        Some(t) => t@ == "hudson.model.CauseAction"@,
        None => false,
    }
}

/// The committer a single cause action yields: the first cause's user id,
/// or nothing if the action has no causes array or it is empty.
pub open spec fn committer_of_action(a: ActionRecord) -> Option<String> {
    match a.causes {
        Some(cs) => if cs@.len() > 0 {
            cs@[0].user_id
        } else {
            None
        },
        None => None,
    }
}

/// The committer an actions array yields: the first cause action decides,
/// and an array without one yields nothing.
pub open spec fn committer_of(actions: Seq<ActionRecord>) -> Option<String>
    decreases actions.len(),
{
    if actions.len() == 0 {
        None
    } else if is_cause_action(actions.first()) {
        committer_of_action(actions.first())
    } else {
        committer_of(actions.drop_first())
    }
}

fn action_is_cause(a: &ActionRecord) -> (r: bool)
    ensures
        r == is_cause_action(*a),
{
    match &a.class_tag {
        Some(t) => *t == "hudson.model.CauseAction".to_owned(),
        None => false,
    }
}

fn action_committer(a: &ActionRecord) -> (r: Option<String>)
    ensures
        r == committer_of_action(*a),
{
    match &a.causes {
        Some(cs) => if cs.len() > 0 {
            match &cs[0].user_id {
                Some(u) => Some(u.clone()),
                None => None,
            }
        } else {
            None
        },
        None => None,
    }
}

/// Best-effort scan of a build's action records for the committer's user id:
/// the first cause action's first cause decides, and any missing or
/// mismatched field yields nothing rather than an error.
pub fn extract_committer(actions: &Vec<ActionRecord>) -> (r: Option<String>)
    ensures
        r == committer_of(actions@),
{
    let n = actions.len();
    let mut i: usize = 0;
    proof {
        assert(actions@.skip(0) =~= actions@);
    }
    while i < n
        invariant
            i <= n,
            n == actions@.len(),
            committer_of(actions@) == committer_of(actions@.skip(i as int)),
            actions@.skip(i as int).len() == n - i,
        decreases n - i,
    {
        proof {
            assert(actions@.skip(i as int).first() == actions@[i as int]);
            assert(actions@.skip(i as int).drop_first() =~= actions@.skip(i + 1));
        }
        if action_is_cause(&actions[i]) {
            return action_committer(&actions[i]);
        }
        i = i + 1;
    }
    None
}

/// A folder entry whose class tag marks it as a tracked job type.
pub open spec fn is_tracked_job(j: JenkinsJob) -> bool {
    j.class@ == "hudson.model.FreeStyleProject"@
}

/// The names of the folder entries that are tracked jobs, in order.
pub open spec fn tracked_names(jobs: Seq<JenkinsJob>) -> Seq<Seq<char>> {
    jobs.filter(|j: JenkinsJob| is_tracked_job(j)).map_values(|j: JenkinsJob| j.name@)
}

/// The views of a sequence of strings.
pub open spec fn string_views(ss: Seq<String>) -> Seq<Seq<char>> {
    ss.map_values(|s: String| s@)
}

proof fn lemma_tracked_names_step(jobs: Seq<JenkinsJob>, i: int)
    requires
        0 <= i < jobs.len(),
    ensures
        is_tracked_job(jobs[i]) ==> tracked_names(jobs.take(i + 1)) =~= tracked_names(
            jobs.take(i),
        ).push(jobs[i].name@),
        !is_tracked_job(jobs[i]) ==> tracked_names(jobs.take(i + 1)) =~= tracked_names(
            jobs.take(i),
        ),
{
    reveal(Seq::filter);
    assert(jobs.take(i + 1).drop_last() =~= jobs.take(i));
    assert(jobs.take(i + 1).last() == jobs[i]);
}

fn job_is_tracked(j: &JenkinsJob) -> (r: bool)
    ensures
        r == is_tracked_job(*j),
{
    j.class == "hudson.model.FreeStyleProject".to_owned()
}

/// The compute step of the folder listing: keeps, in order, the names of the
/// entries whose class tag equals the tracked job-type marker.
pub fn filter_services(folder: &JenkinsFolderResponse) -> (r: Vec<String>)
    ensures
        string_views(r@) == tracked_names(folder.jobs@),
{
    let n = folder.jobs.len();
    let mut out: Vec<String> = Vec::new();
    let mut i: usize = 0;
    while i < n
        invariant
            i <= n,
            n == folder.jobs@.len(),
            string_views(out@) == tracked_names(folder.jobs@.take(i as int)),
        decreases n - i,
    {
        proof {
            lemma_tracked_names_step(folder.jobs@, i as int);
        }
        if job_is_tracked(&folder.jobs[i]) {
            out.push(folder.jobs[i].name.clone());
            proof {
                assert(string_views(out@) =~= tracked_names(folder.jobs@.take(i + 1)));
            }
        }
        i = i + 1;
    }
    proof {
        assert(folder.jobs@.take(n as int) =~= folder.jobs@);
    }
    out
}

} // verus!
