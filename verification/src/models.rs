use vstd::prelude::*;

verus! {

/// One build as the CI server's job listing reports it: the build number and
/// the textual result, which may be absent while a build is running.
#[derive(Debug, PartialEq)]
pub struct JenkinsBuild {
    pub number: i64,
    pub result: Option<String>,
}

/// The body of the CI server's "list builds for a job" response.
#[derive(Debug, PartialEq)]
pub struct JenkinsJobResponse {
    pub builds: Vec<JenkinsBuild>,
}

/// One entry of the CI server's folder listing.
#[derive(Debug, PartialEq)]
pub struct JenkinsJob {
    pub name: String,
    pub url: String,
    pub class: String,
}

/// The body of the CI server's folder-listing response.
#[derive(Debug, PartialEq)]
pub struct JenkinsFolderResponse {
    pub jobs: Vec<JenkinsJob>,
}

/// One entry of a cause action's `causes` array: only the user id is read.
#[derive(Debug, PartialEq)]
pub struct CauseRecord {
    pub user_id: Option<String>,
}

/// What the committer extraction reads out of one opaque action record of a
/// build-details response: the record's class tag, if it is a string, and the
/// entries of its `causes` array, if it has one.
#[derive(Debug, PartialEq)]
pub struct ActionRecord {
    pub class_tag: Option<String>,
    pub causes: Option<Vec<CauseRecord>>,
}

/// The CI server's "build details" response for one build.
#[derive(Debug, PartialEq)]
pub struct JenkinsBuildDetails {
    pub actions: Vec<ActionRecord>,
    pub result: Option<String>,
    pub duration: i64,
    pub timestamp: i64,
    pub full_display_name: String,
}

/// One activity-feed entry, derived from a build-details response. The
/// duration is kept in milliseconds; the serialization boundary divides it
/// into fractional seconds.
#[derive(Debug, PartialEq)]
pub struct Activity {
    pub job_name: String,
    pub committer: Option<String>,
    pub status: Option<String>,
    pub duration_millis: i64,
    pub timestamp: i64,
}

/// The aggregate over every configured service's build list. Builds whose
/// result is neither SUCCESS nor FAILURE count toward the total but toward
/// neither bucket. The per-day deployment rate is fixed at zero until builds
/// carry a timestamp, and is added at the serialization boundary.
#[derive(Debug, PartialEq)]
pub struct DeploymentSummary {
    pub total_deployments: usize,
    pub success_count: usize,
    pub failure_count: usize,
}

} // verus!
