use ci_deploy_stats::deployment_service::{
    calculate_summary, collect_build_lists, first_build_number, flatten_builds,
    latest_activities, make_activity, sort_activities_desc, summarize_builds,
};
use ci_deploy_stats::jenkins_client::JenkinsClientError;
use ci_deploy_stats::models::{Activity, DeploymentSummary, JenkinsBuild, JenkinsBuildDetails};

fn build(number: i64, result: Option<&str>) -> JenkinsBuild {
    JenkinsBuild {
        number,
        result: result.map(|s| s.to_string()),
    }
}

fn details(name: &str, timestamp: i64, duration: i64) -> JenkinsBuildDetails {
    JenkinsBuildDetails {
        actions: Vec::new(),
        result: Some("SUCCESS".to_string()),
        duration,
        timestamp,
        full_display_name: name.to_string(),
    }
}

#[test]
fn summary_of_three_services() {
    let lists = vec![
        vec![build(1, Some("SUCCESS"))],
        vec![build(1, Some("FAILURE")), build(2, Some("SUCCESS"))],
        vec![],
    ];
    let summary = summarize_builds(lists);
    assert_eq!(
        summary,
        DeploymentSummary {
            total_deployments: 3,
            success_count: 2,
            failure_count: 1,
        }
    );
}

#[test]
fn summary_of_no_services_is_empty() {
    let summary = summarize_builds(Vec::new());
    assert_eq!(
        summary,
        DeploymentSummary {
            total_deployments: 0,
            success_count: 0,
            failure_count: 0,
        }
    );
}

#[test]
fn summary_is_order_independent() {
    let a = || vec![build(1, Some("SUCCESS"))];
    let b = || vec![build(1, Some("FAILURE")), build(2, None)];
    let c = || vec![build(3, Some("ABORTED"))];
    let one = summarize_builds(vec![a(), b(), c()]);
    let two = summarize_builds(vec![c(), a(), b()]);
    let three = summarize_builds(vec![b(), c(), a()]);
    assert_eq!(one, two);
    assert_eq!(one, three);
}

#[test]
fn classification_counts_each_result_once() {
    let success = calculate_summary(&vec![build(7, Some("SUCCESS"))]);
    assert_eq!(success.total_deployments, 1);
    assert_eq!(success.success_count, 1);
    assert_eq!(success.failure_count, 0);

    let missing = calculate_summary(&vec![build(7, None)]);
    assert_eq!(missing.total_deployments, 1);
    assert_eq!(missing.success_count, 0);
    assert_eq!(missing.failure_count, 0);

    let aborted = calculate_summary(&vec![build(7, Some("ABORTED"))]);
    assert_eq!(aborted.total_deployments, 1);
    assert_eq!(aborted.success_count, 0);
    assert_eq!(aborted.failure_count, 0);
}

#[test]
fn bucket_counts_never_exceed_total() {
    let summary = calculate_summary(&vec![
        build(1, Some("SUCCESS")),
        build(2, Some("FAILURE")),
        build(3, Some("UNSTABLE")),
        build(4, None),
    ]);
    assert_eq!(summary.total_deployments, 4);
    assert_eq!(summary.success_count + summary.failure_count, 2);
}

#[test]
fn flatten_keeps_every_build() {
    let flat = flatten_builds(vec![
        vec![build(1, Some("SUCCESS"))],
        vec![],
        vec![build(2, None), build(3, Some("FAILURE"))],
    ]);
    let numbers: Vec<i64> = flat.iter().map(|b| b.number).collect();
    assert_eq!(numbers, vec![1, 2, 3]);
}

#[test]
fn all_successful_fetches_come_through_in_order() {
    let joined = collect_build_lists(vec![
        Ok(vec![build(1, Some("SUCCESS"))]),
        Ok(vec![]),
        Ok(vec![build(2, None)]),
    ]);
    let lists = joined.expect("every fetch succeeded");
    assert_eq!(lists.len(), 3);
    assert_eq!(lists[0][0].number, 1);
    assert!(lists[1].is_empty());
    assert_eq!(lists[2][0].number, 2);
}

#[test]
fn the_first_failing_fetch_fails_the_aggregate() {
    let joined = collect_build_lists(vec![
        Ok(vec![build(1, Some("SUCCESS"))]),
        Err(JenkinsClientError::RequestError("timeout".to_string())),
        Err(JenkinsClientError::ParseError("bad body".to_string())),
    ]);
    assert_eq!(
        joined,
        Err(JenkinsClientError::RequestError("timeout".to_string()))
    );
}

#[test]
fn first_build_of_empty_list_is_absent() {
    assert_eq!(first_build_number(&Vec::new()), None);
}

#[test]
fn first_build_is_the_lists_head() {
    let builds = vec![build(12, Some("SUCCESS")), build(11, None)];
    assert_eq!(first_build_number(&builds), Some(12));
}

#[test]
fn activity_carries_the_details_over() {
    let activity = make_activity(details("svc #4", 1_700_000_000_000, 2_500));
    assert_eq!(
        activity,
        Activity {
            job_name: "svc #4".to_string(),
            committer: None,
            status: Some("SUCCESS".to_string()),
            duration_millis: 2_500,
            timestamp: 1_700_000_000_000,
        }
    );
}

#[test]
fn activities_sort_most_recent_first() {
    let sorted = sort_activities_desc(vec![
        make_activity(details("a", 10, 0)),
        make_activity(details("b", 30, 0)),
        make_activity(details("c", 20, 0)),
    ]);
    let names: Vec<&str> = sorted.iter().map(|a| a.job_name.as_str()).collect();
    assert_eq!(names, vec!["b", "c", "a"]);
}

#[test]
fn latest_activities_cuts_to_the_limit() {
    let feed = latest_activities(
        vec![
            details("a", 10, 0),
            details("b", 30, 0),
            details("c", 20, 0),
        ],
        2,
    );
    let names: Vec<&str> = feed.iter().map(|a| a.job_name.as_str()).collect();
    assert_eq!(names, vec!["b", "c"]);
}

#[test]
fn latest_activities_with_generous_limit_keeps_all() {
    let feed = latest_activities(vec![details("a", 10, 0), details("b", 30, 0)], 10);
    assert_eq!(feed.len(), 2);
    assert!(feed[0].timestamp >= feed[1].timestamp);
}

#[test]
fn latest_activities_with_zero_limit_is_empty() {
    let feed = latest_activities(vec![details("a", 10, 0)], 0);
    assert!(feed.is_empty());
}

#[test]
fn equal_timestamps_keep_both_entries() {
    let feed = latest_activities(vec![details("a", 10, 0), details("b", 10, 0)], 10);
    assert_eq!(feed.len(), 2);
    assert_eq!(feed[0].timestamp, feed[1].timestamp);
}
