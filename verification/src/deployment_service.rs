use vstd::multiset::Multiset;
use vstd::prelude::*;

use crate::jenkins_client::{committer_of, extract_committer, JenkinsClientError};
use crate::models::{Activity, DeploymentSummary, JenkinsBuild, JenkinsBuildDetails};

verus! {

/// Whether an optional build result equals the given tag.
pub open spec fn opt_result_is(res: Option<String>, tag: Seq<char>) -> bool {
    match res {
        Some(s) => s@ == tag,
        None => false,
    }
}

/// A build that counts into the success bucket.
pub open spec fn is_success(b: JenkinsBuild) -> bool {
    opt_result_is(b.result, "SUCCESS"@)
}

/// A build that counts into the failure bucket.
pub open spec fn is_failure(b: JenkinsBuild) -> bool {
    opt_result_is(b.result, "FAILURE"@)
}

/// How many builds of the sequence count into the success bucket.
pub open spec fn success_count_of(s: Seq<JenkinsBuild>) -> nat
    decreases s.len(),
{
    if s.len() == 0 {
        0
    } else {
        success_count_of(s.drop_last()) + if is_success(s.last()) {
            1nat
        } else {
            0nat
        }
    }
}

/// How many builds of the sequence count into the failure bucket.
pub open spec fn failure_count_of(s: Seq<JenkinsBuild>) -> nat
    decreases s.len(),
{
    if s.len() == 0 {
        0
    } else {
        failure_count_of(s.drop_last()) + if is_failure(s.last()) {
            1nat
        } else {
            0nat
        }
    }
}

/// The summary that a sequence of builds classifies into.
pub open spec fn summary_of(s: Seq<JenkinsBuild>) -> DeploymentSummary {
    DeploymentSummary {
        total_deployments: s.len() as usize,
        success_count: success_count_of(s) as usize,
        failure_count: failure_count_of(s) as usize,
    }
}

fn result_matches(res: &Option<String>, tag: &str) -> (r: bool)
    ensures
        r == opt_result_is(*res, tag@),
{
    match res {
        Some(s) => *s == tag.to_owned(),
        None => false,
    }
}

/// No build counts into both buckets: the two result tags differ.
pub proof fn lemma_buckets_disjoint(b: JenkinsBuild)
    ensures
        !(is_success(b) && is_failure(b)),
{
    reveal_strlit("SUCCESS");
    reveal_strlit("FAILURE");
    assert("SUCCESS"@[0] != "FAILURE"@[0]);
}

proof fn lemma_counts_bounded(s: Seq<JenkinsBuild>)
    ensures
        success_count_of(s) <= s.len(),
        failure_count_of(s) <= s.len(),
    decreases s.len(),
{
    if s.len() > 0 {
        lemma_counts_bounded(s.drop_last());
    }
}

/// Classifies a flat collection of builds into the deployment summary:
/// the total is the collection's size, and each build's result puts it in
/// the success bucket, the failure bucket, or neither.
pub fn calculate_summary(builds: &Vec<JenkinsBuild>) -> (r: DeploymentSummary)
    ensures
        r == summary_of(builds@),
{
    let n = builds.len();
    let mut success: usize = 0;
    let mut failure: usize = 0;
    let mut i: usize = 0;
    while i < n
        invariant
            i <= n,
            n == builds@.len(),
            success == success_count_of(builds@.take(i as int)),
            failure == failure_count_of(builds@.take(i as int)),
        decreases n - i,
    {
        proof {
            lemma_counts_bounded(builds@.take(i as int));
            assert(builds@.take(i as int).len() == i);
            assert(builds@.take(i + 1).drop_last() =~= builds@.take(i as int));
            assert(builds@.take(i + 1).last() == builds@[i as int]);
            lemma_buckets_disjoint(builds@[i as int]);
        }
        if result_matches(&builds[i].result, "SUCCESS") {
            success = success + 1;
        } else if result_matches(&builds[i].result, "FAILURE") {
            failure = failure + 1;
        }
        i = i + 1;
    }
    proof {
        assert(builds@.take(n as int) =~= builds@);
    }
    DeploymentSummary { total_deployments: n, success_count: success, failure_count: failure }
}

/// The two buckets never exceed the total, and they exhaust it exactly when
/// every build's result is SUCCESS or FAILURE.
pub proof fn lemma_success_failure_bound(s: Seq<JenkinsBuild>)
    ensures
        success_count_of(s) + failure_count_of(s) <= s.len(),
        (success_count_of(s) + failure_count_of(s) == s.len()) <==> (forall|i: int|
            0 <= i < s.len() ==> is_success(s[i]) || is_failure(s[i])),
    decreases s.len(),
{
    if s.len() > 0 {
        let dl = s.drop_last();
        lemma_success_failure_bound(dl);
        lemma_buckets_disjoint(s.last());
        assert(forall|i: int| 0 <= i < dl.len() ==> dl[i] == s[i]);
        if success_count_of(s) + failure_count_of(s) == s.len() {
            assert(forall|i: int| 0 <= i < s.len() ==> is_success(s[i]) || is_failure(s[i]));
        }
        if forall|i: int| 0 <= i < s.len() ==> is_success(s[i]) || is_failure(s[i]) {
            assert(forall|i: int| 0 <= i < dl.len() ==> is_success(dl[i]) || is_failure(dl[i]));
            assert(is_success(s.last()) || is_failure(s.last()));
        }
    }
}

proof fn lemma_count_concat(a: Seq<JenkinsBuild>, b: Seq<JenkinsBuild>)
    ensures
        success_count_of(a + b) == success_count_of(a) + success_count_of(b),
        failure_count_of(a + b) == failure_count_of(a) + failure_count_of(b),
    decreases b.len(),
{
    if b.len() == 0 {
        assert(a + b =~= a);
    } else {
        assert((a + b).drop_last() =~= a + b.drop_last());
        assert((a + b).last() == b.last());
        lemma_count_concat(a, b.drop_last());
    }
}

proof fn lemma_flatten_remove(lists: Seq<Seq<JenkinsBuild>>, j: int)
    requires
        0 <= j < lists.len(),
    ensures
        success_count_of(lists.flatten()) == success_count_of(lists[j]) + success_count_of(
            lists.remove(j).flatten(),
        ),
        failure_count_of(lists.flatten()) == failure_count_of(lists[j]) + failure_count_of(
            lists.remove(j).flatten(),
        ),
        lists.flatten().len() == lists[j].len() + lists.remove(j).flatten().len(),
    decreases j,
{
    if j == 0 {
        assert(lists.remove(0) =~= lists.drop_first());
        lemma_count_concat(lists[0], lists.drop_first().flatten());
    } else {
        let df = lists.drop_first();
        lemma_flatten_remove(df, j - 1);
        assert(df[j - 1] == lists[j]);
        assert(lists.remove(j).drop_first() =~= df.remove(j - 1));
        assert(lists.remove(j).first() == lists.first());
        lemma_count_concat(lists.first(), df.flatten());
        lemma_count_concat(lists.first(), df.remove(j - 1).flatten());
    }
}

/// The summary is order-independent: any rearrangement of the per-service
/// build lists flattens to a collection with the same size and the same
/// bucket counts.
pub proof fn lemma_summary_order_independent(
    lists1: Seq<Seq<JenkinsBuild>>,
    lists2: Seq<Seq<JenkinsBuild>>,
)
    requires
        lists1.to_multiset() == lists2.to_multiset(),
    ensures
        lists1.flatten().len() == lists2.flatten().len(),
        success_count_of(lists1.flatten()) == success_count_of(lists2.flatten()),
        failure_count_of(lists1.flatten()) == failure_count_of(lists2.flatten()),
        summary_of(lists1.flatten()) == summary_of(lists2.flatten()),
    decreases lists1.len(),
{
    broadcast use vstd::seq_lib::group_to_multiset_ensures;

    if lists1.len() == 0 {
        assert(lists1.to_multiset().len() == 0);
        assert(lists2.len() == 0);
    } else {
        let l0 = lists1[0];
        assert(lists1.contains(l0));
        assert(lists2.to_multiset().count(l0) > 0);
        assert(lists2.contains(l0));
        let j = choose|j: int| 0 <= j < lists2.len() && lists2[j] == l0;
        assert(lists1.remove(0).to_multiset() == lists1.to_multiset().remove(l0));
        assert(lists2.remove(j).to_multiset() == lists2.to_multiset().remove(l0));
        lemma_summary_order_independent(lists1.remove(0), lists2.remove(j));
        lemma_flatten_remove(lists1, 0);
        lemma_flatten_remove(lists2, j);
    }
}

/// The mathematical view of a collection of per-service build lists.
pub open spec fn lists_view(lists: Seq<Vec<JenkinsBuild>>) -> Seq<Seq<JenkinsBuild>> {
    lists.map_values(|v: Vec<JenkinsBuild>| v@)
}

/// Flattens the per-service build lists into one collection, keeping the
/// lists' order and each list's internal order.
pub fn flatten_builds(build_lists: Vec<Vec<JenkinsBuild>>) -> (r: Vec<JenkinsBuild>)
    ensures
        r@ == lists_view(build_lists@).flatten(),
{
    let ghost orig = build_lists@;
    let mut lists = build_lists;
    let mut out: Vec<JenkinsBuild> = Vec::new();
    while lists.len() > 0
        invariant
            lists_view(orig).flatten() == out@ + lists_view(lists@).flatten(),
        decreases lists.len(),
    {
        proof {
            assert(lists_view(lists@).first() == lists@[0]@);
            assert(lists_view(lists@).drop_first() =~= lists_view(lists@.remove(0)));
        }
        let mut v = lists.remove(0);
        out.append(&mut v);
        proof {
            assert(out@ + lists_view(lists@).flatten() =~= lists_view(orig).flatten());
        }
    }
    proof {
        assert(lists_view(lists@).flatten() =~= Seq::<JenkinsBuild>::empty());
        assert(out@ + Seq::<JenkinsBuild>::empty() =~= out@);
    }
    out
}

/// The compute step of the summary endpoint: flattens every configured
/// service's build list and classifies the result. The summary depends only
/// on the flattened collection; an empty collection of lists gives the empty
/// summary.
pub fn summarize_builds(build_lists: Vec<Vec<JenkinsBuild>>) -> (r: DeploymentSummary)
    ensures
        r == summary_of(lists_view(build_lists@).flatten()),
{
    let flat = flatten_builds(build_lists);
    calculate_summary(&flat)
}

/// The first failure, in configuration order, among the per-service fetch
/// results; none when every fetch succeeded.
pub open spec fn first_failure(
    rs: Seq<Result<Vec<JenkinsBuild>, JenkinsClientError>>,
) -> Option<JenkinsClientError>
    decreases rs.len(),
{
    if rs.len() == 0 {
        None
    } else {
        match rs.first() {
            Err(e) => Some(e),
            Ok(_) => first_failure(rs.drop_first()),
        }
    }
}

/// Joins the per-service fetch results fail-fast: the first failure, in
/// order, fails the whole aggregate and no partial result survives; only
/// when every fetch succeeded do the build lists come through, in order.
pub fn collect_build_lists(
    results: Vec<Result<Vec<JenkinsBuild>, JenkinsClientError>>,
) -> (r: Result<Vec<Vec<JenkinsBuild>>, JenkinsClientError>)
    ensures
        r is Ok <==> first_failure(results@) is None,
        r matches Err(e) ==> Some(e) == first_failure(results@),
        r matches Ok(lists) ==> lists@.len() == results@.len() && forall|n: int|
            0 <= n < results@.len() ==> (#[trigger] lists@[n]) == results@[n]->Ok_0,
{
    let ghost orig = results@;
    let mut rest = results;
    let mut lists: Vec<Vec<JenkinsBuild>> = Vec::new();
    let mut failure: Option<JenkinsClientError> = None;
    proof {
        assert(orig.skip(0) =~= orig);
    }
    while rest.len() > 0 && failure.is_none()
        invariant
            failure is None ==> {
                &&& lists@.len() + rest@.len() == orig.len()
                &&& rest@ == orig.skip(lists@.len() as int)
                &&& first_failure(orig) == first_failure(orig.skip(lists@.len() as int))
                &&& forall|n: int| 0 <= n < lists@.len() ==> (#[trigger] orig[n]) is Ok
                &&& forall|n: int|
                    0 <= n < lists@.len() ==> (#[trigger] lists@[n]) == orig[n]->Ok_0
            },
            failure matches Some(e) ==> Some(e) == first_failure(orig),
        decreases rest.len(),
    {
        let ghost i = lists@.len() as int;
        proof {
            assert(orig.skip(i)[0] == orig[i]);
            assert(orig.skip(i).first() == orig[i]);
            assert(orig.skip(i).drop_first() =~= orig.skip(i + 1));
        }
        match rest.remove(0) {
            Ok(v) => {
                lists.push(v);
                proof {
                    assert(orig[i] is Ok);
                    assert(lists@[i] == orig[i]->Ok_0);
                    assert(rest@ =~= orig.skip(i + 1));
                }
            },
            Err(e) => {
                proof {
                    assert(first_failure(orig.skip(i)) == Some(e));
                }
                failure = Some(e);
            },
        }
    }
    match failure {
        Some(e) => Err(e),
        None => {
            proof {
                assert(orig.skip(lists@.len() as int).len() == 0);
                assert(first_failure(orig) is None);
            }
            Ok(lists)
        },
    }
}

/// The most recent build of a service's build list: the list's first entry,
/// which the upstream API reports first. A service with no builds has none.
pub fn first_build_number(builds: &Vec<JenkinsBuild>) -> (r: Option<i64>)
    ensures
        builds@.len() == 0 ==> r is None,
        builds@.len() > 0 ==> r == Some(builds@[0].number),
{
    if builds.len() > 0 {
        Some(builds[0].number)
    } else {
        None
    }
}

/// The activity-feed entry a build-details response yields.
pub open spec fn activity_of(d: JenkinsBuildDetails) -> Activity {
    Activity {
        job_name: d.full_display_name,
        committer: committer_of(d.actions@),
        status: d.result,
        duration_millis: d.duration,
        timestamp: d.timestamp,
    }
}

/// The activity-feed entries of a sequence of build-details responses.
pub open spec fn activities_view(ds: Seq<JenkinsBuildDetails>) -> Seq<Activity> {
    ds.map_values(|d: JenkinsBuildDetails| activity_of(d))
}

/// Turns one build-details response into its activity-feed entry.
pub fn make_activity(details: JenkinsBuildDetails) -> (r: Activity)
    ensures
        r == activity_of(details),
{
    let committer = extract_committer(&details.actions);
    Activity {
        job_name: details.full_display_name,
        committer,
        status: details.result,
        duration_millis: details.duration,
        timestamp: details.timestamp,
    }
}

/// An activity sequence ordered most recent first.
pub open spec fn sorted_desc(s: Seq<Activity>) -> bool {
    forall|i: int, j: int| 0 <= i <= j < s.len() ==> s[i].timestamp >= s[j].timestamp
}

fn index_of_latest(acts: &Vec<Activity>) -> (r: usize)
    requires
        acts@.len() > 0,
    ensures
        r < acts@.len(),
        forall|k: int| 0 <= k < acts@.len() ==> acts@[k].timestamp <= acts@[r as int].timestamp,
{
    let n = acts.len();
    let mut best: usize = 0;
    let mut i: usize = 1;
    while i < n
        invariant
            best < i <= n,
            n == acts@.len(),
            forall|k: int| 0 <= k < i ==> acts@[k].timestamp <= acts@[best as int].timestamp,
        decreases n - i,
    {
        if acts[i].timestamp > acts[best].timestamp {
            best = i;
        }
        i = i + 1;
    }
    best
}

/// Orders activities most recent first; the result holds exactly the given
/// entries. Entries with equal timestamps may come out in either order.
pub fn sort_activities_desc(activities: Vec<Activity>) -> (r: Vec<Activity>)
    ensures
        sorted_desc(r@),
        r@.to_multiset() == activities@.to_multiset(),
        r@.len() == activities@.len(),
{
    broadcast use vstd::seq_lib::group_to_multiset_ensures;
    broadcast use vstd::multiset::group_multiset_axioms;
    broadcast use vstd::multiset::lemma_multiset_empty_len;

    let ghost orig = activities@;
    let mut rest = activities;
    let mut out: Vec<Activity> = Vec::new();
    while rest.len() > 0
        invariant
            out@.to_multiset().add(rest@.to_multiset()) == orig.to_multiset(),
            out@.len() + rest@.len() == orig.len(),
            sorted_desc(out@),
            forall|a: int, b: int|
                0 <= a < out@.len() && 0 <= b < rest@.len() ==> out@[a].timestamp
                    >= rest@[b].timestamp,
        decreases rest.len(),
    {
        broadcast use vstd::seq_lib::group_to_multiset_ensures;
        broadcast use vstd::multiset::group_multiset_axioms;

        let ghost rest_before = rest@;
        let ghost out_before = out@;
        let k = index_of_latest(&rest);
        let a = rest.remove(k);
        out.push(a);
        proof {
            assert(rest@.to_multiset() =~= rest_before.to_multiset().remove(a));
            assert(rest_before.contains(a));
            assert(rest_before.to_multiset().count(a) > 0);
            assert(out@.to_multiset().add(rest@.to_multiset()) =~= orig.to_multiset());
        }
    }
    proof {
        assert(rest@.to_multiset().len() == 0);
        assert(rest@.to_multiset() =~= Multiset::<Activity>::empty());
        assert(out@.to_multiset() =~= orig.to_multiset());
    }
    out
}

/// The compute step of the activity feed: one activity per fetched
/// build-details response, ordered most recent first and cut to at most
/// `limit` entries. The result is a prefix of some most-recent-first
/// ordering of exactly the given responses' activities.
pub fn latest_activities(details_list: Vec<JenkinsBuildDetails>, limit: usize) -> (r: Vec<
    Activity,
>)
    ensures
        r@.len() == if limit <= details_list@.len() {
            limit as int
        } else {
            details_list@.len() as int
        },
        sorted_desc(r@),
        exists|s: Seq<Activity>|
            sorted_desc(s) && s.to_multiset() == activities_view(details_list@).to_multiset()
                && r@ == s.take(r@.len() as int),
{
    let ghost orig = details_list@;
    let mut rest = details_list;
    let mut acts: Vec<Activity> = Vec::new();
    proof {
        assert(orig.skip(0) =~= orig);
    }
    while rest.len() > 0
        invariant
            acts@.len() + rest@.len() == orig.len(),
            rest@ == orig.skip(acts@.len() as int),
            acts@ == activities_view(orig.take(acts@.len() as int)),
        decreases rest.len(),
    {
        let ghost i = acts@.len() as int;
        proof {
            assert(orig.skip(i)[0] == orig[i]);
            assert(orig.skip(i).remove(0) =~= orig.skip(i + 1));
        }
        let d = rest.remove(0);
        let act = make_activity(d);
        acts.push(act);
        proof {
            assert(acts@ =~= activities_view(orig.take(i + 1)));
        }
    }
    proof {
        assert(orig.take(orig.len() as int) =~= orig);
    }
    let mut sorted = sort_activities_desc(acts);
    let ghost full = sorted@;
    if limit < sorted.len() {
        sorted.truncate(limit);
    }
    proof {
        assert(sorted@ =~= full.take(sorted@.len() as int));
        assert(sorted_desc(sorted@));
        assert(full.to_multiset() == activities_view(orig).to_multiset());
    }
    sorted
}

} // verus!
