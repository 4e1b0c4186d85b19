//! What holds of the decisions of the reconciliation engine, whatever the
//! instances report.

use crate::api::dashboards::{FullDashboardDataView, FullDashboardMetaView, FullDashboardView};
use crate::dashboard_state::{
    converged, decisions_of, distinct_uids, group_of, is_stale, lemma_distinct_uids_no_duplicates,
    merge_spec, newest, outranks, DashboardStateView, DecisionView, Observation,
};
use crate::lexical::{
    lemma_bytes_before_irreflexive, lemma_bytes_before_total, lemma_bytes_before_transitive,
};
use crate::timestamp::Timestamp;
use vstd::prelude::*;
use vstd::utf8::{encode_utf8, encode_utf8_decode_utf8};

verus! {

/// A uid is among the distinct uids exactly if some observation carries it.
pub proof fn lemma_distinct_uids_are_those_observed(obs: Seq<Observation>, uid: Seq<char>)
    ensures
        distinct_uids(obs).contains(uid) <==> group_of(obs, uid).len() > 0,
    decreases obs.len(),
{
    if obs.len() > 0 {
        let rest = distinct_uids(obs.drop_last());
        let last = obs.last().record.dashboard.uid;
        lemma_distinct_uids_are_those_observed(obs.drop_last(), uid);
        if rest.contains(last) {
        } else {
            assert(rest.push(last).last() == last);
            if rest.contains(uid) {
                let k = choose|k: int| 0 <= k < rest.len() && rest[k] == uid;
                assert(rest.push(last)[k] == uid);
            }
            if rest.push(last).contains(uid) && uid != last {
                let k = choose|k: int| 0 <= k < rest.push(last).len() && rest.push(last)[k] == uid;
                assert(rest[k] == uid);
            }
        }
    }
}

/// Every observation of a group is an observation of the snapshot and carries
/// the uid of the group.
pub proof fn lemma_group_members(obs: Seq<Observation>, uid: Seq<char>, k: int)
    requires
        0 <= k < group_of(obs, uid).len(),
    ensures
        group_of(obs, uid)[k].record.dashboard.uid == uid,
        obs.contains(group_of(obs, uid)[k]),
    decreases obs.len(),
{
    if obs.len() > 0 {
        let rest = group_of(obs.drop_last(), uid);
        if k < rest.len() {
            lemma_group_members(obs.drop_last(), uid, k);
            let m = choose|m: int| 0 <= m < obs.drop_last().len() && obs.drop_last()[m] == rest[k];
            assert(obs[m] == rest[k]);
        } else {
            assert(obs[obs.len() - 1] == obs.last());
        }
    }
}

/// Preference between observations is transitive, and nothing is preferred
/// over itself.
pub proof fn lemma_outranks_is_strict_order(a: Observation, b: Observation, c: Observation)
    ensures
        !outranks(a, a),
        outranks(a, b) && outranks(b, c) ==> outranks(a, c),
{
    lemma_bytes_before_irreflexive(encode_utf8(a.instance));
    if outranks(a, b) && outranks(b, c) {
        let ta = a.record.meta.updated.instant();
        let tb = b.record.meta.updated.instant();
        let tc = c.record.meta.updated.instant();
        if ta == tb && tb == tc {
            lemma_bytes_before_transitive(
                encode_utf8(a.instance),
                encode_utf8(b.instance),
                encode_utf8(c.instance),
            );
        }
    }
}

/// The copy that is kept is one of the group, no copy is newer, and among the
/// copies updated at the same instant none sits on an instance whose name
/// comes before.
pub proof fn lemma_newest_is_latest(group: Seq<Observation>)
    requires
        group.len() > 0,
    ensures
        0 <= newest(group) < group.len(),
        forall|k: int|
            0 <= k < group.len() ==> (#[trigger] group[k]).record.meta.updated.instant()
                <= group[newest(group)].record.meta.updated.instant(),
        forall|k: int| 0 <= k < group.len() ==> !outranks(#[trigger] group[k], group[newest(group)]),
    decreases group.len(),
{
    if group.len() > 1 {
        let front = group.drop_last();
        lemma_newest_is_latest(front);
        let w = newest(front);
        let winner = group[newest(group)];
        assert forall|k: int| 0 <= k < group.len() implies !outranks(
            #[trigger] group[k],
            winner,
        ) by {
            lemma_outranks_is_strict_order(group[k], group.last(), group[w]);
            lemma_outranks_is_strict_order(group.last(), group[k], group[w]);
            if k < front.len() {
                assert(front[k] == group[k]);
            }
        }
    } else {
        lemma_outranks_is_strict_order(group[0], group[0], group[0]);
    }
}

/// Each decision in a list of decisions is what `merge_spec` gives for its uid,
/// and every uid of `uids` for which `merge_spec` gives a decision has one in
/// the list.
pub proof fn lemma_decisions_of(
    uids: Seq<Seq<char>>,
    obs: Seq<Observation>,
    now: Timestamp,
    destructive: bool,
    sync_interval_mins: u64,
    instance_count: nat,
)
    ensures
        forall|k: int|
            #![trigger decisions_of(uids, obs, now, destructive, sync_interval_mins, instance_count)[k]]
            0 <= k < decisions_of(
                uids,
                obs,
                now,
                destructive,
                sync_interval_mins,
                instance_count,
            ).len() ==> {
                let d = decisions_of(
                    uids,
                    obs,
                    now,
                    destructive,
                    sync_interval_mins,
                    instance_count,
                )[k];
                &&& uids.contains(d.0)
                &&& merge_spec(
                    d.0,
                    group_of(obs, d.0),
                    now,
                    destructive,
                    sync_interval_mins,
                    instance_count,
                ) == Some(d)
            },
        forall|u: Seq<char>|
            uids.contains(u) && (#[trigger] merge_spec(
                u,
                group_of(obs, u),
                now,
                destructive,
                sync_interval_mins,
                instance_count,
            )) is Some ==> exists|k: int|
                0 <= k < decisions_of(
                    uids,
                    obs,
                    now,
                    destructive,
                    sync_interval_mins,
                    instance_count,
                ).len() && (#[trigger] decisions_of(
                    uids,
                    obs,
                    now,
                    destructive,
                    sync_interval_mins,
                    instance_count,
                )[k]).0 == u,
    decreases uids.len(),
{
    let all = decisions_of(uids, obs, now, destructive, sync_interval_mins, instance_count);
    if uids.len() > 0 {
        let front = uids.drop_last();
        let rest = decisions_of(front, obs, now, destructive, sync_interval_mins, instance_count);
        let last = merge_spec(
            uids.last(),
            group_of(obs, uids.last()),
            now,
            destructive,
            sync_interval_mins,
            instance_count,
        );
        lemma_decisions_of(front, obs, now, destructive, sync_interval_mins, instance_count);
        assert forall|k: int| 0 <= k < all.len() implies {
            let d = #[trigger] all[k];
            &&& uids.contains(d.0)
            &&& merge_spec(
                d.0,
                group_of(obs, d.0),
                now,
                destructive,
                sync_interval_mins,
                instance_count,
            ) == Some(d)
        } by {
            if k < rest.len() {
                assert(all[k] == rest[k]);
                let m = choose|m: int| 0 <= m < front.len() && front[m] == rest[k].0;
                assert(uids[m] == rest[k].0);
            } else {
                assert(uids[uids.len() - 1] == uids.last());
            }
        }
        assert forall|u: Seq<char>|
            uids.contains(u) && (#[trigger] merge_spec(
                u,
                group_of(obs, u),
                now,
                destructive,
                sync_interval_mins,
                instance_count,
            )) is Some implies exists|k: int| 0 <= k < all.len() && (#[trigger] all[k]).0 == u by {
            let m = choose|m: int| 0 <= m < uids.len() && uids[m] == u;
            if m < front.len() {
                assert(front[m] == u);
                assert(front.contains(u));
                let k = choose|k: int| 0 <= k < rest.len() && (#[trigger] rest[k]).0 == u;
                assert(all[k].0 == u);
            } else {
                assert(last is Some);
                assert(all[all.len() - 1].0 == u);
            }
        }
    }
}

/// A decision is made for exactly the uids that some instance reports and
/// that are not already the same on every instance, and it is what
/// `merge_spec` gives for the observations of that uid.
pub proof fn lemma_decisions_characterized(
    state: DashboardStateView,
    now: Timestamp,
    destructive: bool,
    sync_interval_mins: u64,
)
    ensures
        forall|k: int|
            #![trigger state.decisions(now, destructive, sync_interval_mins)[k]]
            0 <= k < state.decisions(now, destructive, sync_interval_mins).len() ==> {
                let d = state.decisions(now, destructive, sync_interval_mins)[k];
                let group = group_of(state.observations(), d.0);
                &&& group.len() > 0
                &&& !converged(group, state.instance_count)
                &&& merge_spec(
                    d.0,
                    group,
                    now,
                    destructive,
                    sync_interval_mins,
                    state.instance_count,
                ) == Some(d)
            },
        forall|u: Seq<char>|
            (#[trigger] group_of(state.observations(), u)).len() > 0 && !converged(
                group_of(state.observations(), u),
                state.instance_count,
            ) ==> exists|k: int|
                0 <= k < state.decisions(now, destructive, sync_interval_mins).len() && (
                #[trigger] state.decisions(now, destructive, sync_interval_mins)[k]).0 == u,
{
    let obs = state.observations();
    let uids = distinct_uids(obs);
    let all = state.decisions(now, destructive, sync_interval_mins);
    lemma_decisions_of(uids, obs, now, destructive, sync_interval_mins, state.instance_count);
    assert forall|u: Seq<char>|
        (#[trigger] group_of(obs, u)).len() > 0 && !converged(
            group_of(obs, u),
            state.instance_count,
        ) implies exists|k: int| 0 <= k < all.len() && (#[trigger] all[k]).0 == u by {
        lemma_distinct_uids_are_those_observed(obs, u);
        assert(merge_spec(
            u,
            group_of(obs, u),
            now,
            destructive,
            sync_interval_mins,
            state.instance_count,
        ) is Some);
    }
}

/// No uid has two decisions.
pub proof fn lemma_one_decision_per_uid(
    state: DashboardStateView,
    now: Timestamp,
    destructive: bool,
    sync_interval_mins: u64,
)
    ensures
        forall|j: int, k: int|
            #![trigger state.decisions(now, destructive, sync_interval_mins)[j], state.decisions(now, destructive, sync_interval_mins)[k]]
            0 <= j < k < state.decisions(now, destructive, sync_interval_mins).len()
                ==> state.decisions(now, destructive, sync_interval_mins)[j].0
                != state.decisions(now, destructive, sync_interval_mins)[k].0,
{
    let obs = state.observations();
    lemma_distinct_uids_no_duplicates(obs);
    lemma_decisions_of_distinct(
        distinct_uids(obs),
        obs,
        now,
        destructive,
        sync_interval_mins,
        state.instance_count,
    );
}

proof fn lemma_decisions_of_distinct(
    uids: Seq<Seq<char>>,
    obs: Seq<Observation>,
    now: Timestamp,
    destructive: bool,
    sync_interval_mins: u64,
    instance_count: nat,
)
    requires
        uids.no_duplicates(),
    ensures
        forall|j: int, k: int|
            #![trigger decisions_of(uids, obs, now, destructive, sync_interval_mins, instance_count)[j], decisions_of(uids, obs, now, destructive, sync_interval_mins, instance_count)[k]]
            0 <= j < k < decisions_of(
                uids,
                obs,
                now,
                destructive,
                sync_interval_mins,
                instance_count,
            ).len() ==> decisions_of(
                uids,
                obs,
                now,
                destructive,
                sync_interval_mins,
                instance_count,
            )[j].0 != decisions_of(
                uids,
                obs,
                now,
                destructive,
                sync_interval_mins,
                instance_count,
            )[k].0,
    decreases uids.len(),
{
    if uids.len() > 0 {
        let front = uids.drop_last();
        let all = decisions_of(uids, obs, now, destructive, sync_interval_mins, instance_count);
        let rest = decisions_of(front, obs, now, destructive, sync_interval_mins, instance_count);
        lemma_decisions_of_distinct(front, obs, now, destructive, sync_interval_mins, instance_count);
        lemma_decisions_of(front, obs, now, destructive, sync_interval_mins, instance_count);
        assert forall|j: int, k: int| 0 <= j < k < all.len() implies (#[trigger] all[j]).0 != (
        #[trigger] all[k]).0 by {
            if k < rest.len() {
                assert(all[j] == rest[j] && all[k] == rest[k]);
            } else {
                assert(all[j] == rest[j]);
                assert(front.contains(rest[j].0));
                let m = choose|m: int| 0 <= m < front.len() && front[m] == rest[j].0;
                assert(uids[m] == rest[j].0);
                assert(all[k].0 == uids[uids.len() - 1]);
            }
        }
    }
}

/// Where every uid that is reported at all is reported by every instance, and
/// all its copies count as the same, nothing is decided.
pub proof fn lemma_converged_snapshot_needs_nothing(
    state: DashboardStateView,
    now: Timestamp,
    destructive: bool,
    sync_interval_mins: u64,
)
    requires
        forall|i: int|
            0 <= i < state.observations().len() ==> converged(
                group_of(
                    state.observations(),
                    (#[trigger] state.observations()[i]).record.dashboard.uid,
                ),
                state.instance_count,
            ),
    ensures
        state.decisions(now, destructive, sync_interval_mins) == Seq::<DecisionView>::empty(),
{
    let obs = state.observations();
    let all = state.decisions(now, destructive, sync_interval_mins);
    lemma_decisions_characterized(state, now, destructive, sync_interval_mins);
    if all.len() > 0 {
        let d = all[0];
        let group = group_of(obs, d.0);
        lemma_group_members(obs, d.0, 0);
        let i = choose|i: int| 0 <= i < obs.len() && obs[i] == group[0];
        assert(obs[i].record.dashboard.uid == d.0);
        assert(false);
    }
    assert(all =~= Seq::empty());
}

/// A uid that some instances report and others do not gets a decision, alike
/// or not its copies may be.
pub proof fn lemma_partly_reported_uid_is_decided(
    state: DashboardStateView,
    uid: Seq<char>,
    now: Timestamp,
    destructive: bool,
    sync_interval_mins: u64,
)
    requires
        group_of(state.observations(), uid).len() > 0,
        group_of(state.observations(), uid).len() != state.instance_count,
    ensures
        exists|k: int|
            0 <= k < state.decisions(now, destructive, sync_interval_mins).len() && (
            #[trigger] state.decisions(now, destructive, sync_interval_mins)[k]).0 == uid,
{
    lemma_decisions_characterized(state, now, destructive, sync_interval_mins);
    assert(group_of(state.observations(), uid).len() > 0);
}

/// The dashboard that a decision carries is one of the copies reported for
/// its uid, and no copy of that uid was updated later.
pub proof fn lemma_winner_is_most_recent(
    state: DashboardStateView,
    now: Timestamp,
    destructive: bool,
    sync_interval_mins: u64,
    k: int,
    m: int,
)
    requires
        0 <= k < state.decisions(now, destructive, sync_interval_mins).len(),
        state.decisions(now, destructive, sync_interval_mins)[k].1 is Some,
        0 <= m < group_of(
            state.observations(),
            state.decisions(now, destructive, sync_interval_mins)[k].0,
        ).len(),
    ensures
        ({
            let d = state.decisions(now, destructive, sync_interval_mins)[k];
            let group = group_of(state.observations(), d.0);
            &&& exists|w: int| 0 <= w < group.len() && (#[trigger] group[w]).record == d.1->0
            &&& group[m].record.meta.updated.instant() <= d.1->0.meta.updated.instant()
        }),
{
    let d = state.decisions(now, destructive, sync_interval_mins)[k];
    let group = group_of(state.observations(), d.0);
    lemma_decisions_characterized(state, now, destructive, sync_interval_mins);
    lemma_newest_is_latest(group);
    assert(group[newest(group)].record == d.1->0);
}

/// A decision deletes exactly where the cycle is destructive and the newest
/// copy is stale. So a cycle that is not destructive deletes nothing.
pub proof fn lemma_deletion_needs_staleness(
    state: DashboardStateView,
    now: Timestamp,
    destructive: bool,
    sync_interval_mins: u64,
    k: int,
)
    requires
        0 <= k < state.decisions(now, destructive, sync_interval_mins).len(),
    ensures
        ({
            let d = state.decisions(now, destructive, sync_interval_mins)[k];
            let group = group_of(state.observations(), d.0);
            let winner = group[newest(group)].record;
            &&& d.1 is None <==> destructive && is_stale(
                now,
                winner.meta.updated,
                sync_interval_mins,
            )
            &&& d.1 is Some ==> d.1->0 == winner
            &&& !destructive ==> d.1 is Some
        }),
{
    lemma_decisions_characterized(state, now, destructive, sync_interval_mins);
}

/// `b` is `a` with other version numbers and other timestamps.
pub open spec fn differs_in_metadata_only(a: FullDashboardView, b: FullDashboardView) -> bool {
    exists|version: i32, meta_version: i64, created: Timestamp, updated: Timestamp|
        b == (FullDashboardView {
            dashboard: FullDashboardDataView { version, ..a.dashboard },
            meta: FullDashboardMetaView { version: meta_version, created, updated, ..a.meta },
        })
}

/// Two copies that differ only in version numbers and timestamps count as the
/// same.
pub proof fn lemma_metadata_is_not_content(a: FullDashboardView, b: FullDashboardView)
    requires
        differs_in_metadata_only(a, b),
    ensures
        a.content() == b.content(),
{
}

/// Where every instance reports a uid and the copies differ only in version
/// numbers and timestamps, nothing is decided for it.
pub proof fn lemma_metadata_drift_needs_nothing(
    uid: Seq<char>,
    group: Seq<Observation>,
    now: Timestamp,
    destructive: bool,
    sync_interval_mins: u64,
    instance_count: nat,
)
    requires
        group.len() == instance_count,
        forall|k: int|
            0 <= k < group.len() ==> differs_in_metadata_only(
                group[0].record,
                (#[trigger] group[k]).record,
            ),
    ensures
        merge_spec(uid, group, now, destructive, sync_interval_mins, instance_count) is None,
{
    assert forall|k: int| 0 <= k < group.len() implies (#[trigger] group[k]).record.content()
        == group[0].record.content() by {
        lemma_metadata_is_not_content(group[0].record, group[k].record);
    }
}

/// No instance is observed twice with the same uid.
pub open spec fn observed_once(obs: Seq<Observation>) -> bool {
    forall|p: int, q: int|
        0 <= p < q < obs.len() ==> !((#[trigger] obs[p]).instance == (#[trigger] obs[q]).instance
            && obs[p].record.dashboard.uid == obs[q].record.dashboard.uid)
}

/// `a` and `b` hold the same observations, in whatever order.
pub open spec fn same_observations(a: Seq<Observation>, b: Seq<Observation>) -> bool {
    forall|o: Observation| a.contains(o) <==> b.contains(o)
}

/// No two observations of `group` come from the same instance.
pub open spec fn one_per_instance(group: Seq<Observation>) -> bool {
    forall|a: int, b: int|
        0 <= a < b < group.len() ==> (#[trigger] group[a]).instance != (#[trigger] group[b]).instance
}

/// The group of a uid holds exactly the observations that carry the uid.
pub proof fn lemma_group_holds(obs: Seq<Observation>, uid: Seq<char>, o: Observation)
    ensures
        group_of(obs, uid).contains(o) <==> obs.contains(o) && o.record.dashboard.uid == uid,
    decreases obs.len(),
{
    if obs.len() > 0 {
        let front = obs.drop_last();
        let rest = group_of(front, uid);
        let all = group_of(obs, uid);
        lemma_group_holds(front, uid, o);
        if all.contains(o) {
            let k = choose|k: int| 0 <= k < all.len() && all[k] == o;
            lemma_group_members(obs, uid, k);
        }
        if obs.contains(o) && o.record.dashboard.uid == uid {
            let p = choose|p: int| 0 <= p < obs.len() && obs[p] == o;
            if p < front.len() {
                assert(front[p] == o);
                let k = choose|k: int| 0 <= k < rest.len() && rest[k] == o;
                assert(all[k] == o);
            } else {
                assert(all.last() == o);
            }
        }
    }
}

/// A group keeps the order of the observations: of two of its members the
/// earlier was observed earlier.
pub proof fn lemma_group_keeps_order(obs: Seq<Observation>, uid: Seq<char>, a: int, b: int)
    requires
        0 <= a < b < group_of(obs, uid).len(),
    ensures
        exists|p: int, q: int|
            0 <= p < q < obs.len() && #[trigger] obs[p] == group_of(obs, uid)[a] && #[trigger] obs[q]
                == group_of(obs, uid)[b],
    decreases obs.len(),
{
    let front = obs.drop_last();
    let rest = group_of(front, uid);
    if b < rest.len() {
        lemma_group_keeps_order(front, uid, a, b);
        let (p, q) = choose|p: int, q: int|
            0 <= p < q < front.len() && #[trigger] front[p] == rest[a] && #[trigger] front[q]
                == rest[b];
        assert(obs[p] == group_of(obs, uid)[a] && obs[q] == group_of(obs, uid)[b]);
    } else {
        lemma_group_members(front, uid, a);
        let p = choose|p: int| 0 <= p < front.len() && front[p] == rest[a];
        let q = obs.len() - 1;
        assert(obs[p] == group_of(obs, uid)[a] && obs[q] == group_of(obs, uid)[b]);
    }
}

/// Where no instance is observed twice with one uid, no two members of a group
/// come from the same instance.
pub proof fn lemma_group_has_one_per_instance(obs: Seq<Observation>, uid: Seq<char>)
    requires
        observed_once(obs),
    ensures
        one_per_instance(group_of(obs, uid)),
{
    let group = group_of(obs, uid);
    assert forall|a: int, b: int| 0 <= a < b < group.len() implies (#[trigger] group[a]).instance
        != (#[trigger] group[b]).instance by {
        lemma_group_keeps_order(obs, uid, a, b);
        lemma_group_members(obs, uid, a);
        lemma_group_members(obs, uid, b);
        let (p, q) = choose|p: int, q: int|
            0 <= p < q < obs.len() && #[trigger] obs[p] == group[a] && #[trigger] obs[q]
                == group[b];
    }
}

/// Of two observations one is preferred, unless they were updated at the same
/// instant on instances of the same name.
pub proof fn lemma_outranks_is_total(a: Observation, b: Observation)
    ensures
        outranks(a, b) || outranks(b, a) || (a.record.meta.updated.instant()
            == b.record.meta.updated.instant() && a.instance == b.instance),
{
    lemma_bytes_before_total(encode_utf8(a.instance), encode_utf8(b.instance));
    encode_utf8_decode_utf8(a.instance);
    encode_utf8_decode_utf8(b.instance);
}

/// What is decided for a uid does not depend on the order of its observations:
/// two groups that hold the same observations, each with no more than one of
/// any instance, lead to the same decision.
pub proof fn lemma_merge_ignores_order(
    uid: Seq<char>,
    first: Seq<Observation>,
    second: Seq<Observation>,
    now: Timestamp,
    destructive: bool,
    sync_interval_mins: u64,
    instance_count: nat,
)
    requires
        same_observations(first, second),
        one_per_instance(first),
        one_per_instance(second),
    ensures
        first.len() == second.len(),
        merge_spec(uid, first, now, destructive, sync_interval_mins, instance_count) == merge_spec(
            uid,
            second,
            now,
            destructive,
            sync_interval_mins,
            instance_count,
        ),
{
    assert(first.no_duplicates());
    assert(second.no_duplicates());
    first.unique_seq_to_set();
    second.unique_seq_to_set();
    assert(first.to_set() =~= second.to_set());
    if first.len() > 0 {
        assert(second.contains(first[0]));
        assert(first.contains(second[0]));
        if converged(first, instance_count) {
            assert forall|k: int| 0 <= k < second.len() implies (#[trigger] second[k]).record.content()
                == second[0].record.content() by {
                assert(first.contains(second[k]));
            }
        }
        if converged(second, instance_count) {
            assert forall|k: int| 0 <= k < first.len() implies (#[trigger] first[k]).record.content()
                == first[0].record.content() by {
                assert(second.contains(first[k]));
            }
        }
        lemma_newest_is_latest(first);
        lemma_newest_is_latest(second);
        let w1 = first[newest(first)];
        let w2 = second[newest(second)];
        assert(second.contains(w1));
        assert(first.contains(w2));
        let i2 = choose|i: int| 0 <= i < first.len() && first[i] == w2;
        let i1 = choose|i: int| 0 <= i < second.len() && second[i] == w1;
        assert(!outranks(first[i2], w1));
        assert(!outranks(second[i1], w2));
        lemma_outranks_is_total(w1, w2);
        assert(w1.instance == w2.instance);
        assert(i2 == newest(first));
    }
}

/// What is decided in a cycle does not depend on the order in which the
/// instances report, nor on the order of the dashboards in a report: two
/// snapshots of one fleet that hold the same observations, each with no
/// instance observed twice with one uid, lead to the same decision for every
/// uid, and so to the same decisions.
pub proof fn lemma_decisions_ignore_report_order(
    first: DashboardStateView,
    second: DashboardStateView,
    now: Timestamp,
    destructive: bool,
    sync_interval_mins: u64,
)
    requires
        first.instance_count == second.instance_count,
        same_observations(first.observations(), second.observations()),
        observed_once(first.observations()),
        observed_once(second.observations()),
    ensures
        forall|uid: Seq<char>|
            #[trigger] merge_spec(
                uid,
                group_of(first.observations(), uid),
                now,
                destructive,
                sync_interval_mins,
                first.instance_count,
            ) == merge_spec(
                uid,
                group_of(second.observations(), uid),
                now,
                destructive,
                sync_interval_mins,
                second.instance_count,
            ),
        forall|d: DecisionView|
            first.decisions(now, destructive, sync_interval_mins).contains(d)
                <==> second.decisions(now, destructive, sync_interval_mins).contains(d),
{
    let obs1 = first.observations();
    let obs2 = second.observations();
    let all1 = first.decisions(now, destructive, sync_interval_mins);
    let all2 = second.decisions(now, destructive, sync_interval_mins);
    let n = first.instance_count;
    assert forall|uid: Seq<char>|
        #[trigger] merge_spec(
            uid,
            group_of(obs1, uid),
            now,
            destructive,
            sync_interval_mins,
            n,
        ) == merge_spec(uid, group_of(obs2, uid), now, destructive, sync_interval_mins, n) by {
        lemma_groups_of_same_observations(obs1, obs2, uid);
        lemma_merge_ignores_order(
            uid,
            group_of(obs1, uid),
            group_of(obs2, uid),
            now,
            destructive,
            sync_interval_mins,
            n,
        );
    }
    lemma_decisions_characterized(first, now, destructive, sync_interval_mins);
    lemma_decisions_characterized(second, now, destructive, sync_interval_mins);
    assert forall|d: DecisionView| all1.contains(d) implies all2.contains(d) by {
        let k = choose|k: int| 0 <= k < all1.len() && all1[k] == d;
        lemma_groups_of_same_observations(obs1, obs2, d.0);
        lemma_merge_ignores_order(
            d.0,
            group_of(obs1, d.0),
            group_of(obs2, d.0),
            now,
            destructive,
            sync_interval_mins,
            n,
        );
        let m = choose|m: int| 0 <= m < all2.len() && (#[trigger] all2[m]).0 == d.0;
        assert(all2[m] == d);
    }
    assert forall|d: DecisionView| all2.contains(d) implies all1.contains(d) by {
        let k = choose|k: int| 0 <= k < all2.len() && all2[k] == d;
        lemma_groups_of_same_observations(obs1, obs2, d.0);
        lemma_merge_ignores_order(
            d.0,
            group_of(obs1, d.0),
            group_of(obs2, d.0),
            now,
            destructive,
            sync_interval_mins,
            n,
        );
        let m = choose|m: int| 0 <= m < all1.len() && (#[trigger] all1[m]).0 == d.0;
        assert(all1[m] == d);
    }
}

/// Snapshots that hold the same observations, each with no instance observed
/// twice with one uid, have for every uid groups that hold the same
/// observations, each with no more than one of any instance.
pub proof fn lemma_groups_of_same_observations(
    first: Seq<Observation>,
    second: Seq<Observation>,
    uid: Seq<char>,
)
    requires
        same_observations(first, second),
        observed_once(first),
        observed_once(second),
    ensures
        same_observations(group_of(first, uid), group_of(second, uid)),
        one_per_instance(group_of(first, uid)),
        one_per_instance(group_of(second, uid)),
{
    lemma_group_has_one_per_instance(first, uid);
    lemma_group_has_one_per_instance(second, uid);
    assert forall|o: Observation|
        group_of(first, uid).contains(o) <==> group_of(second, uid).contains(o) by {
        lemma_group_holds(first, uid, o);
        lemma_group_holds(second, uid, o);
    }
}

} // verus!
