//! The reconciliation engine: from what every instance reports to one decision
//! per dashboard.

use crate::api::dashboards::{
    strings_equal, strings_same_set, texts, FullDashboard, FullDashboardView,
};
use crate::lexical::{comes_before, name_before};
use crate::mirror::{add_distinct, push_distinct};
use crate::timestamp::{age, minutes, Timestamp};
use vstd::prelude::*;

verus! {

/// What one instance reports: its name and its dashboards, in the order given.
pub struct SetView {
    pub name: Seq<char>,
    pub dashboards: Seq<FullDashboardView>,
}

/// The view of a [`DashboardState`]: the reports in the order in which their
/// instances were first added, and the number of instances in the fleet.
pub struct DashboardStateView {
    pub sets: Seq<SetView>,
    pub instance_count: nat,
}

/// One dashboard as seen on one instance.
pub struct Observation {
    pub instance: Seq<char>,
    pub record: FullDashboardView,
}

/// What is decided for one uid: the uid, and the dashboard to bring to every
/// instance, or `None` where the dashboard is to be deleted everywhere.
pub type DecisionView = (Seq<char>, Option<FullDashboardView>);

/// The views of a list of dashboards.
pub open spec fn record_views(v: Seq<FullDashboard>) -> Seq<FullDashboardView> {
    v.map_values(|d: FullDashboard| d@)
}

/// The view of one report.
pub open spec fn set_view(set: (String, Vec<FullDashboard>)) -> SetView {
    SetView { name: set.0@, dashboards: record_views(set.1@) }
}

/// The views of a list of reports.
pub open spec fn set_views(sets: Seq<(String, Vec<FullDashboard>)>) -> Seq<SetView> {
    sets.map_values(|s: (String, Vec<FullDashboard>)| set_view(s))
}

/// The dashboards of one report, each with the name of the instance.
pub open spec fn set_observations(set: SetView) -> Seq<Observation> {
    Seq::new(
        set.dashboards.len(),
        |j: int| Observation { instance: set.name, record: set.dashboards[j] },
    )
}

/// Every dashboard of every report, report after report.
pub open spec fn observations(sets: Seq<SetView>) -> Seq<Observation>
    decreases sets.len(),
{
    if sets.len() == 0 {
        Seq::empty()
    } else {
        observations(sets.drop_last()) + set_observations(sets.last())
    }
}

/// The observations that carry `uid`, in the order of `obs`.
pub open spec fn group_of(obs: Seq<Observation>, uid: Seq<char>) -> Seq<Observation>
    decreases obs.len(),
{
    if obs.len() == 0 {
        Seq::empty()
    } else {
        let rest = group_of(obs.drop_last(), uid);
        if obs.last().record.dashboard.uid == uid {
            rest.push(obs.last())
        } else {
            rest
        }
    }
}

/// The uids that occur in `obs`, each once, in the order of first occurrence.
pub open spec fn distinct_uids(obs: Seq<Observation>) -> Seq<Seq<char>>
    decreases obs.len(),
{
    if obs.len() == 0 {
        Seq::empty()
    } else {
        let rest = distinct_uids(obs.drop_last());
        if rest.contains(obs.last().record.dashboard.uid) {
            rest
        } else {
            rest.push(obs.last().record.dashboard.uid)
        }
    }
}

/// The titles of the folders that the observed dashboards lie in, each once,
/// in the order of first occurrence. A dashboard without a folder title adds
/// none.
pub open spec fn observed_folders(obs: Seq<Observation>) -> Seq<Seq<char>>
    decreases obs.len(),
{
    if obs.len() == 0 {
        Seq::empty()
    } else {
        let rest = observed_folders(obs.drop_last());
        match obs.last().record.meta.folder_title {
            Some(title) => add_distinct(rest, title),
            None => rest,
        }
    }
}

/// A dashboard on an instance, by reference.
#[derive(Clone, Copy)]
pub struct Member<'a> {
    pub instance: &'a String,
    pub record: &'a FullDashboard,
}

impl<'a> View for Member<'a> {
    type V = Observation;

    open spec fn view(&self) -> Observation {
        Observation { instance: self.instance@, record: self.record@ }
    }
}

/// The views of a list of members.
pub open spec fn member_views(v: Seq<Member>) -> Seq<Observation> {
    v.map_values(|m: Member| m@)
}

/// All observations of one uid.
pub struct UidGroup<'a> {
    pub uid: &'a String,
    pub members: Vec<Member<'a>>,
}

/// `groups` is the index of `obs`: one group per uid, in the order of first
/// occurrence, each holding the observations of its uid in the order of `obs`.
pub open spec fn is_index_of(groups: Seq<UidGroup>, obs: Seq<Observation>) -> bool {
    &&& groups.len() == distinct_uids(obs).len()
    &&& forall|g: int|
        0 <= g < groups.len() ==> {
            &&& (#[trigger] groups[g]).uid@ == distinct_uids(obs)[g]
            &&& member_views(groups[g].members@) == group_of(obs, groups[g].uid@)
        }
}

/// No uid occurs twice in `distinct_uids`.
pub proof fn lemma_distinct_uids_no_duplicates(obs: Seq<Observation>)
    ensures
        distinct_uids(obs).no_duplicates(),
    decreases obs.len(),
{
    if obs.len() > 0 {
        lemma_distinct_uids_no_duplicates(obs.drop_last());
    }
}

/// Every dashboard of every report, report after report, by reference.
pub fn all_members<'a>(sets: &'a Vec<(String, Vec<FullDashboard>)>) -> (members: Vec<Member<'a>>)
    ensures
        member_views(members@) == observations(set_views(sets@)),
{
    let mut members: Vec<Member<'a>> = Vec::new();
    let ghost all = set_views(sets@);
    assert(all.take(0) =~= Seq::empty());
    assert(member_views(members@) =~= Seq::empty());
    let mut i: usize = 0;
    while i < sets.len()
        invariant
            i <= sets.len(),
            all == set_views(sets@),
            member_views(members@) == observations(all.take(i as int)),
        decreases sets.len() - i,
    {
        let name = &sets[i].0;
        let dashboards = &sets[i].1;
        let ghost before = member_views(members@);
        let ghost here = set_observations(all[i as int]);
        assert(before + here.take(0) =~= before);
        let mut j: usize = 0;
        while j < dashboards.len()
            invariant
                i < sets.len(),
                j <= dashboards.len(),
                all == set_views(sets@),
                name == sets@[i as int].0,
                dashboards == sets@[i as int].1,
                here == set_observations(all[i as int]),
                here.len() == dashboards.len(),
                member_views(members@) == before + here.take(j as int),
            decreases dashboards.len() - j,
        {
            let member = Member { instance: name, record: &dashboards[j] };
            assert(member@ == here[j as int]);
            let ghost old_members = member_views(members@);
            members.push(member);
            proof {
                assert(member_views(members@) =~= old_members.push(member@));
                assert(here.take(j as int + 1) =~= here.take(j as int).push(here[j as int]));
                assert(old_members.push(member@) =~= before + here.take(j as int + 1));
            }
            j += 1;
        }
        proof {
            assert(here.take(j as int) =~= here);
            assert(all.take(i as int + 1).drop_last() =~= all.take(i as int));
            assert(all.take(i as int + 1).last() == all[i as int]);
        }
        i += 1;
    }
    assert(all.take(i as int) =~= all);
    members
}

/// Groups the dashboards of all reports by uid.
pub fn index_by_uid<'a>(sets: &'a Vec<(String, Vec<FullDashboard>)>) -> (groups: Vec<UidGroup<'a>>)
    ensures
        is_index_of(groups@, observations(set_views(sets@))),
{
    let members = all_members(sets);
    let ghost obs = member_views(members@);
    let mut groups: Vec<UidGroup<'a>> = Vec::new();
    assert(obs.take(0) =~= Seq::empty());
    let mut i: usize = 0;
    while i < members.len()
        invariant
            i <= members.len(),
            obs == member_views(members@),
            is_index_of(groups@, obs.take(i as int)),
        decreases members.len() - i,
    {
        let member = members[i];
        let record = member.record;
        let ghost seen = obs.take(i as int);
        let ghost next = obs.take(i as int + 1);
        proof {
            assert(member@ == obs[i as int]);
            assert(next.drop_last() =~= seen);
            assert(next.last() == member@);
            lemma_distinct_uids_no_duplicates(seen);
        }
        let mut g: usize = 0;
        let mut found = false;
        while g < groups.len()
            invariant_except_break
                !found,
                g <= groups.len(),
                forall|k: int| 0 <= k < g ==> groups@[k].uid@ != record.dashboard.uid@,
            ensures
                g <= groups.len(),
                found ==> g < groups.len() && groups@[g as int].uid@ == record.dashboard.uid@,
                !found ==> forall|k: int|
                    0 <= k < groups.len() ==> groups@[k].uid@ != record.dashboard.uid@,
            decreases groups.len() - g,
        {
            if *groups[g].uid == record.dashboard.uid {
                found = true;
                break;
            }
            g += 1;
        }
        let ghost old_groups = groups@;
        if found {
            groups[g].members.push(member);
            proof {
                assert(distinct_uids(seen)[g as int] == record.dashboard.uid@);
                assert(distinct_uids(seen).contains(record.dashboard.uid@));
                assert forall|k: int| 0 <= k < groups@.len() implies {
                    &&& (#[trigger] groups@[k]).uid@ == distinct_uids(next)[k]
                    &&& member_views(groups@[k].members@) == group_of(next, groups@[k].uid@)
                } by {
                    if k == g {
                        assert(member_views(groups@[k].members@) =~= member_views(
                            old_groups[k].members@,
                        ).push(member@));
                    } else {
                        assert(groups@[k] == old_groups[k]);
                        assert(distinct_uids(seen)[k] != distinct_uids(seen)[g as int]);
                    }
                }
            }
        } else {
            let uid = &record.dashboard.uid;
            let mut first: Vec<Member<'a>> = Vec::new();
            first.push(member);
            groups.push(UidGroup { uid, members: first });
            proof {
                assert(!distinct_uids(seen).contains(record.dashboard.uid@)) by {
                    if distinct_uids(seen).contains(record.dashboard.uid@) {
                        let k = choose|k: int|
                            0 <= k < distinct_uids(seen).len() && distinct_uids(seen)[k]
                                == record.dashboard.uid@;
                        assert(old_groups[k].uid@ == record.dashboard.uid@);
                    }
                }
                lemma_group_of_absent(seen, record.dashboard.uid@);
                assert forall|k: int| 0 <= k < groups@.len() implies {
                    &&& (#[trigger] groups@[k]).uid@ == distinct_uids(next)[k]
                    &&& member_views(groups@[k].members@) == group_of(next, groups@[k].uid@)
                } by {
                    if k == old_groups.len() {
                        assert(member_views(groups@[k].members@) =~= Seq::<Observation>::empty().push(
                            member@,
                        ));
                    } else {
                        assert(groups@[k] == old_groups[k]);
                    }
                }
            }
        }
        i += 1;
    }
    assert(obs.take(i as int) =~= obs);
    groups
}

/// A uid that is not among the distinct uids has an empty group.
pub proof fn lemma_group_of_absent(obs: Seq<Observation>, uid: Seq<char>)
    requires
        !distinct_uids(obs).contains(uid),
    ensures
        group_of(obs, uid) == Seq::<Observation>::empty(),
    decreases obs.len(),
{
    if obs.len() > 0 {
        let rest = distinct_uids(obs.drop_last());
        let last = obs.last().record.dashboard.uid;
        if rest.contains(last) {
        } else {
            assert(rest.push(last).last() == last);
            assert(distinct_uids(obs).contains(last));
            assert forall|k: int| 0 <= k < rest.len() implies rest[k] != uid by {
                assert(rest.push(last)[k] == rest[k]);
            }
        }
        assert(!rest.contains(uid));
        lemma_group_of_absent(obs.drop_last(), uid);
    }
}

/// Whether two copies of a dashboard count as the same: uid, title, the set of
/// tags, panels and the tooltip setting agree. Version numbers and timestamps
/// are not looked at.
pub fn dashboards_equal(a: &FullDashboard, b: &FullDashboard) -> (r: bool)
    ensures
        r == (a@.content() == b@.content()),
{
    a.dashboard.uid == b.dashboard.uid && a.dashboard.title == b.dashboard.title
        && strings_same_set(&a.dashboard.tags, &b.dashboard.tags) && strings_equal(
        &a.dashboard.panels,
        &b.dashboard.panels,
    ) && a.dashboard.graph_tooltip == b.dashboard.graph_tooltip
}

/// `a` is to be preferred over `b` as the copy to keep: it was updated later,
/// or at the same instant on an instance whose name comes first.
pub open spec fn outranks(a: Observation, b: Observation) -> bool {
    let ta = a.record.meta.updated.instant();
    let tb = b.record.meta.updated.instant();
    ta > tb || (ta == tb && name_before(a.instance, b.instance))
}

/// The position in `group` of the copy to keep: the one that outranks all
/// before it and is outranked by none after it. 0 for an empty group.
pub open spec fn newest(group: Seq<Observation>) -> int
    decreases group.len(),
{
    if group.len() <= 1 {
        0
    } else {
        let w = newest(group.drop_last());
        if outranks(group.last(), group[w]) {
            group.len() - 1
        } else {
            w
        }
    }
}

/// Every instance of the fleet holds a copy and all copies count as the same.
pub open spec fn converged(group: Seq<Observation>, instance_count: nat) -> bool {
    &&& group.len() == instance_count
    &&& forall|k: int|
        0 <= k < group.len() ==> (#[trigger] group[k]).record.content()
            == group[0].record.content()
}

/// Whether a dashboard last updated at `updated` counts as abandoned at `now`:
/// its age exceeds two sync intervals, to the nanosecond. A dashboard updated
/// in the future of `now` is never stale.
pub open spec fn is_stale(now: Timestamp, updated: Timestamp, sync_interval_mins: u64) -> bool {
    age(now, updated) > minutes(2 * sync_interval_mins)
}

/// What is decided for the dashboards in `group`, all observations of `uid`:
/// nothing where the group is empty or converged; else the newest copy, or its
/// deletion where `destructive` is set and that copy is stale.
pub open spec fn merge_spec(
    uid: Seq<char>,
    group: Seq<Observation>,
    now: Timestamp,
    destructive: bool,
    sync_interval_mins: u64,
    instance_count: nat,
) -> Option<DecisionView> {
    if group.len() == 0 || converged(group, instance_count) {
        None
    } else {
        let winner = group[newest(group)].record;
        if destructive && is_stale(now, winner.meta.updated, sync_interval_mins) {
            Some((uid, None))
        } else {
            Some((uid, Some(winner)))
        }
    }
}

/// The decisions for the uids in `uids`, in their order; a uid for which
/// nothing is decided is left out.
pub open spec fn decisions_of(
    uids: Seq<Seq<char>>,
    obs: Seq<Observation>,
    now: Timestamp,
    destructive: bool,
    sync_interval_mins: u64,
    instance_count: nat,
) -> Seq<DecisionView>
    decreases uids.len(),
{
    if uids.len() == 0 {
        Seq::empty()
    } else {
        let rest = decisions_of(
            uids.drop_last(),
            obs,
            now,
            destructive,
            sync_interval_mins,
            instance_count,
        );
        match merge_spec(
            uids.last(),
            group_of(obs, uids.last()),
            now,
            destructive,
            sync_interval_mins,
            instance_count,
        ) {
            Some(d) => rest.push(d),
            None => rest,
        }
    }
}

/// The view of a decision.
pub open spec fn decision_view(d: (String, Option<FullDashboard>)) -> DecisionView {
    (
        d.0@,
        match d.1 {
            Some(record) => Some(record@),
            None => None,
        },
    )
}

/// The view of a decision that may be absent.
pub open spec fn decision_option_view(d: Option<(String, Option<FullDashboard>)>) -> Option<
    DecisionView,
> {
    match d {
        Some(d) => Some(decision_view(d)),
        None => None,
    }
}

/// The views of a list of decisions.
pub open spec fn decision_views(v: Seq<(String, Option<FullDashboard>)>) -> Seq<DecisionView> {
    v.map_values(|d: (String, Option<FullDashboard>)| decision_view(d))
}

/// Whether `a` is to be preferred over `b` as the copy to keep.
pub fn member_outranks(a: &Member, b: &Member) -> (r: bool)
    ensures
        r == outranks(a@, b@),
{
    let ta = &a.record.meta.updated;
    let tb = &b.record.meta.updated;
    ta.is_after(tb) || (ta.is_same_instant(tb) && comes_before(
        a.instance.as_str(),
        b.instance.as_str(),
    ))
}

/// The position in `group` of the copy to keep.
fn newest_member(group: &Vec<Member>) -> (w: usize)
    requires
        group.len() > 0,
    ensures
        w < group.len(),
        w == newest(member_views(group@)),
{
    let ghost views = member_views(group@);
    let mut w: usize = 0;
    let mut k: usize = 1;
    while k < group.len()
        invariant
            1 <= k <= group.len(),
            w < k,
            views == member_views(group@),
            w == newest(views.take(k as int)),
        decreases group.len() - k,
    {
        proof {
            assert(views.take(k as int + 1).drop_last() =~= views.take(k as int));
            assert(views.take(k as int + 1).last() == views[k as int]);
            assert(views.take(k as int + 1)[w as int] == views[w as int]);
        }
        if member_outranks(&group[k], &group[w]) {
            w = k;
        }
        k += 1;
    }
    assert(views.take(k as int) =~= views);
    w
}

/// Whether every instance of the fleet holds a copy and all copies count as
/// the same.
pub fn group_converged(group: &Vec<Member>, instance_count: usize) -> (r: bool)
    ensures
        r == converged(member_views(group@), instance_count as nat),
{
    if group.len() != instance_count {
        return false;
    }
    let ghost views = member_views(group@);
    let mut k: usize = 0;
    while k < group.len()
        invariant
            k <= group.len(),
            views == member_views(group@),
            forall|m: int|
                0 <= m < k ==> (#[trigger] views[m]).record.content() == views[0].record.content(),
        decreases group.len() - k,
    {
        if !dashboards_equal(group[0].record, group[k].record) {
            assert(views[k as int].record.content() != views[0].record.content());
            return false;
        }
        k += 1;
    }
    true
}

/// Decides what is to happen to the dashboards in `dashboards`, all
/// observations of `uid`.
pub fn merge_dashboards(
    uid: &String,
    dashboards: &Vec<Member>,
    now: Timestamp,
    destructive: bool,
    sync_interval_mins: u64,
    instance_count: usize,
) -> (r: Option<(String, Option<FullDashboard>)>)
    ensures
        decision_option_view(r) == merge_spec(
            uid@,
            member_views(dashboards@),
            now,
            destructive,
            sync_interval_mins,
            instance_count as nat,
        ),
{
    if dashboards.len() == 0 {
        return None;
    }
    if group_converged(dashboards, instance_count) {
        return None;
    }
    let newest = dashboards[newest_member(dashboards)].record;
    let limit: u128 = 2 * (sync_interval_mins as u128);
    let delete_outdated = destructive && now.is_older_than(&newest.meta.updated, limit);
    if delete_outdated {
        Some((uid.clone(), None))
    } else {
        Some((uid.clone(), Some(newest.clone())))
    }
}

/// What every instance of the fleet reports in one sync cycle.
pub struct DashboardState {
    sets: Vec<(String, Vec<FullDashboard>)>,
    instance_count: usize,
}

impl DashboardStateView {
    /// No instance has two reports.
    pub open spec fn names_distinct(self) -> bool {
        forall|i: int, j: int|
            0 <= i < j < self.sets.len() ==> (#[trigger] self.sets[i]).name != (
            #[trigger] self.sets[j]).name
    }

    /// Some report carries the name `name`.
    pub open spec fn has_set(self, name: Seq<char>) -> bool {
        exists|i: int| 0 <= i < self.sets.len() && (#[trigger] self.sets[i]).name == name
    }

    /// The state after `set` is added: it takes the place of the report with
    /// the same name, or comes last where there is none.
    pub open spec fn with_set(self, set: SetView) -> DashboardStateView {
        if self.has_set(set.name) {
            DashboardStateView {
                sets: Seq::new(
                    self.sets.len(),
                    |i: int|
                        if self.sets[i].name == set.name {
                            set
                        } else {
                            self.sets[i]
                        },
                ),
                instance_count: self.instance_count,
            }
        } else {
            DashboardStateView { sets: self.sets.push(set), instance_count: self.instance_count }
        }
    }

    /// Every dashboard of every report.
    pub open spec fn observations(self) -> Seq<Observation> {
        observations(self.sets)
    }

    /// The decisions of one sync cycle at time `now`: one for each uid that is
    /// not already the same on every instance, in the order in which the uids
    /// first occur.
    pub open spec fn decisions(
        self,
        now: Timestamp,
        destructive: bool,
        sync_interval_mins: u64,
    ) -> Seq<DecisionView> {
        decisions_of(
            distinct_uids(self.observations()),
            self.observations(),
            now,
            destructive,
            sync_interval_mins,
            self.instance_count,
        )
    }
}

impl View for DashboardState {
    type V = DashboardStateView;

    closed spec fn view(&self) -> DashboardStateView {
        DashboardStateView {
            sets: set_views(self.sets@),
            instance_count: self.instance_count as nat,
        }
    }
}

impl DashboardState {
    #[verifier::type_invariant]
    spec fn names_are_distinct(self) -> bool {
        self@.names_distinct()
    }

    /// An empty state for a fleet of `instance_count` instances.
    pub fn new(instance_count: usize) -> (state: DashboardState)
        ensures
            state@.sets == Seq::<SetView>::empty(),
            state@.instance_count == instance_count,
    {
        let state = DashboardState { sets: Vec::new(), instance_count };
        assert(state@.sets =~= Seq::<SetView>::empty());
        state
    }

    /// Records what the instance `base_url` reports. A second report of one
    /// instance replaces the first.
    pub fn add_set(&mut self, base_url: String, dashboards: Vec<FullDashboard>)
        ensures
            final(self)@ == old(self)@.with_set(
                SetView { name: base_url@, dashboards: record_views(dashboards@) },
            ),
            final(self)@.names_distinct(),
    {
        proof {
            use_type_invariant(&*self);
        }
        let ghost set = SetView { name: base_url@, dashboards: record_views(dashboards@) };
        let ghost before = self@;
        let mut sets: Vec<(String, Vec<FullDashboard>)> = Vec::new();
        assert(set_views(sets@) =~= Seq::empty());
        std::mem::swap(&mut self.sets, &mut sets);
        let mut i: usize = 0;
        let mut found = false;
        while i < sets.len()
            invariant_except_break
                !found,
            invariant
                i <= sets.len(),
                set_views(sets@) == before.sets,
                forall|k: int| 0 <= k < i ==> (#[trigger] before.sets[k]).name != base_url@,
            ensures
                found ==> i < sets.len() && before.sets[i as int].name == base_url@,
                !found ==> !before.has_set(base_url@),
            decreases sets.len() - i,
        {
            if sets[i].0 == base_url {
                found = true;
                break;
            }
            i += 1;
        }
        if found {
            sets[i] = (base_url, dashboards);
            assert(before.has_set(set.name));
            assert(set_views(sets@) =~= before.with_set(set).sets);
        } else {
            sets.push((base_url, dashboards));
            assert(set_views(sets@) =~= before.sets.push(set));
        }
        assert(before.with_set(set).names_distinct());
        std::mem::swap(&mut self.sets, &mut sets);
    }

    /// The titles of the folders that the reported dashboards lie in, each
    /// once, in the order of first occurrence.
    pub fn unique_folders(&self) -> (titles: Vec<String>)
        ensures
            texts(titles@) == observed_folders(self@.observations()),
    {
        let members = all_members(&self.sets);
        let ghost obs = member_views(members@);
        let mut titles: Vec<String> = Vec::new();
        assert(obs.take(0) =~= Seq::empty());
        assert(texts(titles@) =~= Seq::empty());
        let mut i: usize = 0;
        while i < members.len()
            invariant
                i <= members.len(),
                obs == member_views(members@),
                texts(titles@) == observed_folders(obs.take(i as int)),
            decreases members.len() - i,
        {
            proof {
                assert(obs.take(i as int + 1).drop_last() =~= obs.take(i as int));
                assert(obs.take(i as int + 1).last() == members@[i as int]@);
            }
            match &members[i].record.meta.folder_title {
                Some(title) => {
                    push_distinct(&mut titles, title);
                },
                None => {},
            }
            i += 1;
        }
        assert(obs.take(i as int) =~= obs);
        titles
    }

    /// For each report, in their order: the name of the instance and the
    /// number of dashboards it reported.
    pub fn data_stats(&self) -> (stats: Vec<(String, usize)>)
        ensures
            stats.len() == self@.sets.len(),
            forall|i: int|
                0 <= i < stats.len() ==> (#[trigger] stats@[i]).0@ == self@.sets[i].name
                    && stats@[i].1 == self@.sets[i].dashboards.len(),
    {
        let mut stats: Vec<(String, usize)> = Vec::new();
        let mut i: usize = 0;
        while i < self.sets.len()
            invariant
                i <= self.sets.len(),
                stats.len() == i,
                forall|k: int|
                    0 <= k < i ==> (#[trigger] stats@[k]).0@ == self@.sets[k].name && stats@[k].1
                        == self@.sets[k].dashboards.len(),
            decreases self.sets.len() - i,
        {
            stats.push((self.sets[i].0.clone(), self.sets[i].1.len()));
            i += 1;
        }
        stats
    }

    /// The decisions of one sync cycle at time `now`.
    pub fn diff_at(&self, now: Timestamp, destructive: bool, sync_interval_mins: u64) -> (r: Vec<
        (String, Option<FullDashboard>),
    >)
        ensures
            decision_views(r@) == self@.decisions(now, destructive, sync_interval_mins),
    {
        let groups = index_by_uid(&self.sets);
        let ghost obs = self@.observations();
        let ghost uids = distinct_uids(obs);
        let mut out: Vec<(String, Option<FullDashboard>)> = Vec::new();
        assert(uids.take(0) =~= Seq::empty());
        assert(decision_views(out@) =~= Seq::empty());
        let mut g: usize = 0;
        while g < groups.len()
            invariant
                g <= groups.len(),
                obs == observations(set_views(self.sets@)),
                uids == distinct_uids(obs),
                is_index_of(groups@, obs),
                decision_views(out@) == decisions_of(
                    uids.take(g as int),
                    obs,
                    now,
                    destructive,
                    sync_interval_mins,
                    self.instance_count as nat,
                ),
            decreases groups.len() - g,
        {
            let decision = merge_dashboards(
                groups[g].uid,
                &groups[g].members,
                now,
                destructive,
                sync_interval_mins,
                self.instance_count,
            );
            proof {
                assert(uids.take(g as int + 1).drop_last() =~= uids.take(g as int));
                assert(uids.take(g as int + 1).last() == uids[g as int]);
                assert(groups@[g as int].uid@ == uids[g as int]);
            }
            let ghost before = decision_views(out@);
            match decision {
                Some(d) => {
                    out.push(d);
                    assert(decision_views(out@) =~= before.push(decision_view(d)));
                },
                None => {},
            }
            g += 1;
        }
        assert(uids.take(g as int) =~= uids);
        out
    }

    /// The decisions of one sync cycle, at the time the system clock gives.
    pub fn diff(&self, destructive: bool, sync_interval_mins: u64) -> (r: Vec<
        (String, Option<FullDashboard>),
    >)
        ensures
            exists|now: Timestamp|
                decision_views(r@) == #[trigger] self@.decisions(
                    now,
                    destructive,
                    sync_interval_mins,
                ),
    {
        let now = Timestamp::now();
        self.diff_at(now, destructive, sync_interval_mins)
    }
}

} // verus!
