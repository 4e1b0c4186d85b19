//! The cycle orchestrator: what to do next, given what has happened.
//!
//! A sync cycle runs through five stages: fetch, reconcile, mirror, apply,
//! purge. The work of a stage that talks to instances is done by the caller;
//! the service says which work is due and takes its outcome. It keeps nothing
//! from one cycle to the next but the number of cycles it has ended.
//!
//! A fetch that fails on any instance ends the cycle at once: a partial
//! snapshot would make every dashboard of the missing instance look as if it
//! had to be brought there again. Failures of later stages stay with the
//! instance and the item they concern, and the cycle goes on.

use crate::api::dashboards::{
    clone_strings, import_body_of, plain_request, texts, DashboardImportBody,
    DashboardImportBodyView, Folder, FolderView, FullDashboard, ImportOutcome, Method, Request,
    RequestView,
};
use crate::config::Config;
use crate::dashboard_state::{
    decision_view, decision_views, record_views, set_view, DashboardState, DashboardStateView,
    DecisionView, SetView,
};
use crate::instance::GrafanaInstance;
use crate::mirror::{
    answer_views, folders_to_mirror, is_root, lemma_mirrored_folders, mirrored_folders,
    needed_folder, table_of, FolderMap, FolderTable,
};
use crate::timestamp::Timestamp;
use vstd::prelude::*;
use vstd::string::*;

verus! {

/// Where the service stands in a cycle. Everything but `Idle` is part of a
/// running cycle.
#[derive(Debug, Clone, Copy, PartialEq, Eq, Structural)]
pub enum Phase {
    /// Waiting for the next tick.
    Idle,
    /// Waiting for what the instances report.
    Fetching,
    /// Waiting for the folders to be provided.
    Mirroring,
    /// Waiting for the decisions to be applied.
    Applying,
    /// Waiting for the empty folders to be removed.
    Purging,
}

/// What is to be done on one instance for one decision.
#[derive(Debug, PartialEq, Eq)]
pub enum ApplyStep {
    /// Send this import, and overwrite what is there.
    Import(Request, DashboardImportBody),
    /// The dashboard with this uid is to go. For the time being this is only
    /// noted: nothing is deleted on the instance.
    Delete(String),
    /// The dashboard with this uid needs the folder with this title, which the
    /// instance did not provide. The dashboard is left out on this instance.
    MissingFolder(String, String),
}

/// The view of an [`ApplyStep`].
pub enum ApplyStepView {
    Import(RequestView, DashboardImportBodyView),
    Delete(Seq<char>),
    MissingFolder(Seq<char>, Seq<char>),
}

impl View for ApplyStep {
    type V = ApplyStepView;

    open spec fn view(&self) -> ApplyStepView {
        match self {
            ApplyStep::Import(request, body) => ApplyStepView::Import(request@, body@),
            ApplyStep::Delete(uid) => ApplyStepView::Delete(uid@),
            ApplyStep::MissingFolder(uid, title) => ApplyStepView::MissingFolder(uid@, title@),
        }
    }
}

/// The views of a list of steps.
pub open spec fn step_views(steps: Seq<ApplyStep>) -> Seq<ApplyStepView> {
    steps.map_values(|s: ApplyStep| s@)
}

/// The view of the plan for one instance: its name, and its steps, or `None`
/// where the instance is left out.
pub open spec fn plan_view(plan: (String, Option<Vec<ApplyStep>>)) -> (
    Seq<char>,
    Option<Seq<ApplyStepView>>,
) {
    (
        plan.0@,
        match plan.1 {
            Some(steps) => Some(step_views(steps@)),
            None => None,
        },
    )
}

impl Phase {
    /// Whether a cycle is running.
    pub open spec fn spec_is_running(self) -> bool {
        self != Phase::Idle
    }

    /// Whether a cycle is running.
    #[verifier::when_used_as_spec(spec_is_running)]
    pub fn is_running(self) -> (r: bool)
        ensures
            r == self.spec_is_running(),
    {
        match self {
            Phase::Idle => false,
            _ => true,
        }
    }
}

/// How a cycle ended.
#[derive(Debug, Clone, Copy, PartialEq, Eq, Structural)]
pub struct CycleReport {
    /// The number of the cycle, from 0.
    pub cycle: usize,
    /// Whether the cycle ran through all its stages.
    pub completed: bool,
    /// How many imports failed.
    pub failures: usize,
}

/// What the caller is to do next.
#[derive(Debug)]
pub enum Action {
    /// Nothing: what was reported does not fit the stage the cycle is in.
    Ignore,
    /// Fetch from every instance the dashboards that carry this tag, then
    /// call `fetched`.
    Fetch(String),
    /// Ask each instance, named first, to provide each of the folders named
    /// after it, once; then call `mirrored` with what each answered.
    Mirror(Vec<(String, Vec<String>)>),
    /// Carry out the steps of every instance, then call `applied`.
    Apply(Vec<(String, Option<Vec<ApplyStep>>)>),
    /// Ask every instance to remove its empty folders, then call `purged`.
    Purge,
    /// The cycle is over. Wait for the next tick.
    Finish(CycleReport),
}

/// The view of a [`SyncService`].
pub struct ServiceView {
    /// The names of the instances, in the order of the configuration.
    pub instances: Seq<Seq<char>>,
    pub sync_tag: Seq<char>,
    pub sync_rate_mins: u64,
    /// How many cycles have ended.
    pub cycle: usize,
    pub phase: Phase,
    /// The decisions of the running cycle, from reconciliation until they are
    /// handed out for application.
    pub decisions: Seq<DecisionView>,
    /// How many imports of the running cycle have failed.
    pub failures: usize,
}

/// What is to be done on the instance at `base_url` for `decision`, where
/// `table` holds the folders that the instance provided. A deletion is noted.
/// A dashboard of the root folder is imported there. Any other dashboard is
/// imported into the folder of its title, under the identifier that this
/// instance gave it; where the instance did not provide the folder, the
/// dashboard is left out.
pub open spec fn planned_step(
    base_url: Seq<char>,
    decision: DecisionView,
    table: Map<Seq<char>, FolderView>,
) -> ApplyStepView {
    let request = plain_request(Method::Post, base_url + "/api/dashboards/import"@);
    match decision.1 {
        None => ApplyStepView::Delete(decision.0),
        Some(winner) => match needed_folder(decision) {
            None => ApplyStepView::Import(request, import_body_of(winner, None, true)),
            Some(title) => if table.contains_key(title) {
                ApplyStepView::Import(
                    request,
                    import_body_of(winner, Some(table[title].uid), true),
                )
            } else {
                ApplyStepView::MissingFolder(decision.0, title)
            },
        },
    }
}

/// One step for each decision, in the order of the decisions.
pub open spec fn planned_steps(
    base_url: Seq<char>,
    decisions: Seq<DecisionView>,
    table: Map<Seq<char>, FolderView>,
) -> Seq<ApplyStepView> {
    Seq::new(decisions.len(), |i: int| planned_step(base_url, decisions[i], table))
}

/// The plan for the instance at `base_url`: its steps, or `None` where
/// `folders` holds no table for it.
pub open spec fn planned_for(
    base_url: Seq<char>,
    decisions: Seq<DecisionView>,
    folders: Map<Seq<char>, Map<Seq<char>, FolderView>>,
) -> Option<Seq<ApplyStepView>> {
    if folders.contains_key(base_url) {
        Some(planned_steps(base_url, decisions, folders[base_url]))
    } else {
        None
    }
}

/// The view of what one instance is asked to provide: its name and the titles.
pub open spec fn request_view(request: (String, Vec<String>)) -> (Seq<char>, Seq<Seq<char>>) {
    (request.0@, texts(request.1@))
}

/// The views of what the instances are asked to provide.
pub open spec fn request_views(requests: Seq<(String, Vec<String>)>) -> Seq<
    (Seq<char>, Seq<Seq<char>>),
> {
    requests.map_values(|r: (String, Vec<String>)| request_view(r))
}

/// What the fleet is asked to provide: every instance, in the order of the
/// configuration, each of `titles`.
pub open spec fn mirror_requests(instances: Seq<Seq<char>>, titles: Seq<Seq<char>>) -> Seq<
    (Seq<char>, Seq<Seq<char>>),
> {
    Seq::new(instances.len(), |i: int| (instances[i], titles))
}

/// The views of what the instances answered, instance by instance.
pub open spec fn fleet_answers(answers: Seq<Vec<Option<Folder>>>) -> Seq<Seq<Option<FolderView>>> {
    answers.map_values(|a: Vec<Option<Folder>>| answer_views(a@))
}

/// What the instance at position `i` answered; nothing where `answers` does
/// not reach that far.
pub open spec fn answers_at(answers: Seq<Seq<Option<FolderView>>>, i: int) -> Seq<
    Option<FolderView>,
> {
    if 0 <= i < answers.len() {
        answers[i]
    } else {
        Seq::empty()
    }
}

/// The folder tables of the first `n` instances: each instance stands under
/// its name with the table that its own answers make.
pub open spec fn fleet_tables(
    instances: Seq<Seq<char>>,
    answers: Seq<Seq<Option<FolderView>>>,
    n: nat,
) -> Map<Seq<char>, Map<Seq<char>, FolderView>>
    decreases n,
{
    if n == 0 {
        Map::empty()
    } else {
        fleet_tables(instances, answers, (n - 1) as nat).insert(
            instances[n - 1],
            table_of(answers_at(answers, n - 1)),
        )
    }
}

/// No two instances carry the same name.
pub open spec fn names_differ(instances: Seq<Seq<char>>) -> bool {
    forall|i: int, j: int|
        0 <= i < j < instances.len() ==> #[trigger] instances[i] != #[trigger] instances[j]
}

/// The view of what one instance reported, where it reported.
pub open spec fn report_view(report: Option<(String, Vec<FullDashboard>)>) -> SetView {
    set_view(report->0)
}

/// The views of what the instances reported.
pub open spec fn report_views(reports: Seq<Option<(String, Vec<FullDashboard>)>>) -> Seq<SetView> {
    reports.map_values(|r: Option<(String, Vec<FullDashboard>)>| report_view(r))
}

/// Whether every instance reported.
pub open spec fn all_reported(reports: Seq<Option<(String, Vec<FullDashboard>)>>) -> bool {
    forall|i: int| 0 <= i < reports.len() ==> (#[trigger] reports[i]) is Some
}

/// The snapshot of a cycle: the reports, added one after the other to the
/// empty state of a fleet of `instance_count` instances.
pub open spec fn snapshot(reports: Seq<SetView>, instance_count: nat) -> DashboardStateView
    decreases reports.len(),
{
    if reports.len() == 0 {
        DashboardStateView { sets: Seq::empty(), instance_count }
    } else {
        snapshot(reports.drop_last(), instance_count).with_set(reports.last())
    }
}

/// How many of `outcomes` are failures. A conflict is none.
pub open spec fn count_failures(outcomes: Seq<ImportOutcome>) -> nat
    decreases outcomes.len(),
{
    if outcomes.len() == 0 {
        0
    } else {
        count_failures(outcomes.drop_last()) + if outcomes.last() == ImportOutcome::Error {
            1nat
        } else {
            0nat
        }
    }
}

/// `a + b`, or the largest number where that does not fit.
pub open spec fn capped_sum(a: usize, b: nat) -> usize {
    if a + b <= usize::MAX {
        (a + b) as usize
    } else {
        usize::MAX
    }
}

/// The number that follows `n`, or `n` where there is none.
pub open spec fn next_cycle(n: usize) -> usize {
    if n < usize::MAX {
        (n + 1) as usize
    } else {
        n
    }
}

/// A cycle may delete only when a cycle has ended before it: in the first
/// cycle not every instance has been seen yet.
pub open spec fn is_destructive(cycle: usize) -> bool {
    cycle > 0
}

/// Whether every instance reported.
pub fn every_instance_reported(reports: &Vec<Option<(String, Vec<FullDashboard>)>>) -> (r: bool)
    ensures
        r == all_reported(reports@),
{
    let mut i: usize = 0;
    while i < reports.len()
        invariant
            i <= reports.len(),
            forall|k: int| 0 <= k < i ==> (#[trigger] reports@[k]) is Some,
        decreases reports.len() - i,
    {
        if reports[i].is_none() {
            return false;
        }
        i += 1;
    }
    true
}

/// The snapshot of a cycle in which every instance reported.
pub fn collect_dashboards(
    reports: Vec<Option<(String, Vec<FullDashboard>)>>,
    instance_count: usize,
) -> (state: DashboardState)
    requires
        all_reported(reports@),
    ensures
        state@ == snapshot(report_views(reports@), instance_count as nat),
{
    let ghost views = report_views(reports@);
    let mut state = DashboardState::new(instance_count);
    let mut rest = reports;
    let ghost mut done: int = 0;
    assert(views.take(0) =~= Seq::empty());
    assert(reports@.skip(0) =~= reports@);
    assert(state@ == snapshot(views.take(0), instance_count as nat));
    while rest.len() > 0
        invariant
            0 <= done <= reports.len(),
            views == report_views(reports@),
            rest@ == reports@.skip(done),
            all_reported(reports@),
            state@ == snapshot(views.take(done), instance_count as nat),
        decreases rest.len(),
    {
        let report = rest.remove(0);
        proof {
            assert(report == reports@[done]);
            assert(views.take(done + 1).drop_last() =~= views.take(done));
            assert(views.take(done + 1).last() == report_view(report));
            assert(reports@.skip(done).remove(0) =~= reports@.skip(done + 1));
        }
        match report {
            Some((base_url, dashboards)) => {
                state.add_set(base_url, dashboards);
            },
            None => {},
        }
        proof {
            done = done + 1;
        }
    }
    assert(views.take(done) =~= views);
    state
}

/// How many of `outcomes` are failures. A conflict is none.
pub fn failures_among(outcomes: &Vec<ImportOutcome>) -> (n: usize)
    ensures
        n == count_failures(outcomes@),
{
    let mut n: usize = 0;
    let mut i: usize = 0;
    assert(outcomes@.take(0) =~= Seq::empty());
    while i < outcomes.len()
        invariant
            i <= outcomes.len(),
            n <= i,
            n == count_failures(outcomes@.take(i as int)),
        decreases outcomes.len() - i,
    {
        proof {
            assert(outcomes@.take(i as int + 1).drop_last() =~= outcomes@.take(i as int));
            assert(outcomes@.take(i as int + 1).last() == outcomes@[i as int]);
        }
        if outcomes[i].is_failure() {
            n += 1;
        }
        i += 1;
    }
    assert(outcomes@.take(i as int) =~= outcomes@);
    n
}

/// What is to be done on `inst` for each of `dashboards`, the decisions of the
/// cycle; `None` where `folder_map` holds no table for the instance, which is
/// then left out of the cycle.
pub fn replicate_dashboards_on_instance(
    folder_map: &FolderMap,
    dashboards: &Vec<(String, Option<FullDashboard>)>,
    inst: &GrafanaInstance,
) -> (r: Option<Vec<ApplyStep>>)
    ensures
        (match r {
            Some(steps) => Some(step_views(steps@)),
            None => None,
        }) == planned_for(inst.spec_base_url(), decision_views(dashboards@), folder_map@),
{
    let folders = match folder_map.get(inst.base_url()) {
        Some(f) => f,
        None => {
            return None;
        },
    };
    let ghost decisions = decision_views(dashboards@);
    let ghost wanted = planned_steps(inst.spec_base_url(), decisions, folders@);
    let mut steps: Vec<ApplyStep> = Vec::new();
    let mut i: usize = 0;
    while i < dashboards.len()
        invariant
            i <= dashboards.len(),
            decisions == decision_views(dashboards@),
            wanted == planned_steps(inst.spec_base_url(), decisions, folders@),
            steps.len() == i,
            forall|k: int| 0 <= k < i ==> (#[trigger] steps@[k])@ == wanted[k],
        decreases dashboards.len() - i,
    {
        let uid = &dashboards[i].0;
        assert(decisions[i as int] == decision_view(dashboards@[i as int]));
        let step = match &dashboards[i].1 {
            None => ApplyStep::Delete(uid.clone()),
            Some(d) => {
                let title = match &d.meta.folder_title {
                    Some(title) => if is_root(title) {
                        None
                    } else {
                        Some(title)
                    },
                    None => None,
                };
                match title {
                    None => {
                        let (request, body) = inst.import_dashboard(d, None, true);
                        ApplyStep::Import(request, body)
                    },
                    Some(title) => match folders.get(title.as_str()) {
                        Some(folder) => {
                            let (request, body) = inst.import_dashboard(d, Some(folder), true);
                            ApplyStep::Import(request, body)
                        },
                        None => ApplyStep::MissingFolder(uid.clone(), title.clone()),
                    },
                }
            },
        };
        assert(step@ == wanted[i as int]);
        steps.push(step);
        i += 1;
    }
    assert(step_views(steps@) =~= wanted);
    Some(steps)
}

/// Runs sync cycles over the instances of a configuration.
pub struct SyncService {
    cfg: Config,
    cycle: usize,
    phase: Phase,
    decisions: Vec<(String, Option<FullDashboard>)>,
    failures: usize,
}

/// The names of a list of instances.
pub open spec fn instance_names(instances: Seq<GrafanaInstance>) -> Seq<Seq<char>> {
    instances.map_values(|i: GrafanaInstance| i.spec_base_url())
}

impl View for SyncService {
    type V = ServiceView;

    closed spec fn view(&self) -> ServiceView {
        ServiceView {
            instances: instance_names(self.cfg.instances@),
            sync_tag: self.cfg.sync_tag@,
            sync_rate_mins: self.cfg.sync_rate_mins,
            cycle: self.cycle,
            phase: self.phase,
            decisions: decision_views(self.decisions@),
            failures: self.failures,
        }
    }
}

impl ServiceView {
    /// The same service at another stage of the same cycle.
    pub open spec fn at(self, phase: Phase) -> ServiceView {
        ServiceView { phase, ..self }
    }

    /// The service after the running cycle has ended.
    pub open spec fn ended(self) -> ServiceView {
        ServiceView {
            cycle: next_cycle(self.cycle),
            phase: Phase::Idle,
            decisions: Seq::empty(),
            failures: 0,
            ..self
        }
    }

    /// The snapshot that the reports of a cycle make.
    pub open spec fn snapshot_of(self, reports: Seq<SetView>) -> DashboardStateView {
        snapshot(reports, self.instances.len())
    }

    /// What reconciliation decides at `now` on the reports of a cycle.
    pub open spec fn reconciled(self, reports: Seq<SetView>, now: Timestamp) -> Seq<DecisionView> {
        self.snapshot_of(reports).decisions(now, is_destructive(self.cycle), self.sync_rate_mins)
    }
}

impl SyncService {
    /// A service that waits for its first tick.
    pub fn new(cfg: Config) -> (service: SyncService)
        ensures
            service@ == (ServiceView {
                instances: instance_names(cfg.instances@),
                sync_tag: cfg.sync_tag@,
                sync_rate_mins: cfg.sync_rate_mins,
                cycle: 0,
                phase: Phase::Idle,
                decisions: Seq::empty(),
                failures: 0,
            }),
    {
        let decisions: Vec<(String, Option<FullDashboard>)> = Vec::new();
        assert(decision_views(decisions@) =~= Seq::empty());
        SyncService { cfg, cycle: 0, phase: Phase::Idle, decisions, failures: 0 }
    }

    /// The configuration of the service.
    pub fn config(&self) -> (cfg: &Config)
        ensures
            instance_names(cfg.instances@) == self@.instances,
            cfg.sync_tag@ == self@.sync_tag,
            cfg.sync_rate_mins == self@.sync_rate_mins,
    {
        &self.cfg
    }

    /// How many cycles have ended.
    pub fn cycle(&self) -> (n: usize)
        ensures
            n == self@.cycle,
    {
        self.cycle
    }

    /// Where the service stands.
    pub fn phase(&self) -> (p: Phase)
        ensures
            p == self@.phase,
    {
        self.phase
    }

    /// The seconds from one tick to the next; the largest number where the
    /// sync rate in seconds does not fit a machine number.
    pub fn tick_seconds(&self) -> (secs: u64)
        ensures
            secs == if self@.sync_rate_mins * 60 <= u64::MAX {
                self@.sync_rate_mins * 60
            } else {
                u64::MAX as int
            },
    {
        match self.cfg.sync_rate_mins.checked_mul(60) {
            Some(secs) => secs,
            None => u64::MAX,
        }
    }

    /// Ends the running cycle.
    fn finish(&mut self, completed: bool) -> (action: Action)
        ensures
            final(self)@ == old(self)@.ended(),
            action matches Action::Finish(report) && report == (CycleReport {
                cycle: old(self)@.cycle,
                completed,
                failures: old(self)@.failures,
            }),
    {
        let report = CycleReport { cycle: self.cycle, completed, failures: self.failures };
        if self.cycle < usize::MAX {
            self.cycle = self.cycle + 1;
        }
        self.phase = Phase::Idle;
        self.decisions = Vec::new();
        self.failures = 0;
        assert(decision_views(self.decisions@) =~= Seq::empty());
        Action::Finish(report)
    }

    /// The time has come for a cycle. A service that is idle starts one and
    /// asks for the dashboards that carry the sync tag. A service in a cycle
    /// ignores the tick.
    pub fn tick(&mut self) -> (action: Action)
        ensures
            old(self)@.phase == Phase::Idle ==> final(self)@ == old(self)@.at(Phase::Fetching) && (
            action matches Action::Fetch(tag) && tag@ == old(self)@.sync_tag),
            old(self)@.phase != Phase::Idle ==> final(self)@ == old(self)@ && action is Ignore,
    {
        match self.phase {
            Phase::Idle => {
                self.phase = Phase::Fetching;
                Action::Fetch(self.cfg.sync_tag.clone())
            },
            _ => Action::Ignore,
        }
    }

    /// The instances have been asked: `reports` holds for each what it
    /// reported, or `None` where it could not be fetched.
    ///
    /// Where an instance is missing the cycle ends, not completed. Else the
    /// reports are reconciled at `now`, destructively from the second cycle
    /// on and with the sync rate as the sync interval, and the folders that
    /// the decisions need are asked for: of every instance, each folder
    /// once.
    pub fn fetched_at(
        &mut self,
        reports: Vec<Option<(String, Vec<FullDashboard>)>>,
        now: Timestamp,
    ) -> (action: Action)
        ensures
            old(self)@.phase != Phase::Fetching ==> final(self)@ == old(self)@ && action is Ignore,
            old(self)@.phase == Phase::Fetching && !all_reported(reports@) ==> final(self)@ == old(
                self,
            )@.ended() && (action matches Action::Finish(report) && report == (CycleReport {
                cycle: old(self)@.cycle,
                completed: false,
                failures: 0,
            })),
            old(self)@.phase == Phase::Fetching && all_reported(reports@) ==> final(self)@ == (
            ServiceView {
                phase: Phase::Mirroring,
                decisions: old(self)@.reconciled(report_views(reports@), now),
                failures: 0,
                ..old(self)@
            }) && (action matches Action::Mirror(requests) && request_views(requests@)
                == mirror_requests(
                old(self)@.instances,
                mirrored_folders(old(self)@.reconciled(report_views(reports@), now)),
            )),
    {
        match self.phase {
            Phase::Fetching => {},
            _ => {
                return Action::Ignore;
            },
        }
        if !every_instance_reported(&reports) {
            self.failures = 0;
            return self.finish(false);
        }
        let state = collect_dashboards(reports, self.cfg.instances.len());
        let decisions = state.diff_at(now, self.cycle != 0, self.cfg.sync_rate_mins);
        let titles = folders_to_mirror(&decisions);
        let requests = self.ask_every_instance(&titles);
        self.decisions = decisions;
        self.failures = 0;
        self.phase = Phase::Mirroring;
        Action::Mirror(requests)
    }

    /// The instances have been asked, and the reports are reconciled at the
    /// time the system clock gives. See `fetched_at`.
    pub fn fetched(&mut self, reports: Vec<Option<(String, Vec<FullDashboard>)>>) -> (action:
        Action)
        ensures
            old(self)@.phase != Phase::Fetching ==> final(self)@ == old(self)@ && action is Ignore,
            old(self)@.phase == Phase::Fetching && !all_reported(reports@) ==> final(self)@ == old(
                self,
            )@.ended() && (action matches Action::Finish(report) && report == (CycleReport {
                cycle: old(self)@.cycle,
                completed: false,
                failures: 0,
            })),
            old(self)@.phase == Phase::Fetching && all_reported(reports@) ==> exists|
                now: Timestamp,
            |
                final(self)@ == (ServiceView {
                    phase: Phase::Mirroring,
                    decisions: #[trigger] old(self)@.reconciled(report_views(reports@), now),
                    failures: 0,
                    ..old(self)@
                }) && (action matches Action::Mirror(requests) && request_views(requests@)
                    == mirror_requests(
                    old(self)@.instances,
                    mirrored_folders(old(self)@.reconciled(report_views(reports@), now)),
                )),
    {
        let now = Timestamp::now();
        self.fetched_at(reports, now)
    }

    /// What the fleet is asked to provide: every instance, in the order of
    /// the configuration, each of `titles`.
    fn ask_every_instance(&self, titles: &Vec<String>) -> (requests: Vec<(String, Vec<String>)>)
        ensures
            request_views(requests@) == mirror_requests(self@.instances, texts(titles@)),
    {
        let mut requests: Vec<(String, Vec<String>)> = Vec::new();
        let mut i: usize = 0;
        while i < self.cfg.instances.len()
            invariant
                i <= self.cfg.instances.len(),
                requests.len() == i,
                forall|k: int|
                    0 <= k < i ==> request_view(#[trigger] requests@[k]) == (
                        self@.instances[k],
                        texts(titles@),
                    ),
            decreases self.cfg.instances.len() - i,
        {
            let name = String::from_str(self.cfg.instances[i].base_url());
            requests.push((name, clone_strings(titles)));
            i += 1;
        }
        assert(request_views(requests@) =~= mirror_requests(self@.instances, texts(titles@)));
        requests
    }

    /// The folder tables of the fleet: every instance of the configuration
    /// gets a table under its name, made of its own answers. `answers` holds
    /// them in the order of the configuration; an instance that `answers`
    /// does not reach, or whose every answer is a failure, gets an empty
    /// table.
    pub fn mirror_folders(&self, answers: &Vec<Vec<Option<Folder>>>) -> (map: FolderMap)
        ensures
            map@ == fleet_tables(
                self@.instances,
                fleet_answers(answers@),
                self@.instances.len(),
            ),
    {
        let ghost all = fleet_answers(answers@);
        let mut map = FolderMap::new();
        let mut i: usize = 0;
        while i < self.cfg.instances.len()
            invariant
                i <= self.cfg.instances.len(),
                all == fleet_answers(answers@),
                map@ == fleet_tables(self@.instances, all, i as nat),
            decreases self.cfg.instances.len() - i,
        {
            let table = if i < answers.len() {
                FolderTable::from_answers(&answers[i])
            } else {
                FolderTable::from_answers(&Vec::new())
            };
            proof {
                if i >= answers.len() {
                    assert(answer_views(Seq::<Option<Folder>>::empty()) =~= Seq::empty());
                }
            }
            map.insert(String::from_str(self.cfg.instances[i].base_url()), table);
            i += 1;
        }
        map
    }

    /// What is to be done on every instance, in the order of the
    /// configuration.
    fn replicate_dashboards(&self, folder_map: &FolderMap) -> (plans: Vec<
        (String, Option<Vec<ApplyStep>>),
    >)
        ensures
            plans.len() == self@.instances.len(),
            forall|i: int|
                0 <= i < plans.len() ==> plan_view(#[trigger] plans@[i]) == (
                    self@.instances[i],
                    planned_for(self@.instances[i], self@.decisions, folder_map@),
                ),
    {
        let mut plans: Vec<(String, Option<Vec<ApplyStep>>)> = Vec::new();
        let mut i: usize = 0;
        while i < self.cfg.instances.len()
            invariant
                i <= self.cfg.instances.len(),
                plans.len() == i,
                forall|k: int|
                    0 <= k < i ==> plan_view(#[trigger] plans@[k]) == (
                        self@.instances[k],
                        planned_for(self@.instances[k], self@.decisions, folder_map@),
                    ),
            decreases self.cfg.instances.len() - i,
        {
            let inst = &self.cfg.instances[i];
            let steps = replicate_dashboards_on_instance(folder_map, &self.decisions, inst);
            plans.push((String::from_str(inst.base_url()), steps));
            i += 1;
        }
        plans
    }

    /// The folders have been asked for: `answers` holds, in the order of the
    /// configuration, what each instance answered to each title. Every
    /// instance gets its folder table, made of its own answers, and the
    /// decisions are handed out as the steps that each instance is to see.
    pub fn mirrored(&mut self, answers: &Vec<Vec<Option<Folder>>>) -> (action: Action)
        ensures
            old(self)@.phase != Phase::Mirroring ==> final(self)@ == old(self)@ && action is Ignore,
            old(self)@.phase == Phase::Mirroring ==> final(self)@ == (ServiceView {
                phase: Phase::Applying,
                decisions: Seq::empty(),
                ..old(self)@
            }) && (action matches Action::Apply(plans) && plans.len() == old(
                self,
            )@.instances.len() && forall|i: int|
                0 <= i < plans.len() ==> plan_view(#[trigger] plans@[i]) == (
                    old(self)@.instances[i],
                    planned_for(
                        old(self)@.instances[i],
                        old(self)@.decisions,
                        fleet_tables(
                            old(self)@.instances,
                            fleet_answers(answers@),
                            old(self)@.instances.len(),
                        ),
                    ),
                )),
    {
        let folder_map = self.mirror_folders(answers);
        self.mirrored_with(&folder_map)
    }

    /// The folders have been asked for: `folder_map` holds what every
    /// instance provided. The decisions are handed out, as the steps that
    /// each instance is to see.
    pub fn mirrored_with(&mut self, folder_map: &FolderMap) -> (action: Action)
        ensures
            old(self)@.phase != Phase::Mirroring ==> final(self)@ == old(self)@ && action is Ignore,
            old(self)@.phase == Phase::Mirroring ==> final(self)@ == (ServiceView {
                phase: Phase::Applying,
                decisions: Seq::empty(),
                ..old(self)@
            }) && (action matches Action::Apply(plans) && plans.len() == old(
                self,
            )@.instances.len() && forall|i: int|
                0 <= i < plans.len() ==> plan_view(#[trigger] plans@[i]) == (
                    old(self)@.instances[i],
                    planned_for(old(self)@.instances[i], old(self)@.decisions, folder_map@),
                )),
    {
        match self.phase {
            Phase::Mirroring => {},
            _ => {
                return Action::Ignore;
            },
        }
        let plans = self.replicate_dashboards(folder_map);
        self.decisions = Vec::new();
        self.phase = Phase::Applying;
        assert(decision_views(self.decisions@) =~= Seq::empty());
        Action::Apply(plans)
    }

    /// The steps have been carried out: `outcomes` holds how each import
    /// ended. Whatever the outcomes, the cycle goes on to its last stage; the
    /// failures among them are counted, and a conflict is no failure.
    pub fn applied(&mut self, outcomes: &Vec<ImportOutcome>) -> (action: Action)
        ensures
            old(self)@.phase != Phase::Applying ==> final(self)@ == old(self)@ && action is Ignore,
            old(self)@.phase == Phase::Applying ==> final(self)@ == (ServiceView {
                phase: Phase::Purging,
                failures: capped_sum(old(self)@.failures, count_failures(outcomes@)),
                ..old(self)@
            }) && action is Purge,
    {
        match self.phase {
            Phase::Applying => {},
            _ => {
                return Action::Ignore;
            },
        }
        self.failures = self.failures.saturating_add(failures_among(outcomes));
        self.phase = Phase::Purging;
        Action::Purge
    }

    /// The empty folders have been removed, or not: the cycle is over, and
    /// completed.
    pub fn purged(&mut self) -> (action: Action)
        ensures
            old(self)@.phase != Phase::Purging ==> final(self)@ == old(self)@ && action is Ignore,
            old(self)@.phase == Phase::Purging ==> final(self)@ == old(self)@.ended() && (
            action matches Action::Finish(report) && report == (CycleReport {
                cycle: old(self)@.cycle,
                completed: true,
                failures: old(self)@.failures,
            })),
    {
        match self.phase {
            Phase::Purging => self.finish(true),
            _ => Action::Ignore,
        }
    }
}

/// Every instance of the fleet has a folder table and nothing else has one;
/// where no two instances carry the same name, the table of each is the one
/// that its own answers make.
pub proof fn lemma_every_instance_has_its_table(
    instances: Seq<Seq<char>>,
    answers: Seq<Seq<Option<FolderView>>>,
    n: nat,
)
    requires
        n <= instances.len(),
    ensures
        forall|name: Seq<char>|
            fleet_tables(instances, answers, n).contains_key(name) <==> exists|i: int|
                0 <= i < n && #[trigger] instances[i] == name,
        names_differ(instances) ==> forall|i: int|
            0 <= i < n ==> fleet_tables(instances, answers, n)[#[trigger] instances[i]] == table_of(
                answers_at(answers, i),
            ),
    decreases n,
{
    if n > 0 {
        let m = (n - 1) as nat;
        lemma_every_instance_has_its_table(instances, answers, m);
        let rest = fleet_tables(instances, answers, m);
        let all = fleet_tables(instances, answers, n);
        assert forall|name: Seq<char>| all.contains_key(name) implies exists|i: int|
            0 <= i < n && #[trigger] instances[i] == name by {
            if rest.contains_key(name) {
                let i = choose|i: int| 0 <= i < m && #[trigger] instances[i] == name;
                assert(0 <= i < n && instances[i] == name);
            } else {
                assert(instances[n - 1] == name);
            }
        }
        assert forall|name: Seq<char>|
            (exists|i: int| 0 <= i < n && #[trigger] instances[i] == name) implies all.contains_key(
            name,
        ) by {
            let i = choose|i: int| 0 <= i < n && #[trigger] instances[i] == name;
            if i < m {
                assert(rest.contains_key(name));
            }
        }
    }
}

/// Every instance is asked for every folder that a decision needs, for each
/// once, and never for the root folder.
pub proof fn lemma_each_folder_is_asked_once_of_each_instance(
    instances: Seq<Seq<char>>,
    decisions: Seq<DecisionView>,
)
    ensures
        mirror_requests(instances, mirrored_folders(decisions)).len() == instances.len(),
        forall|i: int|
            0 <= i < instances.len() ==> {
                let request = #[trigger] mirror_requests(instances, mirrored_folders(decisions))[i];
                &&& request.0 == instances[i]
                &&& request.1.no_duplicates()
                &&& !request.1.contains("General"@)
                &&& forall|title: Seq<char>|
                    request.1.contains(title) <==> exists|k: int|
                        0 <= k < decisions.len() && needed_folder(#[trigger] decisions[k]) == Some(
                            title,
                        )
            },
{
    lemma_mirrored_folders(decisions);
}

/// Imports that end in a conflict, or well, leave the count of failures at
/// nought.
pub proof fn lemma_conflicts_are_no_failures(outcomes: Seq<ImportOutcome>)
    requires
        forall|i: int| 0 <= i < outcomes.len() ==> outcomes[i] != ImportOutcome::Error,
    ensures
        count_failures(outcomes) == 0,
    decreases outcomes.len(),
{
    if outcomes.len() > 0 {
        lemma_conflicts_are_no_failures(outcomes.drop_last());
    }
}

} // verus!
