//! Dashboards, folders and tags as an instance reports them.
//!
//! Every record has a view: the same fields with strings as sequences of
//! characters. Contracts speak of views. Free-form JSON parts of a dashboard
//! (panels, templating and the like) are held as their JSON text.

use crate::instance::GrafanaInstance;
use crate::mirror::holds;
use crate::timestamp::Timestamp;
use vstd::prelude::*;
use vstd::string::*;

verus! {

/// The character sequences of a list of strings.
pub open spec fn texts(v: Seq<String>) -> Seq<Seq<char>> {
    v.map_values(|s: String| s@)
}

/// The character sequence of an optional string.
pub open spec fn opt_text(o: Option<String>) -> Option<Seq<char>> {
    match o {
        Some(s) => Some(s@),
        None => None,
    }
}

/// Copies a list of strings.
pub fn clone_strings(v: &Vec<String>) -> (r: Vec<String>)
    ensures
        r@ == v@,
        texts(r@) == texts(v@),
{
    let r = v.clone();
    assert(r@ =~= v@);
    r
}

/// Whether two lists of strings hold the same texts in the same order.
pub fn strings_equal(a: &Vec<String>, b: &Vec<String>) -> (r: bool)
    ensures
        r == (texts(a@) == texts(b@)),
{
    if a.len() != b.len() {
        assert(texts(a@).len() != texts(b@).len());
        return false;
    }
    let mut i: usize = 0;
    while i < a.len()
        invariant
            i <= a.len(),
            a.len() == b.len(),
            forall|k: int| 0 <= k < i ==> a@[k]@ == b@[k]@,
        decreases a.len() - i,
    {
        if a[i] != b[i] {
            assert(texts(a@)[i as int] != texts(b@)[i as int]);
            return false;
        }
        i += 1;
    }
    assert(texts(a@) =~= texts(b@));
    true
}

/// Whether two lists of strings hold the same texts, whatever their order and
/// however often each occurs.
pub fn strings_same_set(a: &Vec<String>, b: &Vec<String>) -> (r: bool)
    ensures
        r == (texts(a@).to_set() == texts(b@).to_set()),
{
    let mut i: usize = 0;
    while i < a.len()
        invariant
            i <= a.len(),
            forall|k: int| 0 <= k < i ==> texts(b@).contains(#[trigger] texts(a@)[k]),
        decreases a.len() - i,
    {
        if !holds(b, &a[i]) {
            assert(texts(a@)[i as int] == a@[i as int]@);
            assert(texts(a@).to_set().contains(a@[i as int]@));
            assert(!texts(b@).to_set().contains(a@[i as int]@));
            return false;
        }
        i += 1;
    }
    let mut j: usize = 0;
    while j < b.len()
        invariant
            j <= b.len(),
            forall|k: int| 0 <= k < a.len() ==> texts(b@).contains(#[trigger] texts(a@)[k]),
            forall|k: int| 0 <= k < j ==> texts(a@).contains(#[trigger] texts(b@)[k]),
        decreases b.len() - j,
    {
        if !holds(a, &b[j]) {
            assert(texts(b@)[j as int] == b@[j as int]@);
            assert(texts(b@).to_set().contains(b@[j as int]@));
            assert(!texts(a@).to_set().contains(b@[j as int]@));
            return false;
        }
        j += 1;
    }
    assert(texts(a@).to_set() =~= texts(b@).to_set());
    true
}

/// A tag and the number of dashboards that carry it.
#[derive(Debug, Clone, Default, PartialEq, Eq)]
pub struct Tag {
    pub term: String,
    pub count: u32,
}

/// One line of a search result: a dashboard without its body.
#[derive(Debug, Clone, Default, PartialEq, Eq)]
pub struct SimpleDashboard {
    pub id: u32,
    pub uid: String,
    pub title: String,
    pub uri: String,
    pub url: String,
    pub slug: String,
    pub type_field: String,
    pub tags: Vec<String>,
    pub is_starred: bool,
    pub folder_id: Option<u32>,
    pub folder_uid: Option<String>,
    pub folder_title: Option<String>,
    pub folder_url: Option<String>,
    pub sort_meta: u32,
}

/// What the caller may do with annotations on the dashboard itself.
#[derive(Debug, Clone, Copy, Default, PartialEq, Eq, Structural)]
pub struct AnnotationsDashboardMeta {
    pub can_add: bool,
    pub can_delete: bool,
    pub can_edit: bool,
}

/// What the caller may do with annotations of the organization.
#[derive(Debug, Clone, Copy, Default, PartialEq, Eq, Structural)]
pub struct AnnotationsOrganizationMeta {
    pub can_add: bool,
    pub can_delete: bool,
    pub can_edit: bool,
}

/// Annotation permissions, for the dashboard and for the organization.
#[derive(Debug, Clone, Copy, Default, PartialEq, Eq, Structural)]
pub struct AnnotationsPermissions {
    pub dashboard: AnnotationsDashboardMeta,
    pub organization: AnnotationsOrganizationMeta,
}

/// A folder as one instance knows it. The identifiers are local to that
/// instance; only the title means the same everywhere.
#[derive(Debug, Default, PartialEq, Eq)]
pub struct Folder {
    pub id: u32,
    pub uid: String,
    pub title: String,
}

/// The view of a [`Folder`].
pub struct FolderView {
    pub id: u32,
    pub uid: Seq<char>,
    pub title: Seq<char>,
}

impl View for Folder {
    type V = FolderView;

    open spec fn view(&self) -> FolderView {
        FolderView { id: self.id, uid: self.uid@, title: self.title@ }
    }
}

impl Clone for Folder {
    fn clone(&self) -> (r: Self)
        ensures
            r@ == self@,
    {
        Folder { id: self.id, uid: self.uid.clone(), title: self.title.clone() }
    }
}

/// What an instance keeps about a dashboard besides its body.
#[derive(Debug, Default, PartialEq, Eq)]
pub struct FullDashboardMeta {
    pub annotations_permissions: AnnotationsPermissions,
    pub can_admin: bool,
    pub can_delete: bool,
    pub can_edit: bool,
    pub can_save: bool,
    pub can_star: bool,
    pub created: Timestamp,
    pub created_by: String,
    pub expires: Timestamp,
    pub folder_id: Option<i64>,
    pub folder_title: Option<String>,
    pub folder_uid: Option<String>,
    pub folder_url: Option<String>,
    pub has_acl: bool,
    pub is_folder: bool,
    pub provisioned: bool,
    pub provisioned_external_id: String,
    pub slug: String,
    pub type_field: String,
    pub updated: Timestamp,
    pub updated_by: String,
    pub url: String,
    pub version: i64,
}

/// The view of a [`FullDashboardMeta`].
pub struct FullDashboardMetaView {
    pub annotations_permissions: AnnotationsPermissions,
    pub can_admin: bool,
    pub can_delete: bool,
    pub can_edit: bool,
    pub can_save: bool,
    pub can_star: bool,
    pub created: Timestamp,
    pub created_by: Seq<char>,
    pub expires: Timestamp,
    pub folder_id: Option<i64>,
    pub folder_title: Option<Seq<char>>,
    pub folder_uid: Option<Seq<char>>,
    pub folder_url: Option<Seq<char>>,
    pub has_acl: bool,
    pub is_folder: bool,
    pub provisioned: bool,
    pub provisioned_external_id: Seq<char>,
    pub slug: Seq<char>,
    pub type_field: Seq<char>,
    pub updated: Timestamp,
    pub updated_by: Seq<char>,
    pub url: Seq<char>,
    pub version: i64,
}

impl View for FullDashboardMeta {
    type V = FullDashboardMetaView;

    open spec fn view(&self) -> FullDashboardMetaView {
        FullDashboardMetaView {
            annotations_permissions: self.annotations_permissions,
            can_admin: self.can_admin,
            can_delete: self.can_delete,
            can_edit: self.can_edit,
            can_save: self.can_save,
            can_star: self.can_star,
            created: self.created,
            created_by: self.created_by@,
            expires: self.expires,
            folder_id: self.folder_id,
            folder_title: opt_text(self.folder_title),
            folder_uid: opt_text(self.folder_uid),
            folder_url: opt_text(self.folder_url),
            has_acl: self.has_acl,
            is_folder: self.is_folder,
            provisioned: self.provisioned,
            provisioned_external_id: self.provisioned_external_id@,
            slug: self.slug@,
            type_field: self.type_field@,
            updated: self.updated,
            updated_by: self.updated_by@,
            url: self.url@,
            version: self.version,
        }
    }
}

impl Clone for FullDashboardMeta {
    fn clone(&self) -> (r: Self)
        ensures
            r@ == self@,
    {
        FullDashboardMeta {
            annotations_permissions: self.annotations_permissions,
            can_admin: self.can_admin,
            can_delete: self.can_delete,
            can_edit: self.can_edit,
            can_save: self.can_save,
            can_star: self.can_star,
            created: self.created,
            created_by: self.created_by.clone(),
            expires: self.expires,
            folder_id: self.folder_id,
            folder_title: self.folder_title.clone(),
            folder_uid: self.folder_uid.clone(),
            folder_url: self.folder_url.clone(),
            has_acl: self.has_acl,
            is_folder: self.is_folder,
            provisioned: self.provisioned,
            provisioned_external_id: self.provisioned_external_id.clone(),
            slug: self.slug.clone(),
            type_field: self.type_field.clone(),
            updated: self.updated,
            updated_by: self.updated_by.clone(),
            url: self.url.clone(),
            version: self.version,
        }
    }
}

/// The body of a dashboard. `annotations`, `templating`, `time`, `timepicker`
/// and each element of `panels` hold JSON text.
#[derive(Debug, Default, PartialEq, Eq)]
pub struct FullDashboardData {
    pub annotations: String,
    pub editable: bool,
    pub fiscal_year_start_month: i32,
    pub graph_tooltip: i32,
    pub links: Vec<String>,
    pub panels: Vec<String>,
    pub schema_version: i32,
    pub tags: Vec<String>,
    pub templating: String,
    pub time: Option<String>,
    pub timepicker: String,
    pub timezone: String,
    pub title: String,
    pub uid: String,
    pub version: i32,
    pub week_start: String,
}

/// The view of a [`FullDashboardData`].
pub struct FullDashboardDataView {
    pub annotations: Seq<char>,
    pub editable: bool,
    pub fiscal_year_start_month: i32,
    pub graph_tooltip: i32,
    pub links: Seq<Seq<char>>,
    pub panels: Seq<Seq<char>>,
    pub schema_version: i32,
    pub tags: Seq<Seq<char>>,
    pub templating: Seq<char>,
    pub time: Option<Seq<char>>,
    pub timepicker: Seq<char>,
    pub timezone: Seq<char>,
    pub title: Seq<char>,
    pub uid: Seq<char>,
    pub version: i32,
    pub week_start: Seq<char>,
}

impl View for FullDashboardData {
    type V = FullDashboardDataView;

    open spec fn view(&self) -> FullDashboardDataView {
        FullDashboardDataView {
            annotations: self.annotations@,
            editable: self.editable,
            fiscal_year_start_month: self.fiscal_year_start_month,
            graph_tooltip: self.graph_tooltip,
            links: texts(self.links@),
            panels: texts(self.panels@),
            schema_version: self.schema_version,
            tags: texts(self.tags@),
            templating: self.templating@,
            time: opt_text(self.time),
            timepicker: self.timepicker@,
            timezone: self.timezone@,
            title: self.title@,
            uid: self.uid@,
            version: self.version,
            week_start: self.week_start@,
        }
    }
}

impl Clone for FullDashboardData {
    fn clone(&self) -> (r: Self)
        ensures
            r@ == self@,
    {
        FullDashboardData {
            annotations: self.annotations.clone(),
            editable: self.editable,
            fiscal_year_start_month: self.fiscal_year_start_month,
            graph_tooltip: self.graph_tooltip,
            links: clone_strings(&self.links),
            panels: clone_strings(&self.panels),
            schema_version: self.schema_version,
            tags: clone_strings(&self.tags),
            templating: self.templating.clone(),
            time: self.time.clone(),
            timepicker: self.timepicker.clone(),
            timezone: self.timezone.clone(),
            title: self.title.clone(),
            uid: self.uid.clone(),
            version: self.version,
            week_start: self.week_start.clone(),
        }
    }
}

/// A dashboard in full: its body and what the instance keeps about it.
#[derive(Debug, Default, PartialEq, Eq)]
pub struct FullDashboard {
    pub dashboard: FullDashboardData,
    pub meta: FullDashboardMeta,
}

/// The view of a [`FullDashboard`].
pub struct FullDashboardView {
    pub dashboard: FullDashboardDataView,
    pub meta: FullDashboardMetaView,
}

/// The part of a dashboard that decides whether two copies count as the same:
/// uid, title, the set of its tags, panels and the tooltip setting. Version
/// numbers and timestamps are not part of it, nor is the order of the tags.
pub struct DashboardContent {
    pub uid: Seq<char>,
    pub title: Seq<char>,
    pub tags: Set<Seq<char>>,
    pub panels: Seq<Seq<char>>,
    pub graph_tooltip: i32,
}

impl FullDashboardView {
    /// The part of the dashboard that equality between copies looks at.
    pub open spec fn content(self) -> DashboardContent {
        DashboardContent {
            uid: self.dashboard.uid,
            title: self.dashboard.title,
            tags: self.dashboard.tags.to_set(),
            panels: self.dashboard.panels,
            graph_tooltip: self.dashboard.graph_tooltip,
        }
    }
}

impl View for FullDashboard {
    type V = FullDashboardView;

    open spec fn view(&self) -> FullDashboardView {
        FullDashboardView { dashboard: self.dashboard@, meta: self.meta@ }
    }
}

impl Clone for FullDashboard {
    fn clone(&self) -> (r: Self)
        ensures
            r@ == self@,
    {
        FullDashboard { dashboard: self.dashboard.clone(), meta: self.meta.clone() }
    }
}

/// What is sent to an instance to import a dashboard.
#[derive(Debug, Default, PartialEq, Eq)]
pub struct DashboardImportBody {
    pub dashboard: FullDashboardData,
    pub folder_uid: Option<String>,
    pub inputs: Vec<String>,
    pub overwrite: bool,
}

/// The view of a [`DashboardImportBody`].
pub struct DashboardImportBodyView {
    pub dashboard: FullDashboardDataView,
    pub folder_uid: Option<Seq<char>>,
    pub inputs: Seq<Seq<char>>,
    pub overwrite: bool,
}

impl View for DashboardImportBody {
    type V = DashboardImportBodyView;

    open spec fn view(&self) -> DashboardImportBodyView {
        DashboardImportBodyView {
            dashboard: self.dashboard@,
            folder_uid: opt_text(self.folder_uid),
            inputs: texts(self.inputs@),
            overwrite: self.overwrite,
        }
    }
}

/// The import of `dashboard` into the folder with the identifier
/// `folder_uid` of the destination, or into its root folder: the body of the
/// dashboard and nothing of what the source instance keeps about it.
pub open spec fn import_body_of(
    dashboard: FullDashboardView,
    folder_uid: Option<Seq<char>>,
    overwrite: bool,
) -> DashboardImportBodyView {
    DashboardImportBodyView {
        dashboard: dashboard.dashboard,
        folder_uid,
        inputs: Seq::empty(),
        overwrite,
    }
}

/// The identifier of an optional folder.
pub open spec fn folder_uid_of(folder: Option<&Folder>) -> Option<Seq<char>> {
    match folder {
        Some(f) => Some(f.uid@),
        None => None,
    }
}

impl DashboardImportBody {
    /// The import of `dashboard` into `folder` of the destination, or into its
    /// root folder.
    pub fn new(dashboard: &FullDashboard, folder: Option<&Folder>, overwrite: bool) -> (r:
        DashboardImportBody)
        ensures
            r@ == import_body_of(dashboard@, folder_uid_of(folder), overwrite),
    {
        let folder_uid = match folder {
            Some(f) => Some(f.uid.clone()),
            None => None,
        };
        let inputs: Vec<String> = Vec::new();
        assert(texts(inputs@) =~= Seq::empty());
        DashboardImportBody { dashboard: dashboard.dashboard.clone(), folder_uid, inputs, overwrite }
    }
}

/// The status with which a destination says that the dashboard exists and
/// overwriting was not asked for.
pub const STATUS_CONFLICT: u16 = 412;

/// How an import ended.
#[derive(Debug, Clone, Copy, PartialEq, Eq, Structural)]
pub enum ImportOutcome {
    /// The destination took the dashboard.
    Applied,
    /// The destination holds the dashboard and overwriting was not asked for.
    /// This is no error.
    SkippedConflict,
    /// The destination refused.
    Error,
}

/// Whether a response with this status counts as failed: a client error or a
/// server error.
pub open spec fn is_error_status(status: u16) -> bool {
    400 <= status < 600
}

/// How an import ended that was answered with `status`.
pub open spec fn import_outcome(status: u16) -> ImportOutcome {
    if status == STATUS_CONFLICT {
        ImportOutcome::SkippedConflict
    } else if is_error_status(status) {
        ImportOutcome::Error
    } else {
        ImportOutcome::Applied
    }
}

impl ImportOutcome {
    /// How an import ended that was answered with `status`.
    pub fn from_status(status: u16) -> (r: ImportOutcome)
        ensures
            r == import_outcome(status),
    {
        if status == STATUS_CONFLICT {
            ImportOutcome::SkippedConflict
        } else if 400 <= status && status < 600 {
            ImportOutcome::Error
        } else {
            ImportOutcome::Applied
        }
    }

    /// Whether the import failed. A conflict is no failure.
    pub fn is_failure(&self) -> (r: bool)
        ensures
            r == (*self == ImportOutcome::Error),
    {
        match self {
            ImportOutcome::Error => true,
            _ => false,
        }
    }
}

/// The method of a request.
#[derive(Debug, Clone, Copy, PartialEq, Eq, Structural)]
pub enum Method {
    Get,
    Post,
    Delete,
}

/// A request to an instance: what to ask, where, and with which query.
#[derive(Debug, PartialEq, Eq)]
pub struct Request {
    pub method: Method,
    pub url: String,
    pub query: Vec<(String, String)>,
}

/// The view of a [`Request`].
pub struct RequestView {
    pub method: Method,
    pub url: Seq<char>,
    pub query: Seq<(Seq<char>, Seq<char>)>,
}

/// The texts of a list of pairs of strings.
pub open spec fn pair_texts(v: Seq<(String, String)>) -> Seq<(Seq<char>, Seq<char>)> {
    v.map_values(|p: (String, String)| (p.0@, p.1@))
}

impl View for Request {
    type V = RequestView;

    open spec fn view(&self) -> RequestView {
        RequestView { method: self.method, url: self.url@, query: pair_texts(self.query@) }
    }
}

/// The views of a list of requests.
pub open spec fn request_views(v: Seq<Request>) -> Seq<RequestView> {
    v.map_values(|r: Request| r@)
}

/// A request without a query.
pub open spec fn plain_request(method: Method, url: Seq<char>) -> RequestView {
    RequestView { method, url, query: Seq::empty() }
}

/// A search for dashboards by `key`, as seen by a viewer, in alphabetical
/// order.
pub open spec fn search_request(base_url: Seq<char>, key: Seq<char>, value: Seq<char>)
    -> RequestView {
    RequestView {
        method: Method::Get,
        url: base_url + "/api/search"@,
        query: seq![(key, value), ("permission"@, "View"@), ("sort"@, "alpha-asc"@)],
    }
}

/// The address of the dashboard `uid` on the instance at `base_url`.
pub open spec fn dashboard_url(base_url: Seq<char>, uid: Seq<char>) -> Seq<char> {
    base_url + "/api/dashboards/uid/"@ + uid
}

/// The requests that delete those of `found` whose title is `name`, in the
/// order of `found`.
pub open spec fn deletions_by_name(
    base_url: Seq<char>,
    found: Seq<SimpleDashboard>,
    name: Seq<char>,
) -> Seq<RequestView>
    decreases found.len(),
{
    if found.len() == 0 {
        Seq::empty()
    } else {
        let rest = deletions_by_name(base_url, found.drop_last(), name);
        if found.last().title@ == name {
            rest.push(plain_request(Method::Delete, dashboard_url(base_url, found.last().uid@)))
        } else {
            rest
        }
    }
}

/// A request without a query.
pub fn request(method: Method, url: String) -> (r: Request)
    ensures
        r@ == plain_request(method, url@),
{
    let query: Vec<(String, String)> = Vec::new();
    assert(pair_texts(query@) =~= Seq::empty());
    Request { method, url, query }
}

/// A search for dashboards by `key`.
fn search(base_url: &str, key: &str, value: &str) -> (r: Request)
    ensures
        r@ == search_request(base_url@, key@, value@),
{
    let url = String::from_str(base_url).concat("/api/search");
    let mut query: Vec<(String, String)> = Vec::new();
    query.push((String::from_str(key), String::from_str(value)));
    query.push((String::from_str("permission"), String::from_str("View")));
    query.push((String::from_str("sort"), String::from_str("alpha-asc")));
    assert(pair_texts(query@) =~= seq![
        (key@, value@),
        ("permission"@, "View"@),
        ("sort"@, "alpha-asc"@),
    ]);
    Request { method: Method::Get, url, query }
}

impl GrafanaInstance {
    /// Asks for the tags that the instance knows.
    pub fn get_tags(&self) -> (r: Request)
        ensures
            r@ == plain_request(Method::Get, self.spec_base_url() + "/api/dashboards/tags"@),
    {
        request(Method::Get, String::from_str(self.base_url()).concat("/api/dashboards/tags"))
    }

    /// Asks for the dashboards that carry `tag`.
    pub fn get_dashboards_by_tag(&self, tag: &str) -> (r: Request)
        ensures
            r@ == search_request(self.spec_base_url(), "tag"@, tag@),
    {
        search(self.base_url(), "tag", tag)
    }

    /// Asks for the dashboards in the folder `folder_uid`.
    pub fn get_dashboards_in_folder(&self, folder_uid: &str) -> (r: Request)
        ensures
            r@ == search_request(self.spec_base_url(), "folderUIDs"@, folder_uid@),
    {
        search(self.base_url(), "folderUIDs", folder_uid)
    }

    /// Asks for the dashboard `uid` in full.
    pub fn get_dashboard_full(&self, uid: &str) -> (r: Request)
        ensures
            r@ == plain_request(Method::Get, dashboard_url(self.spec_base_url(), uid@)),
    {
        request(
            Method::Get,
            String::from_str(self.base_url()).concat("/api/dashboards/uid/").concat(uid),
        )
    }

    /// Asks to delete the dashboard `uid`.
    pub fn delete_dashboard(&self, uid: &str) -> (r: Request)
        ensures
            r@ == plain_request(Method::Delete, dashboard_url(self.spec_base_url(), uid@)),
    {
        request(
            Method::Delete,
            String::from_str(self.base_url()).concat("/api/dashboards/uid/").concat(uid),
        )
    }

    /// Asks to delete those of `found`, the dashboards of one folder, whose
    /// title is `dashboard_name`.
    pub fn delete_dashboards_in_folder_by_name(
        &self,
        found: &Vec<SimpleDashboard>,
        dashboard_name: &str,
    ) -> (r: Vec<Request>)
        ensures
            request_views(r@) == deletions_by_name(self.spec_base_url(), found@, dashboard_name@),
    {
        let name = String::from_str(dashboard_name);
        let mut out: Vec<Request> = Vec::new();
        assert(found@.take(0) =~= Seq::empty());
        assert(request_views(out@) =~= Seq::empty());
        let mut i: usize = 0;
        while i < found.len()
            invariant
                i <= found.len(),
                name@ == dashboard_name@,
                request_views(out@) == deletions_by_name(
                    self.spec_base_url(),
                    found@.take(i as int),
                    dashboard_name@,
                ),
            decreases found.len() - i,
        {
            proof {
                assert(found@.take(i as int + 1).drop_last() =~= found@.take(i as int));
                assert(found@.take(i as int + 1).last() == found@[i as int]);
            }
            if found[i].title == name {
                let ghost before = request_views(out@);
                let r = self.delete_dashboard(found[i].uid.as_str());
                out.push(r);
                assert(request_views(out@) =~= before.push(r@));
            }
            i += 1;
        }
        assert(found@.take(i as int) =~= found@);
        out
    }

    /// Asks to import `dashboard` into `folder` of this instance, or into its
    /// root folder: the request and its body.
    pub fn import_dashboard(
        &self,
        dashboard: &FullDashboard,
        folder: Option<&Folder>,
        overwrite: bool,
    ) -> (r: (Request, DashboardImportBody))
        ensures
            r.0@ == plain_request(Method::Post, self.spec_base_url() + "/api/dashboards/import"@),
            r.1@ == import_body_of(dashboard@, folder_uid_of(folder), overwrite),
    {
        let endpoint = String::from_str(self.base_url()).concat("/api/dashboards/import");
        (request(Method::Post, endpoint), DashboardImportBody::new(dashboard, folder, overwrite))
    }

    /// Asks for each of `dashboards` in full, in their order.
    pub fn get_dashboard_full_bulk(&self, dashboards: &Vec<SimpleDashboard>) -> (r: Vec<Request>)
        ensures
            r.len() == dashboards.len(),
            forall|i: int|
                0 <= i < r.len() ==> (#[trigger] r@[i])@ == plain_request(
                    Method::Get,
                    dashboard_url(self.spec_base_url(), dashboards@[i].uid@),
                ),
    {
        let mut out: Vec<Request> = Vec::new();
        let mut i: usize = 0;
        while i < dashboards.len()
            invariant
                i <= dashboards.len(),
                out.len() == i,
                forall|k: int|
                    0 <= k < i ==> (#[trigger] out@[k])@ == plain_request(
                        Method::Get,
                        dashboard_url(self.spec_base_url(), dashboards@[k].uid@),
                    ),
            decreases dashboards.len() - i,
        {
            out.push(self.get_dashboard_full(dashboards[i].uid.as_str()));
            i += 1;
        }
        out
    }
}

} // verus!
