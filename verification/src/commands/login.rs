//! `posthog login` — the decisions of the interactive setup: region choice,
//! API key check, the walk over the organizations' project lists, the choice
//! of a project, and what is printed at the end. Prompts, the browser and
//! HTTP are the caller's part.

use vstd::prelude::*;
use crate::commands::config::{mask_api_key, masked_key};
use crate::config::{
    allowed_host_names, host_accepted, merged, save_outcome, without_trailing_slash, Config,
    ConfigModel, PartialConfig, PartialModel,
};
use crate::errors::{hinted, plain_error, ErrorCode, ErrorModel, PostHogError};
use crate::json::{lemma_view_object, Json, JsonValue};
use crate::text::{
    lemma_parse_decimal, all_ascii_digits, chars_of, decimal, i64_to_decimal, is_all_ascii_digits, parse_usize,
    parsed_usize, push_decimal, push_str, signed_decimal, starts_with, str_eq, string_of_range,
};

verus! {

pub const HOST_US: &'static str = "https://us.posthog.com";

pub const HOST_EU: &'static str = "https://eu.posthog.com";

/// The host of a region choice: `1` is the US cloud, `2` the EU cloud.
pub open spec fn region_host(choice: Seq<char>) -> Option<Seq<char>> {
    if choice == "1"@ {
        Some(HOST_US@)
    } else if choice == "2"@ {
        Some(HOST_EU@)
    } else {
        None
    }
}

/// Map "1"/"2" to the corresponding host URL.
pub fn host_for(choice: &str) -> (r: Option<&'static str>)
    ensures
        match region_host(choice@) {
            Some(h) => r matches Some(x) && x@ == h,
            None => r is None,
        },
{
    if str_eq(choice, "1") {
        Some(HOST_US)
    } else if str_eq(choice, "2") {
        Some(HOST_EU)
    } else {
        None
    }
}

/// The error of a region choice other than `1` or `2`.
pub open spec fn invalid_region_error() -> ErrorModel {
    plain_error("Invalid selection. Choose 1 or 2."@, ErrorCode::Validation)
}

/// The host of a region choice, or the error for a choice that is neither
/// `1` nor `2`.
pub fn select_region(choice: &str) -> (r: Result<&'static str, PostHogError>)
    ensures
        match region_host(choice@) {
            Some(h) => r matches Ok(x) && x@ == h,
            None => r matches Err(e) && e@ == invalid_region_error(),
        },
{
    match host_for(choice) {
        Some(h) => Ok(h),
        None => Err(PostHogError::new("Invalid selection. Choose 1 or 2.", ErrorCode::Validation)),
    }
}

/// Every host that the region choice can give is one that a config may be
/// saved with, so the save at the end of a login never refuses its host.
pub proof fn lemma_region_hosts_accepted(choice: Seq<char>)
    ensures
        region_host(choice) matches Some(h) ==> host_accepted(h),
{
    reveal_strlit("https://us.posthog.com");
    reveal_strlit("https://eu.posthog.com");
    if region_host(choice) is Some {
        let h = region_host(choice)->0;
        assert(without_trailing_slash(h) == h);
        if h == HOST_US@ {
            assert(allowed_host_names()[0] == h);
        } else {
            assert(allowed_host_names()[1] == h);
        }
    }
}

/// The page on which a user creates a personal API key.
pub fn api_key_page_url(host: &str) -> (r: String)
    ensures
        r@ == host@ + "/settings/user-api-keys"@,
{
    let mut r = host.to_owned();
    push_str(&mut r, "/settings/user-api-keys");
    r
}

/// The page on which a user finds the project ID.
pub fn project_id_page_url(host: &str) -> (r: String)
    ensures
        r@ == host@ + "/settings/project#variables"@,
{
    let mut r = host.to_owned();
    push_str(&mut r, "/settings/project#variables");
    r
}

/// The error for a pasted API key that is not a personal API key.
pub open spec fn invalid_api_key_error() -> ErrorModel {
    hinted(
        plain_error("Invalid API key. Must start with phx_"@, ErrorCode::Validation),
        "Create a personal API key at the URL above and paste the full token."@,
    )
}

/// Whether a pasted API key looks like a personal API key: it starts with `phx_`.
pub open spec fn api_key_accepted(key: Seq<char>) -> bool {
    key.len() > 0 && "phx_"@.len() <= key.len() && key.subrange(0, "phx_"@.len() as int)
        == "phx_"@
}

/// Check a pasted API key: it must start with `phx_`.
pub fn validate_api_key(key: &str) -> (r: Result<(), PostHogError>)
    ensures
        api_key_accepted(key@) ==> r is Ok,
        !api_key_accepted(key@) ==> (r matches Err(e) && e@ == invalid_api_key_error()),
{
    if key.is_empty() || !starts_with(key, "phx_") {
        return Err(
            PostHogError::new("Invalid API key. Must start with phx_", ErrorCode::Validation).with_hint(
                "Create a personal API key at the URL above and paste the full token.",
            ),
        );
    }
    Ok(())
}

/// The value of the `Authorization` header for an API key.
pub fn bearer(api_key: &str) -> (r: String)
    ensures
        r@ == "Bearer "@ + api_key@,
{
    let mut r = "Bearer ".to_owned();
    push_str(&mut r, api_key);
    r
}

/// Whether an HTTP status is a success (2xx).
pub fn is_success(status: u16) -> (r: bool)
    ensures
        r == (200 <= status <= 299),
{
    200 <= status && status <= 299
}

/// `s` without any trailing `/`.
pub open spec fn without_trailing_slashes(s: Seq<char>) -> Seq<char>
    decreases s.len(),
{
    if s.len() > 0 && s.last() == '/' {
        without_trailing_slashes(s.drop_last())
    } else {
        s
    }
}

/// The base of the API URLs of a host: the host without trailing `/`.
pub fn api_base(host: &str) -> (r: String)
    ensures
        r@ == without_trailing_slashes(host@),
{
    let cs = chars_of(host);
    let mut end: usize = cs.len();
    proof {
        assert(cs@.subrange(0, cs@.len() as int) =~= cs@);
    }
    while end > 0 && cs[end - 1] == '/'
        invariant
            cs@ == host@,
            end <= cs@.len(),
            without_trailing_slashes(host@) == without_trailing_slashes(
                cs@.subrange(0, end as int),
            ),
        decreases end,
    {
        assert(cs@.subrange(0, end as int).drop_last() =~= cs@.subrange(0, end - 1));
        end = end - 1;
    }
    string_of_range(&cs, 0, end)
}

/// The URL listing the organizations of the API key.
pub open spec fn orgs_url_of(base: Seq<char>) -> Seq<char> {
    base + "/api/organizations/"@
}

/// The URL listing the projects of an organization.
pub open spec fn projects_url_of(base: Seq<char>, org_id: Seq<char>) -> Seq<char> {
    base + "/api/organizations/"@ + org_id + "/projects/"@
}

/// The URL listing the organizations that the API key can see.
pub fn orgs_url(host: &str) -> (r: String)
    ensures
        r@ == orgs_url_of(without_trailing_slashes(host@)),
{
    let mut r = api_base(host);
    push_str(&mut r, "/api/organizations/");
    r
}

/// An organization, as the organizations endpoint lists it.
#[derive(Debug, Clone)]
pub struct Organization {
    pub id: String,
    pub name: String,
}

/// A project, as an organization's projects endpoint lists it.
#[derive(Debug, Clone)]
pub struct Project {
    pub id: i64,
    pub name: String,
}

pub struct OrganizationModel {
    pub id: Seq<char>,
    pub name: Seq<char>,
}

pub struct ProjectModel {
    pub id: i64,
    pub name: Seq<char>,
}

impl View for Organization {
    type V = OrganizationModel;

    open spec fn view(&self) -> OrganizationModel {
        OrganizationModel { id: self.id@, name: self.name@ }
    }
}

impl View for Project {
    type V = ProjectModel;

    open spec fn view(&self) -> ProjectModel {
        ProjectModel { id: self.id, name: self.name@ }
    }
}

pub open spec fn org_models(v: Seq<Organization>) -> Seq<OrganizationModel> {
    Seq::new(v.len(), |i: int| v[i]@)
}

pub open spec fn project_models(v: Seq<Project>) -> Seq<ProjectModel> {
    Seq::new(v.len(), |i: int| v[i]@)
}

/// The error for an organization whose project list could not be fetched.
pub open spec fn project_fetch_error(org_name: Seq<char>, status: u16, body: Seq<char>) -> ErrorModel {
    ErrorModel {
        message: "Failed to fetch projects for org \""@ + org_name + "\" ("@ + decimal(
            status as nat,
        ) + "): "@ + body,
        code: ErrorCode::ApiError,
        hint: None,
        docs_url: None,
        status: Some(status),
    }
}

/// The walk over the organizations' project lists, between two requests:
/// the API base URL, the organizations, the index of the organization whose
/// projects were asked for last, and the projects gathered before it.
pub struct ProjectWalk {
    pub base: String,
    pub orgs: Vec<Organization>,
    pub next: usize,
    pub projects: Vec<Project>,
}

pub struct WalkModel {
    pub base: Seq<char>,
    pub orgs: Seq<OrganizationModel>,
    pub next: nat,
    pub projects: Seq<ProjectModel>,
}

impl View for ProjectWalk {
    type V = WalkModel;

    open spec fn view(&self) -> WalkModel {
        WalkModel {
            base: self.base@,
            orgs: org_models(self.orgs@),
            next: self.next as nat,
            projects: project_models(self.projects@),
        }
    }
}

impl ProjectWalk {
    /// The walk waits for the projects of one of its organizations.
    pub open spec fn wf(&self) -> bool {
        self.next < self.orgs@.len()
    }
}

/// What the walk asks of its caller next.
pub enum WalkAction {
    /// Fetch this URL (with the API key) and report the reply.
    Get(String),
    /// The walk is over: the projects of all organizations, or none when
    /// the key may not list organizations (a project-scoped key).
    Done(Option<Vec<Project>>),
    /// The walk failed with this error.
    Fail(PostHogError),
}

pub enum ActionModel {
    Get(Seq<char>),
    Done(Option<Seq<ProjectModel>>),
    Fail(ErrorModel),
}

impl View for WalkAction {
    type V = ActionModel;

    open spec fn view(&self) -> ActionModel {
        match self {
            WalkAction::Get(url) => ActionModel::Get(url@),
            WalkAction::Done(None) => ActionModel::Done(None),
            WalkAction::Done(Some(ps)) => ActionModel::Done(Some(project_models(ps@))),
            WalkAction::Fail(e) => ActionModel::Fail(e@),
        }
    }
}

/// The reply to a request for an organization's projects.
pub enum ProjectsReply {
    /// A success status, with the projects listed.
    Listed(Vec<Project>),
    /// A status other than success, with the body of the reply.
    Refused { status: u16, body: String },
}

pub enum ReplyModel {
    Listed(Seq<ProjectModel>),
    Refused { status: u16, body: Seq<char> },
}

impl View for ProjectsReply {
    type V = ReplyModel;

    open spec fn view(&self) -> ReplyModel {
        match self {
            ProjectsReply::Listed(ps) => ReplyModel::Listed(project_models(ps@)),
            ProjectsReply::Refused { status, body } => ReplyModel::Refused {
                status: *status,
                body: body@,
            },
        }
    }
}

/// What follows the reply of the organizations endpoint: a refusal ends the
/// walk with no list; no organizations end it with an empty list; otherwise
/// the projects of the first organization are asked for.
pub open spec fn after_orgs_model(host: Seq<char>, listing: Option<Seq<OrganizationModel>>) -> (
    Option<WalkModel>,
    ActionModel,
) {
    match listing {
        None => (None, ActionModel::Done(None)),
        Some(orgs) => if orgs.len() == 0 {
            (None, ActionModel::Done(Some(Seq::empty())))
        } else {
            let base = without_trailing_slashes(host);
            (
                Some(WalkModel { base, orgs, next: 0, projects: Seq::empty() }),
                ActionModel::Get(projects_url_of(base, orgs[0].id)),
            )
        },
    }
}

/// What follows the reply for the projects of organization `w.next`: a
/// refusal fails the walk; a list is added to the projects, and then either
/// the next organization's projects are asked for or the walk is done.
pub open spec fn after_projects_model(w: WalkModel, reply: ReplyModel) -> (
    Option<WalkModel>,
    ActionModel,
) {
    match reply {
        ReplyModel::Refused { status, body } => (
            None,
            ActionModel::Fail(project_fetch_error(w.orgs[w.next as int].name, status, body)),
        ),
        ReplyModel::Listed(list) => {
            let projects = w.projects + list;
            if w.next + 1 >= w.orgs.len() {
                (None, ActionModel::Done(Some(projects)))
            } else {
                (
                    Some(WalkModel { next: w.next + 1, projects, ..w }),
                    ActionModel::Get(projects_url_of(w.base, w.orgs[w.next + 1 as int].id)),
                )
            }
        },
    }
}

/// Starts the walk with the reply of the organizations endpoint: `None` for
/// a status other than success, else the organizations listed.
pub fn after_orgs(host: &str, listing: Option<Vec<Organization>>) -> (r: (
    Option<ProjectWalk>,
    WalkAction,
))
    ensures
        r.0 matches Some(w) ==> w.wf(),
        ({
            let m = after_orgs_model(
                host@,
                match listing {
                    Some(v) => Some(org_models(v@)),
                    None => None,
                },
            );
            &&& r.1@ == m.1
            &&& match r.0 {
                Some(w) => m.0 == Some(w@),
                None => m.0 is None,
            }
        }),
        listing is Some && listing->0@.len() > 0 ==> (r.1 matches WalkAction::Get(u) && u@
            == without_trailing_slashes(host@) + "/api/organizations/"@ + listing->0@[0].id@
            + "/projects/"@),
        listing is Some && listing->0@.len() > 0 ==> (r.0 matches Some(w) && w.next == 0
            && w.orgs@ == listing->0@ && w.projects@.len() == 0 && w.base@
            == without_trailing_slashes(host@)),
        listing is None ==> (r.1 matches WalkAction::Done(ps) && ps is None),
{
    match listing {
        None => (None, WalkAction::Done(None)),
        Some(orgs) => {
            if orgs.len() == 0 {
                let empty: Vec<Project> = Vec::new();
                let r = (None, WalkAction::Done(Some(empty)));
                assert(project_models(empty@) =~= Seq::<ProjectModel>::empty());
                r
            } else {
                let base = api_base(host);
                let mut url = base.clone();
                push_str(&mut url, "/api/organizations/");
                push_str(&mut url, orgs[0].id.as_str());
                push_str(&mut url, "/projects/");
                let projects: Vec<Project> = Vec::new();
                let w = ProjectWalk { base, orgs, next: 0, projects };
                assert(project_models(w.projects@) =~= Seq::<ProjectModel>::empty());
                assert(org_models(w.orgs@)[0] == w.orgs@[0]@);
                (Some(w), WalkAction::Get(url))
            }
        },
    }
}

/// The error for an organization whose project list could not be fetched.
pub fn projects_refused(org_name: &str, status: u16, body: &str) -> (r: PostHogError)
    ensures
        r@ == project_fetch_error(org_name@, status, body@),
{
    let mut message = "Failed to fetch projects for org \"".to_owned();
    push_str(&mut message, org_name);
    push_str(&mut message, "\" (");
    push_decimal(&mut message, status as u64);
    push_str(&mut message, "): ");
    push_str(&mut message, body);
    PostHogError {
        message,
        code: ErrorCode::ApiError,
        hint: None,
        docs_url: None,
        status: Some(status),
    }
}

impl ProjectWalk {
    /// Goes on with the reply for the projects of organization `next`.
    pub fn after_projects(self, reply: ProjectsReply) -> (r: (Option<ProjectWalk>, WalkAction))
        requires
            self.wf(),
        ensures
            r.0 matches Some(w) ==> w.wf(),
            ({
                let m = after_projects_model(self@, reply@);
                &&& r.1@ == m.1
                &&& match r.0 {
                    Some(w) => m.0 == Some(w@),
                    None => m.0 is None,
                }
            }),
            reply is Listed && self.next + 1 < self.orgs@.len() ==> (r.1 matches WalkAction::Get(
                u,
            ) && u@ == self.base@ + "/api/organizations/"@ + self.orgs@[self.next + 1].id@
                + "/projects/"@),
            reply is Listed && self.next + 1 < self.orgs@.len() ==> (r.0 matches Some(w) && w.next
                == self.next + 1 && w.orgs@ == self.orgs@ && w.base@ == self.base@ && w.projects@
                == self.projects@ + reply->Listed_0@),
            reply is Listed && self.next + 1 >= self.orgs@.len() ==> r.0 is None,
            reply is Listed && self.next + 1 >= self.orgs@.len() ==> (r.1 matches WalkAction::Done(
                ps,
            ) && ps is Some && ps->0@ == self.projects@ + reply->Listed_0@),
            reply is Refused ==> r.0 is None,
            reply is Refused ==> (r.1 matches WalkAction::Fail(e) && e@.status == Some(
                reply->Refused_status,
            )),
    {
        let ghost before = self@;
        let current: usize = self.next;
        let count: usize = self.orgs.len();
        assert(current < count);
        match reply {
            ProjectsReply::Refused { status, body } => {
                let e = projects_refused(self.orgs[self.next].name.as_str(), status, body.as_str());
                assert(org_models(self.orgs@)[self.next as int] == self.orgs@[self.next as int]@);
                (None, WalkAction::Fail(e))
            },
            ProjectsReply::Listed(list) => {
                let ghost listed = project_models(list@);
                let mut projects = self.projects;
                let mut list = list;
                projects.append(&mut list);
                assert(project_models(projects@) =~= before.projects + listed);
                if current + 1 >= count {
                    (None, WalkAction::Done(Some(projects)))
                } else {
                    let next: usize = self.next + 1;
                    let mut url = self.base.clone();
                    push_str(&mut url, "/api/organizations/");
                    push_str(&mut url, self.orgs[next].id.as_str());
                    push_str(&mut url, "/projects/");
                    assert(org_models(self.orgs@)[next as int] == self.orgs@[next as int]@);
                    let w = ProjectWalk { base: self.base, orgs: self.orgs, next, projects };
                    (Some(w), WalkAction::Get(url))
                }
            },
        }
    }
}

/// The projects of all the replies, in order, while they are lists.
pub open spec fn gathered(replies: Seq<ReplyModel>) -> Seq<ProjectModel>
    decreases replies.len(),
{
    if replies.len() == 0 {
        Seq::empty()
    } else {
        match replies[0] {
            ReplyModel::Listed(list) => list + gathered(replies.drop_first()),
            ReplyModel::Refused { .. } => Seq::empty(),
        }
    }
}

/// Where the walk stands after the replies `replies`, one per request, are
/// fed to it: its last action.
pub open spec fn walk_result(w: WalkModel, replies: Seq<ReplyModel>) -> ActionModel
    decreases replies.len(),
{
    if replies.len() == 0 {
        ActionModel::Get(projects_url_of(w.base, w.orgs[w.next as int].id))
    } else {
        let step = after_projects_model(w, replies[0]);
        match step.0 {
            Some(w2) => walk_result(w2, replies.drop_first()),
            None => step.1,
        }
    }
}

/// The walk gathers the projects of every organization, in the order of the
/// organizations and of each list: when each remaining organization answers
/// with a list, the walk ends with the projects gathered so far followed by
/// all those lists.
pub proof fn lemma_walk_gathers_all(w: WalkModel, replies: Seq<ReplyModel>)
    requires
        w.next < w.orgs.len(),
        replies.len() == w.orgs.len() - w.next,
        forall|i: int| 0 <= i < replies.len() ==> #[trigger] replies[i] is Listed,
    ensures
        walk_result(w, replies) == ActionModel::Done(Some(w.projects + gathered(replies))),
    decreases replies.len(),
{
    let list = replies[0]->Listed_0;
    let rest = replies.drop_first();
    if w.next + 1 >= w.orgs.len() {
        assert(rest.len() == 0);
        assert(gathered(rest) =~= Seq::<ProjectModel>::empty());
        assert(w.projects + list =~= w.projects + gathered(replies));
    } else {
        let w2 = WalkModel { next: w.next + 1, projects: w.projects + list, ..w };
        assert forall|i: int| 0 <= i < rest.len() implies #[trigger] rest[i] is Listed by {
            assert(rest[i] == replies[i + 1]);
        }
        lemma_walk_gathers_all(w2, rest);
        assert(w2.projects + gathered(rest) =~= w.projects + gathered(replies));
    }
}

/// The walk asks for the organizations' project lists one after the
/// other, in order: after `k` listed replies it asks for the projects of
/// organization `next + k`, at `<base>/api/organizations/<id>/projects/`.
pub proof fn lemma_walk_requests_in_order(w: WalkModel, replies: Seq<ReplyModel>)
    requires
        w.next + replies.len() < w.orgs.len(),
        forall|i: int| 0 <= i < replies.len() ==> #[trigger] replies[i] is Listed,
    ensures
        walk_result(w, replies) == ActionModel::Get(
            w.base + "/api/organizations/"@ + w.orgs[w.next + replies.len() as int].id + "/projects/"@,
        ),
    decreases replies.len(),
{
    if replies.len() > 0 {
        let list = replies[0]->Listed_0;
        let rest = replies.drop_first();
        let w2 = WalkModel { next: w.next + 1, projects: w.projects + list, ..w };
        assert forall|i: int| 0 <= i < rest.len() implies #[trigger] rest[i] is Listed by {
            assert(rest[i] == replies[i + 1]);
        }
        lemma_walk_requests_in_order(w2, rest);
    }
}

/// A refused project list ends the walk with the error naming that
/// organization: when the organizations before it answered with lists, the
/// walk fails at the first refusal.
pub proof fn lemma_walk_fails_at_refusal(w: WalkModel, replies: Seq<ReplyModel>, j: int)
    requires
        w.next < w.orgs.len(),
        0 <= j < replies.len(),
        w.next + j < w.orgs.len(),
        forall|i: int| 0 <= i < j ==> #[trigger] replies[i] is Listed,
        replies[j] matches ReplyModel::Refused { .. },
    ensures
        walk_result(w, replies) == ActionModel::Fail(
            project_fetch_error(
                w.orgs[w.next + j].name,
                replies[j]->Refused_status,
                replies[j]->Refused_body,
            ),
        ),
    decreases j,
{
    if j > 0 {
        let list = replies[0]->Listed_0;
        let rest = replies.drop_first();
        let w2 = WalkModel { next: w.next + 1, projects: w.projects + list, ..w };
        assert forall|i: int| 0 <= i < j - 1 implies #[trigger] rest[i] is Listed by {
            assert(rest[i] == replies[i + 1]);
        }
        lemma_walk_fails_at_refusal(w2, rest, j - 1);
    }
}

/// What to do once the projects were looked up: with no list (a
/// project-scoped key) ask for the ID; with no project fail; with one
/// project use it; with more let the user pick one.
pub enum ProjectChoice {
    EnterId,
    Use(String),
    Pick,
    Fail(PostHogError),
}

/// The error when the API key sees no project.
pub open spec fn no_projects_error() -> ErrorModel {
    hinted(
        plain_error("No projects found for this API key."@, ErrorCode::NotFound),
        "Make sure your API key is associated with at least one organization/project."@,
    )
}

/// The next step of choosing a project, given the project list (none for a
/// project-scoped key).
pub fn choose_project(listing: &Option<Vec<Project>>) -> (r: ProjectChoice)
    ensures
        match listing {
            None => r is EnterId,
            Some(list) => if list@.len() == 0 {
                r matches ProjectChoice::Fail(e) && e@ == no_projects_error()
            } else if list@.len() == 1 {
                r matches ProjectChoice::Use(id) && id@ == signed_decimal(list@[0].id as int)
            } else {
                r is Pick
            },
        },
{
    match listing {
        None => ProjectChoice::EnterId,
        Some(list) => {
            if list.len() == 0 {
                ProjectChoice::Fail(
                    PostHogError::new(
                        "No projects found for this API key.",
                        ErrorCode::NotFound,
                    ).with_hint(
                        "Make sure your API key is associated with at least one organization/project.",
                    ),
                )
            } else if list.len() == 1 {
                ProjectChoice::Use(i64_to_decimal(list[0].id))
            } else {
                ProjectChoice::Pick
            }
        },
    }
}

/// The error for a typed project ID that is not a number.
pub open spec fn invalid_project_id_error() -> ErrorModel {
    plain_error("Invalid project ID. Must be a number."@, ErrorCode::Validation)
}

/// Check a typed project ID: it must be a non-empty string of ASCII digits.
pub fn validate_project_id(pid: &str) -> (r: Result<String, PostHogError>)
    ensures
        pid@.len() > 0 && all_ascii_digits(pid@) ==> (r matches Ok(s) && s@ == pid@),
        !(pid@.len() > 0 && all_ascii_digits(pid@)) ==> (r matches Err(e) && e@
            == invalid_project_id_error()),
{
    if pid.is_empty() || !is_all_ascii_digits(pid) {
        return Err(
            PostHogError::new("Invalid project ID. Must be a number.", ErrorCode::Validation),
        );
    }
    Ok(pid.to_owned())
}

/// The error for a project choice that names no listed project.
pub open spec fn invalid_choice_error() -> ErrorModel {
    plain_error("Invalid selection."@, ErrorCode::Validation)
}

/// The project that a typed choice names: the number `n` picks the `n`-th
/// project of the list (counting from 1).
pub open spec fn chosen_index(choice: Seq<char>, count: nat) -> Option<nat> {
    match parsed_usize(choice) {
        Some(n) => if 1 <= n <= count {
            Some((n - 1) as nat)
        } else {
            None
        },
        None => None,
    }
}

/// The ID of the project picked by a typed choice from the numbered list.
pub fn select_project(list: &Vec<Project>, choice: &str) -> (r: Result<String, PostHogError>)
    ensures
        match chosen_index(choice@, list@.len()) {
            Some(i) => r matches Ok(id) && id@ == signed_decimal(list@[i as int].id as int),
            None => r matches Err(e) && e@ == invalid_choice_error(),
        },
        forall|n: nat|
            1 <= n <= list@.len() && choice@ == #[trigger] decimal(n) ==> (r matches Ok(id) && id@
                == signed_decimal(list@[n - 1].id as int)),
        forall|n: nat|
            n == 0 || n > list@.len() ==> choice@ != #[trigger] decimal(n) || r is Err,
{
    let count: usize = list.len();
    proof {
        assert forall|n: nat| 1 <= n <= list@.len() && choice@ == #[trigger] decimal(n) implies (
        chosen_index(choice@, list@.len()) == Some((n - 1) as nat)) by {
            lemma_parse_decimal(n);
        }
        assert forall|n: nat| (n == 0 || n > list@.len()) && choice@ == #[trigger] decimal(n)
            implies chosen_index(choice@, list@.len()) is None by {
            lemma_parse_decimal(n);
        }
    }
    match parse_usize(choice) {
        Some(n) => {
            if n >= 1 && n - 1 < list.len() {
                Ok(i64_to_decimal(list[n - 1].id))
            } else {
                Err(PostHogError::new("Invalid selection.", ErrorCode::Validation))
            }
        },
        None => Err(PostHogError::new("Invalid selection.", ErrorCode::Validation)),
    }
}

/// The object that `login` prints: the host, the project ID and the masked
/// API key of the saved configuration, in that order.
pub open spec fn login_model(c: Config) -> Json {
    Json::Object {
        keys: seq!["host"@, "projectId"@, "apiKey"@],
        values: seq![
            Json::Str(c.host@),
            Json::Str(c.project_id@),
            Json::Str(masked_key(c.api_key@)),
        ],
    }
}

/// The object that `login` prints for the saved configuration.
pub fn login_display(c: &Config) -> (r: JsonValue)
    ensures
        r@ == login_model(*c),
{
    let mut entries: Vec<(String, JsonValue)> = Vec::new();
    entries.push(("host".to_owned(), JsonValue::Str(c.host.clone())));
    entries.push(("projectId".to_owned(), JsonValue::Str(c.project_id.clone())));
    entries.push(("apiKey".to_owned(), JsonValue::Str(mask_api_key(c.api_key.as_str()))));
    let r = JsonValue::Object(entries);
    proof {
        lemma_view_object(r);
        assert(r@->keys =~= login_model(*c)->keys);
        assert(r@->values =~= login_model(*c)->values);
    }
    r
}

/// The login once a region is chosen: the host of that region.
pub struct RegionChosen {
    pub host: String,
}

/// The login once the pasted API key is accepted.
pub struct KeyAccepted {
    pub host: String,
    pub api_key: String,
}

/// The login waiting for the user to pick one of several projects.
pub struct PickProject {
    pub host: String,
    pub api_key: String,
    pub projects: Vec<Project>,
}

/// The login with everything that is saved: host, API key and project ID.
pub struct LoginReady {
    pub host: String,
    pub api_key: String,
    pub project_id: String,
}

/// Where the login goes once the projects were looked up.
pub enum ProjectStep {
    /// The key sees one project, which is used.
    Ready(LoginReady),
    /// A project-scoped key: the project ID is asked for.
    NeedsId(KeyAccepted),
    /// Several projects: the user picks one.
    NeedsPick(PickProject),
    /// The key sees no project.
    Fail(PostHogError),
}

/// A host that the region choice gives.
pub open spec fn is_region_host(h: Seq<char>) -> bool {
    h == HOST_US@ || h == HOST_EU@
}

impl KeyAccepted {
    /// A region host and an accepted key.
    pub open spec fn wf(&self) -> bool {
        is_region_host(self.host@) && api_key_accepted(self.api_key@)
    }
}

impl PickProject {
    /// A region host and an accepted key.
    pub open spec fn wf(&self) -> bool {
        is_region_host(self.host@) && api_key_accepted(self.api_key@)
    }
}

proof fn lemma_signed_decimal_not_empty(n: int)
    ensures
        signed_decimal(n).len() > 0,
{
    if n < 0 {
        lemma_decimal_not_empty((-n) as nat);
    } else {
        lemma_decimal_not_empty(n as nat);
    }
}

impl LoginReady {
    /// What a login reaching the save holds: a region host, an accepted key
    /// and a project ID.
    pub open spec fn wf(&self) -> bool {
        &&& is_region_host(self.host@)
        &&& api_key_accepted(self.api_key@)
        &&& self.project_id@.len() > 0
    }

    /// The values that the login saves.
    pub open spec fn saved_values(&self) -> PartialModel {
        PartialModel {
            api_key: Some(self.api_key@),
            project_id: Some(self.project_id@),
            host: Some(self.host@),
        }
    }

    /// The values that the login saves, as a config source.
    pub fn to_partial(&self) -> (r: PartialConfig)
        ensures
            r@ == self.saved_values(),
    {
        PartialConfig {
            api_key: Some(self.api_key.clone()),
            project_id: Some(self.project_id.clone()),
            host: Some(self.host.clone()),
        }
    }
}

/// The first step of a login: the typed region choice.
pub fn choose_region(choice: &str) -> (r: Result<RegionChosen, PostHogError>)
    ensures
        match region_host(choice@) {
            Some(h) => r matches Ok(c) && c.host@ == h && is_region_host(h),
            None => r matches Err(e) && e@ == invalid_region_error(),
        },
{
    match select_region(choice) {
        Ok(h) => Ok(RegionChosen { host: h.to_owned() }),
        Err(e) => Err(e),
    }
}

impl RegionChosen {
    /// The page on which the user creates the API key for this region.
    pub fn key_page_url(&self) -> (r: String)
        ensures
            r@ == self.host@ + "/settings/user-api-keys"@,
    {
        api_key_page_url(self.host.as_str())
    }

    /// The second step: the pasted API key, which must start with `phx_`.
    pub fn with_key(self, api_key: String) -> (r: Result<KeyAccepted, PostHogError>)
        ensures
            api_key_accepted(api_key@) ==> (r matches Ok(k) && k.host@ == self.host@ && k.api_key@
                == api_key@),
            !api_key_accepted(api_key@) ==> (r matches Err(e) && e@ == invalid_api_key_error()),
            is_region_host(self.host@) ==> (r matches Ok(k) ==> k.wf()),
    {
        match validate_api_key(api_key.as_str()) {
            Ok(()) => Ok(KeyAccepted { host: self.host, api_key }),
            Err(e) => Err(e),
        }
    }
}

proof fn lemma_decimal_not_empty(n: nat)
    ensures
        decimal(n).len() > 0,
    decreases n,
{
    if n >= 10 {
        lemma_decimal_not_empty(n / 10);
    }
}

impl KeyAccepted {
    /// The third step: the projects the key sees (none for a
    /// project-scoped key). One project is used, several are offered for
    /// picking, none is an error.
    pub fn with_projects(self, listing: Option<Vec<Project>>) -> (r: ProjectStep)
        ensures
            self.wf() ==> match r {
                ProjectStep::Ready(d) => d.wf(),
                ProjectStep::NeedsId(k) => k.wf(),
                ProjectStep::NeedsPick(p) => p.wf(),
                ProjectStep::Fail(_) => true,
            },
            match listing {
                None => r matches ProjectStep::NeedsId(k) && k.host@ == self.host@ && k.api_key@
                    == self.api_key@,
                Some(list) => if list@.len() == 0 {
                    r matches ProjectStep::Fail(e) && e@ == no_projects_error()
                } else if list@.len() == 1 {
                    r matches ProjectStep::Ready(d) && d.host@ == self.host@ && d.api_key@
                        == self.api_key@ && d.project_id@ == signed_decimal(list@[0].id as int)
                } else {
                    r matches ProjectStep::NeedsPick(p) && p.host@ == self.host@ && p.api_key@
                        == self.api_key@ && p.projects@ == list@
                },
            },
    {
        proof {
            if listing is Some && listing->0@.len() > 0 {
                lemma_signed_decimal_not_empty(listing->0@[0].id as int);
            }
        }
        match choose_project(&listing) {
            ProjectChoice::EnterId => ProjectStep::NeedsId(self),
            ProjectChoice::Fail(e) => ProjectStep::Fail(e),
            ProjectChoice::Use(id) => ProjectStep::Ready(
                LoginReady { host: self.host, api_key: self.api_key, project_id: id },
            ),
            ProjectChoice::Pick => match listing {
                Some(projects) => ProjectStep::NeedsPick(
                    PickProject { host: self.host, api_key: self.api_key, projects },
                ),
                None => ProjectStep::NeedsId(self),
            },
        }
    }

    /// The typed project ID of a project-scoped key, which must be a number.
    pub fn with_project_id(self, pid: &str) -> (r: Result<LoginReady, PostHogError>)
        ensures
            pid@.len() > 0 && all_ascii_digits(pid@) ==> (r matches Ok(d) && d.host@ == self.host@
                && d.api_key@ == self.api_key@ && d.project_id@ == pid@),
            !(pid@.len() > 0 && all_ascii_digits(pid@)) ==> (r matches Err(e) && e@
                == invalid_project_id_error()),
            self.wf() ==> (r matches Ok(d) ==> d.wf()),
    {
        match validate_project_id(pid) {
            Ok(id) => Ok(LoginReady { host: self.host, api_key: self.api_key, project_id: id }),
            Err(e) => Err(e),
        }
    }
}

impl PickProject {
    /// The typed choice among the numbered projects (counting from 1).
    pub fn with_choice(self, choice: &str) -> (r: Result<LoginReady, PostHogError>)
        ensures
            match chosen_index(choice@, self.projects@.len()) {
                Some(i) => r matches Ok(d) && d.host@ == self.host@ && d.api_key@ == self.api_key@
                    && d.project_id@ == signed_decimal(self.projects@[i as int].id as int),
                None => r matches Err(e) && e@ == invalid_choice_error(),
            },
            self.wf() ==> (r matches Ok(d) ==> d.wf()),
    {
        proof {
            if chosen_index(choice@, self.projects@.len()) is Some {
                let i = chosen_index(choice@, self.projects@.len())->0;
                lemma_signed_decimal_not_empty(self.projects@[i as int].id as int);
            }
        }
        match select_project(&self.projects, choice) {
            Ok(id) => Ok(LoginReady { host: self.host, api_key: self.api_key, project_id: id }),
            Err(e) => Err(e),
        }
    }
}

/// A login that reaches the save is never refused by it: the save writes
/// exactly the login's host, API key and project ID, whatever was stored.
pub proof fn lemma_finished_login_saves(d: LoginReady, existing: PartialModel)
    requires
        d.wf(),
    ensures
        save_outcome(d.saved_values(), existing) == Ok::<ConfigModel, ErrorModel>(
            ConfigModel { api_key: d.api_key@, project_id: d.project_id@, host: d.host@ },
        ),
{
    reveal_strlit("https://us.posthog.com");
    reveal_strlit("https://eu.posthog.com");
    assert(without_trailing_slash(d.host@) == d.host@);
    if d.host@ == HOST_US@ {
        assert(allowed_host_names()[0] == d.host@);
    } else {
        assert(allowed_host_names()[1] == d.host@);
    }
    let m = merged(d.saved_values(), existing);
    assert(m.api_key =~= d.api_key@);
    assert(m.project_id =~= d.project_id@);
    assert(m.host =~= d.host@);
}

} // verus!
