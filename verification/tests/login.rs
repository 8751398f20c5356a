use posthog_cli_rs::commands::login::{
    after_orgs, api_base, choose_region, api_key_page_url, bearer, choose_project, host_for, is_success,
    login_display, orgs_url, select_project, select_region, validate_api_key, validate_project_id,
    Organization, Project, ProjectChoice, ProjectStep, ProjectWalk, ProjectsReply, WalkAction, HOST_EU, HOST_US,
};
use posthog_cli_rs::config::{save_global_config, Config, PartialConfig};
use posthog_cli_rs::errors::ErrorCode;
use posthog_cli_rs::json::JsonValue;

const SERVER: &str = "http://127.0.0.1:8080";

fn org(id: &str, name: &str) -> Organization {
    Organization { id: id.to_string(), name: name.to_string() }
}

fn project(id: i64, name: &str) -> Project {
    Project { id, name: name.to_string() }
}

/// Feeds the replies to the walk, checking that each request is for the
/// expected URL, and gives back how the walk ended.
fn walk(
    host: &str,
    orgs_status: u16,
    orgs: Vec<Organization>,
    replies: Vec<(&str, ProjectsReply)>,
) -> WalkAction {
    let listing = if is_success(orgs_status) { Some(orgs) } else { None };
    let (mut state, mut action): (Option<ProjectWalk>, WalkAction) = after_orgs(host, listing);
    for (expected_url, reply) in replies {
        match action {
            WalkAction::Get(url) => assert_eq!(url, expected_url),
            _ => panic!("the walk ended before all replies"),
        }
        let (next_state, next_action) = state.take().unwrap().after_projects(reply);
        state = next_state;
        action = next_action;
    }
    action
}

// --- host_for ---

#[test]
fn host_for_maps_1_to_us() {
    assert_eq!(host_for("1"), Some(HOST_US));
}

#[test]
fn host_for_maps_2_to_eu() {
    assert_eq!(host_for("2"), Some(HOST_EU));
}

#[test]
fn host_for_returns_none_for_invalid_selection() {
    assert_eq!(host_for("3"), None);
    assert_eq!(host_for(""), None);
    assert_eq!(host_for("foo"), None);
}

#[test]
fn select_region_rejects_other_choices() {
    assert_eq!(select_region("2").unwrap(), "https://eu.posthog.com");
    let err = select_region("12").unwrap_err();
    assert_eq!(err.code, ErrorCode::Validation);
    assert_eq!(err.message, "Invalid selection. Choose 1 or 2.");
}

// --- fetch_projects, as the walk that drives it ---

#[test]
fn fetches_orgs_then_projects() {
    let action = walk(
        SERVER,
        200,
        vec![org("org-1", "My Org")],
        vec![(
            "http://127.0.0.1:8080/api/organizations/org-1/projects/",
            ProjectsReply::Listed(vec![project(100, "Prod"), project(200, "Staging")]),
        )],
    );
    let projects = match action {
        WalkAction::Done(Some(p)) => p,
        _ => panic!("projects present"),
    };

    assert_eq!(projects.len(), 2);
    assert_eq!(projects[0].name, "Prod");
    assert_eq!(projects[1].name, "Staging");
}

#[test]
fn aggregates_projects_across_multiple_orgs() {
    let action = walk(
        SERVER,
        200,
        vec![org("org-1", "Org A"), org("org-2", "Org B")],
        vec![
            (
                "http://127.0.0.1:8080/api/organizations/org-1/projects/",
                ProjectsReply::Listed(vec![project(1, "P1")]),
            ),
            (
                "http://127.0.0.1:8080/api/organizations/org-2/projects/",
                ProjectsReply::Listed(vec![project(2, "P2")]),
            ),
        ],
    );
    let projects = match action {
        WalkAction::Done(Some(p)) => p,
        _ => panic!("projects present"),
    };
    assert_eq!(projects.len(), 2);
    assert_eq!(projects[0].id, 1);
    assert_eq!(projects[1].id, 2);
}

#[test]
fn sends_bearer_auth_header() {
    assert_eq!(bearer("phx_my_key"), "Bearer phx_my_key");
    assert_eq!(orgs_url(SERVER), "http://127.0.0.1:8080/api/organizations/");
    let action = walk(SERVER, 200, vec![], vec![]);
    assert!(matches!(action, WalkAction::Done(Some(ref p)) if p.is_empty()));
}

#[test]
fn returns_none_when_orgs_endpoint_is_forbidden() {
    let action = walk(SERVER, 403, vec![org("org-1", "My Org")], vec![]);
    assert!(matches!(action, WalkAction::Done(None)));
}

#[test]
fn errors_when_project_fetch_fails() {
    let action = walk(
        SERVER,
        200,
        vec![org("org-1", "My Org")],
        vec![(
            "http://127.0.0.1:8080/api/organizations/org-1/projects/",
            ProjectsReply::Refused { status: 500, body: r#"{"detail":"Server error"}"#.to_string() },
        )],
    );
    let err = match action {
        WalkAction::Fail(e) => e,
        _ => panic!("should error"),
    };
    assert!(
        err.message.contains("Failed to fetch projects for org \"My Org\" (500)"),
        "message was: {}",
        err.message
    );
    assert_eq!(err.message, "Failed to fetch projects for org \"My Org\" (500): {\"detail\":\"Server error\"}");
    assert_eq!(err.code, ErrorCode::ApiError);
    assert_eq!(err.status, Some(500));
}

#[test]
fn returns_empty_array_when_org_has_no_projects() {
    let action = walk(
        SERVER,
        200,
        vec![org("org-1", "Empty Org")],
        vec![(
            "http://127.0.0.1:8080/api/organizations/org-1/projects/",
            ProjectsReply::Listed(vec![]),
        )],
    );
    let projects = match action {
        WalkAction::Done(Some(p)) => p,
        _ => panic!("projects present"),
    };
    assert_eq!(projects.len(), 0);
}

#[test]
fn walk_stops_at_first_refusal() {
    let action = walk(
        "https://us.posthog.com/",
        204,
        vec![org("a", "Org A"), org("b", "Org B"), org("c", "Org C")],
        vec![
            (
                "https://us.posthog.com/api/organizations/a/projects/",
                ProjectsReply::Listed(vec![project(7, "Seven")]),
            ),
            (
                "https://us.posthog.com/api/organizations/b/projects/",
                ProjectsReply::Refused { status: 404, body: String::new() },
            ),
        ],
    );
    match action {
        WalkAction::Fail(e) => {
            assert_eq!(e.message, "Failed to fetch projects for org \"Org B\" (404): ");
            assert_eq!(e.status, Some(404));
        }
        _ => panic!("should error"),
    }
}

#[test]
fn api_urls_drop_trailing_slashes() {
    assert_eq!(api_base("https://eu.posthog.com///"), "https://eu.posthog.com");
    assert_eq!(orgs_url("https://eu.posthog.com/"), "https://eu.posthog.com/api/organizations/");
    assert_eq!(
        api_key_page_url("https://us.posthog.com"),
        "https://us.posthog.com/settings/user-api-keys"
    );
    assert!(is_success(200));
    assert!(is_success(299));
    assert!(!is_success(199));
    assert!(!is_success(300));
}

#[test]
fn api_key_must_start_with_phx() {
    assert!(validate_api_key("phx_abc").is_ok());
    assert!(validate_api_key("phx_").is_ok());
    let err = validate_api_key("").unwrap_err();
    assert_eq!(err.code, ErrorCode::Validation);
    assert_eq!(err.message, "Invalid API key. Must start with phx_");
    assert_eq!(
        err.hint.as_deref(),
        Some("Create a personal API key at the URL above and paste the full token.")
    );
    assert!(validate_api_key("phc_abc").is_err());
    assert!(validate_api_key("phx").is_err());
}

#[test]
fn project_choice_follows_the_listing() {
    assert!(matches!(choose_project(&None), ProjectChoice::EnterId));
    match choose_project(&Some(vec![])) {
        ProjectChoice::Fail(e) => {
            assert_eq!(e.code, ErrorCode::NotFound);
            assert_eq!(e.message, "No projects found for this API key.");
        }
        _ => panic!("no projects is an error"),
    }
    match choose_project(&Some(vec![project(-42, "Only")])) {
        ProjectChoice::Use(id) => assert_eq!(id, "-42"),
        _ => panic!("a single project is used"),
    }
    assert!(matches!(
        choose_project(&Some(vec![project(1, "A"), project(2, "B")])),
        ProjectChoice::Pick
    ));
}

#[test]
fn typed_project_id_must_be_digits() {
    assert_eq!(validate_project_id("12345").unwrap(), "12345");
    let err = validate_project_id("").unwrap_err();
    assert_eq!(err.message, "Invalid project ID. Must be a number.");
    assert!(validate_project_id("12a").is_err());
    assert!(validate_project_id("-1").is_err());
}

#[test]
fn picking_a_project_counts_from_one() {
    let list = vec![project(100, "Prod"), project(9223372036854775807, "Big")];
    assert_eq!(select_project(&list, "1").unwrap(), "100");
    assert_eq!(select_project(&list, "+2").unwrap(), "9223372036854775807");
    for bad in ["0", "3", "", "x", "-1", "99999999999999999999999"] {
        let err = select_project(&list, bad).unwrap_err();
        assert_eq!(err.code, ErrorCode::Validation);
        assert_eq!(err.message, "Invalid selection.");
    }
}

#[test]
fn login_prints_host_project_and_masked_key() {
    let c = Config {
        api_key: "phx_abcdefghijklmnop1234".to_string(),
        project_id: "42".to_string(),
        host: "https://eu.posthog.com".to_string(),
    };
    let expected = JsonValue::Object(vec![
        ("host".to_string(), JsonValue::Str("https://eu.posthog.com".to_string())),
        ("projectId".to_string(), JsonValue::Str("42".to_string())),
        ("apiKey".to_string(), JsonValue::Str("phx_abc...1234".to_string())),
    ]);
    assert_eq!(login_display(&c), expected);
}

#[test]
fn region_hosts_pass_the_save_check() {
    for choice in ["1", "2"] {
        let host = host_for(choice).unwrap();
        let saved = save_global_config(
            &PartialConfig {
                api_key: Some("phx_k".into()),
                project_id: Some("1".into()),
                host: Some(host.to_string()),
            },
            &PartialConfig { api_key: None, project_id: None, host: None },
        )
        .expect("a region host is an allowed host");
        assert_eq!(saved.host, host);
    }
}

#[test]
fn login_steps_reach_the_save_with_one_project() {
    let chosen = choose_region("2").unwrap();
    assert_eq!(chosen.key_page_url(), "https://eu.posthog.com/settings/user-api-keys");
    let accepted = chosen.with_key("phx_secret".to_string()).unwrap();
    let ready = match accepted.with_projects(Some(vec![project(77, "Prod")])) {
        ProjectStep::Ready(r) => r,
        _ => panic!("one project is used"),
    };
    assert_eq!(ready.project_id, "77");
    let saved = save_global_config(
        &ready.to_partial(),
        &PartialConfig {
            api_key: Some("phx_old".into()),
            project_id: Some("1".into()),
            host: Some("https://attacker.com".into()),
        },
    )
    .expect("a finished login is always saved");
    assert_eq!(saved.api_key, "phx_secret");
    assert_eq!(saved.project_id, "77");
    assert_eq!(saved.host, "https://eu.posthog.com");
}

#[test]
fn login_steps_for_scoped_keys_and_several_projects() {
    let accepted = choose_region("1").unwrap().with_key("phx_k".to_string()).unwrap();
    let needs_id = match accepted.with_projects(None) {
        ProjectStep::NeedsId(k) => k,
        _ => panic!("a scoped key asks for the ID"),
    };
    assert_eq!(needs_id.with_project_id("4242").unwrap().project_id, "4242");

    let accepted = choose_region("1").unwrap().with_key("phx_k".to_string()).unwrap();
    let pick = match accepted.with_projects(Some(vec![project(1, "A"), project(2, "B")])) {
        ProjectStep::NeedsPick(p) => p,
        _ => panic!("several projects are offered"),
    };
    assert_eq!(pick.projects.len(), 2);
    let ready = pick.with_choice("2").unwrap();
    assert_eq!(ready.project_id, "2");
    assert_eq!(ready.host, "https://us.posthog.com");

    let accepted = choose_region("1").unwrap().with_key("phx_k".to_string()).unwrap();
    assert!(matches!(accepted.with_projects(Some(vec![])), ProjectStep::Fail(_)));
}

#[test]
fn login_steps_refuse_bad_input() {
    assert_eq!(choose_region("3").err().unwrap().message, "Invalid selection. Choose 1 or 2.");
    let err = choose_region("1").unwrap().with_key("sk_123".to_string()).err().unwrap();
    assert_eq!(err.message, "Invalid API key. Must start with phx_");
    let accepted = choose_region("1").unwrap().with_key("phx_k".to_string()).unwrap();
    let needs_id = match accepted.with_projects(None) {
        ProjectStep::NeedsId(k) => k,
        _ => panic!("a scoped key asks for the ID"),
    };
    assert_eq!(needs_id.with_project_id("abc").err().unwrap().message, "Invalid project ID. Must be a number.");
}
