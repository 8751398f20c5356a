//! Config resolution and merging. Priority: env vars > local `.posthog.json`
//! (projectId only) > `~/.config/posthog/config.json` > defaults.
//!
//! Security: local `.posthog.json` can only set `projectId`. `apiKey` and
//! `host` are restricted to env vars and global config to prevent credential
//! theft via malicious repositories.
//!
//! Reading the environment and the files is the caller's part; the functions
//! here take what was read and decide what the configuration is.

use vstd::prelude::*;
use crate::errors::{hinted, plain_error, ErrorCode, ErrorModel, PostHogError};
use crate::text::{opt_chars, push_str, str_eq};

verus! {

/// The host used when none is configured.
pub const DEFAULT_HOST: &'static str = "https://us.posthog.com";

/// The name of the per-directory config file, which may set `projectId` only.
pub const LOCAL_CONFIG_NAME: &'static str = ".posthog.json";

/// A resolved configuration (`{ "apiKey", "projectId", "host" }`).
#[derive(Debug, Clone)]
pub struct Config {
    pub api_key: String,
    pub project_id: String,
    pub host: String,
}

/// Config values from one source, each of which may be missing: a config
/// file, or the `POSTHOG_API_KEY`, `POSTHOG_PROJECT_ID` and `POSTHOG_HOST`
/// environment variables.
#[derive(Debug, Clone)]
pub struct PartialConfig {
    pub api_key: Option<String>,
    pub project_id: Option<String>,
    pub host: Option<String>,
}

/// The model of a `Config`.
pub struct ConfigModel {
    pub api_key: Seq<char>,
    pub project_id: Seq<char>,
    pub host: Seq<char>,
}

/// The model of a `PartialConfig`.
pub struct PartialModel {
    pub api_key: Option<Seq<char>>,
    pub project_id: Option<Seq<char>>,
    pub host: Option<Seq<char>>,
}

impl View for Config {
    type V = ConfigModel;

    open spec fn view(&self) -> ConfigModel {
        ConfigModel { api_key: self.api_key@, project_id: self.project_id@, host: self.host@ }
    }
}

impl View for PartialConfig {
    type V = PartialModel;

    open spec fn view(&self) -> PartialModel {
        PartialModel {
            api_key: opt_chars(self.api_key),
            project_id: opt_chars(self.project_id),
            host: opt_chars(self.host),
        }
    }
}

impl Default for Config {
    /// The configuration with every value empty.
    fn default() -> (r: Self)
        ensures
            r@.api_key.len() == 0,
            r@.project_id.len() == 0,
            r@.host.len() == 0,
    {
        Config { api_key: String::new(), project_id: String::new(), host: String::new() }
    }
}

impl Default for PartialConfig {
    /// The source that sets nothing.
    fn default() -> (r: Self)
        ensures
            r@ == empty_partial(),
    {
        PartialConfig { api_key: None, project_id: None, host: None }
    }
}

/// A source that sets nothing.
pub open spec fn empty_partial() -> PartialModel {
    PartialModel { api_key: None, project_id: None, host: None }
}

/// A value counts as set only when it is there and not empty.
pub open spec fn present(o: Option<Seq<char>>) -> Option<Seq<char>> {
    match o {
        Some(s) => if s.len() > 0 {
            Some(s)
        } else {
            None
        },
        None => None,
    }
}

/// The first of two sources that sets a value.
pub open spec fn first_set(a: Option<Seq<char>>, b: Option<Seq<char>>) -> Option<Seq<char>> {
    if present(a) is Some {
        present(a)
    } else {
        present(b)
    }
}

/// The value, or `default` when there is none.
pub open spec fn or_default(o: Option<Seq<char>>, default: Seq<char>) -> Seq<char> {
    match o {
        Some(s) => s,
        None => default,
    }
}

/// The configuration that the sources give: `apiKey` from the environment,
/// else the global file, else empty; `projectId` from the environment, else
/// the local file, else the global file, else empty; `host` from the
/// environment, else the global file, else the default host.
pub open spec fn resolved(env: PartialModel, global: PartialModel, local: PartialModel) -> ConfigModel {
    ConfigModel {
        api_key: or_default(first_set(env.api_key, global.api_key), Seq::empty()),
        project_id: or_default(
            first_set(env.project_id, first_set(local.project_id, global.project_id)),
            Seq::empty(),
        ),
        host: or_default(first_set(env.host, global.host), DEFAULT_HOST@),
    }
}

/// Keeps a value only when it is not empty.
pub fn non_empty(s: Option<String>) -> (r: Option<String>)
    ensures
        opt_chars(r) == present(opt_chars(s)),
{
    match s {
        Some(v) => if v.as_str().is_empty() {
            None
        } else {
            Some(v)
        },
        None => None,
    }
}

/// The value of `o` when it is set (not empty).
fn set_value(o: &Option<String>) -> (r: Option<String>)
    ensures
        opt_chars(r) == present(opt_chars(*o)),
{
    match o {
        Some(v) => if v.as_str().is_empty() {
            None
        } else {
            Some(v.clone())
        },
        None => None,
    }
}

/// The first of two sources that sets a value.
fn first_set_value(a: &Option<String>, b: &Option<String>) -> (r: Option<String>)
    ensures
        opt_chars(r) == first_set(opt_chars(*a), opt_chars(*b)),
{
    let x = set_value(a);
    if x.is_some() {
        x
    } else {
        set_value(b)
    }
}

/// The value, or `default` when there is none.
fn value_or(o: Option<String>, default: &str) -> (r: String)
    ensures
        r@ == or_default(opt_chars(o), default@),
{
    match o {
        Some(v) => v,
        None => default.to_owned(),
    }
}

/// Resolve the configuration from the environment variables (`env`), the
/// global config file (`global`) and the local `.posthog.json` (`local`).
pub fn load_config_from(env: &PartialConfig, global: &PartialConfig, local: &PartialConfig) -> (r:
    Config)
    ensures
        r@ == resolved(env@, global@, local@),
        unset(env@.project_id) && unset(local@.project_id) && !unset(global@.project_id)
            ==> r@.project_id == global@.project_id->0,
        unset(env@.api_key) && !unset(global@.api_key) ==> r@.api_key == global@.api_key->0,
        unset(env@.host) && !unset(global@.host) ==> r@.host == global@.host->0,
{
    proof {
        lemma_file_fallbacks(env@, global@, local@);
    }
    let api_key = value_or(first_set_value(&env.api_key, &global.api_key), "");
    let file_project = first_set_value(&local.project_id, &global.project_id);
    let project_id = value_or(first_set_value(&env.project_id, &file_project), "");
    let host = value_or(first_set_value(&env.host, &global.host), DEFAULT_HOST);
    proof {
        reveal_strlit("");
        assert(""@ =~= Seq::<char>::empty());
        assert(present(opt_chars(file_project)) == opt_chars(file_project));
    }
    Config { api_key, project_id, host }
}

/// The error for a configuration without an API key.
pub open spec fn missing_api_key_error() -> ErrorModel {
    hinted(
        plain_error("No API key configured."@, ErrorCode::AuthMissing),
        "Run `posthog login` or `posthog config set --api-key <key>`, or set POSTHOG_API_KEY."@,
    )
}

/// The error for a configuration without a project ID.
pub open spec fn missing_project_error() -> ErrorModel {
    hinted(
        plain_error("No project ID configured."@, ErrorCode::AuthMissing),
        "Run `posthog login` or `posthog config set --project-id <id>`, or set POSTHOG_PROJECT_ID."@,
    )
}

/// A resolved configuration is usable when it has both an API key and a
/// project ID; the key is checked first.
pub fn check_required_config(c: Config) -> (r: Result<Config, PostHogError>)
    ensures
        c@.api_key.len() == 0 ==> (r matches Err(e) && e@ == missing_api_key_error()),
        c@.api_key.len() > 0 && c@.project_id.len() == 0 ==> (r matches Err(e) && e@
            == missing_project_error()),
        c@.api_key.len() > 0 && c@.project_id.len() > 0 ==> (r matches Ok(k) && k@ == c@),
{
    if c.api_key.as_str().is_empty() {
        return Err(
            PostHogError::new("No API key configured.", ErrorCode::AuthMissing).with_hint(
                "Run `posthog login` or `posthog config set --api-key <key>`, or set POSTHOG_API_KEY.",
            ),
        );
    }
    if c.project_id.as_str().is_empty() {
        return Err(
            PostHogError::new("No project ID configured.", ErrorCode::AuthMissing).with_hint(
                "Run `posthog login` or `posthog config set --project-id <id>`, or set POSTHOG_PROJECT_ID.",
            ),
        );
    }
    Ok(c)
}

/// Resolve the configuration from its sources and insist on an API key and
/// a project ID.
pub fn require_config_from(env: &PartialConfig, global: &PartialConfig, local: &PartialConfig) -> (r:
    Result<Config, PostHogError>)
    ensures
        ({
            let c = resolved(env@, global@, local@);
            &&& c.api_key.len() == 0 ==> (r matches Err(e) && e@ == missing_api_key_error())
            &&& c.api_key.len() > 0 && c.project_id.len() == 0 ==> (r matches Err(e) && e@
                == missing_project_error())
            &&& c.api_key.len() > 0 && c.project_id.len() > 0 ==> (r matches Ok(k) && k@ == c)
        }),
{
    check_required_config(load_config_from(env, global, local))
}

/// The hosts that a config may name.
pub open spec fn allowed_host_names() -> Seq<Seq<char>> {
    seq!["https://us.posthog.com"@, "https://eu.posthog.com"@]
}

/// The hosts that a config may name.
pub fn allowed_hosts() -> (r: Vec<&'static str>)
    ensures
        r@.len() == 2,
        r@[0]@ == allowed_host_names()[0],
        r@[1]@ == allowed_host_names()[1],
{
    let mut v: Vec<&'static str> = Vec::new();
    v.push("https://us.posthog.com");
    v.push("https://eu.posthog.com");
    v
}

/// Whether `h` is one of the allowed hosts.
pub fn is_allowed_host(h: &str) -> (r: bool)
    ensures
        r == allowed_host_names().contains(h@),
{
    let hosts = allowed_hosts();
    let mut i: usize = 0;
    while i < hosts.len()
        invariant
            hosts@.len() == 2,
            hosts@[0]@ == allowed_host_names()[0],
            hosts@[1]@ == allowed_host_names()[1],
            i <= 2,
            forall|j: int| 0 <= j < i ==> allowed_host_names()[j] != h@,
        decreases 2 - i,
    {
        if str_eq(hosts[i], h) {
            assert(allowed_host_names()[i as int] == h@);
            return true;
        }
        i = i + 1;
    }
    proof {
        if allowed_host_names().contains(h@) {
            let j = choose|j: int| 0 <= j < 2 && allowed_host_names()[j] == h@;
            assert(allowed_host_names()[j] == h@);
        }
    }
    false
}

/// `s` without one trailing `/`.
pub open spec fn without_trailing_slash(s: Seq<char>) -> Seq<char> {
    if s.len() > 0 && s.last() == '/' {
        s.drop_last()
    } else {
        s
    }
}

/// `s` without one trailing `/`.
pub fn strip_trailing_slash(s: &str) -> (r: &str)
    ensures
        r@ == without_trailing_slash(s@),
{
    let n = s.unicode_len();
    if n > 0 && s.get_char(n - 1) == '/' {
        let r = s.substring_char(0, n - 1);
        assert(r@ =~= s@.drop_last());
        r
    } else {
        s
    }
}

/// A host that a config may be saved with: one of the allowed hosts, with or
/// without one trailing `/`.
pub open spec fn host_accepted(h: Seq<char>) -> bool {
    allowed_host_names().contains(without_trailing_slash(h))
}

/// The error for a host that may not be saved.
pub open spec fn invalid_host_error(h: Seq<char>) -> ErrorModel {
    plain_error(
        "Invalid host \""@ + h + "\". Allowed: https://us.posthog.com, https://eu.posthog.com"@,
        ErrorCode::Validation,
    )
}

/// The configuration that saving `partial` over the stored values
/// `existing` writes: each value from `partial` when set, else the stored one
/// when set, else empty (the default host for `host`).
pub open spec fn merged(partial: PartialModel, existing: PartialModel) -> ConfigModel {
    ConfigModel {
        api_key: or_default(first_set(partial.api_key, existing.api_key), Seq::empty()),
        project_id: or_default(first_set(partial.project_id, existing.project_id), Seq::empty()),
        host: or_default(first_set(partial.host, existing.host), DEFAULT_HOST@),
    }
}

/// What saving `partial` over `existing` comes to: the error for a host that
/// may not be saved, else the merged configuration.
pub open spec fn save_outcome(partial: PartialModel, existing: PartialModel) -> Result<
    ConfigModel,
    ErrorModel,
> {
    match partial.host {
        Some(h) => if host_accepted(h) {
            Ok(merged(partial, existing))
        } else {
            Err(invalid_host_error(h))
        },
        None => Ok(merged(partial, existing)),
    }
}

/// The same relation as `==` on results, over the models of the values.
pub open spec fn config_result_is(r: Result<Config, PostHogError>, m: Result<ConfigModel, ErrorModel>) -> bool {
    match r {
        Ok(c) => m == Ok::<ConfigModel, ErrorModel>(c@),
        Err(e) => m == Err::<ConfigModel, ErrorModel>(e@),
    }
}

/// Check a host given to `config set` or `login`: it must be one of the
/// allowed hosts, a trailing `/` aside.
pub fn validate_host(h: &str) -> (r: Result<(), PostHogError>)
    ensures
        host_accepted(h@) ==> r is Ok,
        !host_accepted(h@) ==> (r matches Err(e) && e@ == invalid_host_error(h@)),
{
    if is_allowed_host(strip_trailing_slash(h)) {
        Ok(())
    } else {
        let mut message = "Invalid host \"".to_owned();
        push_str(&mut message, h);
        push_str(&mut message, "\". Allowed: https://us.posthog.com, https://eu.posthog.com");
        Err(
            PostHogError {
                message,
                code: ErrorCode::Validation,
                hint: None,
                docs_url: None,
                status: None,
            },
        )
    }
}

/// The configuration to write when saving `partial` to the global config
/// file whose stored values are `existing`: a given host is checked first,
/// then each value comes from `partial` when set, else from `existing`.
pub fn save_global_config(partial: &PartialConfig, existing: &PartialConfig) -> (r: Result<
    Config,
    PostHogError,
>)
    ensures
        config_result_is(r, save_outcome(partial@, existing@)),
{
    match &partial.host {
        Some(h) => {
            match validate_host(h.as_str()) {
                Ok(()) => {},
                Err(e) => {
                    return Err(e);
                },
            }
        },
        None => {},
    }
    let api_key = value_or(first_set_value(&partial.api_key, &existing.api_key), "");
    let project_id = value_or(first_set_value(&partial.project_id, &existing.project_id), "");
    let host = value_or(first_set_value(&partial.host, &existing.host), DEFAULT_HOST);
    proof {
        reveal_strlit("");
        assert(""@ =~= Seq::<char>::empty());
    }
    Ok(Config { api_key, project_id, host })
}

/// The text of the global config file given the JSON of the configuration:
/// the JSON and a final newline.
pub fn config_file_text(json: &str) -> (r: String)
    ensures
        r@ == json@.push('\n'),
{
    let mut r = json.to_owned();
    r.push('\n');
    r
}

/// The values of a configuration as a source: what reading back a saved
/// config file gives.
pub open spec fn as_partial(c: ConfigModel) -> PartialModel {
    PartialModel { api_key: Some(c.api_key), project_id: Some(c.project_id), host: Some(c.host) }
}

/// The values of a configuration as a source: what reading back a saved
/// config file gives.
pub fn to_partial(c: &Config) -> (r: PartialConfig)
    ensures
        r@ == as_partial(c@),
{
    PartialConfig {
        api_key: Some(c.api_key.clone()),
        project_id: Some(c.project_id.clone()),
        host: Some(c.host.clone()),
    }
}

/// The path that `std::path::Path::join` makes of `base` and `part`.
pub uninterp spec fn joined_path(base: Seq<char>, part: Seq<char>) -> Seq<char>;

#[verifier::external_type_specification]
#[verifier::external_body]
pub struct ExPathBuf(std::path::PathBuf);

/// A filesystem path: as text when it is valid UTF-8, else as the path
/// itself, which then is carried through unread.
pub enum SysPath {
    Text(String),
    Raw(std::path::PathBuf),
}

/// Calls `std::path::Path::join`: `base` with `part` adjoined. For a path
/// held as text the result is named (`joined_path`), a function of the two
/// paths alone; joining UTF-8 text gives UTF-8 text, so it stays text and
/// its conversion back to text loses nothing. A path held as it is stays so;
/// nothing is claimed of what it then holds.
#[verifier::external_body]
fn join_path(base: SysPath, part: &str) -> (r: SysPath)
    ensures
        match base {
            SysPath::Text(b) => r matches SysPath::Text(t) && t@ == joined_path(b@, part@),
            SysPath::Raw(_) => r is Raw,
        },
{
    match base {
        SysPath::Text(b) => SysPath::Text(
            std::path::Path::new(&b).join(part).to_string_lossy().into_owned(),
        ),
        SysPath::Raw(p) => SysPath::Raw(p.join(part)),
    }
}

/// Calls `dirs::home_dir`, which reads the environment (`$HOME`, else the
/// password database) and so may give any path, or none: no clause is made
/// of its result. A UTF-8 home comes back as text, any other as the path.
#[verifier::external_body]
fn home_dir() -> (r: Option<SysPath>) {
    let p = dirs::home_dir()?;
    if let Some(s) = p.to_str() {
        return Some(SysPath::Text(s.to_owned()));
    }
    Some(SysPath::Raw(p))
}

/// The global config directory for a home directory: `<home>/.config/posthog`,
/// with `.` in place of a missing home.
pub open spec fn config_dir_for(home: Option<Seq<char>>) -> Seq<char> {
    joined_path(joined_path(or_default(home, "."@), ".config"@), "posthog"@)
}

/// The global config file for a home directory: `<dir>/config.json`.
pub open spec fn config_path_for(home: Option<Seq<char>>) -> Seq<char> {
    joined_path(config_dir_for(home), "config.json"@)
}

/// `base` with `part` adjoined, both held as text.
fn join_text(base: String, part: &str) -> (r: String)
    ensures
        r@ == joined_path(base@, part@),
{
    match join_path(SysPath::Text(base), part) {
        SysPath::Text(t) => t,
        SysPath::Raw(_) => {
            assert(false);
            String::new()
        },
    }
}

/// The global config directory for the home directory `home`.
pub fn global_config_dir_for(home: Option<String>) -> (r: String)
    ensures
        r@ == config_dir_for(opt_chars(home)),
{
    let base = value_or(home, ".");
    let dot_config = join_text(base, ".config");
    join_text(dot_config, "posthog")
}

/// The global config file for the home directory `home`.
pub fn global_config_path_for(home: Option<String>) -> (r: String)
    ensures
        r@ == config_path_for(opt_chars(home)),
{
    let dir = global_config_dir_for(home);
    join_text(dir, "config.json")
}

/// The global config directory of the current user: `<home>/.config/posthog`,
/// with `.` in place of a missing home; it is text whenever the home is.
pub fn global_config_dir() -> (r: SysPath)
    ensures
        r matches SysPath::Text(t) ==> exists|home: Option<Seq<char>>| t@ == config_dir_for(home),
{
    match home_dir() {
        Some(SysPath::Text(h)) => {
            let ghost home = Some(h@);
            let r = SysPath::Text(global_config_dir_for(Some(h)));
            assert(r matches SysPath::Text(t) && t@ == config_dir_for(home));
            r
        },
        Some(SysPath::Raw(p)) => join_path(join_path(SysPath::Raw(p), ".config"), "posthog"),
        None => {
            let r = SysPath::Text(global_config_dir_for(None));
            assert(r matches SysPath::Text(t) && t@ == config_dir_for(None));
            r
        },
    }
}

/// The global config file of the current user (`~/.config/posthog/config.json`);
/// it is text whenever the home is.
pub fn global_config_path() -> (r: SysPath)
    ensures
        r matches SysPath::Text(t) ==> exists|home: Option<Seq<char>>| t@ == config_path_for(home),
{
    match home_dir() {
        Some(SysPath::Text(h)) => {
            let ghost home = Some(h@);
            let r = SysPath::Text(global_config_path_for(Some(h)));
            assert(r matches SysPath::Text(t) && t@ == config_path_for(home));
            r
        },
        Some(SysPath::Raw(p)) => join_path(
            join_path(join_path(SysPath::Raw(p), ".config"), "posthog"),
            "config.json",
        ),
        None => {
            let r = SysPath::Text(global_config_path_for(None));
            assert(r matches SysPath::Text(t) && t@ == config_path_for(None));
            r
        },
    }
}

/// A value that is missing or empty, which counts as not set.
pub open spec fn unset(o: Option<Seq<char>>) -> bool {
    o is None || o->0.len() == 0
}

/// Each value falls back to the files when the environment does not set it:
/// `projectId` to the local file and then to the global file, `apiKey` and
/// `host` to the global file, and then to empty (the default host for
/// `host`). What the environment sets for one value never matters for
/// another.
pub proof fn lemma_file_fallbacks(env: PartialModel, global: PartialModel, local: PartialModel)
    ensures
        unset(env.project_id) && unset(local.project_id) && !unset(global.project_id)
            ==> resolved(env, global, local).project_id == global.project_id->0,
        unset(env.project_id) && unset(local.project_id) && unset(global.project_id)
            ==> resolved(env, global, local).project_id.len() == 0,
        unset(env.project_id) && !unset(local.project_id) ==> resolved(env, global, local).project_id
            == local.project_id->0,
        !unset(env.project_id) ==> resolved(env, global, local).project_id == env.project_id->0,
        unset(env.api_key) && !unset(global.api_key) ==> resolved(env, global, local).api_key
            == global.api_key->0,
        unset(env.api_key) && unset(global.api_key) ==> resolved(env, global, local).api_key.len()
            == 0,
        !unset(env.api_key) ==> resolved(env, global, local).api_key == env.api_key->0,
        unset(env.host) && !unset(global.host) ==> resolved(env, global, local).host
            == global.host->0,
        unset(env.host) && unset(global.host) ==> resolved(env, global, local).host
            == DEFAULT_HOST@,
        !unset(env.host) ==> resolved(env, global, local).host == env.host->0,
{
}

/// Each resolved value depends only on that value in the sources: changing
/// the other values of the environment or of the files leaves it as it is.
pub proof fn lemma_values_independent(
    env1: PartialModel,
    global1: PartialModel,
    local1: PartialModel,
    env2: PartialModel,
    global2: PartialModel,
    local2: PartialModel,
)
    ensures
        env1.project_id == env2.project_id && local1.project_id == local2.project_id
            && global1.project_id == global2.project_id ==> resolved(env1, global1, local1).project_id
            == resolved(env2, global2, local2).project_id,
        env1.api_key == env2.api_key && global1.api_key == global2.api_key ==> resolved(
            env1,
            global1,
            local1,
        ).api_key == resolved(env2, global2, local2).api_key,
        env1.host == env2.host && global1.host == global2.host ==> resolved(
            env1,
            global1,
            local1,
        ).host == resolved(env2, global2, local2).host,
{
}

/// A save writes each value it is given (set, not empty); a value it is
/// not given is kept from the stored config when set there.
pub proof fn lemma_save_writes_given(partial: PartialModel, existing: PartialModel)
    ensures
        save_outcome(partial, existing) matches Ok(c) ==> {
            &&& !unset(partial.api_key) ==> c.api_key == partial.api_key->0
            &&& !unset(partial.project_id) ==> c.project_id == partial.project_id->0
            &&& !unset(partial.host) ==> c.host == partial.host->0
            &&& unset(partial.api_key) && !unset(existing.api_key) ==> c.api_key
                == existing.api_key->0
            &&& unset(partial.project_id) && !unset(existing.project_id) ==> c.project_id
                == existing.project_id->0
            &&& unset(partial.host) && !unset(existing.host) ==> c.host == existing.host->0
        },
{
}

/// A local `.posthog.json` cannot change the API key or the host: two
/// local files give the same `apiKey` and `host` for the same environment
/// and global file.
pub proof fn lemma_local_cannot_set_credentials(
    env: PartialModel,
    global: PartialModel,
    local1: PartialModel,
    local2: PartialModel,
)
    ensures
        resolved(env, global, local1).api_key == resolved(env, global, local2).api_key,
        resolved(env, global, local1).host == resolved(env, global, local2).host,
{
}

/// Environment variables win over both files: a set (non-empty) variable is
/// the resolved value.
pub proof fn lemma_env_wins(env: PartialModel, global: PartialModel, local: PartialModel)
    ensures
        present(env.api_key) matches Some(k) ==> resolved(env, global, local).api_key == k,
        present(env.project_id) matches Some(p) ==> resolved(env, global, local).project_id
            == p,
        present(env.host) matches Some(h) ==> resolved(env, global, local).host == h,
{
}

/// The local file wins over the global file for the project ID, when no
/// environment variable sets it.
pub proof fn lemma_local_project_wins(env: PartialModel, global: PartialModel, local: PartialModel)
    ensures
        present(env.project_id) is None ==> (present(local.project_id) matches Some(p)
            ==> resolved(env, global, local).project_id == p),
{
}

/// Saving then loading gives back what was saved: a saved configuration,
/// read back as the global file with no environment variables and no local
/// file, resolves to itself.
pub proof fn lemma_save_then_load(partial: PartialModel, existing: PartialModel)
    ensures
        save_outcome(partial, existing) matches Ok(c) ==> resolved(
            empty_partial(),
            as_partial(c),
            empty_partial(),
        ) == c,
{
    let c = merged(partial, existing);
    let r = resolved(empty_partial(), as_partial(c), empty_partial());
    assert(r.api_key =~= c.api_key);
    assert(r.project_id =~= c.project_id);
    assert(DEFAULT_HOST@.len() > 0) by {
        reveal_strlit("https://us.posthog.com");
    }
    assert(r.host =~= c.host);
}

/// Saving is idempotent: saving the same values again over the result of a
/// save gives the same configuration.
pub proof fn lemma_save_idempotent(partial: PartialModel, existing: PartialModel)
    ensures
        save_outcome(partial, existing) matches Ok(c) ==> save_outcome(partial, as_partial(c))
            == Ok::<ConfigModel, ErrorModel>(c),
{
    let c = merged(partial, existing);
    let d = merged(partial, as_partial(c));
    assert(DEFAULT_HOST@.len() > 0) by {
        reveal_strlit("https://us.posthog.com");
    }
    assert(d.api_key =~= c.api_key);
    assert(d.project_id =~= c.project_id);
    assert(d.host =~= c.host);
}

/// Values that a save does not name are kept from the stored config.
pub proof fn lemma_save_keeps_unnamed(partial: PartialModel, existing: PartialModel)
    ensures
        save_outcome(partial, existing) matches Ok(c) ==> {
            &&& present(partial.api_key) is None ==> c.api_key == or_default(
                present(existing.api_key),
                Seq::empty(),
            )
            &&& present(partial.project_id) is None ==> c.project_id == or_default(
                present(existing.project_id),
                Seq::empty(),
            )
            &&& present(partial.host) is None ==> c.host == or_default(
                present(existing.host),
                DEFAULT_HOST@,
            )
        },
{
}

} // verus!
