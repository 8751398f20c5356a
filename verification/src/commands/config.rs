//! `posthog config set` / `posthog config show`

use vstd::prelude::*;
use crate::config::{lemma_save_writes_given, save_global_config, save_outcome, config_result_is, unset, Config, PartialConfig, PartialModel};
use crate::errors::{plain_error, ErrorCode, ErrorModel, PostHogError};
use crate::json::{lemma_view_object, Json, JsonValue};
use crate::text::{chars_of, opt_chars, push_str, string_of_range};

verus! {

/// The values given to `posthog config set`.
#[derive(Debug, Clone)]
pub struct SetArgs {
    /// PostHog personal API key (phx_...)
    pub api_key: Option<String>,
    /// PostHog project ID
    pub project_id: Option<String>,
    /// PostHog host: us.posthog.com (default) or eu.posthog.com
    pub host: Option<String>,
}

/// The values of `config set` as a config source.
pub open spec fn set_args_partial(args: SetArgs) -> PartialModel {
    PartialModel {
        api_key: opt_chars(args.api_key),
        project_id: opt_chars(args.project_id),
        host: opt_chars(args.host),
    }
}

/// The error of a `config set` that names no value.
pub open spec fn nothing_to_set_error() -> ErrorModel {
    plain_error(
        "Provide at least one of --api-key, --project-id, or --host."@,
        ErrorCode::Validation,
    )
}

/// What `config set` does with its arguments, over the stored global config
/// `existing`: it refuses to run without any value, and otherwise saves the
/// given values over the stored ones (see `save_global_config`). The result
/// is the configuration to write and print, or the error to report.
pub fn run_set(args: &SetArgs, existing: &PartialConfig) -> (r: Result<Config, PostHogError>)
    ensures
        args.api_key is None && args.project_id is None && args.host is None ==> (r matches Err(
            e,
        ) && e@ == nothing_to_set_error()),
        !(args.api_key is None && args.project_id is None && args.host is None) ==> config_result_is(
            r,
            save_outcome(set_args_partial(*args), existing@),
        ),
        r matches Ok(c) ==> {
            &&& (args.api_key is Some && args.api_key->0@.len() > 0 ==> c@.api_key
                == args.api_key->0@)
            &&& (args.project_id is Some && args.project_id->0@.len() > 0 ==> c@.project_id
                == args.project_id->0@)
            &&& (args.host is Some && args.host->0@.len() > 0 ==> c@.host == args.host->0@)
            &&& ((args.api_key is None || args.api_key->0@.len() == 0) && !unset(
                existing@.api_key,
            ) ==> c@.api_key == existing@.api_key->0)
            &&& ((args.project_id is None || args.project_id->0@.len() == 0) && !unset(
                existing@.project_id,
            ) ==> c@.project_id == existing@.project_id->0)
            &&& ((args.host is None || args.host->0@.len() == 0) && !unset(existing@.host)
                ==> c@.host == existing@.host->0)
        },
{
    if args.api_key.is_none() && args.project_id.is_none() && args.host.is_none() {
        return Err(
            PostHogError::new(
                "Provide at least one of --api-key, --project-id, or --host.",
                ErrorCode::Validation,
            ),
        );
    }
    proof {
        lemma_save_writes_given(set_args_partial(*args), existing@);
    }
    let partial = PartialConfig {
        api_key: args.api_key.clone(),
        project_id: args.project_id.clone(),
        host: args.host.clone(),
    };
    save_global_config(&partial, existing)
}

/// The masked form of an API key: `(not set)` when empty, else its first 7
/// characters, `...` and its last 4 characters (the whole key stands in for
/// either part when it is shorter).
pub open spec fn masked_key(k: Seq<char>) -> Seq<char> {
    if k.len() == 0 {
        "(not set)"@
    } else {
        let head = if k.len() <= 7 {
            k
        } else {
            k.take(7)
        };
        let tail = if k.len() <= 4 {
            k
        } else {
            k.skip(k.len() - 4)
        };
        head + "..."@ + tail
    }
}

/// How many leading characters of a key of length `n` the mask shows.
pub open spec fn shown_head(n: nat) -> int {
    if n <= 7 {
        n as int
    } else {
        7
    }
}

/// How many trailing characters of a key of length `n` the mask shows.
pub open spec fn shown_tail(n: nat) -> int {
    if n <= 4 {
        n as int
    } else {
        4
    }
}

/// A masked key shows the key's first seven characters and its last four
/// (all of it for either part when it is shorter), with `...` between:
/// its text begins with the key's head, ends with the key's tail, and holds
/// nothing else.
pub proof fn lemma_mask_shows_ends(k: Seq<char>)
    ensures
        k.len() == 0 ==> masked_key(k) == "(not set)"@,
        k.len() > 0 ==> masked_key(k) == k.take(shown_head(k.len())) + "..."@ + k.skip(
            k.len() - shown_tail(k.len()),
        ),
        k.len() > 0 ==> masked_key(k).take(shown_head(k.len())) == k.take(shown_head(k.len())),
        k.len() > 0 ==> masked_key(k).skip(masked_key(k).len() - shown_tail(k.len())) == k.skip(
            k.len() - shown_tail(k.len()),
        ),
        k.len() > 0 ==> masked_key(k).len() == shown_head(k.len()) + 3 + shown_tail(k.len()),
{
    reveal_strlit("...");
    if k.len() > 0 {
        let m = masked_key(k);
        let h = k.take(shown_head(k.len()));
        let t = k.skip(k.len() - shown_tail(k.len()));
        if k.len() <= 7 {
            assert(h =~= k);
        }
        if k.len() <= 4 {
            assert(t =~= k);
        }
        assert(m == h + "..."@ + t);
        assert(m.take(shown_head(k.len())) =~= h);
        assert(m.skip(m.len() - shown_tail(k.len())) =~= t);
    }
}

/// Format key as `phx_xxx...yyyy`. Counts characters, not bytes, so that
/// it cannot fail on multibyte input.
pub fn mask_api_key(key: &str) -> (r: String)
    ensures
        r@ == masked_key(key@),
        key@.len() == 0 ==> r@ == "(not set)"@,
        key@.len() > 0 ==> r@ == key@.take(shown_head(key@.len())) + "..."@ + key@.skip(
            key@.len() - shown_tail(key@.len()),
        ),
{
    proof {
        lemma_mask_shows_ends(key@);
    }
    let cs = chars_of(key);
    let n: usize = cs.len();
    if n == 0 {
        return "(not set)".to_owned();
    }
    let head_end: usize = if n <= 7 {
        n
    } else {
        7
    };
    let tail_start: usize = if n <= 4 {
        0
    } else {
        n - 4
    };
    let mut out = string_of_range(&cs, 0, head_end);
    push_str(&mut out, "...");
    let tail = string_of_range(&cs, tail_start, n);
    push_str(&mut out, tail.as_str());
    proof {
        assert(cs@.subrange(0, head_end as int) =~= (if n <= 7 {
            key@
        } else {
            key@.take(7)
        }));
        assert(cs@.subrange(tail_start as int, n as int) =~= (if n <= 4 {
            key@
        } else {
            key@.skip(n - 4)
        }));
    }
    out
}

/// The object that `config show` prints: the masked API key, the project ID
/// and the host, in that order.
pub open spec fn show_model(c: Config) -> Json {
    Json::Object {
        keys: seq!["apiKey"@, "projectId"@, "host"@],
        values: seq![
            Json::Str(masked_key(c.api_key@)),
            Json::Str(c.project_id@),
            Json::Str(c.host@),
        ],
    }
}

/// The object that `config show` prints for the effective configuration.
pub fn show_display(c: &Config) -> (r: JsonValue)
    ensures
        r@ == show_model(*c),
{
    let mut entries: Vec<(String, JsonValue)> = Vec::new();
    entries.push(("apiKey".to_owned(), JsonValue::Str(mask_api_key(c.api_key.as_str()))));
    entries.push(("projectId".to_owned(), JsonValue::Str(c.project_id.clone())));
    entries.push(("host".to_owned(), JsonValue::Str(c.host.clone())));
    let r = JsonValue::Object(entries);
    proof {
        lemma_view_object(r);
        assert(r@->keys =~= show_model(*c)->keys);
        assert(r@->values =~= show_model(*c)->values);
    }
    r
}

} // verus!
