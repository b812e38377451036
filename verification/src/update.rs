//! The configuration update endpoint: decode the form body, check the
//! submitted credentials against the stored pairs, and build the new
//! configuration from the submitted fields, falling back to the current
//! value for each field that is absent (or, for the port, unreadable).

use vstd::prelude::*;

use crate::config::Config;
use crate::config::ConfigV;
use crate::credentials::lookup;
use crate::credentials::lookup_last;
use crate::text::pairs_view;
use crate::text::parse_u16;
use crate::text::spec_parse_u16;
use crate::text::str_eq;

verus! {

use vstd::string::*;

/// The key-value pairs that decoding an `application/x-www-form-urlencoded`
/// body yields, in order of appearance.
pub uninterp spec fn form_pairs_of(body: Seq<char>) -> Seq<(Seq<char>, Seq<char>)>;

/// Relies on url::form_urlencoded::parse: splits the body at `&` and `=`,
/// replaces `+` with space and percent-decodes each name and value. The
/// result depends on the body text alone, and an empty body yields no
/// pairs.
#[verifier::external_body]
fn decode_form(body: &str) -> (r: Vec<(String, String)>)
    ensures
        pairs_view(r@) == form_pairs_of(body@),
        body@.len() == 0 ==> r@.len() == 0,
{
    url::form_urlencoded::parse(body.as_bytes()).into_owned().collect()
}

/// Whether the submitted form grants the update: it carries `username` and
/// `password` fields, and each equals the entry of the same name among the
/// stored credential pairs.
pub open spec fn spec_authorized(
    params: Seq<(Seq<char>, Seq<char>)>,
    creds: Seq<(Seq<char>, Seq<char>)>,
) -> bool {
    match (lookup_last(params, "username"@), lookup_last(params, "password"@)) {
        (Some(u), Some(p)) => lookup_last(creds, "username"@) == Some(u) && lookup_last(
            creds,
            "password"@,
        ) == Some(p),
        _ => false,
    }
}

/// The configuration a granted update writes: each submitted field replaces
/// the current one; an absent field keeps the current value, and so does a
/// port value that does not read as a decimal 16-bit number.
pub open spec fn spec_new_config(params: Seq<(Seq<char>, Seq<char>)>, cur: ConfigV) -> ConfigV {
    ConfigV {
        host: match lookup_last(params, "host"@) {
            Some(h) => h,
            None => cur.host,
        },
        port: match lookup_last(params, "port"@) {
            Some(p) => match spec_parse_u16(p) {
                Some(v) => v,
                None => cur.port,
            },
            None => cur.port,
        },
        static_dir: match lookup_last(params, "static_dir"@) {
            Some(d) => d,
            None => cur.static_dir,
        },
    }
}

/// What an update request does: the new configuration when the form grants
/// it, nothing when it does not.
pub open spec fn spec_apply_update(
    params: Seq<(Seq<char>, Seq<char>)>,
    creds: Seq<(Seq<char>, Seq<char>)>,
    cur: ConfigV,
) -> Option<ConfigV> {
    if spec_authorized(params, creds) {
        Some(spec_new_config(params, cur))
    } else {
        None
    }
}

/// Applies decoded form pairs to the current configuration, as
/// [`spec_apply_update`] says.
pub fn apply_update(
    params: &Vec<(String, String)>,
    creds: &Vec<(String, String)>,
    current: &Config,
) -> (r: Option<Config>)
    ensures
        match r {
            Some(c) => spec_apply_update(pairs_view(params@), pairs_view(creds@), current@)
                == Some(c@),
            None => spec_apply_update(pairs_view(params@), pairs_view(creds@), current@) is None,
        },
{
    let username = match lookup(params, "username") {
        Some(u) => u,
        None => {
            return None;
        },
    };
    let password = match lookup(params, "password") {
        Some(p) => p,
        None => {
            return None;
        },
    };
    let cred_user_ok = match lookup(creds, "username") {
        Some(u) => str_eq(u.as_str(), username.as_str()),
        None => false,
    };
    let cred_pass_ok = match lookup(creds, "password") {
        Some(p) => str_eq(p.as_str(), password.as_str()),
        None => false,
    };
    if !cred_user_ok || !cred_pass_ok {
        return None;
    }
    let host = match lookup(params, "host") {
        Some(h) => h,
        None => current.host.clone(),
    };
    let port = match lookup(params, "port") {
        Some(p) => match parse_u16(p.as_str()) {
            Some(v) => v,
            None => current.port,
        },
        None => current.port,
    };
    let static_dir = match lookup(params, "static_dir") {
        Some(d) => d,
        None => current.static_dir.clone(),
    };
    Some(Config { host, port, static_dir })
}

/// Decodes an update request body and applies it, as [`spec_apply_update`]
/// over the decoded pairs says.
pub fn process_update(body: &str, creds: &Vec<(String, String)>, current: &Config) -> (r: Option<
    Config,
>)
    ensures
        match r {
            Some(c) => spec_apply_update(form_pairs_of(body@), pairs_view(creds@), current@)
                == Some(c@),
            None => spec_apply_update(form_pairs_of(body@), pairs_view(creds@), current@) is None,
        },
{
    let params = decode_form(body);
    apply_update(&params, creds, current)
}

/// The outcome of an update request: the new configuration to persist, if
/// the update was granted, and the page file the response serves — the home
/// page on a granted update, the missing page otherwise.
pub struct UpdateOutcome {
    pub new_config: Option<Config>,
    pub page: String,
}

/// Handles the whole update route: decodes the body, checks the submitted
/// credentials, and names the page to serve.
pub fn handle_update(body: &str, creds: &Vec<(String, String)>, current: &Config) -> (r:
    UpdateOutcome)
    ensures
        match r.new_config {
            Some(c) => spec_apply_update(form_pairs_of(body@), pairs_view(creds@), current@)
                == Some(c@) && r.page@ == "home.html"@,
            None => spec_apply_update(form_pairs_of(body@), pairs_view(creds@), current@) is None
                && r.page@ == "404.html"@,
        },
{
    match process_update(body, creds, current) {
        Some(c) => UpdateOutcome { new_config: Some(c), page: "home.html".to_owned() },
        None => UpdateOutcome { new_config: None, page: "404.html".to_owned() },
    }
}

/// An update the form does not grant — wrong or missing credentials —
/// builds no configuration, so nothing is written and the settings file
/// stays as it was.
pub proof fn lemma_refused_update_writes_nothing(
    params: Seq<(Seq<char>, Seq<char>)>,
    creds: Seq<(Seq<char>, Seq<char>)>,
    cur: ConfigV,
)
    requires
        !spec_authorized(params, creds),
    ensures
        spec_apply_update(params, creds, cur) is None,
{
}

/// A granted update persists: loading the settings text it writes yields
/// exactly the configuration it built, as long as that configuration is
/// renderable (no submitted value smuggles a newline into the file).
pub proof fn lemma_granted_update_persists(
    params: Seq<(Seq<char>, Seq<char>)>,
    creds: Seq<(Seq<char>, Seq<char>)>,
    cur: ConfigV,
)
    requires
        spec_apply_update(params, creds, cur) is Some,
        (spec_apply_update(params, creds, cur)->Some_0).wf(),
    ensures
        crate::config::spec_load_config(
            Some(crate::config::spec_render_settings(spec_apply_update(params, creds, cur)->Some_0)),
        ) == spec_apply_update(params, creds, cur)->Some_0,
{
    crate::config::lemma_settings_round_trip(spec_apply_update(params, creds, cur)->Some_0);
}

/// Granting the same update twice writes the same configuration as granting
/// it once: the update is idempotent.
pub proof fn lemma_update_idempotent(
    params: Seq<(Seq<char>, Seq<char>)>,
    creds: Seq<(Seq<char>, Seq<char>)>,
    cur: ConfigV,
)
    requires
        spec_apply_update(params, creds, cur) is Some,
    ensures
        spec_apply_update(params, creds, spec_apply_update(params, creds, cur)->Some_0)
            == spec_apply_update(params, creds, cur),
{
    let n = spec_new_config(params, cur);
    assert(spec_new_config(params, n) == n);
}

} // verus!
