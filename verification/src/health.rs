//! Whether the backend can be reached.
use crate::config::Config;
use crate::json::{new_object, object_contents, set_text, JsonObject, JsonView};
use crate::proxy::{is_success, success_status};
use crate::text::text_view;
use vstd::prelude::*;
use vstd::string::*;

verus! {

/// A `GET` that shows whether the backend is there.
pub struct Probe {
    pub url: String,
    pub bearer: Option<String>,
}

/// The answer to a health check.
pub struct HealthReport {
    pub status: u16,
    pub body: JsonObject,
}

/// The two probes of a health check. One that succeeds is enough.
pub fn probes(config: &Config) -> (r: (Probe, Probe))
    ensures
        r.0.url@ == config@.backend_url + "/health"@,
        r.1.url@ == config@.backend_url + "/v1/models"@,
        text_view(r.0.bearer) == config@.backend_api_key,
        text_view(r.1.bearer) == config@.backend_api_key,
{
    (
        Probe {
            url: config.backend_url.clone().concat("/health"),
            bearer: config.backend_api_key.clone(),
        },
        Probe {
            url: config.backend_url.clone().concat("/v1/models"),
            bearer: config.backend_api_key.clone(),
        },
    )
}

/// Whether a probe got a response with a status of success.
pub open spec fn reached(probe: Option<u16>) -> bool {
    probe matches Some(status) && success_status(status as nat)
}

/// The answer to a health check, from the statuses that its probes got, if any.
pub fn health_check(health: Option<u16>, models: Option<u16>) -> (r: HealthReport)
    ensures
        r.status == 200 <==> (health matches Some(s) && 200 <= s < 300) || (models matches Some(s)
            && 200 <= s < 300),
        reached(health) || reached(models) ==> r.status == 200 && object_contents(r.body)
            == Map::empty().insert("status"@, JsonView::Text("ok"@)),
        !reached(health) && !reached(models) ==> r.status == 503 && object_contents(r.body)
            == Map::empty().insert("status"@, JsonView::Text("error"@)).insert(
            "message"@,
            JsonView::Text("Backend unreachable"@),
        ),
{
    let health_ok: bool = match health {
        Some(status) => is_success(status),
        None => false,
    };
    let models_ok: bool = match models {
        Some(status) => is_success(status),
        None => false,
    };
    let mut body = new_object();
    if health_ok || models_ok {
        set_text(&mut body, "status", "ok");
        HealthReport { status: 200, body }
    } else {
        set_text(&mut body, "status", "error");
        set_text(&mut body, "message", "Backend unreachable");
        HealthReport { status: 503, body }
    }
}

/// A backend is there where a probe was answered with a status from 200 to 299, and not
/// where it was answered with another or not at all.
pub proof fn law_success_is_reached(status: u16)
    ensures
        reached(Some(status)) <==> 200 <= status && status < 300,
        !reached(None),
{
}

} // verus!
