use serde_json::Value;
use tts_bridge::config::{Config, Environment};
use tts_bridge::health::{health_check, probes};

#[test]
fn one_success_is_enough() {
    for (health, models) in [(Some(200), None), (None, Some(299)), (Some(503), Some(204))] {
        let report = health_check(health, models);
        assert_eq!(report.status, 200);
        assert_eq!(Value::Object(report.body).to_string(), "{\"status\":\"ok\"}");
    }
}

#[test]
fn no_success_is_unavailable() {
    for (health, models) in [(None, None), (Some(404), Some(401)), (Some(301), None)] {
        let report = health_check(health, models);
        assert_eq!(report.status, 503);
        assert_eq!(
            Value::Object(report.body).to_string(),
            "{\"message\":\"Backend unreachable\",\"status\":\"error\"}"
        );
    }
}

#[test]
fn probes_go_to_both_endpoints() {
    let config = Config::from_env(Environment {
        backend_url: Some("http://b".to_string()),
        backend_api_key: Some("k".to_string()),
        ..Environment::default()
    })
    .unwrap();
    let (health, models) = probes(&config);
    assert_eq!(health.url, "http://b/health");
    assert_eq!(models.url, "http://b/v1/models");
    assert_eq!(health.bearer.as_deref(), Some("k"));
    assert_eq!(models.bearer.as_deref(), Some("k"));
}
