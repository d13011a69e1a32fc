use opentelemetry_sink::config::HealthcheckConfig;
use opentelemetry_sink::health::{
    health_url, judge, next, start, HealthStep, HealthTarget, HealthcheckError,
};

fn config(path: &str, skip: bool) -> HealthcheckConfig {
    HealthcheckConfig { path: path.to_string(), skip }
}

fn fetched(step: HealthStep) -> (HealthTarget, String) {
    match step {
        HealthStep::Fetch { target, uri } => (target, uri),
        HealthStep::Finished { .. } => panic!("Expected a fetch"),
    }
}

fn finished(step: HealthStep) -> Result<(), HealthcheckError> {
    match step {
        HealthStep::Finished { result } => result,
        HealthStep::Fetch { .. } => panic!("Expected the end"),
    }
}

#[test]
fn skipped_check_fetches_nothing() {
    assert!(finished(start(&config("/health", true), "not a uri")).is_ok());
}

#[test]
fn health_path_comes_first() {
    let step = start(&config("/healthz", false), "http://localhost:4318//");
    assert_eq!(
        fetched(step),
        (HealthTarget::Health, "http://localhost:4318/healthz".to_string())
    );
    assert_eq!(health_url("http://h/a/", "b"), "http://h/ab");
}

#[test]
fn root_path_follows_where_nothing_is_found() {
    let step = next(HealthTarget::Health, "http://localhost:4318", 404);
    assert_eq!(fetched(step), (HealthTarget::Root, "http://localhost:4318/".to_string()));
    assert!(finished(next(HealthTarget::Root, "http://localhost:4318", 404)).is_ok());
}

#[test]
fn successes_and_client_errors_are_healthy() {
    for status in [200, 204, 299, 400, 401, 405, 499] {
        assert!(finished(next(HealthTarget::Health, "http://h", status)).is_ok());
        assert!(judge(status).is_ok());
    }
    for status in [100, 199, 300, 302, 399, 500, 503, 600, 999] {
        let error = finished(next(HealthTarget::Root, "http://h", status)).unwrap_err();
        assert!(matches!(error, HealthcheckError::UnexpectedStatus { status: s } if s == status));
        assert!(judge(status).is_err());
    }
}

#[test]
fn urls_that_are_no_uris_end_the_check() {
    let error = finished(start(&config("/a b", false), "http://h")).unwrap_err();
    assert!(matches!(
        &error,
        HealthcheckError::InvalidUri { error } if error == "invalid uri character"
    ));
    assert!(finished(next(HealthTarget::Health, "http://h h", 404)).is_err());
}
