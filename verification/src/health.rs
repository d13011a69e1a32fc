//! The healthcheck.
//!
//! The check fetches the health path; where nothing is found there, it fetches the root path. It is
//! driven from outside: `start` and `next` say what to fetch, or how the check ended.
use vstd::prelude::*;
use vstd::string::*;
use crate::config::HealthcheckConfig;
use crate::text::{trim_end, trimmed_end};
use crate::uri::{parse_uri, uri_written, view_result};

verus! {

/// Why a healthcheck failed.
#[derive(Debug)]
pub enum HealthcheckError {
    /// The collector answered with a status that is neither a success nor an error of the client.
    UnexpectedStatus { status: u16 },
    /// The URL is not a valid URI.
    InvalidUri { error: String },
}

/// What a `HealthcheckError` says.
#[verifier::ext_equal]
pub enum SpecHealthcheckError {
    UnexpectedStatus { status: u16 },
    InvalidUri { error: Seq<char> },
}

impl View for HealthcheckError {
    type V = SpecHealthcheckError;

    open spec fn view(&self) -> SpecHealthcheckError {
        match self {
            HealthcheckError::UnexpectedStatus { status } =>
                SpecHealthcheckError::UnexpectedStatus { status: *status },
            HealthcheckError::InvalidUri { error } => SpecHealthcheckError::InvalidUri {
                error: error@,
            },
        }
    }
}

/// Which path is being fetched.
#[derive(Clone, Copy, Debug, PartialEq, Eq, Structural)]
pub enum HealthTarget {
    /// The path of the configuration.
    Health,
    /// The root path.
    Root,
}

/// What a healthcheck does next.
#[derive(Debug)]
pub enum HealthStep {
    /// Fetch `uri`, and hand the status to `next`.
    Fetch { target: HealthTarget, uri: String },
    /// The check ended.
    Finished { result: Result<(), HealthcheckError> },
}

/// What a `HealthStep` says.
#[verifier::ext_equal]
pub enum SpecHealthStep {
    Fetch { target: HealthTarget, uri: Seq<char> },
    Finished { result: Result<(), SpecHealthcheckError> },
}

impl View for HealthStep {
    type V = SpecHealthStep;

    open spec fn view(&self) -> SpecHealthStep {
        match self {
            HealthStep::Fetch { target, uri } => SpecHealthStep::Fetch {
                target: *target,
                uri: uri@,
            },
            HealthStep::Finished { result } => SpecHealthStep::Finished {
                result: match result {
                    Ok(()) => Ok(()),
                    Err(error) => Err(error@),
                },
            },
        }
    }
}

/// The URL of a path on an endpoint: the endpoint without the slashes at its end, and the path.
pub open spec fn url_of(endpoint: Seq<char>, path: Seq<char>) -> Seq<char> {
    trimmed_end(endpoint, '/') + path
}

/// The URL of a path on an endpoint.
pub fn health_url(endpoint: &str, path: &str) -> (url: String)
    ensures
        url@ == url_of(endpoint@, path@),
{
    let mut url = trim_end(endpoint, '/').to_owned();
    url.append(path);
    url
}

/// The step that fetches what a parsed URL leads to, or fails where the URL is not valid.
pub open spec fn fetch_step(
    target: HealthTarget,
    uri: Result<Seq<char>, Seq<char>>,
) -> SpecHealthStep {
    match uri {
        Ok(uri) => SpecHealthStep::Fetch { target, uri },
        Err(error) => SpecHealthStep::Finished {
            result: Err(SpecHealthcheckError::InvalidUri { error }),
        },
    }
}

/// The step that fetches what a parsed URL leads to, or fails where the URL is not valid.
pub fn fetch(target: HealthTarget, uri: Result<String, String>) -> (step: HealthStep)
    ensures
        step@ == fetch_step(target, view_result(uri)),
{
    match uri {
        Ok(uri) => HealthStep::Fetch { target, uri },
        Err(error) => HealthStep::Finished { result: Err(HealthcheckError::InvalidUri { error }) },
    }
}

/// The first step of a check: nothing where it is to be skipped, else to fetch the health path.
pub open spec fn first_step(config: HealthcheckConfig, endpoint: Seq<char>) -> SpecHealthStep {
    if config.skip {
        SpecHealthStep::Finished { result: Ok(()) }
    } else {
        fetch_step(HealthTarget::Health, uri_written(url_of(endpoint, config.path@)))
    }
}

/// Starts a check.
pub fn start(config: &HealthcheckConfig, endpoint: &str) -> (step: HealthStep)
    ensures
        step@ == first_step(*config, endpoint@),
{
    if config.skip {
        return HealthStep::Finished { result: Ok(()) };
    }
    let url = health_url(endpoint, config.path.as_str());
    fetch(HealthTarget::Health, parse_uri(url.as_str()))
}

/// Whether a status is a success.
pub open spec fn is_success(status: u16) -> bool {
    200 <= status < 300
}

/// Whether a status is an error of the client.
pub open spec fn is_client_error(status: u16) -> bool {
    400 <= status < 500
}

/// The end of a check by a status: an error of the client too tells that the collector can be
/// reached.
pub open spec fn verdict(status: u16) -> Result<(), SpecHealthcheckError> {
    if is_success(status) || is_client_error(status) {
        Ok(())
    } else {
        Err(SpecHealthcheckError::UnexpectedStatus { status })
    }
}

/// The end of a check by a status.
pub fn judge(status: u16) -> (result: Result<(), HealthcheckError>)
    ensures
        verdict(status) == (match result {
            Ok(()) => Ok::<(), SpecHealthcheckError>(()),
            Err(error) => Err(error@),
        }),
{
    if (200 <= status && status < 300) || (400 <= status && status < 500) {
        Ok(())
    } else {
        Err(HealthcheckError::UnexpectedStatus { status })
    }
}

/// The step that follows a status: where nothing was found at the health path, to fetch the root
/// path; else the end.
pub open spec fn next_step(
    target: HealthTarget,
    endpoint: Seq<char>,
    status: u16,
) -> SpecHealthStep {
    if target == HealthTarget::Health && status == 404 {
        fetch_step(HealthTarget::Root, uri_written(url_of(endpoint, "/"@)))
    } else {
        SpecHealthStep::Finished { result: verdict(status) }
    }
}

/// Goes on with a check after a status came in.
pub fn next(target: HealthTarget, endpoint: &str, status: u16) -> (step: HealthStep)
    ensures
        step@ == next_step(target, endpoint@, status),
{
    if target == HealthTarget::Health && status == 404 {
        let url = health_url(endpoint, "/");
        return fetch(HealthTarget::Root, parse_uri(url.as_str()));
    }
    HealthStep::Finished { result: judge(status) }
}

/// A check fetches at most twice: after the root path was fetched, it ends.
pub proof fn law_check_ends_after_root(endpoint: Seq<char>, status: u16)
    ensures
        next_step(HealthTarget::Root, endpoint, status) is Finished,
        next_step(HealthTarget::Health, endpoint, status) matches SpecHealthStep::Fetch {
            target,
            ..
        } ==> target == HealthTarget::Root,
{
}

/// A check that is to be skipped succeeds without a fetch.
pub proof fn law_skipped_check_succeeds(config: HealthcheckConfig, endpoint: Seq<char>)
    requires
        config.skip,
    ensures
        first_step(config, endpoint) == (SpecHealthStep::Finished { result: Ok(()) }),
{
}

/// A collector where nothing is found at the root path either is healthy.
pub proof fn law_not_found_at_root_is_healthy(endpoint: Seq<char>)
    ensures
        next_step(HealthTarget::Root, endpoint, 404) == (SpecHealthStep::Finished {
            result: Ok(()),
        }),
{
}

}
