//! Installing the metrics recorder.

use vstd::prelude::*;
use metrics_exporter_prometheus::{BuildError, PrometheusBuilder, PrometheusHandle};

verus! {

/// The handle that renders the recorder's metrics, carried through unread.
#[verifier::external_type_specification]
#[verifier::external_body]
pub struct ExPrometheusHandle(PrometheusHandle);

/// The error type of the recorder's builder, carried through unread.
#[verifier::external_type_specification]
#[verifier::external_body]
pub struct ExBuildError(BuildError);

/// Calls `PrometheusBuilder::new` and `PrometheusBuilder::install_recorder`,
/// which make a recorder with the default settings and set it as the
/// recorder of the process.
///
/// Trusted, and nothing is claimed: whether the call succeeds depends on
/// whether the process already has a recorder.
#[verifier::external_body]
fn install_recorder() -> Result<PrometheusHandle, BuildError> {
    PrometheusBuilder::new().install_recorder()
}

/// Installs the Prometheus recorder of the process and hands back the handle
/// that renders its metrics. `None` where no recorder could be installed,
/// as when the process already has one.
pub fn init_metrics() -> Option<PrometheusHandle> {
    // Whether a recorder gets installed is the process's matter; what is
    // made of the builder's answer is stated by `recorder_handle`.
    let outcome = install_recorder();
    recorder_handle(outcome)
}

/// What is made of the builder's answer: the handle where the recorder was
/// installed, nothing where the builder refused.
pub open spec fn handle_of(outcome: Result<PrometheusHandle, BuildError>) -> Option<
    PrometheusHandle,
> {
    match outcome {
        Ok(handle) => Some(handle),
        Err(_) => None,
    }
}

/// Takes the handle out of the builder's answer. The builder's error is
/// dropped: the process either has its recorder or does not start.
pub fn recorder_handle(outcome: Result<PrometheusHandle, BuildError>) -> (handle: Option<
    PrometheusHandle,
>)
    ensures
        handle == handle_of(outcome),
{
    match outcome {
        Ok(handle) => Some(handle),
        Err(_) => None,
    }
}

} // verus!
