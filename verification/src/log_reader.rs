//! Where the Factorio console log is read from.
use vstd::prelude::*;
use crate::config::Config;

verus! {

/// A source of console log lines: a file, or the pods of a Kubernetes namespace.
pub enum LogSource {
    File(String),
    Kube { namespace: String, labels: Option<String> },
}

/// The log source that `cfg` names: the log file when one is set, else the Kubernetes
/// namespace with the label filter.
pub fn log_source(cfg: &Config) -> (r: LogSource)
    requires
        cfg.factorio_log_file is Some || cfg.factorio_kube_namespace is Some,
    ensures
        match cfg.factorio_log_file {
            Some(file) => r == LogSource::File(file),
            None => r == LogSource::Kube {
                namespace: cfg.factorio_kube_namespace->Some_0,
                labels: cfg.factorio_kube_labels,
            },
        },
{
    if let Some(file) = &cfg.factorio_log_file {
        return LogSource::File(file.clone());
    }
    let namespace = match &cfg.factorio_kube_namespace {
        Some(namespace) => namespace.clone(),
        None => String::new(),
    };
    let labels = match &cfg.factorio_kube_labels {
        Some(labels) => Some(labels.clone()),
        None => None,
    };
    LogSource::Kube { namespace, labels }
}

} // verus!
