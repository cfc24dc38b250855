//! What the library makes of the cluster's description of a pod, and what
//! it asks of the cluster.

use crate::kubernetes::pod::{PodInfo, PodStatus};
use crate::utils::text::{decimal, decimal_string, joined, str_eq, texts};
use vstd::prelude::*;
use vstd::string::StringExecFns;

verus! {

/// The state of a pod as the cluster describes it: its phase, and for each
/// of its containers the reason for which it waits, if it waits and a
/// reason is given.
pub struct PodStatusRecord {
    /// The phase of the pod.
    pub phase: Option<String>,
    /// Why each container waits.
    pub waiting_reasons: Vec<Option<String>>,
}

/// A pod as the cluster describes it, as far as the library reads it.
pub struct PodRecord {
    /// The name of the pod.
    pub name: Option<String>,
    /// The namespace of the pod.
    pub namespace: Option<String>,
    /// The state of the pod.
    pub status: Option<PodStatusRecord>,
    /// The names of the containers of the pod, where its specification is
    /// there.
    pub containers: Option<Vec<String>>,
}

/// Whether one of the containers waits because it keeps crashing.
pub open spec fn has_crash_loop(reasons: Seq<Option<String>>) -> bool {
    exists|i: int|
        0 <= i < reasons.len() && (#[trigger] reasons[i] matches Some(r) && r@
            == "CrashLoopBackOff"@)
}

/// The state that the phase of a pod stands for, if it stands for one.
pub open spec fn status_of_phase(phase: Option<String>) -> Option<PodStatus> {
    match phase {
        Some(p) => if p@ == "Running"@ {
            Some(PodStatus::Running)
        } else if p@ == "Pending"@ {
            Some(PodStatus::Pending)
        } else if p@ == "Succeeded"@ || p@ == "Failed"@ {
            Some(PodStatus::Terminated)
        } else {
            None
        },
        None => None,
    }
}

/// The state of a pod: the one that its phase stands for; else that of a
/// pod that keeps crashing, where a container waits for that reason; else
/// unknown.
pub open spec fn status_of(status: PodStatusRecord) -> PodStatus {
    match status_of_phase(status.phase) {
        Some(s) => s,
        None => if has_crash_loop(status.waiting_reasons@) {
            PodStatus::CrashLoopBackOff
        } else {
            PodStatus::Unknown
        },
    }
}

/// Determine pod status from PodStatus
pub fn determine_pod_status(status: &PodStatusRecord) -> (s: PodStatus)
    ensures
        s == status_of(*status),
{
    match &status.phase {
        Some(phase) => {
            if str_eq(phase.as_str(), "Running") {
                return PodStatus::Running;
            } else if str_eq(phase.as_str(), "Pending") {
                return PodStatus::Pending;
            } else if str_eq(phase.as_str(), "Succeeded") || str_eq(phase.as_str(), "Failed") {
                return PodStatus::Terminated;
            }
        },
        None => {},
    }
    let mut i: usize = 0;
    while i < status.waiting_reasons.len()
        invariant
            i <= status.waiting_reasons@.len(),
            status_of_phase(status.phase) is None,
            forall|j: int|
                0 <= j < i ==> !(#[trigger] status.waiting_reasons@[j] matches Some(r) && r@
                    == "CrashLoopBackOff"@),
        decreases status.waiting_reasons@.len() - i,
    {
        match &status.waiting_reasons[i] {
            Some(reason) => {
                if str_eq(reason.as_str(), "CrashLoopBackOff") {
                    return PodStatus::CrashLoopBackOff;
                }
            },
            None => {},
        }
        i += 1;
    }
    PodStatus::Unknown
}

/// What `extract_pod_info` makes of the description of a pod.
pub open spec fn is_info_of(info: Option<PodInfo>, pod: PodRecord) -> bool {
    if pod.name is Some && pod.containers is Some && pod.containers->0@.len() > 0 {
        &&& info matches Some(i)
        &&& i.name@ == pod.name->0@
        &&& i.namespace@ == match pod.namespace {
            Some(n) => n@,
            None => "default"@,
        }
        &&& i.status == match pod.status {
            Some(s) => status_of(s),
            None => PodStatus::Unknown,
        }
        &&& i.container_name@ == pod.containers->0@[0]@
    } else {
        info is None
    }
}

/// Extract pod info from a Pod object: none for a pod without a name or
/// without a container. The namespace is `default` where none is given,
/// and the container is the first.
pub fn extract_pod_info(pod: PodRecord) -> (info: Option<PodInfo>)
    ensures
        is_info_of(info, pod),
{
    let name = match pod.name {
        Some(n) => n,
        None => {
            return None;
        },
    };
    let namespace = match pod.namespace {
        Some(n) => n,
        None => "default".to_owned(),
    };
    let status = match &pod.status {
        Some(s) => determine_pod_status(s),
        None => PodStatus::Unknown,
    };
    let container_name = match &pod.containers {
        Some(c) => {
            if c.len() == 0 {
                return None;
            }
            c[0].clone()
        },
        None => {
            return None;
        },
    };
    Some(PodInfo { name, namespace, status, container_name })
}

/// The texts `key=value` of the labels.
pub open spec fn label_texts(labels: Seq<(String, String)>) -> Seq<Seq<char>> {
    labels.map_values(|l: (String, String)| l.0@ + "="@ + l.1@)
}

/// The selector that finds the pods with all the labels: `key=value` for
/// each, with commas between them. Without a label there is none.
pub fn label_selector(labels: &Vec<(String, String)>) -> (selector: Option<String>)
    ensures
        selector is Some <==> labels@.len() > 0,
        selector matches Some(s) ==> s@ == joined(label_texts(labels@), ","@),
{
    if labels.len() == 0 {
        return None;
    }
    let mut s = String::new();
    let mut i: usize = 0;
    let ghost all = label_texts(labels@);
    while i < labels.len()
        invariant
            i <= labels@.len(),
            all == label_texts(labels@),
            s@ == joined(all.take(i as int), ","@),
        decreases labels@.len() - i,
    {
        proof {
            assert(all.take(i + 1).drop_last() == all.take(i as int));
        }
        if i > 0 {
            s = s.concat(",");
        }
        s = s.concat(labels[i].0.as_str()).concat("=").concat(labels[i].1.as_str());
        i += 1;
    }
    assert(all.take(labels@.len() as int) == all);
    Some(s)
}

/// The arguments with which the logs of a pod are asked for.
pub open spec fn log_args_of(pod: PodInfo, follow: bool, tail: Option<usize>) -> Seq<Seq<char>> {
    seq![
        "logs"@,
        pod.name@,
        "-n"@,
        pod.namespace@,
        "-c"@,
        pod.container_name@,
        "--timestamps=true"@,
    ] + (if follow {
        seq!["-f"@]
    } else {
        Seq::empty()
    }) + (match tail {
        Some(n) => seq!["--tail="@ + decimal(n as nat)],
        None => Seq::empty(),
    })
}

/// The arguments with which the logs of a pod are asked for: its name,
/// namespace and container, with timestamps; `-f` to follow the logs; and
/// the number of lines to start from, where one is given.
pub fn log_args(pod: &PodInfo, follow: bool, tail: Option<usize>) -> (args: Vec<String>)
    ensures
        texts(args@) == log_args_of(*pod, follow, tail),
{
    let mut args: Vec<String> = Vec::new();
    args.push("logs".to_owned());
    args.push(pod.name.clone());
    args.push("-n".to_owned());
    args.push(pod.namespace.clone());
    args.push("-c".to_owned());
    args.push(pod.container_name.clone());
    args.push("--timestamps=true".to_owned());
    if follow {
        args.push("-f".to_owned());
    }
    match tail {
        Some(n) => {
            args.push("--tail=".to_owned().concat(decimal_string(n).as_str()));
        },
        None => {},
    }
    args
}

} // verus!
