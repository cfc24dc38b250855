use klogrs::kubernetes::client::{
    determine_pod_status, extract_pod_info, label_selector, log_args, PodRecord, PodStatusRecord,
};
use klogrs::kubernetes::pod::{PodInfo, PodStatus};

fn status_with_phase(phase: &str) -> PodStatusRecord {
    PodStatusRecord {
        phase: Some(phase.to_string()),
        waiting_reasons: vec![],
    }
}

#[test]
fn test_extract_pod_info() {
    // Create a test Pod
    let pod = PodRecord {
        name: Some("test-pod".to_string()),
        namespace: Some("test-namespace".to_string()),
        containers: Some(vec!["main-container".to_string()]),
        status: Some(status_with_phase("Running")),
    };

    let pod_info = extract_pod_info(pod).unwrap();
    assert_eq!(pod_info.name, "test-pod");
    assert_eq!(pod_info.namespace, "test-namespace");
    assert_eq!(pod_info.container_name, "main-container");
    assert!(matches!(pod_info.status, PodStatus::Running));
}

#[test]
fn test_determine_pod_status() {
    // Test Running status
    let status = status_with_phase("Running");
    assert!(matches!(
        determine_pod_status(&status),
        PodStatus::Running
    ));

    // Test Terminated status
    let status = status_with_phase("Succeeded");
    assert!(matches!(
        determine_pod_status(&status),
        PodStatus::Terminated
    ));

    // Test Unknown status
    let status = status_with_phase("Unknown");
    assert!(matches!(
        determine_pod_status(&status),
        PodStatus::Unknown
    ));
}

#[test]
fn pod_status_from_phase_and_waiting_reasons() {
    assert_eq!(determine_pod_status(&status_with_phase("Pending")), PodStatus::Pending);
    assert_eq!(determine_pod_status(&status_with_phase("Failed")), PodStatus::Terminated);
    assert_eq!(determine_pod_status(&status_with_phase("running")), PodStatus::Unknown);
    let crashing = PodStatusRecord {
        phase: None,
        waiting_reasons: vec![
            None,
            Some("ImagePullBackOff".to_string()),
            Some("CrashLoopBackOff".to_string()),
        ],
    };
    assert_eq!(determine_pod_status(&crashing), PodStatus::CrashLoopBackOff);
    let waiting = PodStatusRecord {
        phase: Some("Odd".to_string()),
        waiting_reasons: vec![Some("ImagePullBackOff".to_string()), None],
    };
    assert_eq!(determine_pod_status(&waiting), PodStatus::Unknown);
    // the phase goes before the containers
    let pending = PodStatusRecord {
        phase: Some("Pending".to_string()),
        waiting_reasons: vec![Some("CrashLoopBackOff".to_string())],
    };
    assert_eq!(determine_pod_status(&pending), PodStatus::Pending);
}

#[test]
fn pod_info_needs_a_name_and_a_container() {
    let no_name = PodRecord {
        name: None,
        namespace: None,
        containers: Some(vec!["c".to_string()]),
        status: None,
    };
    assert!(extract_pod_info(no_name).is_none());
    let no_spec = PodRecord {
        name: Some("p".to_string()),
        namespace: None,
        containers: None,
        status: None,
    };
    assert!(extract_pod_info(no_spec).is_none());
    let no_container = PodRecord {
        name: Some("p".to_string()),
        namespace: None,
        containers: Some(vec![]),
        status: None,
    };
    assert!(extract_pod_info(no_container).is_none());
    let bare = PodRecord {
        name: Some("p".to_string()),
        namespace: None,
        containers: Some(vec!["first".to_string(), "second".to_string()]),
        status: None,
    };
    let info = extract_pod_info(bare).unwrap();
    assert_eq!(info.namespace, "default");
    assert_eq!(info.container_name, "first");
    assert_eq!(info.status, PodStatus::Unknown);
}

#[test]
fn label_selector_joins_the_labels() {
    assert_eq!(label_selector(&vec![]), None);
    assert_eq!(
        label_selector(&vec![("app".to_string(), "nginx".to_string())]),
        Some("app=nginx".to_string())
    );
    assert_eq!(
        label_selector(&vec![
            ("app".to_string(), "nginx".to_string()),
            ("tier".to_string(), "web".to_string()),
            ("x".to_string(), "".to_string()),
        ]),
        Some("app=nginx,tier=web,x=".to_string())
    );
}

#[test]
fn log_args_for_a_pod() {
    let pod = PodInfo {
        name: "web-1".to_string(),
        namespace: "prod".to_string(),
        status: PodStatus::Running,
        container_name: "main".to_string(),
    };
    assert_eq!(
        log_args(&pod, false, None),
        vec!["logs", "web-1", "-n", "prod", "-c", "main", "--timestamps=true"]
    );
    assert_eq!(
        log_args(&pod, true, Some(50)),
        vec!["logs", "web-1", "-n", "prod", "-c", "main", "--timestamps=true", "-f", "--tail=50"]
    );
    assert_eq!(log_args(&pod, false, Some(0)).last().unwrap(), "--tail=0");
    assert_eq!(
        log_args(&pod, false, Some(usize::MAX)).last().unwrap(),
        &format!("--tail={}", usize::MAX)
    );
}
