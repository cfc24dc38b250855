use klogrs::kubernetes::pod::{PodInfo, PodStatus};

#[test]
fn test_pod_status_display() {
    assert_eq!(PodStatus::Running.to_string(), "Running");
    assert_eq!(PodStatus::Pending.to_string(), "Pending");
    assert_eq!(
        PodStatus::CrashLoopBackOff.to_string(),
        "CrashLoopBackOff"
    );
    assert_eq!(PodStatus::Terminated.to_string(), "Terminated");
    assert_eq!(PodStatus::Unknown.to_string(), "Unknown");
}

#[test]
fn test_can_get_logs() {
    let running_pod = PodInfo {
        name: "test-pod".to_string(),
        namespace: "default".to_string(),
        status: PodStatus::Running,
        container_name: "main".to_string(),
    };
    assert!(running_pod.can_get_logs());

    let crash_pod = PodInfo {
        name: "test-pod".to_string(),
        namespace: "default".to_string(),
        status: PodStatus::CrashLoopBackOff,
        container_name: "main".to_string(),
    };
    assert!(crash_pod.can_get_logs());

    let terminated_pod = PodInfo {
        name: "test-pod".to_string(),
        namespace: "default".to_string(),
        status: PodStatus::Terminated,
        container_name: "main".to_string(),
    };
    assert!(!terminated_pod.can_get_logs());
}

#[test]
fn test_short_name() {
    let short_pod = PodInfo {
        name: "short".to_string(),
        namespace: "default".to_string(),
        status: PodStatus::Running,
        container_name: "main".to_string(),
    };
    assert_eq!(short_pod.short_name(), "short");

    let long_pod = PodInfo {
        name: "very-long-pod-name".to_string(),
        namespace: "default".to_string(),
        status: PodStatus::Running,
        container_name: "main".to_string(),
    };
    assert_eq!(long_pod.short_name(), "very-lon");
}
