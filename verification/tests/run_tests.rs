use klogrs::cli::Args;
use klogrs::kubernetes::log::LogEntry;
use klogrs::kubernetes::pod::{PodInfo, PodStatus};
use klogrs::log_processor::filter::{Filter, FilterError};
use klogrs::render::Mode;
use klogrs::run::{plan, select_active, RunError};

fn pod(name: &str, status: PodStatus) -> PodInfo {
    PodInfo {
        name: name.to_string(),
        namespace: "default".to_string(),
        status,
        container_name: "main".to_string(),
    }
}

#[test]
fn options_for_a_deployment() {
    let args = Args::for_deployment("nginx".to_string());
    assert_eq!(args.namespace, "default");
    assert_eq!(args.deployment, "nginx");
    assert_eq!(args.follow, false);
    assert_eq!(args.grep, None);
    assert_eq!(args.tail, None);
    assert_eq!(args.level, None);
    assert_eq!(args.and, false);
    assert_eq!(args.no_highlight, false);
}

#[test]
fn only_pods_with_logs_are_read() {
    let pods = vec![
        pod("a", PodStatus::Running),
        pod("b", PodStatus::Pending),
        pod("c", PodStatus::CrashLoopBackOff),
        pod("d", PodStatus::Terminated),
        pod("e", PodStatus::Unknown),
        pod("f", PodStatus::Running),
    ];
    let names: Vec<String> = select_active(pods, "nginx")
        .unwrap()
        .iter()
        .map(|p| p.name.clone())
        .collect();
    assert_eq!(names, vec!["a", "c", "f"]);
}

#[test]
fn a_run_without_active_pods_fails() {
    let pods = vec![pod("b", PodStatus::Pending), pod("d", PodStatus::Terminated)];
    let error = select_active(pods, "nginx").err().unwrap();
    assert_eq!(error, RunError::NoActivePods("nginx".to_string()));
    assert_eq!(error.message(), "No active pods found for deployment nginx");
    assert!(select_active(vec![], "x").is_err());
}

#[test]
fn plan_sets_up_filter_formatter_and_mode() {
    let mut args = Args::for_deployment("nginx".to_string());
    args.grep = Some("disk&full".to_string());
    args.level = Some("error".to_string());
    args.tail = Some(3);
    let mut made = plan(&args).unwrap();
    assert_eq!(made.mode, Mode::Tail(3));
    let filter = made.filter.unwrap();
    assert_eq!(
        filter.description(),
        "((grep(\"disk\") AND grep(\"full\")) AND (level(ERROR)))"
    );
    let entry = LogEntry::parse("web".to_string(), "ts [ERROR] disk full".to_string());
    assert!(filter.apply(&entry));
    let layout = made.formatter.layout(&entry).unwrap();
    assert_eq!(layout.prefix, Some("[web]".to_string()));
    assert_eq!(layout.spans, vec![(8, 12), (13, 17)]);
}

#[test]
fn plan_without_highlighting_sets_nothing_off() {
    let mut args = Args::for_deployment("nginx".to_string());
    args.grep = Some("disk".to_string());
    args.no_highlight = true;
    args.follow = true;
    args.tail = Some(3);
    let mut made = plan(&args).unwrap();
    assert_eq!(made.mode, Mode::Stream);
    let entry = LogEntry::parse("web".to_string(), "ts disk full".to_string());
    assert!(made.formatter.layout(&entry).unwrap().spans.is_empty());
}

#[test]
fn plan_fails_on_an_invalid_level() {
    let mut args = Args::for_deployment("nginx".to_string());
    args.level = Some("loud".to_string());
    let error = plan(&args).err().unwrap();
    assert_eq!(
        error,
        RunError::Filter(FilterError::InvalidLevel("loud".to_string()))
    );
    assert_eq!(error.message(), "Invalid log level: loud");
}
