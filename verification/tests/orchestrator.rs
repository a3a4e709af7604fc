use ssh_action::config::InputConfig;
use ssh_action::pre_local::{pre_local_outcome, split_shell_cmd};
use ssh_action::session::{base_args, main_run_args, post_run_args, probe_args, step, Action, SessionState, StageKind};

fn sample_config() -> InputConfig {
    InputConfig {
        ssh_bin: "ssh".to_string(),
        args: Some(vec!["-p".to_string(), "2222".to_string()]),
        host: "example.com".to_string(),
        pre_exit_cmd: vec!["exit".to_string()],
        pre_sleep: 0,
        pre_timeout: 0,
        run: "uptime".to_string(),
        allow_run_failure: false,
        post_run: None,
        allow_post_run_failure: true,
    }
}

/// Drive the machine to termination, answering the probe with
/// `probe_ok` and each run, in order, with the next entry of `run_oks`.
/// Returns every issued action in order.
fn drive(cfg: &InputConfig, probe_ok: bool, run_oks: &[bool]) -> Vec<Action> {
    let mut state = SessionState::SleepStage;
    let mut event: Option<bool> = None;
    let mut runs = 0;
    let mut log: Vec<Action> = Vec::new();
    for _guard in 0..32 {
        let (next, action) = step(cfg, state, event);
        state = next;
        event = None;
        match action {
            Some(Action::Probe { .. }) => {
                event = Some(probe_ok);
                log.push(action.unwrap());
            }
            Some(Action::Run { .. }) => {
                event = Some(run_oks[runs]);
                runs += 1;
                log.push(action.unwrap());
            }
            Some(Action::Exit { .. }) => {
                log.push(action.unwrap());
                return log;
            }
            Some(a) => log.push(a),
            None => {}
        }
    }
    panic!("the machine did not terminate");
}

#[test]
fn base_args_are_extra_args_then_host() {
    let cfg = sample_config();
    assert_eq!(
        base_args(&cfg),
        vec!["-p".to_string(), "2222".to_string(), "example.com".to_string()]
    );
}

#[test]
fn probe_args_append_exit_command() {
    let mut cfg = sample_config();
    cfg.pre_exit_cmd = vec!["exit".to_string(), "0".to_string()];
    assert_eq!(
        probe_args(&cfg),
        vec![
            "-p".to_string(),
            "2222".to_string(),
            "example.com".to_string(),
            "exit".to_string(),
            "0".to_string(),
        ]
    );
}

#[test]
fn main_args_append_run_token_when_non_empty() {
    let cfg = sample_config();
    assert_eq!(
        main_run_args(&cfg),
        vec![
            "-p".to_string(),
            "2222".to_string(),
            "example.com".to_string(),
            "uptime".to_string(),
        ]
    );
    let mut bare = sample_config();
    bare.run = "".to_string();
    assert_eq!(
        main_run_args(&bare),
        vec!["-p".to_string(), "2222".to_string(), "example.com".to_string()]
    );
    let mut blank = sample_config();
    blank.run = "   ".to_string();
    assert_eq!(
        main_run_args(&blank),
        vec!["-p".to_string(), "2222".to_string(), "example.com".to_string()]
    );
}

#[test]
fn stage_args_do_not_leak_across_stages() {
    let mut cfg = sample_config();
    cfg.post_run = Some("poweroff".to_string());
    let main_args = main_run_args(&cfg);
    let post_args = post_run_args(&cfg);
    assert!(!main_args.contains(&"poweroff".to_string()));
    assert!(!post_args.contains(&"uptime".to_string()));
}

#[test]
fn successful_run_reports_true_and_exits_zero() {
    let cfg = sample_config();
    let log = drive(&cfg, true, &[true]);
    assert_eq!(
        log,
        vec![
            Action::Run {
                program: "ssh".to_string(),
                args: vec![
                    "-p".to_string(),
                    "2222".to_string(),
                    "example.com".to_string(),
                    "uptime".to_string(),
                ],
            },
            Action::Report { stage: StageKind::MainRun, success: true },
            Action::Exit { code: 0 },
        ]
    );
}

#[test]
fn sleep_and_probe_run_only_when_configured() {
    let mut cfg = sample_config();
    cfg.pre_sleep = 2;
    cfg.pre_timeout = 30;
    let log = drive(&cfg, true, &[true]);
    assert_eq!(log.len(), 5);
    assert_eq!(log[0], Action::Sleep { seconds: 2 });
    assert_eq!(
        log[1],
        Action::Probe {
            program: "ssh".to_string(),
            args: vec![
                "-p".to_string(),
                "2222".to_string(),
                "example.com".to_string(),
                "exit".to_string(),
            ],
            timeout_seconds: 30,
        }
    );
    assert!(matches!(log[2], Action::Run { .. }));
    assert_eq!(log[3], Action::Report { stage: StageKind::MainRun, success: true });
    assert_eq!(log[4], Action::Exit { code: 0 });
}

#[test]
fn probe_timeout_is_fatal_and_skips_all_runs() {
    let mut cfg = sample_config();
    cfg.pre_timeout = 10;
    cfg.post_run = Some("cleanup".to_string());
    let log = drive(&cfg, false, &[]);
    assert!(matches!(log[0], Action::Probe { .. }));
    assert_eq!(log[1], Action::Exit { code: 1 });
    assert_eq!(log.len(), 2);
    assert!(log.iter().all(|a| !matches!(a, Action::Run { .. })));
    assert!(log.iter().all(|a| !matches!(a, Action::Report { .. })));
}

#[test]
fn main_failure_not_allowed_reports_then_exits_one() {
    let cfg = sample_config();
    let log = drive(&cfg, true, &[false]);
    assert!(matches!(log[0], Action::Run { .. }));
    assert_eq!(log[1], Action::Report { stage: StageKind::MainRun, success: false });
    assert_eq!(log[2], Action::Exit { code: 1 });
    assert_eq!(log.len(), 3);
}

#[test]
fn main_failure_allowed_still_runs_post() {
    let mut cfg = sample_config();
    cfg.allow_run_failure = true;
    cfg.post_run = Some("cleanup".to_string());
    let log = drive(&cfg, true, &[false, true]);
    assert!(matches!(log[0], Action::Run { .. }));
    assert_eq!(log[1], Action::Report { stage: StageKind::MainRun, success: false });
    assert_eq!(
        log[2],
        Action::Run {
            program: "ssh".to_string(),
            args: vec![
                "-p".to_string(),
                "2222".to_string(),
                "example.com".to_string(),
                "cleanup".to_string(),
            ],
        }
    );
    assert_eq!(log[3], Action::Report { stage: StageKind::PostRun, success: true });
    assert_eq!(log[4], Action::Exit { code: 0 });
}

#[test]
fn post_failure_not_allowed_reports_then_exits_one() {
    let mut cfg = sample_config();
    cfg.allow_run_failure = true;
    cfg.post_run = Some("cleanup".to_string());
    cfg.allow_post_run_failure = false;
    let log = drive(&cfg, true, &[true, false]);
    assert_eq!(log[1], Action::Report { stage: StageKind::MainRun, success: true });
    assert_eq!(log[3], Action::Report { stage: StageKind::PostRun, success: false });
    assert_eq!(log[4], Action::Exit { code: 1 });
}

#[test]
fn post_failure_allowed_exits_zero() {
    let mut cfg = sample_config();
    cfg.post_run = Some("cleanup".to_string());
    let log = drive(&cfg, true, &[true, false]);
    assert_eq!(log[3], Action::Report { stage: StageKind::PostRun, success: false });
    assert_eq!(log[4], Action::Exit { code: 0 });
}

#[test]
fn split_shell_cmd_splits_program_and_args() {
    assert_eq!(
        split_shell_cmd("ls -la -h"),
        Some(("ls".to_string(), vec!["-la".to_string(), "-h".to_string()]))
    );
    assert_eq!(
        split_shell_cmd("echo 'hello world'"),
        Some(("echo".to_string(), vec!["hello world".to_string()]))
    );
    assert_eq!(split_shell_cmd(" lone "), Some(("lone".to_string(), vec![])));
    assert_eq!(split_shell_cmd(""), None);
    assert_eq!(split_shell_cmd("   "), None);
}

#[test]
fn pre_local_policy_decides_exit() {
    assert_eq!(pre_local_outcome(true, true), (true, None));
    assert_eq!(pre_local_outcome(true, false), (true, None));
    assert_eq!(pre_local_outcome(false, true), (false, None));
    assert_eq!(pre_local_outcome(false, false), (false, Some(1)));
}
