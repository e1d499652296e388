//! Device command planning, dispatch classification and recovery policy,
//! and the coverage channel with its bitmap accumulation.

use intent_fuzz::adb_device::AdbDevice;
use intent_fuzz::adb_device::DispatchOutcome;
use intent_fuzz::adb_device::DispatchStep;
use intent_fuzz::adb_device::ExitStatusKind;
use intent_fuzz::adb_device::classify_dispatch;
use intent_fuzz::adb_device::dispatch_step;
use intent_fuzz::adb_device::exhaustion_count;
use intent_fuzz::adb_device::restart_app_plan;
use intent_fuzz::adb_device::scan_crash_log;
use intent_fuzz::adb_executor::AdbExecutor;
use intent_fuzz::adb_executor::ProvisionAction;
use intent_fuzz::adb_executor::dispatch_timeout_secs;
use intent_fuzz::intent_input::DirectInput;
use intent_fuzz::intent_input::ExtraInput;
use intent_fuzz::intent_input::ExtraType;
use intent_fuzz::intent_input::IntentInput;
use intent_fuzz::intent_input::MimeType;
use intent_fuzz::intent_input::ReceiverType;
use intent_fuzz::intent_input::URIInput;
use intent_fuzz::intent_input::URIScheme;
use intent_fuzz::intent_input::URISuffix;
use intent_fuzz::socket_coverage_observer::COVERAGE_MAP_SIZE;
use intent_fuzz::socket_coverage_observer::CoverageChannel;
use intent_fuzz::socket_coverage_observer::arm_retry_plan;
use intent_fuzz::socket_coverage_observer::create_coverage_map_observer;

fn device() -> AdbDevice {
    AdbDevice::new("adb")
}

#[test]
fn classify_delivered_notice_wins() {
    let r = classify_dispatch(
        ExitStatusKind::Other,
        "blah intent has been delivered to currently running top-most instance. blah",
        true,
    );
    assert!(matches!(r, DispatchOutcome::Delivered));
}

#[test]
fn classify_clean_exit_silent_stderr() {
    let r = classify_dispatch(ExitStatusKind::Exited(0), "", false);
    assert!(matches!(r, DispatchOutcome::Delivered));
}

#[test]
fn classify_missing_activity() {
    let r = classify_dispatch(
        ExitStatusKind::Exited(0),
        "Error: Activity class {x} does not exist.",
        false,
    );
    assert!(matches!(r, DispatchOutcome::ActivityMissing));
    // the missing-activity rule needs a clean exit
    let r2 = classify_dispatch(
        ExitStatusKind::Exited(1),
        "Error: Activity class {x} does not exist.",
        false,
    );
    assert!(matches!(r2, DispatchOutcome::Failure));
}

#[test]
fn classify_resource_exhaustion() {
    let r = classify_dispatch(
        ExitStatusKind::Exited(1),
        "android.view.Surface$OutOfResourcesException",
        false,
    );
    assert!(matches!(r, DispatchOutcome::ResourceExhaustion));
    let r2 = classify_dispatch(
        ExitStatusKind::Exited(0),
        "Warning: Activity not started, its current task has been brought to the front",
        false,
    );
    assert!(matches!(r2, DispatchOutcome::ResourceExhaustion));
}

#[test]
fn classify_timeout_is_resource_exhaustion() {
    let r = classify_dispatch(ExitStatusKind::Other, "", true);
    assert!(matches!(r, DispatchOutcome::ResourceExhaustion));
}

#[test]
fn classify_plain_failure() {
    let r = classify_dispatch(ExitStatusKind::Exited(1), "some other error", false);
    assert!(matches!(r, DispatchOutcome::Failure));
}

#[test]
fn broadcast_timeout_escalates_on_second_event() {
    // a broadcast dispatch has a twenty-second budget
    assert_eq!(dispatch_timeout_secs(ReceiverType::BroadcastReceiver), 20);
    assert_eq!(dispatch_timeout_secs(ReceiverType::Activity), 5);
    let outcome = classify_dispatch(ExitStatusKind::Other, "", true);
    let first = dispatch_step(outcome, 1);
    assert!(matches!(
        first,
        DispatchStep::Retry { restart_app: true, restart_device: false }
    ));
    let second = dispatch_step(outcome, 2);
    assert!(matches!(
        second,
        DispatchStep::Retry { restart_app: true, restart_device: true }
    ));
}

#[test]
fn dispatch_step_terminal_cases() {
    assert!(matches!(
        dispatch_step(DispatchOutcome::Delivered, 1),
        DispatchStep::Delivered
    ));
    assert!(matches!(
        dispatch_step(DispatchOutcome::ActivityMissing, 1),
        DispatchStep::TimedOut
    ));
    assert!(matches!(
        dispatch_step(DispatchOutcome::Failure, 3),
        DispatchStep::Retry { restart_app: false, restart_device: false }
    ));
}

#[test]
fn restart_plan_escalation() {
    assert_eq!(restart_app_plan(1), (false, 1));
    assert_eq!(restart_app_plan(2), (true, 0));
    assert_eq!(restart_app_plan(3), (true, 1));
}

#[test]
fn exhaustion_tally_counts_consecutive_events() {
    let mut tally = 0;
    tally = exhaustion_count(DispatchOutcome::ResourceExhaustion, tally);
    assert_eq!(tally, 1);
    tally = exhaustion_count(DispatchOutcome::ResourceExhaustion, tally);
    assert_eq!(tally, 2);
    tally = exhaustion_count(DispatchOutcome::Failure, tally);
    assert_eq!(tally, 0);
}

#[test]
fn arm_retry_plan_escalates_and_waits() {
    let first = arm_retry_plan(false, 1);
    assert!(!first.report_crash);
    assert!(!first.restart_device);
    assert_eq!(first.sleep_secs, 2);
    let second = arm_retry_plan(true, 2);
    assert!(second.report_crash);
    assert!(second.restart_device);
    assert_eq!(second.sleep_secs, 3);
}

#[test]
fn create_file_commands() {
    let d = device();
    let (touch, write_cmd) = d.create_file("/data/local/tmp/extra_input_0.png", &vec![0xab, 0x01]);
    assert_eq!(touch, "touch /data/local/tmp/extra_input_0.png");
    assert_eq!(
        write_cmd,
        "echo -n -e \"\\xab\\x01\" > /data/local/tmp/extra_input_0.png"
    );
}

#[test]
fn register_content_command() {
    let d = device();
    let (cmd, bytes) = d.register_content("content://x/y", vec![1, 2, 3]);
    assert_eq!(cmd, "content write --uri content://x/y");
    assert_eq!(bytes, vec![1, 2, 3]);
}

#[test]
fn permission_and_debug_commands() {
    let d = device();
    assert_eq!(
        d.grant_uri_permissions("com.app"),
        "am broadcast -n 'org.gts3.jnifuzz.contentprovider/org.gts3.jnifuzz.contentprovider.UriPermissionManager' -a org.gts3.jnifuzz.sampleintent.GRANT_PERMISSION --es android.intent.extra.PACKAGE_NAME 'com.app'"
    );
    assert_eq!(d.set_debug_app("com.app"), "am set-debug-app --persistent com.app");
}

#[test]
fn app_lifecycle_commands() {
    let d = device();
    assert_eq!(
        d.resolve_activity_command("com.app"),
        "cmd package resolve-activity --brief com.app | tail -n 1"
    );
    assert_eq!(
        d.attach_agent_command("com.app", "com.app/.Main"),
        "am start-activity --attach-agent /data/user/0/com.app/code_cache/startup_agents/libcoverage_instrumenting_agent.so com.app/.Main"
    );
    assert_eq!(d.start_app_monkey("com.app"), "monkey --pct-syskeys 0 -p com.app 1");
    assert_eq!(d.pidof_command("com.app"), "pidof -s com.app");
    assert_eq!(d.logcat_pid_command("4711"), "logcat --pid=4711");
    let (dis, en) = d.stop_app_commands("com.app");
    assert_eq!(dis, "pm disable com.app");
    assert_eq!(en, "pm enable com.app");
    assert_eq!(d.logcat_crash_command(17, 5), "logcat -b crash -t 17.005");
    assert_eq!(d.logcat_crash_command(17, 250), "logcat -b crash -t 17.250");
}

#[test]
fn main_activity_validation() {
    let d = device();
    assert_eq!(d.validate_main_activity("  com.app/.Main\n"), Some("com.app/.Main".to_string()));
    assert_eq!(d.validate_main_activity("no activity found for x"), None);
    assert_eq!(d.validate_pid("  4711\n"), Some("4711".to_string()));
    assert_eq!(d.validate_pid("  \n"), None);
}

#[test]
fn idle_line_detection() {
    let d = device();
    assert!(d.is_idle_line(
        "I ActivityThread: Reporting idle of ActivityRecord{x} to the activity manager"
    ));
    assert!(!d.is_idle_line("I ActivityManager: starting activity"));
}

#[test]
fn native_hooking_toggle_and_check() {
    let d = device();
    let (cmd_on, restart_on) = d.native_hooking_toggle("com.app", true, false);
    assert_eq!(cmd_on, "touch /data/user/0/com.app/.hook_native");
    assert!(restart_on);
    let (cmd_off, restart_off) = d.native_hooking_toggle("com.app", false, false);
    assert_eq!(cmd_off, "rm -f /data/user/0/com.app/.hook_native");
    assert!(!restart_off);
    assert!(d.is_native_hooking_enabled(
        "com.app",
        &Some("/data/user/0/com.app/.hook_native\n".to_string())
    ));
    assert!(!d.is_native_hooking_enabled("com.app", &Some("ls: no such file".to_string())));
    assert!(!d.is_native_hooking_enabled("com.app", &None));
}

#[test]
fn crash_log_scan() {
    let lines = vec![
        "--------- beginning of crash".to_string(),
        "F DEBUG : Fatal signal 11 (SIGSEGV) in tid 7 (com.app)".to_string(),
        "F DEBUG : #01 pc 0000 /data/libcoverage_instrumenting_agent.so".to_string(),
    ];
    assert_eq!(scan_crash_log(&lines, "com.app"), (true, true));
    let other = vec![
        "F DEBUG : Fatal signal 11 (SIGSEGV) in tid 7 (com.other)".to_string(),
        "F DEBUG : #01 pc 0000 /data/libcoverage_instrumenting_agent.so".to_string(),
    ];
    assert_eq!(scan_crash_log(&other, "com.app"), (false, false));
    let no_agent = vec![
        "F DEBUG : Fatal signal 6 (SIGABRT) in tid 7 (com.app)".to_string(),
    ];
    assert_eq!(scan_crash_log(&no_agent, "com.app"), (true, false));
}

fn input_with_payloads() -> IntentInput {
    IntentInput {
        receiver_type: ReceiverType::Activity,
        component_package: "p".to_string(),
        component_class: ".C".to_string(),
        action: "A".to_string(),
        category: String::new(),
        data: Some(URIInput {
            scheme: URIScheme::File,
            suffix: URISuffix::PNG,
            content: vec![0xaa; 10],
        }),
        mime_type: MimeType::TextPlain,
        flags: 0,
        extras: vec![
            ExtraInput {
                key: "c".to_string(),
                value: ExtraType::URI(URIInput {
                    scheme: URIScheme::Content,
                    suffix: URISuffix::TXT,
                    content: vec![1],
                }),
            },
            ExtraInput {
                key: "b".to_string(),
                value: ExtraType::Boolean(DirectInput { buffer: vec![1] }),
            },
            ExtraInput {
                key: "o".to_string(),
                value: ExtraType::URI(URIInput {
                    scheme: URIScheme::Other,
                    suffix: URISuffix::TXT,
                    content: vec![2],
                }),
            },
        ],
    }
}

#[test]
fn provisioning_plan_orders_and_skips() {
    let ex = AdbExecutor::new(device());
    let input = input_with_payloads();
    let plan = ex.provisioning_plan(&input);
    // the content extra at slot 1, then the data payload at slot 0; the
    // inline URI needs nothing
    assert_eq!(plan.len(), 2);
    match &plan[0] {
        ProvisionAction::RegisterContent { uri, content } => {
            assert_eq!(
                uri,
                "content://org.gts3.jnifuzz.contentprovider.provider/external_files/extra_input_1.txt"
            );
            assert_eq!(content, &vec![1]);
        },
        _ => panic!("wrong action"),
    }
    match &plan[1] {
        ProvisionAction::CreateFile { path, content } => {
            assert_eq!(path, "/data/local/tmp/extra_input_0.png");
            assert_eq!(content, &vec![0xaa; 10]);
        },
        _ => panic!("wrong action"),
    }
}

#[test]
fn file_payload_provisioning_commands() {
    let d = device();
    let ex = AdbExecutor::new(device());
    let mut input = input_with_payloads();
    input.extras.clear();
    let plan = ex.provisioning_plan(&input);
    assert_eq!(plan.len(), 1);
    match &plan[0] {
        ProvisionAction::CreateFile { path, content } => {
            let (touch, write_cmd) = d.create_file(path, content);
            assert_eq!(touch, "touch /data/local/tmp/extra_input_0.png");
            assert!(write_cmd.starts_with("echo -n -e \"\\xaa"));
            assert!(write_cmd.ends_with("\" > /data/local/tmp/extra_input_0.png"));
        },
        _ => panic!("wrong action"),
    }
    assert!(input.shell_command().contains(" -d 'file:///data/local/tmp/extra_input_0.png'"));
}

fn observer(use_coverage: bool) -> intent_fuzz::socket_coverage_observer::SocketCoverageObserver {
    create_coverage_map_observer(
        device(),
        "com.app".to_string(),
        "localhost:6249".to_string(),
        false,
        true,
        use_coverage,
    )
}

#[test]
fn channel_preamble_is_first_and_two_bytes() {
    let (c, bytes) = CoverageChannel::open(true);
    assert_eq!(bytes, b"ss".to_vec());
    assert!(!c.armed);
    let (_c2, bytes2) = CoverageChannel::open(false);
    assert_eq!(bytes2, b"se".to_vec());
}

#[test]
fn channel_arm_and_dump_protocol() {
    let (mut c, _) = CoverageChannel::open(false);
    let msgs = c.arm_messages(false, "cafe");
    assert_eq!(msgs.len(), 1);
    assert_eq!(msgs[0], b"r".to_vec());
    assert!(c.confirm_arm(b'd'));
    assert!(c.armed);
    let dump = c.dump_request();
    assert_eq!(dump, b"d".to_vec());
    assert!(!c.armed);
    assert_eq!(c.expected_dump_len(), COVERAGE_MAP_SIZE);
}

#[test]
fn channel_arm_rejects_other_answer() {
    let (mut c, _) = CoverageChannel::open(true);
    let _ = c.arm_messages(false, "cafe");
    assert!(!c.confirm_arm(b'x'));
    assert!(!c.armed);
}

#[test]
fn channel_trace_message() {
    let (mut c, _) = CoverageChannel::open(false);
    let msgs = c.arm_messages(true, "0123abcd");
    assert_eq!(msgs.len(), 2);
    assert_eq!(msgs[0], b"tstrace_0123abcd.txt\n".to_vec());
    assert_eq!(msgs[1], b"r".to_vec());
}

#[test]
fn short_read_leaves_maps_untouched() {
    let mut o = observer(true);
    let mut full = vec![0u8; COVERAGE_MAP_SIZE];
    full[3] = 9;
    assert_eq!(o.apply_coverage(&full), Some(1));
    let short = vec![7u8; 100];
    assert_eq!(o.apply_coverage(&short), None);
    assert_eq!(o.overall_coverage[3], 9);
    assert_eq!(o.base_observer[3], 9);
    assert_eq!(o.last_overall_coverage, 1);
}

#[test]
fn overall_coverage_accumulates_monotonically() {
    let mut o = observer(true);
    let mut first = vec![0u8; COVERAGE_MAP_SIZE];
    first[0] = 5;
    first[10] = 1;
    assert_eq!(o.apply_coverage(&first), Some(2));
    let mut second = vec![0u8; COVERAGE_MAP_SIZE];
    second[10] = 3;
    second[20] = 8;
    assert_eq!(o.apply_coverage(&second), Some(3));
    // covered indices stay covered
    assert_eq!(o.overall_coverage[0], 5);
    assert_eq!(o.overall_coverage[10], 3);
    assert_eq!(o.overall_coverage[20], 8);
    // no growth, no report
    assert_eq!(o.apply_coverage(&second), None);
    assert_eq!(o.last_overall_coverage, 3);
    // a lower hit count never lowers a recorded index
    let mut third = vec![0u8; COVERAGE_MAP_SIZE];
    third[0] = 2;
    assert_eq!(o.apply_coverage(&third), None);
    assert_eq!(o.overall_coverage[0], 5);
}

#[test]
fn base_map_respects_coverage_switch() {
    let mut o = observer(false);
    let mut buf = vec![0u8; COVERAGE_MAP_SIZE];
    buf[1] = 4;
    assert_eq!(o.apply_coverage(&buf), Some(1));
    assert_eq!(o.base_observer[1], 0);
    assert_eq!(o.overall_coverage[1], 4);
}

#[test]
fn base_map_reset() {
    let mut o = observer(true);
    let mut buf = vec![0u8; COVERAGE_MAP_SIZE];
    buf[2] = 2;
    o.apply_coverage(&buf);
    o.reset_base();
    assert_eq!(o.base_observer[2], 0);
    assert_eq!(o.overall_coverage[2], 2);
}

#[test]
fn coverage_log_lines() {
    let o = observer(true);
    assert_eq!(o.initial_coverage_line(), "0: 0\n");
    assert_eq!(o.coverage_line(128, 42), "128: 42\n");
}
