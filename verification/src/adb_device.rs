//! The device control channel, as verified planning and decision logic: the
//! exact shell commands the driver issues, the classification of a dispatch
//! outcome, the retry and recovery policy, and the crash-log scan. The
//! unverified shell around the library runs the commands and hands the
//! outputs back.

use vstd::prelude::*;
use vstd::string::StringExecFns;
use crate::text::dec_digits;
use crate::text::is_space_char;
use crate::text::seq_contains_sub;
use crate::text::spec_trim;
use crate::text::str_contains;
use crate::text::trim;
use crate::text::u64_text;
use crate::util::hex_escape;
use crate::util::encode_hex;
use crate::intent_input::views_of;

verus! {

/// How many times one dispatch is attempted before it fails for good.
pub const DISPATCH_MAX_ATTEMPTS: u64 = 5;

/// How many times stopping or restarting the app is attempted.
pub const RESTART_MAX_ATTEMPTS: u64 = 5;

/// The handle for one device: the command used to reach its shell.
#[derive(Clone, Debug)]
pub struct AdbDevice {
    pub adb_command: String,
}

/// What one finished dispatch means, by the decisive rules in order.
#[derive(Clone, Copy, PartialEq, Eq, Structural, Debug)]
pub enum DispatchOutcome {
    /// The intent reached the app.
    Delivered,
    /// The target activity does not exist: a hard failure for this input.
    ActivityMissing,
    /// The device ran out of resources (or the dispatch timed out):
    /// recovered by an app restart, escalating to a device restart.
    ResourceExhaustion,
    /// Any other failure: plainly retried.
    Failure,
}

/// What the driver does after one classified attempt.
#[derive(Clone, Copy, PartialEq, Eq, Structural, Debug)]
pub enum DispatchStep {
    /// Dispatch succeeded: stop retrying.
    Delivered,
    /// The input cannot be delivered at all: surface a timeout.
    TimedOut,
    /// Try again, after the named recovery.
    Retry { restart_app: bool, restart_device: bool },
}

/// The exit status of the dispatch subprocess, as far as the rules read it.
#[derive(Clone, Copy, PartialEq, Eq, Structural, Debug)]
pub enum ExitStatusKind {
    Exited(u32),
    Other,
}

/// The dispatch outcome by the decisive rules, in order: a delivered-to-top
/// notice wins; a clean exit with silent stderr is a success; a missing
/// activity class on a clean exit is a hard failure; resource-exhaustion
/// notices, and a wall-clock timeout, ask for recovery; anything else is a
/// plain failure.
pub open spec fn spec_classify_dispatch(
    exit: ExitStatusKind,
    stderr: Seq<char>,
    timed_out: bool,
) -> DispatchOutcome {
    if seq_contains_sub(
        stderr,
        ("intent has been delivered to currently running top-most instance.")@,
    ) {
        DispatchOutcome::Delivered
    } else if exit == ExitStatusKind::Exited(0u32) && stderr.len() == 0 {
        DispatchOutcome::Delivered
    } else if exit == ExitStatusKind::Exited(0u32) && seq_contains_sub(stderr, ("Activity class")@)
        && seq_contains_sub(stderr, ("does not exist")@) {
        DispatchOutcome::ActivityMissing
    } else if seq_contains_sub(stderr, ("OutOfResourcesException")@) || seq_contains_sub(
        stderr,
        ("Activity not started, its current task has been brought to the front")@,
    ) {
        DispatchOutcome::ResourceExhaustion
    } else if timed_out {
        DispatchOutcome::ResourceExhaustion
    } else {
        DispatchOutcome::Failure
    }
}

/// Classifies one finished dispatch attempt from its exit status, its
/// standard-error text and whether the wall clock expired.
pub fn classify_dispatch(exit: ExitStatusKind, stderr: &str, timed_out: bool) -> (r:
    DispatchOutcome)
    ensures
        r == spec_classify_dispatch(exit, stderr@, timed_out),
{
    if str_contains(stderr, "intent has been delivered to currently running top-most instance.") {
        return DispatchOutcome::Delivered;
    }
    let exited_zero = match exit {
        ExitStatusKind::Exited(c) => c == 0,
        ExitStatusKind::Other => false,
    };
    if exited_zero && stderr.is_empty() {
        return DispatchOutcome::Delivered;
    }
    if exited_zero && str_contains(stderr, "Activity class") && str_contains(
        stderr,
        "does not exist",
    ) {
        return DispatchOutcome::ActivityMissing;
    }
    if str_contains(stderr, "OutOfResourcesException") || str_contains(
        stderr,
        "Activity not started, its current task has been brought to the front",
    ) {
        return DispatchOutcome::ResourceExhaustion;
    }
    if timed_out {
        return DispatchOutcome::ResourceExhaustion;
    }
    DispatchOutcome::Failure
}

/// What follows one classified attempt: success and a missing activity end
/// the dispatch; resource exhaustion asks for an app restart, preceded by a
/// device restart from the second consecutive exhaustion on; any other
/// failure is retried bare.
pub fn dispatch_step(outcome: DispatchOutcome, consecutive_exhaustions: u64) -> (r: DispatchStep)
    ensures
        outcome == DispatchOutcome::Delivered ==> r == DispatchStep::Delivered,
        outcome == DispatchOutcome::ActivityMissing ==> r == DispatchStep::TimedOut,
        outcome == DispatchOutcome::ResourceExhaustion ==> r == (DispatchStep::Retry {
            restart_app: true,
            restart_device: consecutive_exhaustions >= 2,
        }),
        outcome == DispatchOutcome::Failure ==> r == (DispatchStep::Retry {
            restart_app: false,
            restart_device: false,
        }),
{
    match outcome {
        DispatchOutcome::Delivered => DispatchStep::Delivered,
        DispatchOutcome::ActivityMissing => DispatchStep::TimedOut,
        DispatchOutcome::ResourceExhaustion => DispatchStep::Retry {
            restart_app: true,
            restart_device: consecutive_exhaustions >= 2,
        },
        DispatchOutcome::Failure => DispatchStep::Retry {
            restart_app: false,
            restart_device: false,
        },
    }
}

/// The consecutive-exhaustion tally after one classified attempt: resource
/// exhaustion extends the run, any other outcome breaks it.
pub fn exhaustion_count(outcome: DispatchOutcome, previous: u64) -> (r: u64)
    requires
        previous < u64::MAX,
    ensures
        r == (if outcome == DispatchOutcome::ResourceExhaustion {
            previous + 1
        } else {
            0
        }),
{
    match outcome {
        DispatchOutcome::ResourceExhaustion => previous + 1,
        _ => 0,
    }
}

/// The path of the flag file that selects native hooking for an app.
pub open spec fn spec_hook_native_path(app: Seq<char>) -> Seq<char> {
    ("/data/user/0/")@ + app + ("/.hook_native")@
}

/// The restart plan for app-restart attempt `attempt` (counted from one):
/// from the second attempt on the device is restarted first, and the settle
/// sleep alternates between one second and none.
pub fn restart_app_plan(attempt: u64) -> (r: (bool, u64))
    ensures
        r.0 == (attempt >= 2),
        r.1 == attempt % 2,
{
    (attempt >= 2, attempt % 2)
}

impl AdbDevice {
    pub fn new(adb_command: &str) -> (r: AdbDevice)
        ensures
            r.adb_command@ == adb_command@,
    {
        AdbDevice { adb_command: adb_command.to_owned() }
    }

    /// The two shell commands that materialize a file on the device: touch
    /// it, then write the hex-escaped bytes through `echo -n -e`.
    pub fn create_file(&self, filename: &str, content: &Vec<u8>) -> (r: (String, String))
        ensures
            r.0@ == ("touch ")@ + filename@,
            r.1@ == ("echo -n -e \"")@ + hex_escape(content@) + ("\" > ")@ + filename@,
    {
        let mut touch = String::from_str("touch ");
        touch.append(filename);
        let mut write_cmd = String::from_str("echo -n -e \"");
        write_cmd.append(encode_hex(content.as_slice()).as_str());
        write_cmd.append("\" > ");
        write_cmd.append(filename);
        (touch, write_cmd)
    }

    /// The shell command that registers content-provider bytes, and the
    /// bytes to hand that command on its standard input.
    pub fn register_content(&self, uri: &str, content: Vec<u8>) -> (r: (String, Vec<u8>))
        ensures
            r.0@ == ("content write --uri ")@ + uri@,
            r.1@ == content@,
    {
        let mut cmd = String::from_str("content write --uri ");
        cmd.append(uri);
        (cmd, content)
    }

    /// The broadcast that grants the target package read access to the
    /// content provider's URIs.
    pub fn grant_uri_permissions(&self, package: &str) -> (r: String)
        ensures
            r@ == (
            "am broadcast -n 'org.gts3.jnifuzz.contentprovider/org.gts3.jnifuzz.contentprovider.UriPermissionManager' -a org.gts3.jnifuzz.sampleintent.GRANT_PERMISSION --es android.intent.extra.PACKAGE_NAME '")@
                + package@ + ("'")@,
    {
        let mut cmd = String::from_str(
            "am broadcast -n 'org.gts3.jnifuzz.contentprovider/org.gts3.jnifuzz.contentprovider.UriPermissionManager' -a org.gts3.jnifuzz.sampleintent.GRANT_PERMISSION --es android.intent.extra.PACKAGE_NAME '",
        );
        cmd.append(package);
        cmd.append("'");
        cmd
    }

    /// The command that marks the package as the persistent debug app.
    pub fn set_debug_app(&self, package: &str) -> (r: String)
        ensures
            r@ == ("am set-debug-app --persistent ")@ + package@,
    {
        let mut cmd = String::from_str("am set-debug-app --persistent ");
        cmd.append(package);
        cmd
    }

    /// Whether the hooking flag file is present, read off the output of
    /// listing it: enabled exactly when the trimmed output names the file.
    pub fn is_native_hooking_enabled(&self, app_name: &str, ls_output: &Option<String>) -> (r:
        bool)
        ensures
            r == match ls_output {
                Option::Some(o) => spec_trim(o@) == spec_hook_native_path(app_name@),
                Option::None => false,
            },
    {
        let filename = self.hook_native_path(app_name);
        match ls_output {
            Some(o) => {
                let t = trim(o.as_str());
                let eq = t == filename;
                eq
            },
            None => false,
        }
    }

    /// The path of the hooking flag file for the app.
    pub fn hook_native_path(&self, app_name: &str) -> (r: String)
        ensures
            r@ == spec_hook_native_path(app_name@),
    {
        let mut p = String::from_str("/data/user/0/");
        p.append(app_name);
        p.append("/.hook_native");
        p
    }

    /// The command that creates or removes the hooking flag file, and
    /// whether the app must be restarted afterwards: only when the flag
    /// actually changed.
    pub fn native_hooking_toggle(&self, app_name: &str, enable: bool, was_enabled: bool) -> (r: (
        String,
        bool,
    ))
        ensures
            enable ==> r.0@ == ("touch ")@ + spec_hook_native_path(app_name@),
            !enable ==> r.0@ == ("rm -f ")@ + spec_hook_native_path(app_name@),
            r.1 == (was_enabled != enable),
    {
        let path = self.hook_native_path(app_name);
        let mut cmd = if enable {
            String::from_str("touch ")
        } else {
            String::from_str("rm -f ")
        };
        cmd.append(path.as_str());
        let restart = if enable {
            !was_enabled
        } else {
            was_enabled
        };
        (cmd, restart)
    }

    /// The command that resolves the app's main activity.
    pub fn resolve_activity_command(&self, app_name: &str) -> (r: String)
        ensures
            r@ == ("cmd package resolve-activity --brief ")@ + app_name@ + (" | tail -n 1")@,
    {
        let mut cmd = String::from_str("cmd package resolve-activity --brief ");
        cmd.append(app_name);
        cmd.append(" | tail -n 1");
        cmd
    }

    /// The trimmed main activity, rejected when it still holds a space.
    pub fn validate_main_activity(&self, output: &str) -> (r: Option<String>)
        ensures
            match r {
                Option::Some(s) => s@ == spec_trim(output@) && !seq_contains_sub(s@, (" ")@),
                Option::None => seq_contains_sub(spec_trim(output@), (" ")@),
            },
    {
        let t = trim(output);
        if str_contains(t.as_str(), " ") {
            None
        } else {
            Some(t)
        }
    }

    /// The command that starts the main activity with the coverage agent
    /// attached.
    pub fn attach_agent_command(&self, app_name: &str, main_activity: &str) -> (r: String)
        ensures
            r@ == ("am start-activity --attach-agent /data/user/0/")@ + app_name@ + (
            "/code_cache/startup_agents/libcoverage_instrumenting_agent.so ")@ + main_activity@,
    {
        let mut cmd = String::from_str("am start-activity --attach-agent /data/user/0/");
        cmd.append(app_name);
        cmd.append("/code_cache/startup_agents/libcoverage_instrumenting_agent.so ");
        cmd.append(main_activity);
        cmd
    }

    /// The single-shot monkey command that pokes the app awake.
    pub fn start_app_monkey(&self, app_name: &str) -> (r: String)
        ensures
            r@ == ("monkey --pct-syskeys 0 -p ")@ + app_name@ + (" 1")@,
    {
        let mut cmd = String::from_str("monkey --pct-syskeys 0 -p ");
        cmd.append(app_name);
        cmd.append(" 1");
        cmd
    }

    /// The command that resolves the app's process id.
    pub fn pidof_command(&self, app_name: &str) -> (r: String)
        ensures
            r@ == ("pidof -s ")@ + app_name@,
    {
        let mut cmd = String::from_str("pidof -s ");
        cmd.append(app_name);
        cmd
    }

    /// The trimmed process id, rejected when the lookup printed nothing.
    pub fn validate_pid(&self, output: &str) -> (r: Option<String>)
        ensures
            match r {
                Option::Some(s) => s@ == spec_trim(output@) && s@.len() > 0,
                Option::None => spec_trim(output@).len() == 0,
            },
    {
        let t = trim(output);
        if t.as_str().is_empty() {
            None
        } else {
            Some(t)
        }
    }

    /// The command that follows the app's log by process id.
    pub fn logcat_pid_command(&self, pid: &str) -> (r: String)
        ensures
            r@ == ("logcat --pid=")@ + pid@,
    {
        let mut cmd = String::from_str("logcat --pid=");
        cmd.append(pid);
        cmd
    }

    /// Whether a log line reports the started activity as idle, the signal
    /// that the app start is complete.
    pub fn is_idle_line(&self, line: &str) -> (r: bool)
        ensures
            r == seq_contains_sub(line@, ("ActivityThread: Reporting idle of ActivityRecord")@),
    {
        str_contains(line, "ActivityThread: Reporting idle of ActivityRecord")
    }

    /// The command pair that stops the app: disable, then enable.
    pub fn stop_app_commands(&self, app_name: &str) -> (r: (String, String))
        ensures
            r.0@ == ("pm disable ")@ + app_name@,
            r.1@ == ("pm enable ")@ + app_name@,
    {
        let mut disable = String::from_str("pm disable ");
        disable.append(app_name);
        let mut enable = String::from_str("pm enable ");
        enable.append(app_name);
        (disable, enable)
    }

    /// The command that samples the crash log for the past moments: the
    /// start time as seconds and zero-padded milliseconds.
    pub fn logcat_crash_command(&self, start_secs: u64, start_millis: u64) -> (r: String)
        requires
            start_millis < 1000,
        ensures
            r@ == ("logcat -b crash -t ")@ + dec_digits(start_secs as nat) + (".")@ + (
            if start_millis < 10 {
                ("00")@ + dec_digits(start_millis as nat)
            } else if start_millis < 100 {
                ("0")@ + dec_digits(start_millis as nat)
            } else {
                dec_digits(start_millis as nat)
            }),
    {
        let mut cmd = String::from_str("logcat -b crash -t ");
        cmd.append(u64_text(start_secs).as_str());
        cmd.append(".");
        if start_millis < 10 {
            cmd.append("00");
        } else if start_millis < 100 {
            cmd.append("0");
        }
        cmd.append(u64_text(start_millis).as_str());
        cmd
    }
}

/// What the crash-log scan finds after walking the first `upto` lines with
/// `found` carried in: whether a fatal signal in the app was seen, and
/// whether the coverage agent is on the fatal stack (which ends the walk).
pub open spec fn spec_scan_crash(
    lines: Seq<Seq<char>>,
    app_marker: Seq<char>,
    i: int,
    found: bool,
) -> (bool, bool)
    decreases lines.len() - i,
{
    if i < 0 || i >= lines.len() {
        (found, false)
    } else {
        let l = lines[i];
        let found2 = if seq_contains_sub(l, ("Fatal signal")@) {
            seq_contains_sub(l, app_marker)
        } else {
            found
        };
        if found2 && seq_contains_sub(l, ("libcoverage_instrumenting_agent.so")@) {
            (found2, true)
        } else {
            spec_scan_crash(lines, app_marker, i + 1, found2)
        }
    }
}

/// Walks the crash-log lines: a `Fatal signal` line arms the crash flag
/// exactly when it names the app in parentheses; a later line naming the
/// coverage agent attributes the crash to the agent and stops the walk.
pub fn scan_crash_log(lines: &Vec<String>, app_name: &str) -> (r: (bool, bool))
    ensures
        r == spec_scan_crash(
            views_of(lines@),
            ("(")@ + app_name@ + (")")@,
            0,
            false,
        ),
{
    let mut marker = String::from_str("(");
    marker.append(app_name);
    marker.append(")");
    let ghost ls = views_of(lines@);
    let ghost target = spec_scan_crash(ls, marker@, 0, false);
    let mut found = false;
    let mut i: usize = 0;
    while i < lines.len()
        invariant
            marker@ == ("(")@ + app_name@ + (")")@,
            ls == views_of(lines@),
            target == spec_scan_crash(ls, marker@, 0, false),
            i <= lines@.len(),
            target == spec_scan_crash(ls, marker@, i as int, found),
        decreases lines@.len() - i,
    {
        let line: &String = &lines[i];
        proof {
            assert(ls[i as int] == line@);
        }
        if str_contains(line.as_str(), "Fatal signal") {
            found = str_contains(line.as_str(), marker.as_str());
        }
        if found && str_contains(line.as_str(), "libcoverage_instrumenting_agent.so") {
            return (found, true);
        }
        i += 1;
    }
    (found, false)
}

} // verus!
