//! The coverage channel with the in-app agent and the bitmap accumulation:
//! the wire messages of the reset/dump protocol, and the verified update of
//! the per-execution and overall coverage maps. The socket itself lives in
//! the unverified shell, which sends exactly the bytes planned here.

use vstd::prelude::*;
use vstd::string::StringExecFns;
use crate::adb_device::AdbDevice;
use crate::text::dec_digits;
use crate::text::u64_text;
use crate::intent_input::utf8_bytes;

verus! {

/// The size of the coverage bitmap, fixed by the in-app agent.
pub const COVERAGE_MAP_SIZE: usize = 1024 * 1024;

/// How many times arming the map is attempted before the run fails for good.
pub const ARM_MAX_ATTEMPTS: u64 = 5;

/// The recovery steps after one failed arm attempt.
#[derive(Clone, Copy, PartialEq, Eq, Structural, Debug)]
pub struct ArmRecovery {
    /// Whether to sample the crash log first (only in native-trace mode).
    pub report_crash: bool,
    /// Whether to restart the whole device before the app.
    pub restart_device: bool,
    /// The settle sleep, in seconds, on each side of the socket reopen.
    pub sleep_secs: u64,
}

/// The recovery plan after arm attempt `attempt` (counted from one) failed:
/// the crash log is sampled only in native-trace mode, the device restarts
/// from the second failure on, and both settle sleeps last one second more
/// than the attempt number.
pub fn arm_retry_plan(trace_native: bool, attempt: u64) -> (r: ArmRecovery)
    requires
        attempt < u64::MAX,
    ensures
        r.report_crash == trace_native,
        r.restart_device == (attempt >= 2),
        r.sleep_secs == 1 + attempt,
{
    ArmRecovery { report_crash: trace_native, restart_device: attempt >= 2, sleep_secs: 1 + attempt }
}

/// The two-byte preamble written once per connection: `ss` turns
/// synchronization mode on, `se` turns it off.
pub open spec fn spec_preamble(synchronize: bool) -> Seq<u8> {
    if synchronize {
        utf8_bytes(("ss")@)
    } else {
        utf8_bytes(("se")@)
    }
}

/// The trace-filename message for one execution: the `ts` opcode, the file
/// name `trace_<hash>.txt`, and a newline.
pub open spec fn spec_trace_message(hash: Seq<char>) -> Seq<u8> {
    utf8_bytes(("ts")@) + utf8_bytes(("trace_")@ + hash + (".txt")@) + utf8_bytes(("\n")@)
}

/// One session of the coverage socket: tracks everything handed to the
/// wire, and whether the map is armed for the next execution.
pub struct CoverageChannel {
    /// Whether the session runs in synchronization mode.
    pub synchronize: bool,
    /// Whether a reset was confirmed and the dump may follow.
    pub armed: bool,
    /// Every byte handed to the socket so far, in order.
    pub sent: Ghost<Seq<u8>>,
}

fn str_bytes_vec(s: &str) -> (r: Vec<u8>)
    ensures
        r@ == utf8_bytes(s@),
{
    let b = s.as_bytes();
    let mut out: Vec<u8> = Vec::new();
    let mut i: usize = 0;
    proof {
        assert(out@ =~= b@.take(0));
    }
    while i < b.len()
        invariant
            i <= b@.len(),
            out@ == b@.take(i as int),
        decreases b@.len() - i,
    {
        out.push(b[i]);
        proof {
            assert(out@ =~= b@.take(i + 1));
        }
        i += 1;
    }
    proof {
        assert(b@.take(b@.len() as int) =~= b@);
    }
    out
}

impl CoverageChannel {
    /// Opens a session. The returned bytes go on the wire first: exactly the
    /// two-byte synchronization preamble is sent before any other opcode.
    pub fn open(synchronize: bool) -> (r: (CoverageChannel, Vec<u8>))
        ensures
            r.0.synchronize == synchronize,
            !r.0.armed,
            r.1@ == spec_preamble(synchronize),
            r.0.sent@ == spec_preamble(synchronize),
            r.0.sent@.len() == 2,
    {
        let bytes = if synchronize {
            str_bytes_vec("ss")
        } else {
            str_bytes_vec("se")
        };
        proof {
            reveal_strlit("ss");
            reveal_strlit("se");
            assert(vstd::utf8::is_ascii_chars(("ss")@));
            assert(vstd::utf8::is_ascii_chars(("se")@));
            vstd::utf8::is_ascii_chars_encode_utf8(("ss")@);
            vstd::utf8::is_ascii_chars_encode_utf8(("se")@);
        }
        let c = CoverageChannel { synchronize, armed: false, sent: Ghost(bytes@) };
        (c, bytes)
    }

    /// The messages that arm the map for the next execution: the trace
    /// filename first when native tracing is on, then the one-byte reset
    /// request `r`.
    pub fn arm_messages(&mut self, trace_native: bool, hash: &str) -> (msgs: Vec<Vec<u8>>)
        ensures
            final(self).synchronize == old(self).synchronize,
            !final(self).armed,
            trace_native ==> msgs@.len() == 2 && msgs@[0]@ == spec_trace_message(hash@) && msgs@[1]@
                == utf8_bytes(("r")@),
            !trace_native ==> msgs@.len() == 1 && msgs@[0]@ == utf8_bytes(("r")@),
            trace_native ==> final(self).sent@ == old(self).sent@ + spec_trace_message(hash@)
                + utf8_bytes(("r")@),
            !trace_native ==> final(self).sent@ == old(self).sent@ + utf8_bytes(("r")@),
    {
        let mut msgs: Vec<Vec<u8>> = Vec::new();
        if trace_native {
            let mut name = String::from_str("trace_");
            name.append(hash);
            name.append(".txt");
            let mut msg = str_bytes_vec("ts");
            let mut name_bytes = str_bytes_vec(name.as_str());
            let mut nl = str_bytes_vec("\n");
            msg.append(&mut name_bytes);
            msg.append(&mut nl);
            proof {
                assert(msg@ =~= spec_trace_message(hash@));
            }
            msgs.push(msg);
        }
        let req = str_bytes_vec("r");
        proof {
            self.sent@ = if trace_native {
                self.sent@ + spec_trace_message(hash@) + utf8_bytes(("r")@)
            } else {
                self.sent@ + utf8_bytes(("r")@)
            };
        }
        self.armed = false;
        msgs.push(req);
        msgs
    }

    /// Reads the agent's one-byte answer to the reset request: the map is
    /// armed exactly when the answer is the dump opcode `d` (byte 100).
    pub fn confirm_arm(&mut self, response: u8) -> (ok: bool)
        ensures
            final(self).synchronize == old(self).synchronize,
            final(self).sent == old(self).sent,
            ok == (response == 100),
            final(self).armed == (response == 100),
    {
        self.armed = response == 100;
        self.armed
    }

    /// The one-byte dump request `d`, allowed only on an armed session; the
    /// agent answers with exactly `COVERAGE_MAP_SIZE` bytes. Arming is
    /// consumed: the next execution must reset again.
    pub fn dump_request(&mut self) -> (msg: Vec<u8>)
        requires
            old(self).armed,
        ensures
            final(self).synchronize == old(self).synchronize,
            !final(self).armed,
            msg@ == utf8_bytes(("d")@),
            final(self).sent@ == old(self).sent@ + utf8_bytes(("d")@),
    {
        let msg = str_bytes_vec("d");
        proof {
            self.sent@ = self.sent@ + utf8_bytes(("d")@);
        }
        self.armed = false;
        msg
    }

    /// How many bytes the dump answer must hold.
    pub fn expected_dump_len(&self) -> (r: usize)
        ensures
            r == COVERAGE_MAP_SIZE,
    {
        COVERAGE_MAP_SIZE
    }
}

/// The overall map after folding in one execution's buffer: each index
/// keeps the larger of its old value and the buffer's value, so a recorded
/// hit count never goes down.
pub open spec fn spec_overall_update(overall: Seq<u8>, buffer: Seq<u8>) -> Seq<u8> {
    Seq::new(
        overall.len(),
        |i: int|
            if buffer[i] > overall[i] {
                buffer[i]
            } else {
                overall[i]
            },
    )
}

/// Folding a buffer into the overall map never lowers any index: the map is
/// monotone per index across collections.
pub proof fn lemma_overall_update_monotonic(overall: Seq<u8>, buffer: Seq<u8>)
    ensures
        forall|i: int|
            0 <= i < overall.len() ==> spec_overall_update(overall, buffer)[i] >= overall[i],
{
}

/// How many bytes of the map are nonzero: the covered edge count.
pub open spec fn count_nonzero(s: Seq<u8>) -> int
    decreases s.len(),
{
    if s.len() == 0 {
        0
    } else {
        count_nonzero(s.drop_last()) + (if s.last() != 0 {
            1int
        } else {
            0int
        })
    }
}

/// Folding a buffer into the overall map never uncovers an index: every
/// index that was nonzero stays nonzero, and an index can only move from
/// zero to nonzero.
pub proof fn lemma_overall_update_keeps_coverage(overall: Seq<u8>, buffer: Seq<u8>)
    ensures
        forall|i: int|
            0 <= i < overall.len() && overall[i] != 0 ==> spec_overall_update(overall, buffer)[i]
                != 0,
{
}

proof fn lemma_count_nonzero_pointwise(a: Seq<u8>, b: Seq<u8>)
    requires
        a.len() == b.len(),
        forall|i: int| 0 <= i < a.len() && a[i] != 0 ==> b[i] != 0,
    ensures
        count_nonzero(a) <= count_nonzero(b),
    decreases a.len(),
{
    if a.len() > 0 {
        lemma_count_nonzero_pointwise(a.drop_last(), b.drop_last());
    }
}

/// The covered edge count of the overall map never decreases when a buffer
/// is folded in.
pub proof fn lemma_overall_count_monotonic(overall: Seq<u8>, buffer: Seq<u8>)
    requires
        buffer.len() == overall.len(),
    ensures
        count_nonzero(overall) <= count_nonzero(spec_overall_update(overall, buffer)),
{
    lemma_overall_update_keeps_coverage(overall, buffer);
    lemma_count_nonzero_pointwise(overall, spec_overall_update(overall, buffer));
}

/// Observes the per-execution coverage map pulled over the socket, folds it
/// into the overall map, and reports when the covered edge count grows.
#[derive(Debug)]
pub struct SocketCoverageObserver {
    pub adb_device: AdbDevice,
    pub app_name: String,
    pub address: String,
    pub trace_native: bool,
    pub enable_synchronization: bool,
    pub use_coverage: bool,
    /// The per-execution map, copied from the last dump.
    pub base_observer: Vec<u8>,
    /// The union of every execution's map: which edges were ever covered.
    pub overall_coverage: Vec<u8>,
    /// The covered edge count last written to the coverage log.
    pub last_overall_coverage: u64,
}

impl SocketCoverageObserver {
    /// Both maps hold exactly the agent's map size.
    pub open spec fn wf(self) -> bool {
        self.base_observer@.len() == COVERAGE_MAP_SIZE && self.overall_coverage@.len()
            == COVERAGE_MAP_SIZE
    }

    /// The first line of a fresh overall-coverage log.
    pub fn initial_coverage_line(&self) -> (r: String)
        ensures
            r@ == ("0: 0\n")@,
    {
        String::from_str("0: 0\n")
    }

    /// One line of the overall-coverage log: the elapsed seconds and the
    /// covered edge count.
    pub fn coverage_line(&self, elapsed_secs: u64, count: u64) -> (r: String)
        ensures
            r@ == dec_digits(elapsed_secs as nat) + (": ")@ + dec_digits(count as nat) + ("\n")@,
    {
        let mut line = u64_text(elapsed_secs);
        line.append(": ");
        line.append(u64_text(count).as_str());
        line.append("\n");
        line
    }

    /// Zeroes the per-execution map, so the next collection starts fresh.
    pub fn reset_base(&mut self)
        requires
            old(self).wf(),
        ensures
            final(self).wf(),
            final(self).base_observer@ =~= Seq::new(COVERAGE_MAP_SIZE as nat, |i: int| 0u8),
            final(self).overall_coverage == old(self).overall_coverage,
            final(self).last_overall_coverage == old(self).last_overall_coverage,
            final(self).use_coverage == old(self).use_coverage,
            final(self).trace_native == old(self).trace_native,
    {
        let mut i: usize = 0;
        while i < COVERAGE_MAP_SIZE
            invariant
                old(self).wf(),
                self.base_observer@.len() == COVERAGE_MAP_SIZE,
                self.overall_coverage == old(self).overall_coverage,
                self.last_overall_coverage == old(self).last_overall_coverage,
                self.use_coverage == old(self).use_coverage,
                self.trace_native == old(self).trace_native,
                i <= COVERAGE_MAP_SIZE,
                forall|k: int| 0 <= k < i ==> self.base_observer@[k] == 0,
            decreases COVERAGE_MAP_SIZE - i,
        {
            self.base_observer.set(i, 0);
            i += 1;
        }
    }

    /// Folds one dumped buffer into the maps. A buffer of the wrong size
    /// (a short read) changes nothing. Otherwise the per-execution map is
    /// replaced when coverage is in use, every overall index rises to the
    /// buffer's value where that is larger, and the new covered edge count
    /// comes back exactly when it strictly grew past the last reported one
    /// (which is then remembered).
    pub fn apply_coverage(&mut self, buffer: &Vec<u8>) -> (r: Option<u64>)
        requires
            old(self).wf(),
        ensures
            final(self).wf(),
            final(self).adb_device == old(self).adb_device,
            final(self).app_name == old(self).app_name,
            final(self).use_coverage == old(self).use_coverage,
            final(self).trace_native == old(self).trace_native,
            buffer@.len() != COVERAGE_MAP_SIZE ==> *final(self) == *old(self) && r is None,
            buffer@.len() == COVERAGE_MAP_SIZE ==> {
                &&& final(self).base_observer@ == (if old(self).use_coverage {
                    buffer@
                } else {
                    old(self).base_observer@
                })
                &&& final(self).overall_coverage@ == spec_overall_update(
                    old(self).overall_coverage@,
                    buffer@,
                )
                &&& {
                    let c = count_nonzero(final(self).overall_coverage@);
                    &&& r == (if c > old(self).last_overall_coverage {
                        Option::Some(c as u64)
                    } else {
                        Option::<u64>::None
                    })
                    &&& final(self).last_overall_coverage == (if c > old(
                        self,
                    ).last_overall_coverage {
                        c as u64
                    } else {
                        old(self).last_overall_coverage
                    })
                }
            },
{
        if buffer.len() != COVERAGE_MAP_SIZE {
            return None;
        }
        if self.use_coverage {
            let mut i: usize = 0;
            while i < COVERAGE_MAP_SIZE
                invariant
                    buffer@.len() == COVERAGE_MAP_SIZE,
                    self.base_observer@.len() == COVERAGE_MAP_SIZE,
                    self.overall_coverage == old(self).overall_coverage,
                    self.last_overall_coverage == old(self).last_overall_coverage,
                    self.use_coverage == old(self).use_coverage,
                    self.trace_native == old(self).trace_native,
                    self.adb_device == old(self).adb_device,
                    self.app_name == old(self).app_name,
                    i <= COVERAGE_MAP_SIZE,
                    forall|k: int| 0 <= k < i ==> self.base_observer@[k] == buffer@[k],
                    forall|k: int|
                        i <= k < COVERAGE_MAP_SIZE ==> self.base_observer@[k] == old(
                            self,
                        ).base_observer@[k],
                decreases COVERAGE_MAP_SIZE - i,
            {
                self.base_observer.set(i, buffer[i]);
                i += 1;
            }
            proof {
                assert(self.base_observer@ =~= buffer@);
            }
        }
        let ghost mid = *self;
        let mut i: usize = 0;
        while i < COVERAGE_MAP_SIZE
            invariant
                buffer@.len() == COVERAGE_MAP_SIZE,
                self.overall_coverage@.len() == COVERAGE_MAP_SIZE,
                self.base_observer == mid.base_observer,
                self.last_overall_coverage == mid.last_overall_coverage,
                self.use_coverage == mid.use_coverage,
                self.trace_native == mid.trace_native,
                self.adb_device == mid.adb_device,
                self.app_name == mid.app_name,
                mid.overall_coverage@.len() == COVERAGE_MAP_SIZE,
                i <= COVERAGE_MAP_SIZE,
                forall|k: int|
                    0 <= k < i ==> self.overall_coverage@[k] == (if buffer@[k]
                        > mid.overall_coverage@[k] {
                        buffer@[k]
                    } else {
                        mid.overall_coverage@[k]
                    }),
                forall|k: int|
                    i <= k < COVERAGE_MAP_SIZE ==> self.overall_coverage@[k]
                        == mid.overall_coverage@[k],
            decreases COVERAGE_MAP_SIZE - i,
        {
            let b = buffer[i];
            if b > *self.overall_coverage.get(i).unwrap() {
                self.overall_coverage.set(i, b);
            }
            i += 1;
        }
        proof {
            assert(self.overall_coverage@ =~= spec_overall_update(mid.overall_coverage@, buffer@));
        }
        let count = self.count_covered();
        if count > self.last_overall_coverage {
            self.last_overall_coverage = count;
            Some(count)
        } else {
            None
        }
    }

    /// The covered edge count of the overall map.
    pub fn count_covered(&self) -> (r: u64)
        requires
            self.overall_coverage@.len() == COVERAGE_MAP_SIZE,
        ensures
            r == count_nonzero(self.overall_coverage@),
    {
        let mut count: u64 = 0;
        let mut i: usize = 0;
        proof {
            assert(self.overall_coverage@.take(0) =~= Seq::<u8>::empty());
            lemma_count_nonzero_bound(self.overall_coverage@, 0);
        }
        while i < COVERAGE_MAP_SIZE
            invariant
                self.overall_coverage@.len() == COVERAGE_MAP_SIZE,
                i <= COVERAGE_MAP_SIZE,
                count == count_nonzero(self.overall_coverage@.take(i as int)),
                count <= i,
            decreases COVERAGE_MAP_SIZE - i,
        {
            proof {
                assert(self.overall_coverage@.take(i + 1).drop_last()
                    =~= self.overall_coverage@.take(i as int));
                assert(self.overall_coverage@.take(i + 1).last() == self.overall_coverage@[i as int]);
            }
            if *self.overall_coverage.get(i).unwrap() != 0 {
                count = count + 1;
            }
            i += 1;
        }
        proof {
            assert(self.overall_coverage@.take(COVERAGE_MAP_SIZE as int)
                =~= self.overall_coverage@);
        }
        count
    }
}

proof fn lemma_count_nonzero_bound(s: Seq<u8>, i: int)
    requires
        0 <= i <= s.len(),
    ensures
        count_nonzero(s.take(i)) <= i,
    decreases i,
{
    if i > 0 {
        lemma_count_nonzero_bound(s, i - 1);
        assert(s.take(i).drop_last() =~= s.take(i - 1));
    } else {
        assert(s.take(0) =~= Seq::<u8>::empty());
    }
}

/// Builds the observer with zeroed maps over the given channel settings.
pub fn create_coverage_map_observer(
    adb_device: AdbDevice,
    app_name: String,
    address: String,
    trace_native: bool,
    enable_synchronization: bool,
    use_coverage: bool,
) -> (r: SocketCoverageObserver)
    ensures
        r.wf(),
        r.adb_device == adb_device,
        r.app_name == app_name,
        r.address == address,
        r.trace_native == trace_native,
        r.enable_synchronization == enable_synchronization,
        r.use_coverage == use_coverage,
        r.last_overall_coverage == 0,
        forall|k: int| 0 <= k < COVERAGE_MAP_SIZE ==> r.base_observer@[k] == 0,
        forall|k: int| 0 <= k < COVERAGE_MAP_SIZE ==> r.overall_coverage@[k] == 0,
{
    let base_observer = zero_map();
    let overall_coverage = zero_map();
    SocketCoverageObserver {
        adb_device,
        app_name,
        address,
        trace_native,
        enable_synchronization,
        use_coverage,
        base_observer,
        overall_coverage,
        last_overall_coverage: 0,
    }
}

fn zero_map() -> (r: Vec<u8>)
    ensures
        r@.len() == COVERAGE_MAP_SIZE,
        forall|k: int| 0 <= k < COVERAGE_MAP_SIZE ==> r@[k] == 0,
{
    let mut v: Vec<u8> = Vec::new();
    let mut i: usize = 0;
    while i < COVERAGE_MAP_SIZE
        invariant
            i <= COVERAGE_MAP_SIZE,
            v@.len() == i,
            forall|k: int| 0 <= k < i ==> v@[k] == 0,
        decreases COVERAGE_MAP_SIZE - i,
    {
        v.push(0);
        i += 1;
    }
    v
}

} // verus!
