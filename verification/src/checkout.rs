//! Bookkeeping of a flat-sat checkout: the device map, the tally of checks,
//! the addresses that answered a bus scan, and the verdicts that compare
//! readings.
use vstd::prelude::*;
use crate::drivers::drv8235::Faults;

verus! {

/// A device expected on a bus.
pub struct Device {
    pub addr: u8,
    pub name: &'static str,
    /// False for devices with no driver yet: presence is reported, nothing is
    /// exercised.
    pub driver: bool,
}

pub fn dev(addr: u8, name: &'static str, driver: bool) -> (r: Device)
    ensures
        r.addr == addr,
        r.name == name,
        r.driver == driver,
{
    Device { addr, name, driver }
}

/// How many failed check names are kept.
pub const MAX_FAILURES: usize = 48;

/// How many answering addresses a scan keeps.
pub const MAX_FOUND: usize = 32;

/// heapless's fixed-capacity vector.
#[verifier::external_type_specification]
#[verifier::external_body]
#[verifier::reject_recursive_types(T)]
pub struct ExHeaplessVec<T, const N: usize>(heapless::Vec<T, N>);

/// The names a vector of failed check names holds, in order.
pub uninterp spec fn failure_names(v: heapless::Vec<&'static str, 48>) -> Seq<&'static str>;

/// The addresses a vector of found addresses holds, in order.
pub uninterp spec fn found_addrs(v: heapless::Vec<u8, 32>) -> Seq<u8>;

/// heapless's `Vec::new`: an empty vector.
#[verifier::external_body]
fn names_new() -> (r: heapless::Vec<&'static str, 48>)
    ensures
        failure_names(r) == Seq::<&'static str>::empty(),
{
    heapless::Vec::new()
}

/// heapless's `Vec::push`: while the vector holds fewer than its capacity
/// (48) items, `name` is appended and the result is `Ok`; otherwise nothing
/// changes and `name` comes back in `Err`.
#[verifier::external_body]
fn names_push(v: &mut heapless::Vec<&'static str, 48>, name: &'static str) -> (r: Result<(), &'static str>)
    ensures
        r == if failure_names(*old(v)).len() < MAX_FAILURES {
            Ok::<(), &'static str>(())
        } else {
            Err(name)
        },
        failure_names(*final(v)) == if failure_names(*old(v)).len() < MAX_FAILURES {
            failure_names(*old(v)).push(name)
        } else {
            failure_names(*old(v))
        },
{
    v.push(name)
}

/// heapless's `Vec::as_slice`: the items, in order.
#[verifier::external_body]
fn names_slice<'a>(v: &'a heapless::Vec<&'static str, 48>) -> (r: &'a [&'static str])
    ensures
        r@ == failure_names(*v),
{
    v.as_slice()
}

/// heapless's `Vec::new`: an empty vector.
#[verifier::external_body]
fn addrs_new() -> (r: heapless::Vec<u8, 32>)
    ensures
        found_addrs(r) == Seq::<u8>::empty(),
{
    heapless::Vec::new()
}

/// heapless's `Vec::push`: while the vector holds fewer than its capacity
/// (32) items, `addr` is appended and the result is `Ok`; otherwise nothing
/// changes and `addr` comes back in `Err`.
#[verifier::external_body]
fn addrs_push(v: &mut heapless::Vec<u8, 32>, addr: u8) -> (r: Result<(), u8>)
    ensures
        r == if found_addrs(*old(v)).len() < MAX_FOUND {
            Ok::<(), u8>(())
        } else {
            Err(addr)
        },
        found_addrs(*final(v)) == if found_addrs(*old(v)).len() < MAX_FOUND {
            found_addrs(*old(v)).push(addr)
        } else {
            found_addrs(*old(v))
        },
{
    v.push(addr)
}

/// heapless's `Vec::as_slice`: the items, in order.
#[verifier::external_body]
fn addrs_slice(v: &heapless::Vec<u8, 32>) -> (r: &[u8])
    ensures
        r@ == found_addrs(*v),
{
    v.as_slice()
}

/// The tally of a checkout.
pub struct Results {
    passed: u32,
    failed: u32,
    skipped: u32,
    failures: heapless::Vec<&'static str, 48>,
}

impl Results {
    pub closed spec fn spec_passed(&self) -> nat {
        self.passed as nat
    }

    pub closed spec fn spec_failed(&self) -> nat {
        self.failed as nat
    }

    pub closed spec fn spec_skipped(&self) -> nat {
        self.skipped as nat
    }

    /// The names of the failed checks, in order, up to [`MAX_FAILURES`].
    pub closed spec fn spec_failures(&self) -> Seq<&'static str> {
        failure_names(self.failures)
    }

    /// At most [`MAX_FAILURES`] names are kept.
    pub open spec fn wf(&self) -> bool {
        self.spec_failures().len() <= MAX_FAILURES
    }

    pub fn new() -> (r: Self)
        ensures
            r.wf(),
            r.spec_passed() == 0,
            r.spec_failed() == 0,
            r.spec_skipped() == 0,
            r.spec_failures() == Seq::<&'static str>::empty(),
    {
        Results { passed: 0, failed: 0, skipped: 0, failures: names_new() }
    }

    /// Count a passed check.
    pub fn pass(&mut self, name: &'static str)
        requires
            old(self).spec_passed() < u32::MAX,
        ensures
            final(self).spec_passed() == old(self).spec_passed() + 1,
            final(self).spec_failed() == old(self).spec_failed(),
            final(self).spec_skipped() == old(self).spec_skipped(),
            final(self).spec_failures() == old(self).spec_failures(),
    {
        self.passed = self.passed + 1;
    }

    /// Count a failed check, and keep its name while there is room.
    pub fn fail(&mut self, name: &'static str)
        requires
            old(self).spec_failed() < u32::MAX,
        ensures
            old(self).wf() ==> final(self).wf(),
            final(self).spec_failed() == old(self).spec_failed() + 1,
            final(self).spec_passed() == old(self).spec_passed(),
            final(self).spec_skipped() == old(self).spec_skipped(),
            final(self).spec_failures() == if old(self).spec_failures().len() < MAX_FAILURES {
                old(self).spec_failures().push(name)
            } else {
                old(self).spec_failures()
            },
    {
        self.failed = self.failed + 1;
        let _ = names_push(&mut self.failures, name);
    }

    /// Count a check that was not run: its device is not present, or not
    /// reachable.
    pub fn skip(&mut self, name: &'static str)
        requires
            old(self).spec_skipped() < u32::MAX,
        ensures
            final(self).spec_skipped() == old(self).spec_skipped() + 1,
            final(self).spec_passed() == old(self).spec_passed(),
            final(self).spec_failed() == old(self).spec_failed(),
            final(self).spec_failures() == old(self).spec_failures(),
    {
        self.skipped = self.skipped + 1;
    }

    pub fn passed(&self) -> (r: u32)
        ensures
            r == self.spec_passed(),
    {
        self.passed
    }

    pub fn failed(&self) -> (r: u32)
        ensures
            r == self.spec_failed(),
    {
        self.failed
    }

    pub fn skipped(&self) -> (r: u32)
        ensures
            r == self.spec_skipped(),
    {
        self.skipped
    }

    pub fn failures(&self) -> (r: &[&'static str])
        ensures
            r@ == self.spec_failures(),
    {
        names_slice(&self.failures)
    }

    /// Every counter can take one more check.
    pub open spec fn has_room(&self) -> bool {
        &&& self.spec_passed() < u32::MAX
        &&& self.spec_failed() < u32::MAX
        &&& self.spec_skipped() < u32::MAX
    }

    /// `next` is this tally with `rec` recorded for the check `name`, and
    /// nothing else changed.
    pub open spec fn records(&self, next: Results, rec: Record, name: &'static str) -> bool {
        &&& next.spec_passed() == self.spec_passed() + if rec == Record::Pass {
            1int
        } else {
            0
        }
        &&& next.spec_failed() == self.spec_failed() + if rec == Record::Fail {
            1int
        } else {
            0
        }
        &&& next.spec_skipped() == self.spec_skipped() + if rec == Record::Skip {
            1int
        } else {
            0
        }
        &&& next.spec_failures() == if rec == Record::Fail && self.spec_failures().len()
            < MAX_FAILURES {
            self.spec_failures().push(name)
        } else {
            self.spec_failures()
        }
    }

    /// Record `rec` for the check `name`.
    pub fn record(&mut self, rec: Record, name: &'static str)
        requires
            old(self).has_room(),
        ensures
            old(self).records(*final(self), rec, name),
            old(self).wf() ==> final(self).wf(),
    {
        match rec {
            Record::Nothing => {},
            Record::Pass => self.pass(name),
            Record::Fail => self.fail(name),
            Record::Skip => self.skip(name),
        }
    }
}

/// What one step of a check records for its device.
#[derive(Debug, Clone, Copy, PartialEq, Eq, Structural)]
pub enum Record {
    Nothing,
    Pass,
    Fail,
    Skip,
}

/// Addresses that answered on a bus.
pub struct Found {
    addrs: heapless::Vec<u8, 32>,
}

impl Found {
    pub closed spec fn spec_addrs(&self) -> Seq<u8> {
        found_addrs(self.addrs)
    }

    pub fn new() -> (r: Self)
        ensures
            r.spec_addrs() == Seq::<u8>::empty(),
    {
        Found { addrs: addrs_new() }
    }

    /// Record an address that answered, while there is room.
    pub fn push(&mut self, addr: u8)
        ensures
            final(self).spec_addrs() == if old(self).spec_addrs().len() < MAX_FOUND {
                old(self).spec_addrs().push(addr)
            } else {
                old(self).spec_addrs()
            },
    {
        let _ = addrs_push(&mut self.addrs, addr);
    }

    pub fn contains(&self, addr: u8) -> (r: bool)
        ensures
            r == self.spec_addrs().contains(addr),
    {
        let addrs = addrs_slice(&self.addrs);
        let mut i: usize = 0;
        while i < addrs.len()
            invariant
                i <= addrs@.len(),
                addrs@ == self.spec_addrs(),
                forall|k: int| 0 <= k < i ==> addrs@[k] != addr,
            decreases addrs.len() - i,
        {
            if addrs[i] == addr {
                return true;
            }
            i = i + 1;
        }
        false
    }

    pub fn addrs(&self) -> (r: &[u8])
        ensures
            r@ == self.spec_addrs(),
    {
        addrs_slice(&self.addrs)
    }
}

/// Whether a clock read twice, 2 s apart, advanced as a running clock does:
/// by 1 to 3 seconds.
pub fn rtc_ticking(first: i64, second: i64) -> (r: bool)
    ensures
        r == (1 <= second - first <= 3),
{
    if second <= first {
        false
    } else if first > i64::MAX - 3 {
        true
    } else {
        second <= first + 3
    }
}

/// What the burn wire driver's registers say after `init`: every channel off
/// (LEDOUT 0x55), and the chip awake (MODE1 SLEEP clear).
pub fn burnwire_state(ledout: u8, mode1: u8) -> (r: (bool, bool))
    ensures
        r == (ledout == 0x55, mode1 & 0x10 == 0),
{
    (ledout == 0x55, mode1 & 0x10 == 0)
}


/// What a light sensor check concludes from two readings 250 ms apart.
#[derive(Debug, Clone, Copy, PartialEq, Eq, Structural)]
pub enum LightVerdict {
    /// In range, and a new conversion happened between the readings.
    Live,
    /// The lux value is outside the sensor's range.
    OutOfRange,
    /// The sample counter did not move: the reading is stale.
    Stale,
}

/// The verdict on a light sensor from its second reading's range check and the
/// sample counters of both readings; a reading out of range is reported first.
pub fn light_verdict(lux_in_range: bool, counter_before: u16, counter_after: u16) -> (v:
    LightVerdict)
    ensures
        v == if !lux_in_range {
            LightVerdict::OutOfRange
        } else if counter_before == counter_after {
            LightVerdict::Stale
        } else {
            LightVerdict::Live
        },
{
    if !lux_in_range {
        LightVerdict::OutOfRange
    } else if counter_before == counter_after {
        LightVerdict::Stale
    } else {
        LightVerdict::Live
    }
}

/// What a torque coil check concludes from a reading taken while driving.
#[derive(Debug, Clone, Copy, PartialEq, Eq, Structural)]
pub enum CoilVerdict {
    /// The coil reached the minimum voltage with no fault.
    Driving,
    /// Below the minimum voltage: the coil may be disconnected.
    NotDriving,
    /// The driver reported a fault while driving.
    FaultsWhileDriving,
}

/// The verdict on a driven coil: a voltage below the minimum first, then any
/// fault read while driving (`None` when the fault read failed, which is not
/// held against the coil).
pub fn coil_verdict(volts_low: bool, faults: Option<Faults>) -> (v: CoilVerdict)
    ensures
        v == if volts_low {
            CoilVerdict::NotDriving
        } else if faults matches Some(f) && f.spec_any() {
            CoilVerdict::FaultsWhileDriving
        } else {
            CoilVerdict::Driving
        },
{
    if volts_low {
        return CoilVerdict::NotDriving;
    }
    match faults {
        Some(f) => if f.any() {
            CoilVerdict::FaultsWhileDriving
        } else {
            CoilVerdict::Driving
        },
        None => CoilVerdict::Driving,
    }
}

/// Whether the first `n` bytes read back into `buf` are exactly `expected`.
pub fn readback_matches(buf: &[u8], n: usize, expected: &[u8]) -> (r: bool)
    requires
        n <= buf@.len(),
    ensures
        r == (buf@.subrange(0, n as int) == expected@),
{
    if n != expected.len() {
        proof {
            assert(buf@.subrange(0, n as int).len() != expected@.len());
        }
        return false;
    }
    let mut i: usize = 0;
    while i < n
        invariant
            i <= n,
            n <= buf@.len(),
            n == expected@.len(),
            forall|k: int| 0 <= k < i ==> buf@[k] == expected@[k],
        decreases n - i,
    {
        if buf[i] != expected[i] {
            proof {
                assert(buf@.subrange(0, n as int)[i as int] != expected@[i as int]);
            }
            return false;
        }
        i = i + 1;
    }
    assert(buf@.subrange(0, n as int) =~= expected@);
    true
}

/// The Unix time to stamp SD card files with, from what the RTC check read:
/// a time after the epoch, cut to its low 32 bits; none otherwise.
pub fn file_time_from_rtc(rtc_time: Option<i64>) -> (r: Option<u32>)
    ensures
        r == match rtc_time {
            Some(ts) => if ts > 0 {
                Some(ts as u32)
            } else {
                None::<u32>
            },
            None => None::<u32>,
        },
{
    match rtc_time {
        Some(ts) => if ts > 0 {
            Some(ts as u32)
        } else {
            None
        },
        None => None,
    }
}

/// What the bus step that a check's stage asked for gave. An outcome that does
/// not belong to the stage counts as a failed step.
#[derive(Debug)]
pub enum StepOutcome {
    /// The step failed.
    Failed,
    /// The step succeeded and gave nothing the check looks at.
    Done,
    /// A time read from the real-time clock.
    Time(i64),
    /// A light sensor result: its sample counter, and whether its lux value
    /// is within the sensor's range.
    Light { counter: u16, in_range: bool },
    /// A reading, and whether it lies in the range the check expects.
    InRange(bool),
    /// Fault flags read from a coil driver.
    Faults(Faults),
    /// One register byte read back.
    Byte(u8),
    /// The contents of a file read back.
    Bytes(Vec<u8>),
}

/// The stages of a torque coil check.
#[derive(Debug, Clone, Copy, PartialEq, Eq, Structural)]
pub enum CoilStage {
    /// `init` the driver.
    Init,
    /// Read the faults present at startup (only reported).
    StartupFaults,
    /// Drive the coil (`set_throttle(Some(COIL_DRIVE_THROTTLE))`).
    Throttle,
    /// Wait while driving, then read the voltage; the outcome is
    /// `InRange(true)` when it reached the minimum driven voltage.
    Measure,
    /// Read the faults while driving; `driven` is the measured outcome (`Some(low)`)
    /// or `None` when the read failed.
    DrivenFaults { driven: Option<bool> },
    /// Coast the coil, whatever happened while driving.
    Coast { driven: Option<bool>, faults: Option<Faults> },
    Done,
}

/// One step of a torque coil check `name`. A failed `init` fails the check;
/// without `drive_coils` the check passes once the startup faults were read;
/// otherwise a failed throttle write fails it, and once the throttle write
/// succeeded the coil is always coasted before the verdict of
/// [`coil_verdict`] (a failed voltage read fails the check).
pub fn coil_check_step(
    stage: CoilStage,
    outcome: StepOutcome,
    drive_coils: bool,
    name: &'static str,
    r: &mut Results,
) -> (next: CoilStage)
    requires
        old(r).has_room(),
    ensures
        old(r).wf() ==> final(r).wf(),
        match stage {
            CoilStage::Init => if outcome is Failed {
                next == CoilStage::Done && old(r).records(*final(r), Record::Fail, name)
            } else {
                next == CoilStage::StartupFaults && old(r).records(*final(r), Record::Nothing, name)
            },
            CoilStage::StartupFaults => if !drive_coils {
                next == CoilStage::Done && old(r).records(*final(r), Record::Pass, name)
            } else {
                next == CoilStage::Throttle && old(r).records(*final(r), Record::Nothing, name)
            },
            CoilStage::Throttle => if outcome is Failed {
                next == CoilStage::Done && old(r).records(*final(r), Record::Fail, name)
            } else {
                next == CoilStage::Measure && old(r).records(*final(r), Record::Nothing, name)
            },
            CoilStage::Measure => old(r).records(*final(r), Record::Nothing, name) && next == (
            CoilStage::DrivenFaults {
                driven: match outcome {
                    StepOutcome::InRange(reached) => Some(!reached),
                    _ => None,
                },
            }),
            CoilStage::DrivenFaults { driven } => old(r).records(*final(r), Record::Nothing, name)
                && next == (CoilStage::Coast {
                driven,
                faults: match outcome {
                    StepOutcome::Faults(f) => Some(f),
                    _ => None,
                },
            }),
            CoilStage::Coast { driven, faults } => next == CoilStage::Done && old(r).records(
                *final(r),
                match driven {
                    Some(low) => if !low && !(faults matches Some(f) && f.spec_any()) {
                        Record::Pass
                    } else {
                        Record::Fail
                    },
                    None => Record::Fail,
                },
                name,
            ),
            CoilStage::Done => next == CoilStage::Done && old(r).records(
                *final(r),
                Record::Nothing,
                name,
            ),
        },
{
    let failed = match outcome {
        StepOutcome::Failed => true,
        _ => false,
    };
    let (next, rec) = match stage {
        CoilStage::Init => if failed {
            (CoilStage::Done, Record::Fail)
        } else {
            (CoilStage::StartupFaults, Record::Nothing)
        },
        CoilStage::StartupFaults => if !drive_coils {
            (CoilStage::Done, Record::Pass)
        } else {
            (CoilStage::Throttle, Record::Nothing)
        },
        CoilStage::Throttle => if failed {
            (CoilStage::Done, Record::Fail)
        } else {
            (CoilStage::Measure, Record::Nothing)
        },
        CoilStage::Measure => {
            let driven = match outcome {
                StepOutcome::InRange(reached) => Some(!reached),
                _ => None,
            };
            (CoilStage::DrivenFaults { driven }, Record::Nothing)
        },
        CoilStage::DrivenFaults { driven } => {
            let faults = match outcome {
                StepOutcome::Faults(f) => Some(f),
                _ => None,
            };
            (CoilStage::Coast { driven, faults }, Record::Nothing)
        },
        CoilStage::Coast { driven, faults } => {
            let rec = match driven {
                Some(low) => match coil_verdict(low, faults) {
                    CoilVerdict::Driving => Record::Pass,
                    _ => Record::Fail,
                },
                None => Record::Fail,
            };
            (CoilStage::Done, rec)
        },
        CoilStage::Done => (CoilStage::Done, Record::Nothing),
    };
    r.record(rec, name);
    next
}

/// The stages of the real-time clock check.
#[derive(Debug, Clone, Copy, PartialEq, Eq, Structural)]
pub enum RtcStage {
    /// Read the oscillator stop flag (only reported).
    LostPower,
    /// Read the Unix time.
    FirstRead,
    /// Read the date and time (only reported); `first` is the time read.
    Datetime { first: i64 },
    /// Wait 2 s, then read the Unix time again.
    SecondRead { first: i64 },
    /// Finished; `time` is the last time read, for the SD card's timestamps.
    Done { time: Option<i64> },
}

/// One step of the clock check: "RTC readable" fails when the first time
/// read fails, which ends the check, and passes otherwise; "RTC ticking"
/// passes when the second read, 2 s later, shows the clock advanced 1-3 s
/// ([`rtc_ticking`]), and fails otherwise.
pub fn rtc_check_step(stage: RtcStage, outcome: StepOutcome, r: &mut Results) -> (next: RtcStage)
    requires
        old(r).has_room(),
    ensures
        old(r).wf() ==> final(r).wf(),
        match stage {
            RtcStage::LostPower => next == RtcStage::FirstRead && old(r).records(
                *final(r),
                Record::Nothing,
                "RTC readable",
            ),
            RtcStage::FirstRead => match outcome {
                StepOutcome::Time(t) => next == (RtcStage::Datetime { first: t }) && old(
                    r,
                ).records(*final(r), Record::Nothing, "RTC readable"),
                _ => next == (RtcStage::Done { time: None }) && old(r).records(
                    *final(r),
                    Record::Fail,
                    "RTC readable",
                ),
            },
            RtcStage::Datetime { first } => next == (RtcStage::SecondRead { first }) && old(
                r,
            ).records(*final(r), Record::Pass, "RTC readable"),
            RtcStage::SecondRead { first } => match outcome {
                StepOutcome::Time(t) => next == (RtcStage::Done { time: Some(t) }) && old(
                    r,
                ).records(
                    *final(r),
                    if 1 <= t - first <= 3 {
                        Record::Pass
                    } else {
                        Record::Fail
                    },
                    "RTC ticking",
                ),
                _ => next == (RtcStage::Done { time: None }) && old(r).records(
                    *final(r),
                    Record::Fail,
                    "RTC ticking",
                ),
            },
            RtcStage::Done { .. } => next == stage && old(r).records(
                *final(r),
                Record::Nothing,
                "RTC ticking",
            ),
        },
{
    let (next, rec, name) = match stage {
        RtcStage::LostPower => (RtcStage::FirstRead, Record::Nothing, "RTC readable"),
        RtcStage::FirstRead => match outcome {
            StepOutcome::Time(t) => (RtcStage::Datetime { first: t }, Record::Nothing, "RTC readable"),
            _ => (RtcStage::Done { time: None }, Record::Fail, "RTC readable"),
        },
        RtcStage::Datetime { first } => (RtcStage::SecondRead { first }, Record::Pass, "RTC readable"),
        RtcStage::SecondRead { first } => match outcome {
            StepOutcome::Time(t) => {
                let rec = if rtc_ticking(first, t) {
                    Record::Pass
                } else {
                    Record::Fail
                };
                (RtcStage::Done { time: Some(t) }, rec, "RTC ticking")
            },
            _ => (RtcStage::Done { time: None }, Record::Fail, "RTC ticking"),
        },
        RtcStage::Done { .. } => (stage, Record::Nothing, "RTC ticking"),
    };
    r.record(rec, name);
    next
}

/// The stages of a light sensor check.
#[derive(Debug, Clone, Copy, PartialEq, Eq, Structural)]
pub enum LightStage {
    /// `init` the sensor (device id check, continuous conversions).
    Init,
    /// Read a raw result.
    FirstRead,
    /// Wait 250 ms (a new conversion is due), then read a raw result again.
    SecondRead { counter_before: u16 },
    Done,
}

/// One step of a light sensor check `name`: a failed `init` or read fails the
/// check; after two readings, the verdict of [`light_verdict`] on the second
/// reading's range and the two sample counters passes or fails it.
pub fn light_check_step(stage: LightStage, outcome: StepOutcome, name: &'static str, r: &mut Results) -> (next: LightStage)
    requires
        old(r).has_room(),
    ensures
        old(r).wf() ==> final(r).wf(),
        match stage {
            LightStage::Init => if outcome is Failed {
                next == LightStage::Done && old(r).records(*final(r), Record::Fail, name)
            } else {
                next == LightStage::FirstRead && old(r).records(*final(r), Record::Nothing, name)
            },
            LightStage::FirstRead => match outcome {
                StepOutcome::Light { counter, .. } => next == (LightStage::SecondRead {
                    counter_before: counter,
                }) && old(r).records(*final(r), Record::Nothing, name),
                _ => next == LightStage::Done && old(r).records(*final(r), Record::Fail, name),
            },
            LightStage::SecondRead { counter_before } => next == LightStage::Done && old(r).records(
                *final(r),
                match outcome {
                    StepOutcome::Light { counter, in_range } => if in_range && counter
                        != counter_before {
                        Record::Pass
                    } else {
                        Record::Fail
                    },
                    _ => Record::Fail,
                },
                name,
            ),
            LightStage::Done => next == LightStage::Done && old(r).records(
                *final(r),
                Record::Nothing,
                name,
            ),
        },
{
    let (next, rec) = match stage {
        LightStage::Init => match outcome {
            StepOutcome::Failed => (LightStage::Done, Record::Fail),
            _ => (LightStage::FirstRead, Record::Nothing),
        },
        LightStage::FirstRead => match outcome {
            StepOutcome::Light { counter, .. } => (
                LightStage::SecondRead { counter_before: counter },
                Record::Nothing,
            ),
            _ => (LightStage::Done, Record::Fail),
        },
        LightStage::SecondRead { counter_before } => match outcome {
            StepOutcome::Light { counter, in_range } => match light_verdict(
                in_range,
                counter_before,
                counter,
            ) {
                LightVerdict::Live => (LightStage::Done, Record::Pass),
                _ => (LightStage::Done, Record::Fail),
            },
            _ => (LightStage::Done, Record::Fail),
        },
        LightStage::Done => (LightStage::Done, Record::Nothing),
    };
    r.record(rec, name);
    next
}

/// The stages of a power monitor check.
#[derive(Debug, Clone, Copy, PartialEq, Eq, Structural)]
pub enum MonitorStage {
    /// Start continuous voltage and current conversions.
    Config,
    /// Wait 50 ms, then read the voltage and current; the outcome is
    /// `InRange(true)` when both lie in the expected ranges.
    Read,
    Done,
}

/// One step of a power monitor check `name`: a failed configuration or read
/// fails it; a reading passes it when in range, and fails it otherwise.
pub fn monitor_check_step(stage: MonitorStage, outcome: StepOutcome, name: &'static str, r: &mut Results) -> (next: MonitorStage)
    requires
        old(r).has_room(),
    ensures
        old(r).wf() ==> final(r).wf(),
        match stage {
            MonitorStage::Config => if outcome is Failed {
                next == MonitorStage::Done && old(r).records(*final(r), Record::Fail, name)
            } else {
                next == MonitorStage::Read && old(r).records(*final(r), Record::Nothing, name)
            },
            MonitorStage::Read => next == MonitorStage::Done && old(r).records(
                *final(r),
                if outcome matches StepOutcome::InRange(true) {
                    Record::Pass
                } else {
                    Record::Fail
                },
                name,
            ),
            MonitorStage::Done => next == MonitorStage::Done && old(r).records(
                *final(r),
                Record::Nothing,
                name,
            ),
        },
{
    let (next, rec) = match stage {
        MonitorStage::Config => match outcome {
            StepOutcome::Failed => (MonitorStage::Done, Record::Fail),
            _ => (MonitorStage::Read, Record::Nothing),
        },
        MonitorStage::Read => match outcome {
            StepOutcome::InRange(true) => (MonitorStage::Done, Record::Pass),
            _ => (MonitorStage::Done, Record::Fail),
        },
        MonitorStage::Done => (MonitorStage::Done, Record::Nothing),
    };
    r.record(rec, name);
    next
}

/// The stages of the burn wire driver check. Nothing in it fires a wire.
#[derive(Debug, Clone, Copy, PartialEq, Eq, Structural)]
pub enum BurnwireStage {
    /// `init` the driver: every channel off, the supply channel too.
    Init,
    /// Read LEDOUT back.
    ReadLedout,
    /// Read MODE1 back; `ledout` is what LEDOUT read, if it could be read.
    ReadMode1 { ledout: Option<u8> },
    Done,
}

/// One step of the burn wire driver check "BURN_WIRE": a failed `init` fails
/// it; after reading LEDOUT and MODE1 back it passes when both reads worked and
/// [`burnwire_state`] finds every channel off and the chip awake.
pub fn burnwire_check_step(stage: BurnwireStage, outcome: StepOutcome, r: &mut Results) -> (next: BurnwireStage)
    requires
        old(r).has_room(),
    ensures
        old(r).wf() ==> final(r).wf(),
        match stage {
            BurnwireStage::Init => if outcome is Failed {
                next == BurnwireStage::Done && old(r).records(*final(r), Record::Fail, "BURN_WIRE")
            } else {
                next == BurnwireStage::ReadLedout && old(r).records(
                    *final(r),
                    Record::Nothing,
                    "BURN_WIRE",
                )
            },
            BurnwireStage::ReadLedout => old(r).records(*final(r), Record::Nothing, "BURN_WIRE")
                && next == (BurnwireStage::ReadMode1 {
                ledout: match outcome {
                    StepOutcome::Byte(b) => Some(b),
                    _ => None,
                },
            }),
            BurnwireStage::ReadMode1 { ledout } => next == BurnwireStage::Done && old(r).records(
                *final(r),
                match (ledout, outcome) {
                    (Some(l), StepOutcome::Byte(m)) => if l == 0x55 && m & 0x10 == 0 {
                        Record::Pass
                    } else {
                        Record::Fail
                    },
                    _ => Record::Fail,
                },
                "BURN_WIRE",
            ),
            BurnwireStage::Done => next == BurnwireStage::Done && old(r).records(
                *final(r),
                Record::Nothing,
                "BURN_WIRE",
            ),
        },
{
    let (next, rec) = match stage {
        BurnwireStage::Init => match outcome {
            StepOutcome::Failed => (BurnwireStage::Done, Record::Fail),
            _ => (BurnwireStage::ReadLedout, Record::Nothing),
        },
        BurnwireStage::ReadLedout => {
            let ledout = match outcome {
                StepOutcome::Byte(b) => Some(b),
                _ => None,
            };
            (BurnwireStage::ReadMode1 { ledout }, Record::Nothing)
        },
        BurnwireStage::ReadMode1 { ledout } => {
            let rec = match (ledout, outcome) {
                (Some(l), StepOutcome::Byte(m)) => {
                    let (all_off, awake) = burnwire_state(l, m);
                    if all_off && awake {
                        Record::Pass
                    } else {
                        Record::Fail
                    }
                },
                _ => Record::Fail,
            };
            (BurnwireStage::Done, rec)
        },
        BurnwireStage::Done => (BurnwireStage::Done, Record::Nothing),
    };
    r.record(rec, "BURN_WIRE");
    next
}

/// The stages of the SD card check.
#[derive(Debug, Clone, Copy, PartialEq, Eq, Structural)]
pub enum SdStage {
    /// Ask the card for its size.
    Present,
    /// Stamp new files with Unix time `unix_time` (from the clock check).
    SetTime { unix_time: u32 },
    /// Mount the card's first partition.
    Mount,
    /// Write the test file.
    Write,
    /// Read the test file back.
    ReadBack,
    /// Read the test file's entry (size and times, only reported).
    Metadata,
    Done,
}

/// One step of the SD card check: "SD card present" and "SD card mount" pass
/// or fail on their steps, a failure ending the check; after a present card,
/// files are stamped with the clock check's time when it gave one
/// ([`file_time_from_rtc`]); "SD card write/read" fails on a failed write or
/// read or contents other than `expected`, and passes after the file's entry
/// was read.
pub fn sdcard_check_step(
    stage: SdStage,
    outcome: StepOutcome,
    rtc_time: Option<i64>,
    expected: &[u8],
    r: &mut Results,
) -> (next: SdStage)
    requires
        old(r).has_room(),
    ensures
        old(r).wf() ==> final(r).wf(),
        match stage {
            SdStage::Present => if outcome is Failed {
                next == SdStage::Done && old(r).records(*final(r), Record::Fail, "SD card present")
            } else {
                old(r).records(*final(r), Record::Pass, "SD card present") && next == match rtc_time {
                    Some(ts) => if ts > 0 {
                        SdStage::SetTime { unix_time: ts as u32 }
                    } else {
                        SdStage::Mount
                    },
                    None => SdStage::Mount,
                }
            },
            SdStage::SetTime { .. } => next == SdStage::Mount && old(r).records(
                *final(r),
                Record::Nothing,
                "SD card mount",
            ),
            SdStage::Mount => if outcome is Failed {
                next == SdStage::Done && old(r).records(*final(r), Record::Fail, "SD card mount")
            } else {
                next == SdStage::Write && old(r).records(*final(r), Record::Pass, "SD card mount")
            },
            SdStage::Write => if outcome is Failed {
                next == SdStage::Done && old(r).records(
                    *final(r),
                    Record::Fail,
                    "SD card write/read",
                )
            } else {
                next == SdStage::ReadBack && old(r).records(
                    *final(r),
                    Record::Nothing,
                    "SD card write/read",
                )
            },
            SdStage::ReadBack => if outcome matches StepOutcome::Bytes(b) && b@ == expected@ {
                next == SdStage::Metadata && old(r).records(
                    *final(r),
                    Record::Nothing,
                    "SD card write/read",
                )
            } else {
                next == SdStage::Done && old(r).records(
                    *final(r),
                    Record::Fail,
                    "SD card write/read",
                )
            },
            SdStage::Metadata => next == SdStage::Done && old(r).records(
                *final(r),
                Record::Pass,
                "SD card write/read",
            ),
            SdStage::Done => next == SdStage::Done && old(r).records(
                *final(r),
                Record::Nothing,
                "SD card write/read",
            ),
        },
{
    let failed = match outcome {
        StepOutcome::Failed => true,
        _ => false,
    };
    let (next, rec, name) = match stage {
        SdStage::Present => if failed {
            (SdStage::Done, Record::Fail, "SD card present")
        } else {
            let next = match file_time_from_rtc(rtc_time) {
                Some(ts) => SdStage::SetTime { unix_time: ts },
                None => SdStage::Mount,
            };
            (next, Record::Pass, "SD card present")
        },
        SdStage::SetTime { .. } => (SdStage::Mount, Record::Nothing, "SD card mount"),
        SdStage::Mount => if failed {
            (SdStage::Done, Record::Fail, "SD card mount")
        } else {
            (SdStage::Write, Record::Pass, "SD card mount")
        },
        SdStage::Write => if failed {
            (SdStage::Done, Record::Fail, "SD card write/read")
        } else {
            (SdStage::ReadBack, Record::Nothing, "SD card write/read")
        },
        SdStage::ReadBack => {
            let matches = match &outcome {
                StepOutcome::Bytes(b) => {
                    let m = readback_matches(b.as_slice(), b.len(), expected);
                    proof {
                        assert(b@.subrange(0, b@.len() as int) =~= b@);
                    }
                    m
                },
                _ => false,
            };
            if matches {
                (SdStage::Metadata, Record::Nothing, "SD card write/read")
            } else {
                (SdStage::Done, Record::Fail, "SD card write/read")
            }
        },
        SdStage::Metadata => (SdStage::Done, Record::Pass, "SD card write/read"),
        SdStage::Done => (SdStage::Done, Record::Nothing, "SD card write/read"),
    };
    r.record(rec, name);
    next
}

/// Whether the check `name` of the device at `addr` runs: it does when the
/// device answered the bus scan, and is skipped otherwise.
pub fn begin_check(found: &Found, addr: u8, name: &'static str, r: &mut Results) -> (run: bool)
    requires
        old(r).has_room(),
    ensures
        old(r).wf() ==> final(r).wf(),
        run == found.spec_addrs().contains(addr),
        old(r).records(
            *final(r),
            if run {
                Record::Nothing
            } else {
                Record::Skip
            },
            name,
        ),
{
    let run = found.contains(addr);
    r.record(
        if run {
            Record::Nothing
        } else {
            Record::Skip
        },
        name,
    );
    run
}

} // verus!
