//! The scan aggregator: the decision logic of the bounded scan window.
//!
//! On each tick the driver queries the BLE collaborator for the currently
//! visible devices and hands every device's manufacturer data to the
//! aggregator, which decodes it and keeps the most recent successfully
//! decoded reading per device colour; a record that fails to decode is
//! skipped silently and never aborts the scan. After each tick the driver
//! asks for the stop decision: the scan stops once the number of distinct
//! colours collected reaches the target count, or once the elapsed time
//! reaches the deadline; a hard failure of the collaborator stops it as
//! fatal. The loop itself, with its waiting and its start-scan and
//! stop-scan calls, lives with the driver; everything the loop decides is
//! here.

use vstd::prelude::*;

use crate::catalog;
use crate::tilt::{Error, Tilt};
use crate::tilt;
use std::collections::HashMap;

verus! {

/// Why a scan ended.
#[derive(Debug, Clone, Copy, PartialEq, Eq, Structural)]
pub enum StopReason {
    /// The target count of distinct colours was collected.
    TargetReached,
    /// The deadline elapsed first.
    TimedOut,
    /// The BLE collaborator failed hard after the scan started.
    Fatal,
}

/// What one turn of the driver's loop reports to the aggregator: either
/// the progress made by a tick, or the loss of the collaborator.
#[derive(Debug, Clone, Copy, PartialEq, Eq, Structural)]
pub enum ScanEvent {
    /// A tick completed; `count` distinct colours are collected and
    /// `elapsed` time has passed since the scan started.
    Progress { count: usize, elapsed: u64 },
    /// The collaborator failed hard.
    AdapterLost,
}

/// The state of one scan: the readings collected so far, one slot per
/// catalog colour holding the latest `(fahrenheit, milli_gravity)` pair,
/// the stop parameters, and the stop decision once one was taken.
pub struct ScanState {
    readings: Vec<Option<(u16, u16)>>,
    target: usize,
    deadline: u64,
    stopped: Option<StopReason>,
}

/// How many slots hold a reading.
pub open spec fn spec_count(s: Seq<Option<(u16, u16)>>) -> nat
    decreases s.len(),
{
    if s.len() == 0 {
        0
    } else {
        spec_count(s.drop_last()) + if s.last() is Some {
            1nat
        } else {
            0nat
        }
    }
}

/// One decode outcome applied to the slots: a successful decode overwrites
/// the slot of its colour with the decoded fields, a failed one changes
/// nothing.
pub open spec fn spec_slot_update(
    s: Seq<Option<(u16, u16)>>,
    d: Result<(int, int, int), Error>,
) -> Seq<Option<(u16, u16)>> {
    match d {
        Ok((color, major, minor)) => s.update(color, Some((major as u16, minor as u16))),
        Err(_) => s,
    }
}

/// One whole tick applied to the slots: every device's manufacturer data
/// decoded and applied, in the order the devices were listed.
pub open spec fn spec_observe_all(
    s: Seq<Option<(u16, u16)>>,
    devices: Seq<HashMap<u16, Vec<u8>>>,
) -> Seq<Option<(u16, u16)>>
    decreases devices.len(),
{
    if devices.len() == 0 {
        s
    } else {
        spec_slot_update(
            spec_observe_all(s, devices.drop_last()),
            tilt::spec_try_from(devices.last()@),
        )
    }
}

/// The stop decision after a tick: stop once the collected count reaches
/// the target, else once the elapsed time reaches the deadline, else
/// carry on.
pub open spec fn spec_stop(count: int, target: int, elapsed: int, deadline: int) -> Option<
    StopReason,
> {
    if count >= target {
        Some(StopReason::TargetReached)
    } else if elapsed >= deadline {
        Some(StopReason::TimedOut)
    } else {
        None
    }
}

/// The readings of a finished scan, in colour order: one `(colour,
/// fahrenheit, milli_gravity)` triple per filled slot.
pub open spec fn spec_results(s: Seq<Option<(u16, u16)>>) -> Seq<(int, u16, u16)>
    decreases s.len(),
{
    if s.len() == 0 {
        Seq::empty()
    } else {
        match s.last() {
            Some(fg) => spec_results(s.drop_last()).push(((s.len() - 1) as int, fg.0, fg.1)),
            None => spec_results(s.drop_last()),
        }
    }
}

impl ScanState {
    /// The collected slots, one per catalog colour.
    pub closed spec fn readings_view(self) -> Seq<Option<(u16, u16)>> {
        self.readings@
    }

    /// The target count of distinct colours.
    pub closed spec fn spec_target(self) -> int {
        self.target as int
    }

    /// The deadline, in the driver's elapsed-time unit.
    pub closed spec fn spec_deadline(self) -> int {
        self.deadline as int
    }

    /// The stop decision, once one was taken.
    pub closed spec fn stop_state(self) -> Option<StopReason> {
        self.stopped
    }

    /// Whether the scan is still running.
    pub open spec fn scanning(self) -> bool {
        self.stop_state() is None
    }

    /// What every reachable scan state satisfies: one slot per catalog
    /// colour, and every filled slot holds fields that passed the
    /// decoder's range checks.
    pub open spec fn wf(self) -> bool {
        &&& self.readings_view().len() == catalog::CATALOG_LEN
        &&& forall|c: int|
            0 <= c < catalog::CATALOG_LEN ==> ((#[trigger] self.readings_view()[c]) matches Some(
                fg,
            ) ==> tilt::MIN_FAHRENHEIT <= fg.0 < tilt::MAX_FAHRENHEIT
                && tilt::MIN_MILLI_GRAVITY <= fg.1 < tilt::MAX_MILLI_GRAVITY)
    }

    /// A fresh scan: nothing collected, no stop decision taken.
    pub fn new(target: usize, deadline: u64) -> (s: ScanState)
        ensures
            s.wf(),
            s.scanning(),
            s.spec_target() == target,
            s.spec_deadline() == deadline,
            forall|c: int| 0 <= c < catalog::CATALOG_LEN ==> (#[trigger] s.readings_view()[c]) is None,
    {
        let mut readings: Vec<Option<(u16, u16)>> = Vec::new();
        let mut i: usize = 0;
        while i < catalog::CATALOG_LEN
            invariant
                0 <= i <= catalog::CATALOG_LEN,
                readings@.len() == i,
                forall|c: int| 0 <= c < i ==> (#[trigger] readings@[c]) is None,
            decreases catalog::CATALOG_LEN - i,
        {
            readings.push(None);
            i += 1;
        }
        ScanState { readings, target, deadline, stopped: None }
    }

    /// Apply one device's manufacturer data: on a successful decode the
    /// slot of the decoded colour is overwritten with the new reading, so
    /// the latest successful decode per colour wins; on a failed decode
    /// nothing changes and the scan carries on.
    pub fn observe(&mut self, manufacturer_data: &HashMap<u16, Vec<u8>>)
        requires
            old(self).wf(),
            old(self).scanning(),
        ensures
            final(self).wf(),
            final(self).scanning(),
            final(self).readings_view() == spec_slot_update(
                old(self).readings_view(),
                tilt::spec_try_from(manufacturer_data@),
            ),
            final(self).spec_target() == old(self).spec_target(),
            final(self).spec_deadline() == old(self).spec_deadline(),
    {
        match Tilt::try_from(manufacturer_data) {
            Err(_) => (),
            Ok(t) => {
                self.readings.set(t.color, Some((t.fahrenheit, t.milli_gravity)));
            },
        }
    }

    /// How many distinct colours are collected.
    pub fn distinct_count(&self) -> (n: usize)
        requires
            self.wf(),
        ensures
            n == spec_count(self.readings_view()),
    {
        let mut n: usize = 0;
        let mut i: usize = 0;
        while i < catalog::CATALOG_LEN
            invariant
                self.wf(),
                0 <= i <= catalog::CATALOG_LEN,
                n == spec_count(self.readings_view().take(i as int)),
                n <= i,
            decreases catalog::CATALOG_LEN - i,
        {
            proof {
                let s = self.readings_view();
                assert(s.take(i + 1).drop_last() =~= s.take(i as int));
                assert(s.take(i + 1).last() == s[i as int]);
            }
            if self.readings[i].is_some() {
                n += 1;
            }
            i += 1;
        }
        proof {
            assert(self.readings_view().take(catalog::CATALOG_LEN as int)
                =~= self.readings_view());
        }
        n
    }

    /// The stop decision after a tick, given the elapsed time: stop with
    /// `TargetReached` once the collected count reaches the target, else
    /// with `TimedOut` once the elapsed time reaches the deadline, else
    /// keep scanning. Taking the decision is what moves the state out of
    /// scanning, and it happens at most once per scan.
    pub fn check_stop(&mut self, elapsed: u64) -> (r: Option<StopReason>)
        requires
            old(self).wf(),
            old(self).scanning(),
        ensures
            final(self).wf(),
            final(self).readings_view() == old(self).readings_view(),
            final(self).spec_target() == old(self).spec_target(),
            final(self).spec_deadline() == old(self).spec_deadline(),
            r == spec_stop(
                spec_count(old(self).readings_view()) as int,
                old(self).spec_target(),
                elapsed as int,
                old(self).spec_deadline(),
            ),
            final(self).stop_state() == r,
    {
        let count = self.distinct_count();
        let r = if count >= self.target {
            Some(StopReason::TargetReached)
        } else if elapsed >= self.deadline {
            Some(StopReason::TimedOut)
        } else {
            None
        };
        self.stopped = r;
        r
    }

    /// A hard collaborator failure: the scan stops as fatal. The readings
    /// collected so far stay as they are.
    pub fn fatal(&mut self)
        requires
            old(self).wf(),
            old(self).scanning(),
        ensures
            final(self).wf(),
            final(self).readings_view() == old(self).readings_view(),
            final(self).spec_target() == old(self).spec_target(),
            final(self).spec_deadline() == old(self).spec_deadline(),
            final(self).stop_state() == Some(StopReason::Fatal),
    {
        self.stopped = Some(StopReason::Fatal);
    }

    /// One whole tick: apply every listed device's manufacturer data in
    /// order, then take the stop decision for the given elapsed time.
    pub fn tick(&mut self, devices: &Vec<HashMap<u16, Vec<u8>>>, elapsed: u64) -> (r: Option<
        StopReason,
    >)
        requires
            old(self).wf(),
            old(self).scanning(),
        ensures
            final(self).wf(),
            final(self).readings_view() == spec_observe_all(old(self).readings_view(), devices@),
            final(self).spec_target() == old(self).spec_target(),
            final(self).spec_deadline() == old(self).spec_deadline(),
            r == spec_stop(
                spec_count(final(self).readings_view()) as int,
                old(self).spec_target(),
                elapsed as int,
                old(self).spec_deadline(),
            ),
            final(self).stop_state() == r,
            final(self).stop_state() == spec_event_step(
                old(self).stop_state(),
                old(self).spec_target(),
                old(self).spec_deadline(),
                ScanEvent::Progress {
                    count: spec_count(final(self).readings_view()) as usize,
                    elapsed,
                },
            ),
    {
        let n = devices.len();
        let mut i: usize = 0;
        while i < n
            invariant
                self.wf(),
                self.scanning(),
                n == devices@.len(),
                0 <= i <= n,
                self.readings_view() == spec_observe_all(
                    old(self).readings_view(),
                    devices@.take(i as int),
                ),
                self.spec_target() == old(self).spec_target(),
                self.spec_deadline() == old(self).spec_deadline(),
            decreases n - i,
        {
            proof {
                assert(devices@.take(i + 1).drop_last() =~= devices@.take(i as int));
                assert(devices@.take(i + 1).last() == devices@[i as int]);
            }
            self.observe(&devices[i]);
            i += 1;
        }
        proof {
            assert(devices@.take(n as int) =~= devices@);
            lemma_count_le_len(self.readings_view());
        }
        self.check_stop(elapsed)
    }

    /// The collected readings, one per filled slot, in colour order, each
    /// carrying its resolved colour name.
    pub fn results(&self) -> (v: Vec<Tilt>)
        requires
            self.wf(),
        ensures
            v@.len() == spec_results(self.readings_view()).len(),
            forall|i: int|
                0 <= i < v@.len() ==> {
                    let entry = spec_results(self.readings_view())[i];
                    &&& (#[trigger] v@[i]).wf()
                    &&& v@[i].color == entry.0
                    &&& v@[i].fahrenheit == entry.1
                    &&& v@[i].milli_gravity == entry.2
                },
    {
        let mut v: Vec<Tilt> = Vec::new();
        let mut color: usize = 0;
        while color < catalog::CATALOG_LEN
            invariant
                self.wf(),
                0 <= color <= catalog::CATALOG_LEN,
                v@.len() == spec_results(self.readings_view().take(color as int)).len(),
                forall|i: int|
                    0 <= i < v@.len() ==> {
                        let entry = spec_results(self.readings_view().take(color as int))[i];
                        &&& (#[trigger] v@[i]).wf()
                        &&& v@[i].color == entry.0
                        &&& v@[i].fahrenheit == entry.1
                        &&& v@[i].milli_gravity == entry.2
                    },
            decreases catalog::CATALOG_LEN - color,
        {
            proof {
                let s = self.readings_view();
                assert(s.take(color + 1).drop_last() =~= s.take(color as int));
                assert(s.take(color + 1).last() == s[color as int]);
            }
            match self.readings[color] {
                Some(fg) => {
                    let name = catalog::color_name(color);
                    v.push(Tilt { name, color, fahrenheit: fg.0, milli_gravity: fg.1 });
                },
                None => (),
            }
            color += 1;
        }
        proof {
            assert(self.readings_view().take(catalog::CATALOG_LEN as int)
                =~= self.readings_view());
        }
        v
    }

    /// Whether the scan is still running.
    pub fn is_scanning(&self) -> (r: bool)
        ensures
            r == self.scanning(),
    {
        self.stopped.is_none()
    }

    /// The stop decision, once one was taken.
    pub fn stop_reason(&self) -> (r: Option<StopReason>)
        ensures
            r == self.stop_state(),
    {
        self.stopped
    }
}

/// A scan never holds more readings than it has slots.
pub proof fn lemma_count_le_len(s: Seq<Option<(u16, u16)>>)
    ensures
        spec_count(s) <= s.len(),
    decreases s.len(),
{
    if s.len() > 0 {
        lemma_count_le_len(s.drop_last());
    }
}

/// A scan collects as many readings as it has filled slots.
pub proof fn lemma_results_count(s: Seq<Option<(u16, u16)>>)
    ensures
        spec_results(s).len() == spec_count(s),
    decreases s.len(),
{
    if s.len() > 0 {
        lemma_results_count(s.drop_last());
    }
}

/// Every collected reading comes from a filled slot: an entry's colour
/// indexes its own slot, and its fields are exactly what that slot holds.
pub proof fn lemma_results_sound(s: Seq<Option<(u16, u16)>>, i: int)
    requires
        0 <= i < spec_results(s).len(),
    ensures
        ({
            let entry = spec_results(s)[i];
            &&& 0 <= entry.0 < s.len()
            &&& s[entry.0] == Some((entry.1, entry.2))
        }),
    decreases s.len(),
{
    if s.len() > 0 {
        match s.last() {
            Some(_) => {
                if i < spec_results(s).len() - 1 {
                    lemma_results_sound(s.drop_last(), i);
                }
            },
            None => {
                lemma_results_sound(s.drop_last(), i);
            },
        }
    }
}

/// Every filled slot is collected: a reading stored for a colour appears
/// among the results.
pub proof fn lemma_results_complete(s: Seq<Option<(u16, u16)>>, c: int)
    requires
        0 <= c < s.len(),
        s[c] is Some,
    ensures
        ({
            let fg = s[c]->0;
            exists|i: int|
                0 <= i < spec_results(s).len() && #[trigger] spec_results(s)[i] == (
                    c,
                    fg.0,
                    fg.1,
                )
        }),
    decreases s.len(),
{
    let fg = s[c]->0;
    if c == s.len() - 1 {
        assert(spec_results(s)[spec_results(s).len() - 1] == (c, fg.0, fg.1));
    } else {
        lemma_results_complete(s.drop_last(), c);
        let i = choose|i: int|
            0 <= i < spec_results(s.drop_last()).len() && #[trigger] spec_results(
                s.drop_last(),
            )[i] == (c, fg.0, fg.1);
        assert(spec_results(s)[i] == (c, fg.0, fg.1));
    }
}

/// The results are deduplicated per device: their colours are strictly
/// increasing, so no colour, and by the catalog's unique names no name,
/// appears twice.
pub proof fn lemma_results_distinct(s: Seq<Option<(u16, u16)>>, i: int, j: int)
    requires
        0 <= i < j < spec_results(s).len(),
    ensures
        spec_results(s)[i].0 < spec_results(s)[j].0,
    decreases s.len(),
{
    lemma_results_sound(s, i);
    lemma_results_sound(s, j);
    if s.len() > 0 {
        match s.last() {
            Some(_) => {
                if j < spec_results(s).len() - 1 {
                    lemma_results_distinct(s.drop_last(), i, j);
                } else {
                    lemma_results_sound(s.drop_last(), i);
                }
            },
            None => {
                lemma_results_distinct(s.drop_last(), i, j);
            },
        }
    }
}

/// Last writer wins: two successful decodes of the same colour leave the
/// slots as if only the later one had been observed.
pub proof fn lemma_last_writer_wins(
    s: Seq<Option<(u16, u16)>>,
    color: int,
    first: (int, int),
    second: (int, int),
)
    requires
        0 <= color < s.len(),
    ensures
        spec_slot_update(
            spec_slot_update(s, Ok((color, first.0, first.1))),
            Ok((color, second.0, second.1)),
        ) == spec_slot_update(s, Ok((color, second.0, second.1))),
{
    assert(spec_slot_update(
        spec_slot_update(s, Ok((color, first.0, first.1))),
        Ok((color, second.0, second.1)),
    ) =~= spec_slot_update(s, Ok((color, second.0, second.1))));
}

/// One step of the session machine: a stopped session stays stopped with
/// the same reason; a running one stops as fatal when the collaborator is
/// lost, and otherwise takes the tick's stop decision.
pub open spec fn spec_event_step(
    st: Option<StopReason>,
    target: int,
    deadline: int,
    e: ScanEvent,
) -> Option<StopReason> {
    match st {
        Some(r) => Some(r),
        None => match e {
            ScanEvent::AdapterLost => Some(StopReason::Fatal),
            ScanEvent::Progress { count, elapsed } => spec_stop(
                count as int,
                target,
                elapsed as int,
                deadline,
            ),
        },
    }
}

/// The session machine run over a whole trace of events, first to last.
pub open spec fn spec_run(
    st: Option<StopReason>,
    target: int,
    deadline: int,
    events: Seq<ScanEvent>,
) -> Option<StopReason>
    decreases events.len(),
{
    if events.len() == 0 {
        st
    } else {
        spec_run(spec_event_step(st, target, deadline, events.first()), target, deadline,
            events.drop_first())
    }
}

/// How many steps of the trace move the session from running to stopped.
/// The driver issues its stop-scan call exactly on such a step, so this
/// counts the stop-scan calls a trace demands.
pub open spec fn spec_stop_transitions(
    st: Option<StopReason>,
    target: int,
    deadline: int,
    events: Seq<ScanEvent>,
) -> nat
    decreases events.len(),
{
    if events.len() == 0 {
        0
    } else {
        let st2 = spec_event_step(st, target, deadline, events.first());
        (if st is None && st2 is Some {
            1nat
        } else {
            0nat
        }) + spec_stop_transitions(st2, target, deadline, events.drop_first())
    }
}

/// A stopped session is terminal: no later event changes the reason, and
/// no later event demands another stop-scan call.
pub proof fn lemma_stopped_is_terminal(
    r: StopReason,
    target: int,
    deadline: int,
    events: Seq<ScanEvent>,
)
    ensures
        spec_run(Some(r), target, deadline, events) == Some(r),
        spec_stop_transitions(Some(r), target, deadline, events) == 0,
    decreases events.len(),
{
    if events.len() > 0 {
        lemma_stopped_is_terminal(r, target, deadline, events.drop_first());
    }
}

/// However a scan session runs, it demands the stop-scan call at most
/// once; and it demands it exactly once on every trace that ends with the
/// session stopped, whether the target was reached, the deadline elapsed,
/// or the collaborator was lost.
pub proof fn lemma_stop_scan_exactly_once(target: int, deadline: int, events: Seq<ScanEvent>)
    ensures
        spec_stop_transitions(None, target, deadline, events) <= 1,
        spec_run(None, target, deadline, events) is Some <==> spec_stop_transitions(
            None,
            target,
            deadline,
            events,
        ) == 1,
    decreases events.len(),
{
    if events.len() > 0 {
        let st2 = spec_event_step(None, target, deadline, events.first());
        match st2 {
            Some(r) => {
                lemma_stopped_is_terminal(r, target, deadline, events.drop_first());
            },
            None => {
                lemma_stop_scan_exactly_once(target, deadline, events.drop_first());
            },
        }
    }
}

} // verus!
