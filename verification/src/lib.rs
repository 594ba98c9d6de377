//! Performance-counter management and kernel ring-buffer record decoding.
//!
//! The library opens no kernel resources itself: every outcome of the raw
//! ABI's open, enable and read primitives (an opened descriptor, a count,
//! an error number) enters as a plain value, and the library's verified
//! logic decides what becomes of it. Callers drive the primitives and
//! hand the outcomes in; partial failure of a requested counter set is
//! surfaced as data, never as a blanket failure.

use vstd::prelude::*;

pub mod counter;
pub mod error;
pub mod events;
pub mod sample;

pub use counter::EventCounter;
pub use error::OpenError;
pub use error::PerfEventsError;
pub use events::Event;

use events::lemma_all_events_ids;
use events::lemma_id_injective;

verus! {

/// Selects which process a counter observes.
#[derive(Clone, Copy, Debug, PartialEq, Eq, Structural)]
pub enum PidConfig {
    /// Count events of the calling process.
    Current,
    /// Count events of the process with the given pid.
    Other(i32),
}

impl PidConfig {
    pub open spec fn raw_spec(self) -> i32 {
        match self {
            PidConfig::Current => 0,
            PidConfig::Other(p) => p,
        }
    }

    /// The process selector value the kernel's open primitive expects.
    pub fn raw(&self) -> (r: i32)
        ensures
            r == self.raw_spec(),
    {
        match *self {
            PidConfig::Current => 0,
            PidConfig::Other(p) => p,
        }
    }
}

/// Selects which CPUs a counter observes.
#[derive(Clone, Copy, Debug, PartialEq, Eq, Structural)]
pub enum CpuConfig {
    /// Count on every CPU.
    All,
    /// Count only on the CPU with the given index.
    Specific(i32),
}

impl CpuConfig {
    pub open spec fn raw_spec(self) -> i32 {
        match self {
            CpuConfig::All => -1i32,
            CpuConfig::Specific(c) => c,
        }
    }

    /// The CPU selector value the kernel's open primitive expects.
    pub fn raw(&self) -> (r: i32)
        ensures
            r == self.raw_spec(),
    {
        match *self {
            CpuConfig::All => -1,
            CpuConfig::Specific(c) => c,
        }
    }
}

/// The counters that opened when a requested set was created, in request
/// order. Request order is stable but not significant. A `Counts` is
/// never empty: construction fails instead of producing one with no
/// counter.
pub struct Counts {
    /// The opened counters, in request order.
    pub counters: Vec<EventCounter>,
}

/// The counters that open successfully among `events`, given the outcome
/// of the open primitive for each requested event: `opened[i]` is the
/// descriptor or the open error for `events[i]`.
pub open spec fn spec_successes(events: Seq<Event>, opened: Seq<Result<i32, OpenError>>) -> Seq<
    EventCounter,
>
    decreases events.len(),
{
    if events.len() == 0 {
        Seq::<EventCounter>::empty()
    } else {
        let rest = spec_successes(events.drop_last(), opened.drop_last());
        if opened[events.len() - 1] is Ok {
            rest.push(EventCounter { event: events.last(), fd: opened[events.len() - 1]->Ok_0 })
        } else {
            rest
        }
    }
}

/// The failure map built from the same outcomes: each requested event
/// that failed to open, paired with why, in request order.
pub open spec fn spec_failures(events: Seq<Event>, opened: Seq<Result<i32, OpenError>>) -> Seq<
    (Event, OpenError),
>
    decreases events.len(),
{
    if events.len() == 0 {
        Seq::<(Event, OpenError)>::empty()
    } else {
        let rest = spec_failures(events.drop_last(), opened.drop_last());
        if opened[events.len() - 1] is Err {
            rest.push((events.last(), opened[events.len() - 1]->Err_0))
        } else {
            rest
        }
    }
}

/// How many of the outcomes are successes.
pub open spec fn count_oks(opened: Seq<Result<i32, OpenError>>) -> int
    decreases opened.len(),
{
    if opened.len() == 0 {
        0
    } else {
        count_oks(opened.drop_last()) + if opened.last() is Ok {
            1int
        } else {
            0int
        }
    }
}

/// The best-effort snapshot a bulk read returns: each counter whose read
/// primitive succeeded contributes its event paired with the value read,
/// in counter order; failed reads are left out.
pub open spec fn spec_read_results(counters: Seq<EventCounter>, outcomes: Seq<Result<u64, i32>>) -> Seq<
    (Event, u64),
>
    decreases counters.len(),
{
    if counters.len() == 0 {
        Seq::<(Event, u64)>::empty()
    } else {
        let rest = spec_read_results(counters.drop_last(), outcomes.drop_last());
        if outcomes[counters.len() - 1] is Ok {
            rest.push((counters.last().event, outcomes[counters.len() - 1]->Ok_0))
        } else {
            rest
        }
    }
}

impl Counts {
    /// A non-empty set of counters.
    pub open spec fn wf(self) -> bool {
        self.counters@.len() > 0
    }

    /// Begins assembling a requested counter set for the given scope.
    pub fn new(pid: PidConfig, cpu: CpuConfig) -> (b: CountsBuilder)
        ensures
            b.pid == pid,
            b.cpu == cpu,
            b.to_count@ == Seq::<Event>::empty(),
            b.wf(),
    {
        CountsBuilder { pid, cpu, to_count: Vec::new() }
    }

    /// Enables every counter, one result per counter in request order.
    /// `outcomes[i]` is what the enable primitive reported for counter
    /// `i`; a failure on one counter never prevents attempting the next,
    /// and every failure is reported in place.
    pub fn start(&mut self, outcomes: Vec<Result<(), i32>>) -> (res: Vec<
        Result<(), PerfEventsError>,
    >)
        requires
            outcomes@.len() == old(self).counters@.len(),
        ensures
            final(self).counters@ == old(self).counters@,
            res@.len() == outcomes@.len(),
            forall|i: int|
                0 <= i < res@.len() ==> ((#[trigger] res@[i]) is Ok <==> outcomes@[i] is Ok),
            forall|i: int|
                0 <= i < res@.len() ==> (outcomes@[i] is Err ==> res@[i] == Result::<
                    (),
                    PerfEventsError,
                >::Err(PerfEventsError::EnableFailed { errno: outcomes@[i]->Err_0 })),
    {
        let mut res: Vec<Result<(), PerfEventsError>> = Vec::new();
        let n = self.counters.len();
        let mut i: usize = 0;
        while i < n
            invariant
                i <= n,
                n == self.counters@.len(),
                outcomes@.len() == n,
                self.counters@ == old(self).counters@,
                res@.len() == i,
                forall|j: int| 0 <= j < i ==> ((#[trigger] res@[j]) is Ok <==> outcomes@[j] is Ok),
                forall|j: int|
                    0 <= j < i ==> (outcomes@[j] is Err ==> res@[j] == Result::<
                        (),
                        PerfEventsError,
                    >::Err(PerfEventsError::EnableFailed { errno: outcomes@[j]->Err_0 })),
            decreases n - i,
        {
            let c = self.counters[i];
            let r = c.enable(outcomes[i]);
            res.push(r);
            i += 1;
        }
        res
    }

    /// Reads every counter, returning the best-effort snapshot: the
    /// event and cumulative count of each counter whose read primitive
    /// succeeded (`outcomes[i]` is what it reported for counter `i`), in
    /// counter order. A failed read drops that counter from the snapshot
    /// and nothing else.
    pub fn read(&mut self, outcomes: Vec<Result<u64, i32>>) -> (res: Vec<(Event, u64)>)
        requires
            outcomes@.len() == old(self).counters@.len(),
        ensures
            final(self).counters@ == old(self).counters@,
            res@ == spec_read_results(old(self).counters@, outcomes@),
    {
        let mut res: Vec<(Event, u64)> = Vec::new();
        let n = self.counters.len();
        let mut i: usize = 0;
        while i < n
            invariant
                i <= n,
                n == self.counters@.len(),
                outcomes@.len() == n,
                self.counters@ == old(self).counters@,
                res@ == spec_read_results(self.counters@.take(i as int), outcomes@.take(i as int)),
            decreases n - i,
        {
            let c = self.counters[i];
            match c.read(outcomes[i]) {
                Ok(pair) => res.push(pair),
                Err(_) => (),
            }
            i += 1;
            proof {
                assert(self.counters@.take(i as int).drop_last() =~= self.counters@.take(
                    i as int - 1,
                ));
                assert(outcomes@.take(i as int).drop_last() =~= outcomes@.take(i as int - 1));
                assert(self.counters@.take(i as int).last() == self.counters@[i as int - 1]);
            }
        }
        proof {
            assert(self.counters@.take(n as int) =~= self.counters@);
            assert(outcomes@.take(n as int) =~= outcomes@);
        }
        res
    }

    /// Requests every catalogued event for the current process across
    /// all CPUs, creates the set, and starts whatever opened. `opened`
    /// holds the open outcome for each catalogued event in catalogue
    /// order; `enables` the enable outcome for each counter that opened,
    /// in the same order. Fails only when no counter at all opened.
    pub fn start_all_available(
        opened: Vec<Result<i32, OpenError>>,
        enables: Vec<Result<(), i32>>,
    ) -> (r: Result<Counts, PerfEventsError>)
        requires
            opened@.len() == Event::all_events_spec().len(),
            enables@.len() == spec_successes(Event::all_events_spec(), opened@).len(),
        ensures
            r is Ok <==> spec_successes(Event::all_events_spec(), opened@).len() > 0,
            r is Ok ==> r->Ok_0.counters@ == spec_successes(Event::all_events_spec(), opened@),
            r is Ok ==> r->Ok_0.wf(),
            r is Err ==> r->Err_0 is StartError,
    {
        let builder = Counts::new(PidConfig::Current, CpuConfig::All).all_available();
        let (counts_res, _failures) = builder.create(opened);
        match counts_res {
            Ok(mut counts) => {
                let _ = counts.start(enables);
                Ok(counts)
            },
            Err(()) => Err(
                PerfEventsError::StartError {
                    inner: "No counters started successfully.".to_owned(),
                },
            ),
        }
    }
}

/// Creating a counter set partitions the requested events exactly:
/// there are as many counters as events that opened and one failure
/// entry for each event that did not, the failure map's keys are
/// exactly the events that failed with their reasons, and the
/// counters' events are exactly the events that opened with their
/// descriptors.
pub proof fn lemma_create_partitions(events: Seq<Event>, opened: Seq<Result<i32, OpenError>>)
    requires
        events.len() == opened.len(),
    ensures
        spec_successes(events, opened).len() == count_oks(opened),
        spec_failures(events, opened).len() == events.len() - count_oks(opened),
        forall|i: int|
            0 <= i < events.len() && opened[i] is Err ==> spec_failures(events, opened).contains(
                (#[trigger] events[i], opened[i]->Err_0),
            ),
        forall|j: int|
            0 <= j < spec_failures(events, opened).len() ==> (exists|i: int|
                0 <= i < events.len() && opened[i] is Err && #[trigger] spec_failures(
                    events,
                    opened,
                )[j] == (events[i], opened[i]->Err_0)),
        forall|i: int|
            0 <= i < events.len() && opened[i] is Ok ==> spec_successes(events, opened).contains(
                (EventCounter { event: #[trigger] events[i], fd: opened[i]->Ok_0 }),
            ),
        forall|j: int|
            0 <= j < spec_successes(events, opened).len() ==> (exists|i: int|
                0 <= i < events.len() && opened[i] is Ok && #[trigger] spec_successes(
                    events,
                    opened,
                )[j] == (EventCounter { event: events[i], fd: opened[i]->Ok_0 })),
    decreases events.len(),
{
    if events.len() > 0 {
        let n = events.len() - 1;
        let ev = events.drop_last();
        let op = opened.drop_last();
        lemma_create_partitions(ev, op);
        let sp = spec_successes(ev, op);
        let fp = spec_failures(ev, op);
        assert forall|i: int|
            0 <= i < events.len() && opened[i] is Err implies spec_failures(
            events,
            opened,
        ).contains((#[trigger] events[i], opened[i]->Err_0)) by {
            if i < n {
                assert(fp.contains((ev[i], op[i]->Err_0)));
                let j = choose|j: int| 0 <= j < fp.len() && fp[j] == (ev[i], op[i]->Err_0);
                assert(spec_failures(events, opened)[j] == (events[i], opened[i]->Err_0));
            } else {
                assert(spec_failures(events, opened).last() == (events[i], opened[i]->Err_0));
            }
        }
        assert forall|i: int|
            0 <= i < events.len() && opened[i] is Ok implies spec_successes(
            events,
            opened,
        ).contains(EventCounter { event: #[trigger] events[i], fd: opened[i]->Ok_0 }) by {
            if i < n {
                assert(sp.contains(EventCounter { event: ev[i], fd: op[i]->Ok_0 }));
                let j = choose|j: int|
                    0 <= j < sp.len() && sp[j] == EventCounter { event: ev[i], fd: op[i]->Ok_0 };
                assert(spec_successes(events, opened)[j] == EventCounter {
                    event: events[i],
                    fd: opened[i]->Ok_0,
                });
            } else {
                assert(spec_successes(events, opened).last() == EventCounter {
                    event: events[i],
                    fd: opened[i]->Ok_0,
                });
            }
        }
        assert forall|j: int|
            0 <= j < spec_failures(events, opened).len() implies exists|i: int|
            0 <= i < events.len() && opened[i] is Err && #[trigger] spec_failures(events, opened)[j]
                == (events[i], opened[i]->Err_0) by {
            if j < fp.len() {
                let i = choose|i: int| 0 <= i < ev.len() && op[i] is Err && fp[j] == (ev[i], op[i]->Err_0);
                assert(spec_failures(events, opened)[j] == (events[i], opened[i]->Err_0));
            } else {
                assert(opened[n] is Err);
                assert(spec_failures(events, opened)[j] == (events[n], opened[n]->Err_0));
            }
        }
        assert forall|j: int|
            0 <= j < spec_successes(events, opened).len() implies exists|i: int|
            0 <= i < events.len() && opened[i] is Ok && #[trigger] spec_successes(events, opened)[j]
                == EventCounter { event: events[i], fd: opened[i]->Ok_0 } by {
            if j < sp.len() {
                let i = choose|i: int|
                    0 <= i < ev.len() && op[i] is Ok && sp[j] == EventCounter {
                        event: ev[i],
                        fd: op[i]->Ok_0,
                    };
                assert(spec_successes(events, opened)[j] == EventCounter {
                    event: events[i],
                    fd: opened[i]->Ok_0,
                });
            } else {
                assert(opened[n] is Ok);
                assert(spec_successes(events, opened)[j] == EventCounter {
                    event: events[n],
                    fd: opened[n]->Ok_0,
                });
            }
        }
    }
}

/// When every requested event fails to open, no aggregate exists and
/// the failure map covers every requested event, in request order,
/// each with its reason.
pub proof fn lemma_create_all_fail(events: Seq<Event>, opened: Seq<Result<i32, OpenError>>)
    requires
        events.len() == opened.len(),
        forall|i: int| 0 <= i < opened.len() ==> (#[trigger] opened[i]) is Err,
    ensures
        spec_successes(events, opened).len() == 0,
        spec_failures(events, opened).len() == events.len(),
        forall|i: int|
            0 <= i < events.len() ==> #[trigger] spec_failures(events, opened)[i] == (
            events[i],
            opened[i]->Err_0,
            ),
    decreases events.len(),
{
    if events.len() > 0 {
        lemma_create_all_fail(events.drop_last(), opened.drop_last());
    }
}

/// A well-formed request set holds each event at most once, so each
/// requested event yields at most one counter and one failure entry.
pub proof fn lemma_requested_once(b: CountsBuilder)
    requires
        b.wf(),
    ensures
        forall|i: int, j: int|
            0 <= i < j < b.to_count@.len() ==> #[trigger] b.to_count@[i] != #[trigger] b.to_count@[j],
{
}

/// Cumulative counts never decrease. Two bulk reads with no
/// intervening activity see the same counters succeed; when the
/// kernel's cumulative counts have not gone down between them, the two
/// snapshots pair the same events in the same order and the second
/// value is at least the first, per event.
pub proof fn lemma_read_monotonic(
    counters: Seq<EventCounter>,
    first: Seq<Result<u64, i32>>,
    second: Seq<Result<u64, i32>>,
)
    requires
        first.len() == counters.len(),
        second.len() == counters.len(),
        forall|i: int| 0 <= i < counters.len() ==> ((#[trigger] first[i]) is Ok <==> second[i] is Ok),
        forall|i: int|
            0 <= i < counters.len() ==> (first[i] is Ok ==> first[i]->Ok_0 <= (
            #[trigger] second[i])->Ok_0),
    ensures
        spec_read_results(counters, first).len() == spec_read_results(counters, second).len(),
        forall|j: int|
            0 <= j < spec_read_results(counters, first).len() ==> (#[trigger] spec_read_results(
                counters,
                first,
            )[j]).0 == spec_read_results(counters, second)[j].0 && spec_read_results(
                counters,
                first,
            )[j].1 <= spec_read_results(counters, second)[j].1,
    decreases counters.len(),
{
    if counters.len() > 0 {
        lemma_read_monotonic(counters.drop_last(), first.drop_last(), second.drop_last());
        let r1 = spec_read_results(counters, first);
        let r2 = spec_read_results(counters, second);
        let p1 = spec_read_results(counters.drop_last(), first.drop_last());
        let p2 = spec_read_results(counters.drop_last(), second.drop_last());
        let n = counters.len() - 1;
        assert forall|j: int|
            0 <= j < r1.len() implies (#[trigger] r1[j]).0 == r2[j].0 && r1[j].1 <= r2[j].1 by {
            if j < p1.len() {
                assert(r1[j] == p1[j]);
                assert(r2[j] == p2[j]);
            } else {
                assert(first[n] is Ok);
            }
        }
    }
}

/// Accumulates a requested event set for one scope; consumed exactly
/// once by `create`. The requested events form a set: requesting an
/// event twice is the same as requesting it once.
#[derive(Debug)]
pub struct CountsBuilder {
    /// The process scope of every counter the set will hold.
    pub pid: PidConfig,
    /// The CPU scope of every counter the set will hold.
    pub cpu: CpuConfig,
    /// The requested events, kept sorted by ordering key and free of
    /// duplicates.
    pub to_count: Vec<Event>,
}

impl CountsBuilder {
    /// The requested events are strictly sorted by their ordering key,
    /// so each event is requested at most once.
    pub open spec fn wf(self) -> bool {
        forall|i: int, j: int|
            0 <= i < j < self.to_count@.len() ==> (#[trigger] self.to_count@[i]).id_spec() < (
            #[trigger] self.to_count@[j]).id_spec()
    }

    /// Adds one event to the pending request set. Requesting an event
    /// already in the set changes nothing.
    pub fn event(self, event: Event) -> (b: CountsBuilder)
        requires
            self.wf(),
        ensures
            b.wf(),
            b.pid == self.pid,
            b.cpu == self.cpu,
            forall|x: Event|
                #[trigger] b.to_count@.contains(x) <==> (self.to_count@.contains(x) || x == event),
            self.to_count@.contains(event) ==> b.to_count@ == self.to_count@,
            !self.to_count@.contains(event) ==> b.to_count@.len() == self.to_count@.len() + 1,
            (forall|x: Event| self.to_count@.contains(x) ==> x.id_spec() < event.id_spec())
                ==> b.to_count@ == self.to_count@.push(event),
    {
        let id = event.id();
        let n = self.to_count.len();
        let mut i: usize = 0;
        while i < n && self.to_count[i].id() < id
            invariant
                i <= n,
                n == self.to_count@.len(),
                id == event.id_spec(),
                self.wf(),
                forall|j: int| 0 <= j < i ==> (#[trigger] self.to_count@[j]).id_spec() < id,
            decreases n - i,
        {
            i += 1;
        }
        if i < n {
            let existing = self.to_count[i];
            if existing == event {
                proof {
                    assert(self.to_count@.contains(event));
                    assert(forall|x: Event|
                        self.to_count@.contains(x) ==> (#[trigger] self.to_count@.contains(x)));
                }
                return self;
            }
            proof {
                if existing.id_spec() == event.id_spec() {
                    lemma_id_injective(existing, event);
                }
                assert(existing.id_spec() > event.id_spec());
            }
        }
        proof {
            // the event is not yet requested: everything before position
            // i has a smaller key, everything from i on a larger one
            assert forall|j: int| 0 <= j < self.to_count@.len() implies (
            #[trigger] self.to_count@[j]).id_spec() != event.id_spec() by {
                if j >= i {
                    if j > i {
                        assert(self.to_count@[i as int].id_spec() < self.to_count@[j].id_spec());
                    }
                }
            }
            assert(!self.to_count@.contains(event)) by {
                if self.to_count@.contains(event) {
                    let k = choose|k: int|
                        0 <= k < self.to_count@.len() && self.to_count@[k] == event;
                    assert(self.to_count@[k].id_spec() != event.id_spec());
                }
            }
        }
        let ghost old_seq = self.to_count@;
        let mut b = self;
        b.to_count.insert(i, event);
        proof {
            let t = b.to_count@;
            assert(t == old_seq.insert(i as int, event));
            assert forall|p: int, q: int| 0 <= p < q < t.len() implies (
            #[trigger] t[p]).id_spec() < (#[trigger] t[q]).id_spec() by {
                assert(t.len() == old_seq.len() + 1);
                if p < i && q < i {
                } else if p < i && q == i {
                } else if p == i && q > i {
                    assert(t[q] == old_seq[q - 1]);
                    if q - 1 > i {
                        assert(old_seq[i as int].id_spec() < old_seq[q - 1].id_spec());
                    }
                } else if p < i && q > i {
                    assert(t[q] == old_seq[q - 1]);
                } else {
                    assert(t[p] == old_seq[p - 1]);
                    assert(t[q] == old_seq[q - 1]);
                }
            }
            assert forall|x: Event| #[trigger]
                t.contains(x) <==> (old_seq.contains(x) || x == event) by {
                if t.contains(x) {
                    let k = choose|k: int| 0 <= k < t.len() && t[k] == x;
                    if k < i {
                        assert(old_seq[k] == x);
                        assert(old_seq.contains(x));
                    } else if k == i {
                    } else {
                        assert(old_seq[k - 1] == x);
                        assert(old_seq.contains(x));
                    }
                }
                if old_seq.contains(x) {
                    let k = choose|k: int| 0 <= k < old_seq.len() && old_seq[k] == x;
                    if k < i {
                        assert(t[k] == x);
                    } else {
                        assert(t[k + 1] == x);
                    }
                    assert(t.contains(x));
                }
                if x == event {
                    assert(t[i as int] == x);
                    assert(t.contains(x));
                }
            }
            if (forall|x: Event| old_seq.contains(x) ==> x.id_spec() < event.id_spec()) {
                assert(i == old_seq.len()) by {
                    if i < old_seq.len() {
                        assert(old_seq.contains(old_seq[i as int]));
                    }
                }
                assert(t =~= old_seq.push(event));
            }
        }
        b
    }

    /// Adds every catalogued event to the pending request set.
    pub fn all_available(self) -> (b: CountsBuilder)
        requires
            self.wf(),
        ensures
            b.wf(),
            b.pid == self.pid,
            b.cpu == self.cpu,
            forall|x: Event|
                #[trigger] b.to_count@.contains(x) <==> (self.to_count@.contains(x)
                    || Event::all_events_spec().contains(x)),
            self.to_count@.len() == 0 ==> b.to_count@ == Event::all_events_spec(),
    {
        proof {
            lemma_all_events_ids();
        }
        let all = Event::all_events();
        let ghost orig = self.to_count@;
        let mut b = self;
        let mut i: usize = 0;
        while i < all.len()
            invariant
                i <= all@.len(),
                all@ == Event::all_events_spec(),
                b.wf(),
                b.pid == self.pid,
                b.cpu == self.cpu,
                forall|x: Event|
                    #[trigger] b.to_count@.contains(x) <==> (orig.contains(x) || all@.take(
                        i as int,
                    ).contains(x)),
                orig.len() == 0 ==> b.to_count@ == all@.take(i as int),
                forall|k: int|
                    0 <= k < all@.len() ==> (#[trigger] all@[k]).id_spec() == k,
            decreases all@.len() - i,
        {
            let e = all[i];
            let ghost before = b.to_count@;
            b = b.event(e);
            proof {
                assert(all@.take(i as int + 1).drop_last() =~= all@.take(i as int));
                assert(all@.take(i as int + 1).last() == all@[i as int]);
                assert forall|x: Event| #[trigger]
                    all@.take(i as int + 1).contains(x) <==> (all@.take(i as int).contains(x) || x
                        == e) by {
                    let t1 = all@.take(i as int + 1);
                    let t0 = all@.take(i as int);
                    if t1.contains(x) {
                        let k = choose|k: int| 0 <= k < t1.len() && t1[k] == x;
                        if k < i {
                            assert(t0[k] == x);
                            assert(t0.contains(x));
                        } else {
                            assert(x == e);
                        }
                    }
                    if t0.contains(x) {
                        let k = choose|k: int| 0 <= k < t0.len() && t0[k] == x;
                        assert(t1[k] == x);
                        assert(t1.contains(x));
                    }
                    if x == e {
                        assert(t1[i as int] == x);
                        assert(t1.contains(x));
                    }
                }
                if orig.len() == 0 {
                    // every event already requested has a smaller key, so
                    // this one is appended
                    assert forall|x: Event| before.contains(x) implies x.id_spec()
                        < e.id_spec() by {
                        assert(all@.take(i as int).contains(x));
                        let k = choose|k: int|
                            0 <= k < all@.take(i as int).len() && all@.take(i as int)[k] == x;
                        assert(all@[k] == x);
                    }
                    assert(b.to_count@ == before.push(e));
                    assert(before.push(e) =~= all@.take(i as int + 1));
                }
            }
            i += 1;
        }
        proof {
            assert(all@.take(all@.len() as int) =~= all@);
        }
        b
    }

    /// Attempts to open one counter per requested event, independently.
    /// `opened[i]` is the open primitive's outcome for the `i`-th
    /// requested event. The results are partitioned: the counters that
    /// opened (the aggregate, which exists if and only if at least one
    /// opened — partial success is the expected common case), and the
    /// failure map of every event that did not, with why (present if and
    /// only if at least one failed). The two are independent.
    pub fn create(self, opened: Vec<Result<i32, OpenError>>) -> (r: (
        Result<Counts, ()>,
        Result<(), Vec<(Event, OpenError)>>,
    ))
        requires
            opened@.len() == self.to_count@.len(),
        ensures
            r.0 is Ok <==> spec_successes(self.to_count@, opened@).len() > 0,
            r.0 is Ok ==> r.0->Ok_0.counters@ == spec_successes(self.to_count@, opened@),
            r.0 is Ok ==> r.0->Ok_0.wf(),
            r.1 is Err <==> spec_failures(self.to_count@, opened@).len() > 0,
            r.1 is Err ==> r.1->Err_0@ == spec_failures(self.to_count@, opened@),
    {
        let mut counters: Vec<EventCounter> = Vec::new();
        let mut failures: Vec<(Event, OpenError)> = Vec::new();
        let n = self.to_count.len();
        let mut i: usize = 0;
        while i < n
            invariant
                i <= n,
                n == self.to_count@.len(),
                opened@.len() == n,
                counters@ == spec_successes(self.to_count@.take(i as int), opened@.take(i as int)),
                failures@ == spec_failures(self.to_count@.take(i as int), opened@.take(i as int)),
            decreases n - i,
        {
            let event = self.to_count[i];
            match opened[i] {
                Ok(fd) => {
                    let c = EventCounter::new(event, fd);
                    counters.push(c);
                },
                Err(why) => {
                    failures.push((event, why));
                },
            }
            i += 1;
            proof {
                assert(self.to_count@.take(i as int).drop_last() =~= self.to_count@.take(
                    i as int - 1,
                ));
                assert(opened@.take(i as int).drop_last() =~= opened@.take(i as int - 1));
                assert(self.to_count@.take(i as int).last() == self.to_count@[i as int - 1]);
            }
        }
        proof {
            assert(self.to_count@.take(n as int) =~= self.to_count@);
            assert(opened@.take(n as int) =~= opened@);
        }
        let ret_counts: Result<Counts, ()> = if counters.len() == 0 {
            Err(())
        } else {
            Ok(Counts { counters })
        };
        let ret_failures: Result<(), Vec<(Event, OpenError)>> = if failures.len() == 0 {
            Ok(())
        } else {
            Err(failures)
        };
        (ret_counts, ret_failures)
    }
}

} // verus!
