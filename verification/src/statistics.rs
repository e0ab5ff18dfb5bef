//! The statistics aggregator: sole owner of the pipeline's statistical
//! state.
//!
//! A single consumer drains a mailbox of [`Message`] values and mutates
//! one [`Statistics`] value; queries are answered by computing a snapshot
//! and handing it back through the one-shot channel carried inside the
//! query message. The whole update step is mirrored by a ghost model
//! ([`StatModel`] and [`step`]), and the laws of the aggregator are proved
//! over that model for arbitrary event sequences.

pub mod throttled_printer;

use std::collections::HashMap;

use vstd::prelude::*;

use crate::mailbox::{deliver_bitrates, deliver_string};
use crate::render::stats_line;
use crate::statistics::throttled_printer::{print_transition, ThrottledPrinter};

verus! {

broadcast use vstd::std_specs::hash::group_hash_axioms;

/// Width of one rate bucket, in seconds of capture time.
pub const RATE_INTERVAL_SECONDS: i32 = 1;

/// Bound `W` on the length of the rate window.
pub const RATE_INTERVALS_LIMIT: usize = 60;

/// A normalized link-layer packet event. Hardware addresses are carried
/// as 48-bit values, most significant octet first, packed into a `u64`.
#[derive(Clone, Copy, PartialEq, Eq, Structural, Debug)]
pub struct PacketData {
    pub packet_number: u64,
    pub packet_seconds: i32,
    pub size: u32,
    pub ethernet_destination: u64,
    pub ethernet_source: u64,
}

/// Counters reported by the capture source's driver: frames received,
/// frames dropped by the OS buffer, frames dropped by the interface. The
/// aggregator only renders them for diagnostics.
#[derive(Clone, Copy, PartialEq, Eq, Structural, Debug)]
pub struct CaptureStats {
    pub received: u32,
    pub dropped: u32,
    pub if_dropped: u32,
}

/// A point-in-time bandwidth snapshot: the average over the whole run and
/// a copy of the rate window, front (in-progress interval) first.
#[derive(Debug)]
pub struct Bitrates {
    pub avg_bytes_per_second: u64,
    pub seconds_rates: Vec<u64>,
}

/// What can arrive in the aggregator's mailbox. Queries carry the sending
/// half of a one-shot channel; the aggregator answers into it exactly
/// once and never keeps it.
pub enum Message {
    GotStatistics(CaptureStats),
    GotPacket(PacketData),
    GetBitrate(crossbeam_channel::Sender<Bitrates>),
    GetString(crossbeam_channel::Sender<String>),
}

/// Structural failures of the aggregator, fatal to its thread.
#[derive(Clone, Copy, PartialEq, Eq, Structural, Debug)]
pub enum AggregatorError {
    /// The mailbox is disconnected in a way that ends the loop.
    MailboxClosed,
    /// A byte or frequency counter cannot grow without wrapping; wrapping
    /// would silently falsify the statistics, so the loop stops instead.
    CounterOverflow,
}

/// The sum of the sizes of a sequence of packet events.
pub open spec fn sum_sizes(events: Seq<PacketData>) -> int
    decreases events.len(),
{
    if events.len() == 0 {
        0
    } else {
        sum_sizes(events.drop_last()) + events.last().size
    }
}

/// How many events in the sequence have the given source address.
pub open spec fn count_source(events: Seq<PacketData>, address: u64) -> int
    decreases events.len(),
{
    if events.len() == 0 {
        0
    } else {
        count_source(events.drop_last(), address) + if events.last().ethernet_source == address {
            1int
        } else {
            0int
        }
    }
}

/// How many events in the sequence have the given destination address.
pub open spec fn count_dest(events: Seq<PacketData>, address: u64) -> int
    decreases events.len(),
{
    if events.len() == 0 {
        0
    } else {
        count_dest(events.drop_last(), address) + if events.last().ethernet_destination == address {
            1int
        } else {
            0int
        }
    }
}

/// The mathematical shadow of [`Statistics`].
#[verifier::ext_equal]
pub ghost struct StatModel {
    pub total_seconds: int,
    pub total_bytes: int,
    pub start_seconds: int,
    pub rate_window: Seq<int>,
    pub rate_last_start: int,
    pub sources: Map<u64, int>,
    pub destinations: Map<u64, int>,
}

/// Add one occurrence of `address` to a frequency table.
pub open spec fn bump_count(table: Map<u64, int>, address: u64) -> Map<u64, int> {
    table.insert(
        address,
        if table.contains_key(address) {
            table[address] + 1
        } else {
            1
        },
    )
}

/// The rate window just before the event's bytes are counted: on an
/// interval transition a fresh zero bucket is opened at the front, after
/// evicting the oldest bucket if the window is full; otherwise the window
/// is kept, except that the very first event also opens the first bucket.
pub open spec fn step_window(window: Seq<int>, transition: bool) -> Seq<int> {
    if transition {
        seq![0int] + (if window.len() >= RATE_INTERVALS_LIMIT {
            window.drop_last()
        } else {
            window
        })
    } else if window.len() == 0 {
        seq![0int]
    } else {
        window
    }
}

/// The aggregator's whole update for one packet event, exactly as
/// `Statistics::got_packet` performs it.
pub open spec fn step(m: StatModel, pd: PacketData) -> StatModel {
    let transition = pd.packet_seconds > m.rate_last_start + RATE_INTERVAL_SECONDS;
    let opened = step_window(m.rate_window, transition);
    let start_seconds = if m.start_seconds == 0 {
        pd.packet_seconds as int
    } else {
        m.start_seconds
    };
    StatModel {
        total_seconds: if pd.packet_seconds >= start_seconds {
            pd.packet_seconds - start_seconds
        } else {
            0
        },
        total_bytes: m.total_bytes + pd.size,
        start_seconds,
        rate_window: opened.update(0, opened[0] + pd.size),
        rate_last_start: if transition {
            pd.packet_seconds as int
        } else {
            m.rate_last_start
        },
        sources: bump_count(m.sources, pd.ethernet_source),
        destinations: bump_count(m.destinations, pd.ethernet_destination),
    }
}

/// The state of a freshly started aggregator.
pub open spec fn init_model() -> StatModel {
    StatModel {
        total_seconds: 0,
        total_bytes: 0,
        start_seconds: 0,
        rate_window: Seq::empty(),
        rate_last_start: 0,
        sources: Map::empty(),
        destinations: Map::empty(),
    }
}

/// The state after processing a whole sequence of packet events, oldest
/// first, from a fresh start.
pub open spec fn apply_events(events: Seq<PacketData>) -> StatModel
    decreases events.len(),
{
    if events.len() == 0 {
        init_model()
    } else {
        step(apply_events(events.drop_last()), events.last())
    }
}

/// A frequency table's view with counts widened to `int`.
pub open spec fn count_map(table: Map<u64, u64>) -> Map<u64, int> {
    table.map_values(|c: u64| c as int)
}

/// Running statistics over the packet events seen so far. `history` is
/// the ghost record of exactly those events.
pub struct Statistics {
    pub total_seconds: u32,
    pub total_bytes: u64,
    pub start_seconds: i32,
    pub rate_bytes_count: Vec<u64>,
    pub rate_last_start: i32,
    pub ethernet_sources: HashMap<u64, u64>,
    pub ethernet_destinations: HashMap<u64, u64>,
    pub history: Ghost<Seq<PacketData>>,
}

impl View for Statistics {
    type V = StatModel;

    open spec fn view(&self) -> StatModel {
        StatModel {
            total_seconds: self.total_seconds as int,
            total_bytes: self.total_bytes as int,
            start_seconds: self.start_seconds as int,
            rate_window: self.rate_bytes_count@.map_values(|b: u64| b as int),
            rate_last_start: self.rate_last_start as int,
            sources: count_map(self.ethernet_sources@),
            destinations: count_map(self.ethernet_destinations@),
        }
    }
}

impl Statistics {
    /// The state is exactly what replaying the recorded events produces.
    pub open spec fn wf(self) -> bool {
        self@ == apply_events(self.history@)
    }

    /// A fresh aggregator state: everything zero, no events recorded.
    pub fn new() -> (s: Statistics)
        ensures
            s.wf(),
            s.history@ == Seq::<PacketData>::empty(),
            s@ == init_model(),
    {
        let s = Statistics {
            total_seconds: 0,
            total_bytes: 0,
            start_seconds: 0,
            rate_bytes_count: Vec::with_capacity(RATE_INTERVALS_LIMIT),
            rate_last_start: 0,
            ethernet_sources: HashMap::new(),
            ethernet_destinations: HashMap::new(),
            history: Ghost(Seq::empty()),
        };
        proof {
            assert(s@ =~~= init_model());
        }
        s
    }

    /// The average over the whole run. A run that has not yet spanned a
    /// whole second has no average; the defined result for that case is
    /// zero, never a division fault.
    pub open spec fn spec_average(self) -> int {
        if self.total_seconds == 0 {
            0
        } else {
            self.total_bytes as int / self.total_seconds as int
        }
    }

    /// A snapshot of the current state: whole-run average and a copy of
    /// the rate window, front first.
    pub fn get_bitrates(&self) -> (r: Bitrates)
        ensures
            r.avg_bytes_per_second == self.spec_average(),
            r.seconds_rates@ == self.rate_bytes_count@,
    {
        let avg: u64 = if self.total_seconds == 0 {
            0
        } else {
            self.total_bytes / (self.total_seconds as u64)
        };
        Bitrates { avg_bytes_per_second: avg, seconds_rates: copy_rates(&self.rate_bytes_count) }
    }
}

impl Statistics {
    /// Count one packet event: bump both address frequencies, open a new
    /// rate bucket if the event crosses an interval boundary (evicting
    /// the oldest bucket when the window is full), add the event's bytes
    /// to the front bucket and to the running total, anchor the start
    /// time on the first event, and recompute the elapsed seconds.
    pub fn got_packet(&mut self, pd: &PacketData)
        requires
            old(self).wf(),
            !would_overflow(old(self)@, *pd),
        ensures
            final(self).wf(),
            final(self).history@ == old(self).history@.push(*pd),
            final(self)@ == step(old(self)@, *pd),
    {
        proof {
            lemma_model_invariants(old(self).history@);
        }
        let ghost m0 = old(self)@;

        let source_count: u64 = match self.ethernet_sources.get(&pd.ethernet_source) {
            Some(c) => *c,
            None => 0,
        };
        assert(m0.sources.contains_key(pd.ethernet_source) ==> source_count == m0.sources[pd.ethernet_source]);
        self.ethernet_sources.insert(pd.ethernet_source, source_count + 1);
        assert(count_map(self.ethernet_sources@) =~= bump_count(m0.sources, pd.ethernet_source));

        let destination_count: u64 = match self.ethernet_destinations.get(&pd.ethernet_destination) {
            Some(c) => *c,
            None => 0,
        };
        assert(m0.destinations.contains_key(pd.ethernet_destination) ==> destination_count
            == m0.destinations[pd.ethernet_destination]);
        self.ethernet_destinations.insert(pd.ethernet_destination, destination_count + 1);
        assert(count_map(self.ethernet_destinations@) =~= bump_count(
            m0.destinations,
            pd.ethernet_destination,
        ));

        let transition: bool = (pd.packet_seconds as i64) > (self.rate_last_start as i64) + (
        RATE_INTERVAL_SECONDS as i64);
        assert(transition == (pd.packet_seconds > m0.rate_last_start + RATE_INTERVAL_SECONDS));
        if transition {
            self.rate_last_start = pd.packet_seconds;
            if self.rate_bytes_count.len() >= RATE_INTERVALS_LIMIT {
                self.rate_bytes_count.pop();
            }
            self.rate_bytes_count.insert(0, 0);
        } else if self.rate_bytes_count.len() == 0 {
            self.rate_bytes_count.insert(0, 0);
        }
        let ghost opened = step_window(m0.rate_window, transition);
        assert(self.rate_bytes_count@.map_values(|b: u64| b as int) =~= opened);

        let front: u64 = self.rate_bytes_count[0];
        assert(front == opened[0]);
        assert(front + pd.size <= u64::MAX) by {
            if !transition && m0.rate_window.len() > 0 {
                assert(opened[0] == m0.rate_window[0]);
            }
        }
        self.rate_bytes_count[0] = front + pd.size as u64;
        assert(self.rate_bytes_count@.map_values(|b: u64| b as int) =~= opened.update(
            0,
            opened[0] + pd.size,
        ));

        self.total_bytes = self.total_bytes + pd.size as u64;

        if self.start_seconds == 0 {
            self.start_seconds = pd.packet_seconds;
        }
        let diff: i64 = (pd.packet_seconds as i64) - (self.start_seconds as i64);
        self.total_seconds = if diff >= 0 {
            diff as u32
        } else {
            0
        };

        proof {
            self.history@ = old(self).history@.push(*pd);
            assert(self@ =~~= step(m0, *pd));
            lemma_apply_events_push(old(self).history@, *pd);
        }
    }
}

impl Bitrates {
    /// The byte count of the most recently completed interval — the value
    /// a caller should read for a stable per-second rate, since the front
    /// bucket is still in progress. Zero while no interval has completed.
    pub fn last_second_bytes(&self) -> (r: u64)
        ensures
            r == if self.seconds_rates@.len() >= 2 {
                self.seconds_rates@[1]
            } else {
                0u64
            },
    {
        if self.seconds_rates.len() >= 2 {
            self.seconds_rates[1]
        } else {
            0
        }
    }
}

/// The inputs on which one more packet event cannot be counted exactly:
/// a counter would have to wrap. The aggregator treats this as fatal
/// rather than wrapping silently.
pub open spec fn would_overflow(m: StatModel, pd: PacketData) -> bool {
    ||| m.total_bytes + pd.size > u64::MAX
    ||| m.sources.contains_key(pd.ethernet_source) && m.sources[pd.ethernet_source] >= u64::MAX
    ||| m.destinations.contains_key(pd.ethernet_destination) && m.destinations[pd.ethernet_destination]
        >= u64::MAX
}

/// Replaying events and then one more is one step beyond replaying the
/// events alone.
pub proof fn lemma_apply_events_push(events: Seq<PacketData>, pd: PacketData)
    ensures
        apply_events(events.push(pd)) == step(apply_events(events), pd),
{
    assert(events.push(pd).drop_last() =~= events);
    assert(events.push(pd).last() == pd);
}

/// Occurrence counts are never negative.
pub proof fn lemma_counts_nonnegative(events: Seq<PacketData>, address: u64)
    ensures
        count_source(events, address) >= 0,
        count_dest(events, address) >= 0,
    decreases events.len(),
{
    if events.len() > 0 {
        lemma_counts_nonnegative(events.drop_last(), address);
    }
}

/// The structural facts that hold of the model after any sequence of
/// events: the byte total is exactly the sum of the sizes, each frequency
/// table records exactly the occurrence counts of the addresses seen, and
/// the rate window is nonempty once an event arrived, never longer than
/// the bound, with every bucket between zero and the byte total.
pub proof fn lemma_model_invariants(events: Seq<PacketData>)
    ensures
        ({
            let m = apply_events(events);
            &&& m.total_bytes == sum_sizes(events)
            &&& m.total_bytes >= 0
            &&& m.rate_window.len() <= RATE_INTERVALS_LIMIT
            &&& (m.rate_window.len() == 0 <==> events.len() == 0)
            &&& forall|i: int|
                0 <= i < m.rate_window.len() ==> 0 <= #[trigger] m.rate_window[i]
                    <= m.total_bytes
            &&& forall|a: u64| #[trigger] count_source(events, a) >= 0
            &&& forall|a: u64| #[trigger] count_dest(events, a) >= 0
            &&& forall|a: u64|
                #[trigger] m.sources.contains_key(a) <==> count_source(events, a) > 0
            &&& forall|a: u64|
                m.sources.contains_key(a) ==> #[trigger] m.sources[a] == count_source(events, a)
            &&& forall|a: u64|
                #[trigger] m.destinations.contains_key(a) <==> count_dest(events, a) > 0
            &&& forall|a: u64|
                m.destinations.contains_key(a) ==> #[trigger] m.destinations[a] == count_dest(
                    events,
                    a,
                )
        }),
    decreases events.len(),
{
    assert forall|a: u64| #[trigger] count_source(events, a) >= 0 by {
        lemma_counts_nonnegative(events, a);
    }
    assert forall|a: u64| #[trigger] count_dest(events, a) >= 0 by {
        lemma_counts_nonnegative(events, a);
    }
    if events.len() == 0 {
    } else {
        let prev = events.drop_last();
        let e = events.last();
        lemma_model_invariants(prev);
        let m0 = apply_events(prev);
        let m1 = apply_events(events);
        assert(m1 == step(m0, e));
        let transition = e.packet_seconds > m0.rate_last_start + RATE_INTERVAL_SECONDS;
        let opened = step_window(m0.rate_window, transition);
        assert forall|i: int| 0 <= i < m1.rate_window.len() implies 0 <= #[trigger] m1
            .rate_window[i] <= m1.total_bytes by {
            if i == 0 {
                assert(m1.rate_window[0] == opened[0] + e.size);
                if transition || m0.rate_window.len() == 0 {
                    assert(opened[0] == 0);
                } else {
                    assert(opened[0] == m0.rate_window[0]);
                }
            } else {
                assert(m1.rate_window[i] == opened[i]);
                if transition {
                    if m0.rate_window.len() >= RATE_INTERVALS_LIMIT {
                        assert(opened[i] == m0.rate_window.drop_last()[i - 1]);
                        assert(m0.rate_window.drop_last()[i - 1] == m0.rate_window[i - 1]);
                    } else {
                        assert(opened[i] == m0.rate_window[i - 1]);
                    }
                } else {
                    assert(opened[i] == m0.rate_window[i]);
                }
            }
        }
        assert forall|a: u64| #[trigger] m1.sources.contains_key(a) <==> count_source(events, a)
            > 0 by {
            if a != e.ethernet_source {
                assert(m1.sources.contains_key(a) == m0.sources.contains_key(a));
                assert(count_source(events, a) == count_source(prev, a));
            }
        }
        assert forall|a: u64| m1.sources.contains_key(a) implies #[trigger] m1.sources[a]
            == count_source(events, a) by {
            if a == e.ethernet_source {
                if m0.sources.contains_key(a) {
                    assert(m1.sources[a] == m0.sources[a] + 1);
                } else {
                    assert(count_source(prev, a) == 0);
                    assert(m1.sources[a] == 1);
                }
            } else {
                assert(m1.sources[a] == m0.sources[a]);
                assert(count_source(events, a) == count_source(prev, a));
            }
        }
        assert forall|a: u64| #[trigger] m1.destinations.contains_key(a) <==> count_dest(events, a)
            > 0 by {
            if a != e.ethernet_destination {
                assert(m1.destinations.contains_key(a) == m0.destinations.contains_key(a));
                assert(count_dest(events, a) == count_dest(prev, a));
            }
        }
        assert forall|a: u64| m1.destinations.contains_key(a) implies #[trigger] m1.destinations[a]
            == count_dest(events, a) by {
            if a == e.ethernet_destination {
                if m0.destinations.contains_key(a) {
                    assert(m1.destinations[a] == m0.destinations[a] + 1);
                } else {
                    assert(count_dest(prev, a) == 0);
                    assert(m1.destinations[a] == 1);
                }
            } else {
                assert(m1.destinations[a] == m0.destinations[a]);
                assert(count_dest(events, a) == count_dest(prev, a));
            }
        }
    }
}

/// Law: after any sequence of packet events, the total byte counter is
/// exactly the sum of the sizes seen — nothing lost, nothing doubled.
pub proof fn lemma_total_bytes_is_sum(events: Seq<PacketData>)
    ensures
        apply_events(events).total_bytes == sum_sizes(events),
{
    lemma_model_invariants(events);
}

/// Law: for every address, the recorded source-frequency count equals the
/// number of processed events with that source address, and the recorded
/// destination-frequency count equals the number with that destination;
/// an address is in a table exactly when it occurred.
pub proof fn lemma_address_frequency(events: Seq<PacketData>, address: u64)
    ensures
        apply_events(events).sources.contains_key(address) <==> count_source(events, address) > 0,
        apply_events(events).sources.contains_key(address) ==> apply_events(
            events,
        ).sources[address] == count_source(events, address),
        apply_events(events).destinations.contains_key(address) <==> count_dest(events, address)
            > 0,
        apply_events(events).destinations.contains_key(address) ==> apply_events(
            events,
        ).destinations[address] == count_dest(events, address),
{
    lemma_model_invariants(events);
}

/// Law: the rate window never grows beyond the configured bound, for any
/// sequence of events and any interval pattern.
pub proof fn lemma_rate_window_bounded(events: Seq<PacketData>)
    ensures
        apply_events(events).rate_window.len() <= RATE_INTERVALS_LIMIT,
{
    lemma_model_invariants(events);
}

/// Law: when the next event falls in the current interval, it accumulates
/// into the front bucket and every other bucket is untouched. When it
/// crosses an interval boundary, a fresh front bucket starts at exactly
/// the event's size, the previous front moves to index 1 — preserved, not
/// merged, not lost — and every bucket shifts by one; only when the
/// window was already full is the oldest bucket evicted to make room.
pub proof fn lemma_rate_window_step(events: Seq<PacketData>, pd: PacketData)
    requires
        events.len() > 0,
    ensures
        ({
            let m = apply_events(events);
            let post = apply_events(events.push(pd));
            let same_interval = !(pd.packet_seconds > m.rate_last_start + RATE_INTERVAL_SECONDS);
            &&& same_interval ==> {
                &&& post.rate_window.len() == m.rate_window.len()
                &&& post.rate_window[0] == m.rate_window[0] + pd.size
                &&& forall|i: int|
                    1 <= i < m.rate_window.len() ==> #[trigger] post.rate_window[i]
                        == m.rate_window[i]
            }
            &&& !same_interval && m.rate_window.len() < RATE_INTERVALS_LIMIT ==> {
                &&& post.rate_window.len() == m.rate_window.len() + 1
                &&& post.rate_window[0] == pd.size
                &&& forall|i: int|
                    1 <= i < post.rate_window.len() ==> #[trigger] post.rate_window[i]
                        == m.rate_window[i - 1]
            }
            &&& !same_interval && m.rate_window.len() >= RATE_INTERVALS_LIMIT ==> {
                &&& post.rate_window.len() == m.rate_window.len()
                &&& post.rate_window[0] == pd.size
                &&& forall|i: int|
                    1 <= i < post.rate_window.len() ==> #[trigger] post.rate_window[i]
                        == m.rate_window[i - 1]
            }
        }),
{
    lemma_model_invariants(events);
    lemma_apply_events_push(events, pd);
    let m = apply_events(events);
    let post = apply_events(events.push(pd));
    let transition = pd.packet_seconds > m.rate_last_start + RATE_INTERVAL_SECONDS;
    let opened = step_window(m.rate_window, transition);
    assert(post.rate_window == opened.update(0, opened[0] + pd.size));
    if transition {
        assert forall|i: int| 1 <= i < post.rate_window.len() implies #[trigger] post
            .rate_window[i] == m.rate_window[i - 1] by {
            if m.rate_window.len() >= RATE_INTERVALS_LIMIT {
                assert(opened[i] == m.rate_window.drop_last()[i - 1]);
            }
        }
    }
}

/// Law: a bitrate query answered after any run of packet events reports
/// the sum of all sizes seen so far divided by the elapsed whole seconds,
/// and the defined zero before a whole second has elapsed. The snapshot
/// `handle_message` delivers is `get_bitrates` of the state at the moment
/// the query is processed, so this pins the average that a query caller
/// receives.
pub proof fn lemma_bitrate_answer(s: Statistics)
    requires
        s.wf(),
    ensures
        s.spec_average() == if s@.total_seconds == 0 {
            0int
        } else {
            sum_sizes(s.history@) / s@.total_seconds
        },
{
    lemma_model_invariants(s.history@);
}

/// The fixed reply of the text-snapshot query.
fn response_text() -> (s: String)
    ensures
        s@ == "Response"@,
{
    String::from_str("Response")
}

/// Process one mailbox message, the aggregator loop's whole step.
///
/// A packet event is counted exactly, unless a counter would have to wrap,
/// which is reported as fatal with the state untouched. A driver-stats
/// report is rendered and forwarded to the throttled sink; it changes no
/// state. A query computes its answer from the current state — see
/// `Statistics::get_bitrates` for what the answer contains — and delivers
/// it through the one-shot channel carried in the message, exactly once,
/// before this function returns.
pub fn handle_message(statistics: &mut Statistics, printer: &mut ThrottledPrinter, message: Message) -> (r: Result<
    (),
    AggregatorError,
>)
    requires
        old(statistics).wf(),
    ensures
        final(statistics).wf(),
        ({
            match message {
                Message::GotPacket(pd) => {
                    &&& (r is Ok <==> !would_overflow(old(statistics)@, pd))
                    &&& (r is Ok ==> final(statistics)@ == step(old(statistics)@, pd)
                        && final(statistics).history@ == old(statistics).history@.push(pd))
                    &&& (r is Err ==> r->Err_0 == AggregatorError::CounterOverflow
                        && *final(statistics) == *old(statistics))
                    &&& *final(printer) == *old(printer)
                },
                Message::GotStatistics(cs) => {
                    &&& r is Ok
                    &&& *final(statistics) == *old(statistics)
                    &&& print_transition(
                        *old(printer),
                        *final(printer),
                        crate::render::spec_stats_line(cs.received, cs.dropped, cs.if_dropped),
                    )
                },
                Message::GetBitrate(_) => {
                    &&& r is Ok
                    &&& *final(statistics) == *old(statistics)
                    &&& *final(printer) == *old(printer)
                },
                Message::GetString(_) => {
                    &&& r is Ok
                    &&& *final(statistics) == *old(statistics)
                    &&& *final(printer) == *old(printer)
                },
            }
        }),
{
    match message {
        Message::GotStatistics(stats) => {
            let line = stats_line(stats.received, stats.dropped, stats.if_dropped);
            printer.print(line.as_str());
            Ok(())
        },
        Message::GotPacket(pd) => {
            let bytes_ok: bool = pd.size as u64 <= u64::MAX - statistics.total_bytes;
            let source_ok: bool = match statistics.ethernet_sources.get(&pd.ethernet_source) {
                Some(c) => *c < u64::MAX,
                None => true,
            };
            let destination_ok: bool = match statistics.ethernet_destinations.get(
                &pd.ethernet_destination,
            ) {
                Some(c) => *c < u64::MAX,
                None => true,
            };
            if bytes_ok && source_ok && destination_ok {
                assert(!would_overflow(statistics@, pd));
                statistics.got_packet(&pd);
                Ok(())
            } else {
                assert(would_overflow(statistics@, pd));
                Err(AggregatorError::CounterOverflow)
            }
        },
        Message::GetBitrate(reply) => {
            let snapshot = statistics.get_bitrates();
            deliver_bitrates(&reply, snapshot);
            Ok(())
        },
        Message::GetString(reply) => {
            deliver_string(&reply, response_text());
            Ok(())
        },
    }
}

/// An element-wise copy of the rate window.
fn copy_rates(rates: &Vec<u64>) -> (r: Vec<u64>)
    ensures
        r@ == rates@,
{
    let mut r: Vec<u64> = Vec::with_capacity(rates.len());
    let mut i: usize = 0;
    while i < rates.len()
        invariant
            i <= rates.len(),
            r@ == rates@.take(i as int),
        decreases rates.len() - i,
    {
        r.push(rates[i]);
        proof {
            assert(rates@.take(i + 1 as int) =~= rates@.take(i as int).push(rates@[i as int]));
        }
        i = i + 1;
    }
    proof {
        assert(rates@.take(rates@.len() as int) =~= rates@);
    }
    r
}

} // verus!
