//! What the progress line says of a running transfer: the deltas
//! resolved, or the rate at which bytes arrive.
use vstd::prelude::*;
use vstd::string::*;

use crate::metrics::rate_spec;
use crate::metrics::MetricsCounter;
use crate::progress::render_view;
use crate::progress::sample_spec;
use crate::progress::Progress;
use crate::progress::Render;
use crate::text::append_decimal;
use crate::text::decimal_spec;
use crate::text::digit_char;
use crate::text::digit_str;

verus! {

/// The milliseconds of progress after which the byte count is sampled
/// again.
pub const SAMPLE_EVERY: u64 = 300;

/// The figures that the transport reports while it transfers.
#[derive(Debug, Clone, Copy, PartialEq, Eq, Structural)]
pub struct TransferStats {
    pub indexed_deltas: usize,
    pub total_deltas: usize,
    pub received_bytes: usize,
    pub indexed_objects: usize,
    pub total_objects: usize,
}

/// The progress of one clone: the line, the samples of the byte count,
/// and the time of the last sample.
#[derive(Debug)]
pub struct TransferReporter {
    pub progress: Progress,
    pub counter: MetricsCounter<10>,
    pub last_update: u64,
}

/// The size of the unit with index `i` in bytes: 1024 to the power `i`.
pub open spec fn unit_size(i: nat) -> nat
    decreases i,
{
    if i == 0 {
        1
    } else {
        1024 * unit_size((i - 1) as nat)
    }
}

/// The index of the largest unit, up to the seventh, that `bytes` hold at
/// least once; the first unit where they hold none.
pub open spec fn unit_index_spec(bytes: nat) -> nat {
    if bytes >= unit_size(6) {
        6
    } else if bytes >= unit_size(5) {
        5
    } else if bytes >= unit_size(4) {
        4
    } else if bytes >= unit_size(3) {
        3
    } else if bytes >= unit_size(2) {
        2
    } else if bytes >= unit_size(1) {
        1
    } else {
        0
    }
}

/// The name of the unit with index `i`.
pub open spec fn unit_name_spec(i: nat) -> Seq<char> {
    if i == 0 {
        "B"@
    } else if i == 1 {
        "KiB"@
    } else if i == 2 {
        "MiB"@
    } else if i == 3 {
        "GiB"@
    } else if i == 4 {
        "TiB"@
    } else if i == 5 {
        "PiB"@
    } else {
        "EiB"@
    }
}

/// `bytes` in hundredths of their unit, rounded to the nearest.
pub open spec fn scaled_spec(bytes: nat) -> nat {
    let size = unit_size(unit_index_spec(bytes));
    (bytes * 100 + size / 2) / size
}

/// A quantity given in hundredths, with two decimals.
pub open spec fn quantity_text(hundredths: nat) -> Seq<char> {
    decimal_spec(hundredths / 100) + "."@ + seq![
        digit_char(hundredths % 100 / 10),
        digit_char(hundredths % 10),
    ]
}

/// What the line says while objects arrive: the rate per second.
pub open spec fn rate_message_spec(rate: nat) -> Seq<char> {
    ", "@ + quantity_text(scaled_spec(rate)) + unit_name_spec(unit_index_spec(rate)) + "/s"@
}

/// What the line says while deltas are resolved: how many of how many.
pub open spec fn deltas_message_spec(indexed: nat, total: nat) -> Seq<char> {
    ", ("@ + decimal_spec(indexed) + "/"@ + decimal_spec(total) + ") resolvings deltas"@
}

/// A number of bytes in the largest binary unit that it holds at least
/// once: the quantity in hundredths of the unit, and the unit's name.
pub fn human_readable_bytes(bytes: u64) -> (scaled: (u64, &'static str))
    ensures
        scaled.0 == scaled_spec(bytes as nat),
        scaled.1@ == unit_name_spec(unit_index_spec(bytes as nat)),
{
    proof {
        reveal_with_fuel(unit_size, 8);
    }
    let (size, name): (u64, &'static str) = if bytes >= 0x1000_0000_0000_0000 {
        (0x1000_0000_0000_0000, "EiB")
    } else if bytes >= 0x4_0000_0000_0000 {
        (0x4_0000_0000_0000, "PiB")
    } else if bytes >= 0x100_0000_0000 {
        (0x100_0000_0000, "TiB")
    } else if bytes >= 0x4000_0000 {
        (0x4000_0000, "GiB")
    } else if bytes >= 0x10_0000 {
        (0x10_0000, "MiB")
    } else if bytes >= 0x400 {
        (0x400, "KiB")
    } else {
        (1, "B")
    };
    assert(size == unit_size(unit_index_spec(bytes as nat)));
    let scaled: u128 = (bytes as u128 * 100 + size as u128 / 2) / size as u128;
    assert(scaled <= u64::MAX) by {
        assert((bytes * 100 + size / 2) / (size as int) <= bytes * 100 + size / 2)
            by (nonlinear_arith)
            requires
                size >= 1,
                bytes >= 0,
        ;
    }
    (scaled as u64, name)
}

/// Appends a quantity given in hundredths to `text`.
fn append_quantity(text: &mut String, hundredths: u64)
    ensures
        final(text)@ == old(text)@ + quantity_text(hundredths as nat),
{
    append_decimal(text, hundredths / 100);
    text.append(".");
    text.append(digit_str(hundredths % 100 / 10));
    text.append(digit_str(hundredths % 10));
    assert(text@ =~= old(text)@ + quantity_text(hundredths as nat));
}

/// The message for a rate of `rate` bytes per second.
pub fn rate_message(rate: u64) -> (msg: String)
    ensures
        msg@ == rate_message_spec(rate as nat),
{
    let (quantity, unit) = human_readable_bytes(rate);
    let mut msg = String::from_str(", ");
    append_quantity(&mut msg, quantity);
    msg.append(unit);
    msg.append("/s");
    msg
}

/// The message for `indexed` of `total` deltas resolved.
pub fn deltas_message(indexed: usize, total: usize) -> (msg: String)
    ensures
        msg@ == deltas_message_spec(indexed as nat, total as nat),
{
    let mut msg = String::from_str(", (");
    append_decimal(&mut msg, indexed as u64);
    msg.append("/");
    append_decimal(&mut msg, total as u64);
    msg.append(") resolvings deltas");
    msg
}

impl TransferReporter {
    /// The ring of samples has a slot in turn.
    pub open spec fn wf(self) -> bool {
        self.counter.wf()
    }

    /// The byte count is sampled at `now`: objects still arrive, and more
    /// than the sampling time has passed since the last sample.
    pub open spec fn samples_at(self, now: u64, stats: TransferStats) -> bool {
        stats.indexed_deltas == 0 && now > self.last_update && now - self.last_update
            > SAMPLE_EVERY
    }

    /// A reporter for a clone that starts now.
    pub fn new() -> (reporter: TransferReporter)
        ensures
            reporter.wf(),
            reporter.last_update == 0,
            reporter.counter.index == 0,
            forall|i: int| 0 <= i < 10 ==> reporter.counter.slots@[i] == (0usize, 0u64),
            reporter.progress.state@ == crate::progress::initial_state("Fetch"@),
    {
        TransferReporter {
            progress: Progress::new("Fetch"),
            counter: MetricsCounter::<10>::new(0, 0),
            last_update: 0,
        }
    }

    /// Starts the samples of the byte count anew for an attempt that
    /// begins at `now`. The line stays as it is.
    pub fn begin_attempt_at(&mut self, now: u64)
        ensures
            final(self).wf(),
            final(self).progress == old(self).progress,
            final(self).last_update == now,
            final(self).counter.index == 0,
            forall|i: int| 0 <= i < 10 ==> final(self).counter.slots@[i] == (0usize, now),
    {
        self.counter = MetricsCounter::<10>::new(0, now);
        self.last_update = now;
    }

    /// What taking the figures `stats` at `now` does to a reporter that
    /// was `self`: `after` is the reporter and `drawn` what is written.
    ///
    /// While deltas are resolved the line names their number. Before
    /// that it names the rate at which bytes arrive, taken over the
    /// samples of the byte count; a new sample is taken when more than
    /// the sampling time has passed since the last.
    pub open spec fn transfer_step(
        self,
        now: u64,
        stats: TransferStats,
        after: TransferReporter,
        drawn: Option<Render>,
    ) -> bool {
        let sampled = self.samples_at(now, stats);
        &&& after.progress.started == self.progress.started
        &&& after.last_update == (if sampled {
            now
        } else {
            self.last_update
        })
        &&& after.counter.slots@ == (if sampled {
            self.counter.slots@.update(self.counter.index as int, (stats.received_bytes, now))
        } else {
            self.counter.slots@
        })
        &&& after.counter.index == (if sampled {
            (self.counter.index + 1) % 10
        } else {
            self.counter.index as int
        })
        &&& (after.progress.state@, render_view(drawn)) == sample_spec(
            self.progress.state@,
            now,
            stats.indexed_objects as nat,
            stats.total_objects as nat,
            if stats.indexed_deltas > 0 {
                deltas_message_spec(stats.indexed_deltas as nat, stats.total_deltas as nat)
            } else {
                rate_message_spec(rate_spec(after.counter.oldest(), after.counter.latest()) as nat)
            },
        )
    }

    /// Takes the figures that the transport reports at `now` milliseconds
    /// after the start, and returns what is to be written for them.
    pub fn on_transfer_at(&mut self, now: u64, stats: TransferStats) -> (drawn: Option<Render>)
        requires
            old(self).wf(),
            old(self).progress.takes_spec(now) ==> stats.indexed_objects <= stats.total_objects,
        ensures
            final(self).wf(),
            old(self).transfer_step(now, stats, *final(self), drawn),
    {
        let msg = if stats.indexed_deltas > 0 {
            deltas_message(stats.indexed_deltas, stats.total_deltas)
        } else {
            if now > self.last_update && now - self.last_update > SAMPLE_EVERY {
                self.counter.add(stats.received_bytes, now);
                self.last_update = now;
            }
            rate_message(self.counter.rate())
        };
        self.progress.tick_at(now, stats.indexed_objects, stats.total_objects, msg.as_str())
    }

    /// Takes the figures that the transport reports now. Whatever the
    /// clock says, they are handled as [`TransferReporter::on_transfer_at`]
    /// handles them at some time.
    pub fn on_transfer(&mut self, stats: TransferStats) -> (drawn: Option<Render>)
        requires
            old(self).wf(),
            stats.indexed_objects <= stats.total_objects,
        ensures
            final(self).wf(),
            exists|now: u64| old(self).transfer_step(now, stats, *final(self), drawn),
    {
        let now = self.progress.now();
        self.on_transfer_at(now, stats)
    }
}

} // verus!
