//! Per-domain snapshot computation.
//!
//! Each domain sampler's cycle ends in one compute step: raw counter
//! readings go in, one immutable, display-ready snapshot comes out. The
//! polling shell around these steps — sleeping, re-reading the OS counters,
//! handing the snapshot on — performs no arithmetic of its own.

use crate::filter::{spec_excluded, InterfaceFilter};
use crate::process::{
    aggregates_view, records_view, spec_aggregate, ProcessAggregator, ProcessRecord,
};
use crate::rate::{spec_rate_tenths, RateUnit, RateWindow};
use crate::rounding::{round_ratio_tenths, round_wide_tenths, spec_round_tenths, spec_sat_add_u64};
use crate::text::{convert_time, spec_clock, spec_tenths, tenths_string};
use vstd::arithmetic::div_mod::{lemma_div_is_ordered, lemma_multiply_divide_lt};
use vstd::prelude::*;
use vstd::string::StringExecFns;

verus! {

/// How many process rows a process snapshot keeps.
pub const TOP_PROCESSES: usize = 8;

/// One adapter's cumulative byte counters at a sampling instant.
pub struct AdapterReading {
    pub name: String,
    pub received: u64,
    pub transmitted: u64,
}

/// Received bytes summed over the adapters the filter allows, saturating
/// at `u64::MAX`.
pub open spec fn spec_sum_received(s: Seq<AdapterReading>) -> int
    decreases s.len(),
{
    if s.len() == 0 {
        0
    } else {
        let rest = spec_sum_received(s.drop_last());
        if spec_excluded(s.last().name@) {
            rest
        } else {
            spec_sat_add_u64(rest, s.last().received as int)
        }
    }
}

/// Transmitted bytes summed over the adapters the filter allows,
/// saturating at `u64::MAX`.
pub open spec fn spec_sum_transmitted(s: Seq<AdapterReading>) -> int
    decreases s.len(),
{
    if s.len() == 0 {
        0
    } else {
        let rest = spec_sum_transmitted(s.drop_last());
        if spec_excluded(s.last().name@) {
            rest
        } else {
            spec_sat_add_u64(rest, s.last().transmitted as int)
        }
    }
}

/// Both directions summed in one pass, with one filter decision per
/// adapter, so the set of counted adapters is the same for both sums.
fn sum_counters(adapters: &Vec<AdapterReading>) -> (r: (u64, u64))
    ensures
        r.0 as int == spec_sum_received(adapters@),
        r.1 as int == spec_sum_transmitted(adapters@),
{
    let mut rx: u64 = 0;
    let mut tx: u64 = 0;
    let mut i: usize = 0;
    while i < adapters.len()
        invariant
            i <= adapters@.len(),
            rx as int == spec_sum_received(adapters@.take(i as int)),
            tx as int == spec_sum_transmitted(adapters@.take(i as int)),
        decreases adapters@.len() - i,
    {
        proof {
            assert(adapters@.take(i as int + 1).drop_last() =~= adapters@.take(i as int));
            assert(adapters@.take(i as int + 1).last() == adapters@[i as int]);
        }
        if InterfaceFilter::allows(adapters[i].name.as_str()) {
            rx = rx.saturating_add(adapters[i].received);
            tx = tx.saturating_add(adapters[i].transmitted);
        }
        i += 1;
    }
    proof {
        assert(adapters@.take(adapters@.len() as int) =~= adapters@);
    }
    (rx, tx)
}

/// Network throughput for one rate window, in tenths of Mbps.
pub struct NetSnapshot {
    pub down_mbps_tenths: u64,
    pub up_mbps_tenths: u64,
}

/// Download and upload rates from two full adapter refreshes taken
/// `elapsed_secs` apart. Both refreshes are summed over the adapters the
/// filter allows; each sum pair then goes through one rate window.
pub fn compute_net(
    before: &Vec<AdapterReading>,
    after: &Vec<AdapterReading>,
    elapsed_secs: u64,
) -> (r: NetSnapshot)
    requires
        elapsed_secs >= 1,
    ensures
        r.down_mbps_tenths == spec_rate_tenths(
            spec_sum_received(before@),
            spec_sum_received(after@),
            elapsed_secs as int,
            RateUnit::MegabitsPerSecond,
        ),
        r.up_mbps_tenths == spec_rate_tenths(
            spec_sum_transmitted(before@),
            spec_sum_transmitted(after@),
            elapsed_secs as int,
            RateUnit::MegabitsPerSecond,
        ),
{
    let (rx0, tx0) = sum_counters(before);
    let (rx1, tx1) = sum_counters(after);
    NetSnapshot {
        down_mbps_tenths: RateWindow::compute(
            rx0,
            rx1,
            elapsed_secs,
            RateUnit::MegabitsPerSecond,
        ),
        up_mbps_tenths: RateWindow::compute(tx0, tx1, elapsed_secs, RateUnit::MegabitsPerSecond),
    }
}

/// One disk volume's cumulative byte counters at a sampling instant.
pub struct DiskCounters {
    pub read_bytes: u64,
    pub written_bytes: u64,
}

/// Disk throughput for one rate window, or the degraded no-volume state.
pub enum DiskSnapshot {
    /// No disk volume was present: a reportable state, not a crash.
    Unavailable,
    Rates { read_mibps_tenths: u64, write_mibps_tenths: u64 },
}

/// Read and write rates of the primary volume from two refreshes taken
/// `elapsed_secs` apart; an absent volume degrades to `Unavailable`.
pub fn compute_disk(window: Option<(DiskCounters, DiskCounters)>, elapsed_secs: u64) -> (r:
    DiskSnapshot)
    requires
        elapsed_secs >= 1,
    ensures
        window is None ==> r is Unavailable,
        (window matches Some(w) ==> (r matches DiskSnapshot::Rates {
            read_mibps_tenths,
            write_mibps_tenths,
        } && read_mibps_tenths == spec_rate_tenths(
            w.0.read_bytes as int,
            w.1.read_bytes as int,
            elapsed_secs as int,
            RateUnit::MebibytesPerSecond,
        ) && write_mibps_tenths == spec_rate_tenths(
            w.0.written_bytes as int,
            w.1.written_bytes as int,
            elapsed_secs as int,
            RateUnit::MebibytesPerSecond,
        ))),
{
    match window {
        None => DiskSnapshot::Unavailable,
        Some((before, after)) => DiskSnapshot::Rates {
            read_mibps_tenths: RateWindow::compute(
                before.read_bytes,
                after.read_bytes,
                elapsed_secs,
                RateUnit::MebibytesPerSecond,
            ),
            write_mibps_tenths: RateWindow::compute(
                before.written_bytes,
                after.written_bytes,
                elapsed_secs,
                RateUnit::MebibytesPerSecond,
            ),
        },
    }
}

/// The active GPU's descriptor as the introspection layer reports it.
pub struct GpuInfo {
    pub model: String,
    pub total_vram_bytes: u64,
}

/// GPU identity for the UI: model name and whole GiB of VRAM.
pub struct GpuSnapshot {
    pub model: String,
    pub vram_gib: u64,
}

/// GPU snapshot from an optional descriptor: a missing GPU yields the
/// sentinel label and zero VRAM rather than an error.
pub fn compute_gpu(info: Option<GpuInfo>) -> (r: GpuSnapshot)
    ensures
        (info matches Some(g) ==> r.model@ == g.model@ && r.vram_gib == g.total_vram_bytes as int
            / 1073741824),
        info is None ==> r.model@ == "No GPU"@ && r.vram_gib == 0,
{
    match info {
        Some(g) => GpuSnapshot { model: g.model, vram_gib: g.total_vram_bytes / 1073741824 },
        None => {
            proof {
                reveal_strlit("No GPU");
            }
            GpuSnapshot { model: String::from_str("No GPU"), vram_gib: 0 }
        },
    }
}

/// One display row of the process table: name and a `<memory> MB` label.
pub struct ProcessRow {
    pub name: String,
    pub memory_label: String,
}

/// The ordered top-K process rows of one cycle.
pub struct ProcessSnapshot {
    pub rows: Vec<ProcessRow>,
}

/// Memory in mebibytes at one decimal place, suffixed ` MB`.
pub open spec fn spec_memory_label(total_bytes: int) -> Seq<char> {
    spec_tenths(spec_round_tenths(total_bytes, 1048576)) + " MB"@
}

/// The `<memory> MB` label for a byte total.
fn memory_label(total_bytes: u64) -> (r: String)
    ensures
        r@ == spec_memory_label(total_bytes as int),
{
    let q = round_wide_tenths(total_bytes as u128, 1048576);
    proof {
        lemma_div_is_ordered(
            20 * (total_bytes as int) + 1048576,
            20 * (u64::MAX as int) + 1048576,
            2097152,
        );
        assert((20 * (u64::MAX as int) + 1048576) / 2097152 <= u64::MAX as int);
    }
    let mut s = tenths_string(q as u64);
    proof {
        reveal_strlit(" MB");
    }
    s.append(" MB");
    s
}

/// The top-K rows of the aggregated process table, each with its memory
/// label, in the aggregate's descending order.
pub fn compute_processes(records: &Vec<ProcessRecord>, k: usize) -> (r: ProcessSnapshot)
    ensures
        r.rows@.len() == spec_aggregate(records_view(records@), k as int).len(),
        forall|t: int|
            0 <= t < r.rows@.len() ==> r.rows@[t].name@ == spec_aggregate(
                records_view(records@),
                k as int,
            )[t].0 && r.rows@[t].memory_label@ == spec_memory_label(
                spec_aggregate(records_view(records@), k as int)[t].1,
            ),
{
    let aggs = ProcessAggregator::aggregate(records, k);
    let ghost av = spec_aggregate(records_view(records@), k as int);
    let mut rows: Vec<ProcessRow> = Vec::new();
    let mut i: usize = 0;
    while i < aggs.len()
        invariant
            i <= aggs@.len(),
            aggregates_view(aggs@) == av,
            rows@.len() == i,
            forall|t: int|
                0 <= t < i ==> rows@[t].name@ == av[t].0 && rows@[t].memory_label@
                    == spec_memory_label(av[t].1),
        decreases aggs@.len() - i,
    {
        let nm = aggs[i].name.clone();
        let total = aggs[i].total_memory_bytes;
        proof {
            assert(av[i as int] == (aggs@[i as int].name@, aggs@[i as int].total_memory_bytes as int));
        }
        rows.push(ProcessRow { name: nm, memory_label: memory_label(total) });
        i += 1;
    }
    ProcessSnapshot { rows }
}

/// Point-in-time CPU, memory and uptime values of one cycle.
pub struct CpuMemSnapshot {
    pub cpu_percent_tenths: u64,
    pub mem_used_gib_tenths: u64,
    pub mem_percent_tenths: u64,
    pub uptime: String,
}

/// CPU utilisation, memory use and formatted uptime from one refresh.
///
/// CPU utilisation arrives in millionths of a percent, as an integer, and
/// is rounded here so that every display field goes through the one
/// rounding rule. Memory percent is derived from the raw byte counts, not
/// from the already-rounded GiB figure.
pub fn compute_cpu_mem(
    cpu_micro_percent: u64,
    mem_used_bytes: u64,
    mem_total_bytes: u64,
    uptime_secs: u64,
) -> (r: CpuMemSnapshot)
    requires
        cpu_micro_percent <= 100_000_000,
        mem_total_bytes >= 1,
        mem_used_bytes <= mem_total_bytes,
    ensures
        r.cpu_percent_tenths == spec_round_tenths(cpu_micro_percent as int, 1_000_000),
        r.mem_used_gib_tenths == spec_round_tenths(mem_used_bytes as int, 1073741824),
        r.mem_percent_tenths == spec_round_tenths(
            mem_used_bytes as int * 100,
            mem_total_bytes as int,
        ),
        r.uptime@ == spec_clock(uptime_secs as int),
{
    let cpu_percent_tenths = round_ratio_tenths(cpu_micro_percent, 1_000_000);
    let gib = round_wide_tenths(mem_used_bytes as u128, 1073741824);
    proof {
        lemma_div_is_ordered(
            20 * (mem_used_bytes as int) + 1073741824,
            20 * (u64::MAX as int) + 1073741824,
            2147483648,
        );
        assert((20 * (u64::MAX as int) + 1073741824) / 2147483648 <= u64::MAX as int);
    }
    let mem_used_gib_tenths = gib as u64;
    let pct = round_wide_tenths(mem_used_bytes as u128 * 100, mem_total_bytes as u128);
    proof {
        let n = mem_used_bytes as int * 100;
        let d = mem_total_bytes as int;
        assert(20 * n + d < (2 * d) * 1001);
        lemma_multiply_divide_lt(20 * n + d, 2 * d, 1001);
    }
    let mem_percent_tenths = pct as u64;
    CpuMemSnapshot {
        cpu_percent_tenths,
        mem_used_gib_tenths,
        mem_percent_tenths,
        uptime: convert_time(uptime_secs),
    }
}

} // verus!
