//! The publish boundary between sampler workers and the UI.
//!
//! A snapshot is an independently constructed, immutable value; publishing
//! it means applying it to the UI's mirror state inside the UI's own
//! execution context. A closed UI drops the snapshot silently — no error,
//! no retry. Each domain writes its own disjoint set of mirror fields, so
//! publishes from different domains may land in any order.

use crate::identity::StaticIdentity;
use crate::snapshot::{
    CpuMemSnapshot, DiskSnapshot, GpuSnapshot, NetSnapshot, ProcessRow, ProcessSnapshot,
};
use vstd::prelude::*;

verus! {

/// The UI-owned mirror of every displayed field.
pub struct UiState {
    pub os_name: String,
    pub os_version: String,
    pub cpu_name: String,
    pub cpu_count_label: String,
    pub board_label: String,
    pub memory_label: String,
    pub gpu_model: String,
    pub gpu_vram_gib: u64,
    pub cpu_percent_tenths: u64,
    pub mem_used_gib_tenths: u64,
    pub mem_percent_tenths: u64,
    pub uptime: String,
    pub down_mbps_tenths: u64,
    pub up_mbps_tenths: u64,
    pub disk_rates_known: bool,
    pub read_mibps_tenths: u64,
    pub write_mibps_tenths: u64,
    pub process_rows: Vec<ProcessRow>,
}

/// One domain's snapshot, ready to cross into the UI context.
pub enum MetricSnapshot {
    CpuMem(CpuMemSnapshot),
    Net(NetSnapshot),
    Disk(DiskSnapshot),
    Gpu(GpuSnapshot),
    Processes(ProcessSnapshot),
    Identity(StaticIdentity),
}

/// The UI after one snapshot lands: exactly the landing domain's fields
/// change, every other field is carried over.
pub open spec fn spec_apply(ui: UiState, s: MetricSnapshot) -> UiState {
    match s {
        MetricSnapshot::CpuMem(c) => UiState {
            cpu_percent_tenths: c.cpu_percent_tenths,
            mem_used_gib_tenths: c.mem_used_gib_tenths,
            mem_percent_tenths: c.mem_percent_tenths,
            uptime: c.uptime,
            ..ui
        },
        MetricSnapshot::Net(n) => UiState {
            down_mbps_tenths: n.down_mbps_tenths,
            up_mbps_tenths: n.up_mbps_tenths,
            ..ui
        },
        MetricSnapshot::Disk(d) => match d {
            DiskSnapshot::Unavailable => UiState {
                disk_rates_known: false,
                read_mibps_tenths: 0,
                write_mibps_tenths: 0,
                ..ui
            },
            DiskSnapshot::Rates { read_mibps_tenths, write_mibps_tenths } => UiState {
                disk_rates_known: true,
                read_mibps_tenths,
                write_mibps_tenths,
                ..ui
            },
        },
        MetricSnapshot::Gpu(g) => UiState { gpu_model: g.model, gpu_vram_gib: g.vram_gib, ..ui },
        MetricSnapshot::Processes(p) => UiState { process_rows: p.rows, ..ui },
        MetricSnapshot::Identity(i) => UiState {
            os_name: i.os_name,
            os_version: i.os_version,
            cpu_name: i.cpu_name,
            cpu_count_label: i.cpu_count_label,
            board_label: i.board_label,
            memory_label: i.memory_label,
            ..ui
        },
    }
}

/// The snapshot applied to the mirror state.
fn apply_snapshot(ui: UiState, s: MetricSnapshot) -> (r: UiState)
    ensures
        r == spec_apply(ui, s),
{
    match s {
        MetricSnapshot::CpuMem(c) => UiState {
            cpu_percent_tenths: c.cpu_percent_tenths,
            mem_used_gib_tenths: c.mem_used_gib_tenths,
            mem_percent_tenths: c.mem_percent_tenths,
            uptime: c.uptime,
            ..ui
        },
        MetricSnapshot::Net(n) => UiState {
            down_mbps_tenths: n.down_mbps_tenths,
            up_mbps_tenths: n.up_mbps_tenths,
            ..ui
        },
        MetricSnapshot::Disk(d) => match d {
            DiskSnapshot::Unavailable => UiState {
                disk_rates_known: false,
                read_mibps_tenths: 0,
                write_mibps_tenths: 0,
                ..ui
            },
            DiskSnapshot::Rates { read_mibps_tenths, write_mibps_tenths } => UiState {
                disk_rates_known: true,
                read_mibps_tenths,
                write_mibps_tenths,
                ..ui
            },
        },
        MetricSnapshot::Gpu(g) => UiState { gpu_model: g.model, gpu_vram_gib: g.vram_gib, ..ui },
        MetricSnapshot::Processes(p) => UiState { process_rows: p.rows, ..ui },
        MetricSnapshot::Identity(i) => UiState {
            os_name: i.os_name,
            os_version: i.os_version,
            cpu_name: i.cpu_name,
            cpu_count_label: i.cpu_count_label,
            board_label: i.board_label,
            memory_label: i.memory_label,
            ..ui
        },
    }
}

/// The UI side of the boundary: a live mirror state, or a closed window.
pub enum UiConnection {
    Live(UiState),
    Closed,
}

/// What became of one publish.
pub enum PublishOutcome {
    Applied,
    Dropped,
}

/// Two snapshots belong to the same domain.
pub open spec fn spec_same_domain(a: MetricSnapshot, b: MetricSnapshot) -> bool {
    ||| (a is CpuMem && b is CpuMem)
    ||| (a is Net && b is Net)
    ||| (a is Disk && b is Disk)
    ||| (a is Gpu && b is Gpu)
    ||| (a is Processes && b is Processes)
    ||| (a is Identity && b is Identity)
}

/// Snapshots of different domains write disjoint fields, so the order in
/// which they land does not matter.
pub proof fn lemma_apply_commutes(ui: UiState, a: MetricSnapshot, b: MetricSnapshot)
    requires
        !spec_same_domain(a, b),
    ensures
        spec_apply(spec_apply(ui, a), b) == spec_apply(spec_apply(ui, b), a),
{
}

/// The boundary component delivering snapshots into the UI context.
pub struct Publisher;

impl Publisher {
    /// Delivers one snapshot. A live UI gets exactly that snapshot's
    /// fields updated; a closed UI stays closed and the snapshot is
    /// dropped silently — never an error, never a retry.
    pub fn publish(conn: UiConnection, snapshot: MetricSnapshot) -> (r: (
        UiConnection,
        PublishOutcome,
    ))
        ensures
            conn is Closed ==> r.0 is Closed && r.1 is Dropped,
            (conn matches UiConnection::Live(ui) ==> (r.0 matches UiConnection::Live(ui2)
                && ui2 == spec_apply(ui, snapshot)) && r.1 is Applied),
    {
        match conn {
            UiConnection::Closed => (UiConnection::Closed, PublishOutcome::Dropped),
            UiConnection::Live(ui) => (
                UiConnection::Live(apply_snapshot(ui, snapshot)),
                PublishOutcome::Applied,
            ),
        }
    }
}

} // verus!
