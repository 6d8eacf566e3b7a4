use hostmon::identity::{BoardReading, IdentityReadings, StaticIdentityProbe};
use hostmon::process::ProcessRecord;
use hostmon::publish::{MetricSnapshot, PublishOutcome, Publisher, UiConnection, UiState};
use hostmon::snapshot::{
    compute_cpu_mem, compute_disk, compute_gpu, compute_processes, DiskCounters, DiskSnapshot,
    GpuInfo, NetSnapshot, TOP_PROCESSES,
};

fn record(name: &str, memory_bytes: u64) -> ProcessRecord {
    ProcessRecord {
        name: name.to_string(),
        memory_bytes,
    }
}

fn blank_ui() -> UiState {
    UiState {
        os_name: String::new(),
        os_version: String::new(),
        cpu_name: String::new(),
        cpu_count_label: String::new(),
        board_label: String::new(),
        memory_label: String::new(),
        gpu_model: String::new(),
        gpu_vram_gib: 0,
        cpu_percent_tenths: 0,
        mem_used_gib_tenths: 0,
        mem_percent_tenths: 0,
        uptime: String::new(),
        down_mbps_tenths: 0,
        up_mbps_tenths: 0,
        disk_rates_known: false,
        read_mibps_tenths: 0,
        write_mibps_tenths: 0,
        process_rows: Vec::new(),
    }
}

#[test]
fn process_scenario_grouped_summed_labelled() {
    // {A: 200MB, B: 50MB, A: 100MB} aggregates to {A: 300MB, B: 50MB};
    // the top entry's label reads "300.0 MB".
    let mib = 1_048_576u64;
    let table = vec![
        record("A", 200 * mib),
        record("B", 50 * mib),
        record("A", 100 * mib),
    ];
    let snap = compute_processes(&table, 1);
    assert_eq!(snap.rows.len(), 1);
    assert_eq!(snap.rows[0].name, "A");
    assert_eq!(snap.rows[0].memory_label, "300.0 MB");

    let both = compute_processes(&table, TOP_PROCESSES);
    assert_eq!(both.rows.len(), 2);
    assert_eq!(both.rows[0].name, "A");
    assert_eq!(both.rows[0].memory_label, "300.0 MB");
    assert_eq!(both.rows[1].name, "B");
    assert_eq!(both.rows[1].memory_label, "50.0 MB");
}

#[test]
fn process_label_of_idle_process() {
    let table = vec![record("idle", 0)];
    let snap = compute_processes(&table, TOP_PROCESSES);
    assert_eq!(snap.rows.len(), 1);
    assert_eq!(snap.rows[0].memory_label, "0.0 MB");
}

#[test]
fn cpu_mem_snapshot_rounds_every_field_the_same_way() {
    let gib = 1_073_741_824u64;
    // 0.05% CPU rounds half away from zero to 0.1%.
    let snap = compute_cpu_mem(50_000, 12 * gib, 16 * gib, 3661);
    assert_eq!(snap.cpu_percent_tenths, 1);
    assert_eq!(snap.mem_used_gib_tenths, 120);
    assert_eq!(snap.mem_percent_tenths, 750);
    assert_eq!(snap.uptime, "01:01:01");
}

#[test]
fn cpu_mem_snapshot_full_memory_is_hundred_percent() {
    let snap = compute_cpu_mem(100_000_000, 1024, 1024, 0);
    assert_eq!(snap.cpu_percent_tenths, 1000);
    assert_eq!(snap.mem_percent_tenths, 1000);
    assert_eq!(snap.uptime, "00:00:00");
}

#[test]
fn disk_snapshot_rates_and_degraded_state() {
    let window = Some((
        DiskCounters {
            read_bytes: 0,
            written_bytes: 0,
        },
        DiskCounters {
            read_bytes: 2 * 1_048_576,
            written_bytes: 524_288,
        },
    ));
    match compute_disk(window, 1) {
        DiskSnapshot::Rates {
            read_mibps_tenths,
            write_mibps_tenths,
        } => {
            assert_eq!(read_mibps_tenths, 20);
            assert_eq!(write_mibps_tenths, 5);
        }
        DiskSnapshot::Unavailable => panic!("rates expected"),
    }
    assert!(matches!(
        compute_disk(None, 1),
        DiskSnapshot::Unavailable
    ));
}

#[test]
fn gpu_snapshot_sentinel_and_vram_conversion() {
    let missing = compute_gpu(None);
    assert_eq!(missing.model, "No GPU");
    assert_eq!(missing.vram_gib, 0);

    let found = compute_gpu(Some(GpuInfo {
        model: "Example 9000".to_string(),
        total_vram_bytes: 8 * 1_073_741_824,
    }));
    assert_eq!(found.model, "Example 9000");
    assert_eq!(found.vram_gib, 8);
}

#[test]
fn identity_substitutes_sentinels() {
    let probe = IdentityReadings {
        board: None,
        os_name: None,
        os_version: None,
        cpu_brand: None,
        physical_cores: None,
        logical_threads: 8,
        total_memory_bytes: 1_073_741_824 + 1,
        total_swap_bytes: 0,
    };
    let id = StaticIdentityProbe::compute(probe);
    assert_eq!(id.os_name, "default");
    assert_eq!(id.os_version, "default");
    assert_eq!(id.cpu_name, "N/A");
    assert_eq!(id.cpu_count_label, "N/A");
    assert_eq!(id.board_label, "N/A");
    // One byte over a GiB rounds up to 2GB.
    assert_eq!(id.memory_label, "2GB (Virtual-0GB)");
}

#[test]
fn identity_formats_present_values() {
    let probe = IdentityReadings {
        board: Some(BoardReading {
            vendor: Some("ACME".to_string()),
            name: None,
        }),
        os_name: Some("ExampleOS".to_string()),
        os_version: Some("1.2".to_string()),
        cpu_brand: Some("Example CPU".to_string()),
        physical_cores: Some(4),
        logical_threads: 8,
        total_memory_bytes: 16 * 1_073_741_824,
        total_swap_bytes: 4 * 1_073_741_824,
    };
    let id = StaticIdentityProbe::compute(probe);
    assert_eq!(id.os_name, "ExampleOS");
    assert_eq!(id.os_version, "1.2");
    assert_eq!(id.cpu_name, "Example CPU");
    assert_eq!(id.cpu_count_label, "4(8)");
    assert_eq!(id.board_label, "ACME (N/A)");
    assert_eq!(id.memory_label, "16GB (Virtual-4GB)");
}

#[test]
fn publish_after_close_drops_silently() {
    let snap = MetricSnapshot::Net(NetSnapshot {
        down_mbps_tenths: 10,
        up_mbps_tenths: 5,
    });
    let (conn, outcome) = Publisher::publish(UiConnection::Closed, snap);
    assert!(matches!(outcome, PublishOutcome::Dropped));
    assert!(matches!(conn, UiConnection::Closed));
}

#[test]
fn publish_to_live_ui_updates_only_its_domain() {
    let snap = MetricSnapshot::Net(NetSnapshot {
        down_mbps_tenths: 10,
        up_mbps_tenths: 5,
    });
    let mut ui = blank_ui();
    ui.cpu_percent_tenths = 123;
    let (conn, outcome) = Publisher::publish(UiConnection::Live(ui), snap);
    assert!(matches!(outcome, PublishOutcome::Applied));
    match conn {
        UiConnection::Live(ui) => {
            assert_eq!(ui.down_mbps_tenths, 10);
            assert_eq!(ui.up_mbps_tenths, 5);
            assert_eq!(ui.cpu_percent_tenths, 123);
        }
        UiConnection::Closed => panic!("UI was live"),
    }
}
