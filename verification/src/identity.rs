//! Static hardware and OS identity.
//!
//! These fields are read once, before the live sampling loops start, and
//! published once. A value the OS cannot supply is replaced by a sentinel
//! string, never surfaced as an error.

use crate::text::{decimal_string, spec_decimal};
use vstd::prelude::*;
use vstd::string::StringExecFns;

verus! {

/// Motherboard identity as the introspection layer reports it.
pub struct BoardReading {
    pub vendor: Option<String>,
    pub name: Option<String>,
}

/// The raw one-shot identity values; `None` marks a value the OS could
/// not supply.
pub struct IdentityReadings {
    pub board: Option<BoardReading>,
    pub os_name: Option<String>,
    pub os_version: Option<String>,
    pub cpu_brand: Option<String>,
    pub physical_cores: Option<u64>,
    pub logical_threads: u64,
    pub total_memory_bytes: u64,
    pub total_swap_bytes: u64,
}

/// The fixed identity fields exactly as shown, sentinels standing in for
/// whatever was missing.
pub struct StaticIdentity {
    pub os_name: String,
    pub os_version: String,
    pub cpu_name: String,
    pub cpu_count_label: String,
    pub board_label: String,
    pub memory_label: String,
}

/// The text, or the fallback where there was none.
pub open spec fn spec_text_or(o: Option<String>, fallback: Seq<char>) -> Seq<char> {
    match o {
        Some(s) => s@,
        None => fallback,
    }
}

/// `vendor (name)`, each part falling back to `N/A`; `N/A` alone when no
/// board was found.
pub open spec fn spec_board_label(board: Option<BoardReading>) -> Seq<char> {
    match board {
        None => "N/A"@,
        Some(b) => spec_text_or(b.vendor, "N/A"@) + " ("@ + spec_text_or(b.name, "N/A"@) + ")"@,
    }
}

/// Bytes rounded up to whole GiB.
pub open spec fn spec_gib_ceil(bytes: int) -> int {
    bytes / 1073741824 + if bytes % 1073741824 > 0 {
        1int
    } else {
        0int
    }
}

/// `cores(threads)`, or `N/A` when the physical core count is unknown.
pub open spec fn spec_cpu_count_label(cores: Option<u64>, threads: int) -> Seq<char> {
    match cores {
        Some(c) => spec_decimal(c as int) + "("@ + spec_decimal(threads) + ")"@,
        None => "N/A"@,
    }
}

/// `<ram>GB (Virtual-<swap>GB)`, both rounded up to whole GiB.
pub open spec fn spec_memory_summary(ram_bytes: int, swap_bytes: int) -> Seq<char> {
    spec_decimal(spec_gib_ceil(ram_bytes)) + "GB (Virtual-"@ + spec_decimal(spec_gib_ceil(swap_bytes))
        + "GB)"@
}

/// The text, or a copy of the fallback.
fn text_or(o: Option<String>, fallback: &str) -> (r: String)
    ensures
        r@ == spec_text_or(o, fallback@),
{
    match o {
        Some(s) => s,
        None => String::from_str(fallback),
    }
}

/// Bytes rounded up to whole GiB.
fn gib_ceil(bytes: u64) -> (r: u64)
    ensures
        r == spec_gib_ceil(bytes as int),
{
    let q = bytes / 1073741824;
    let rem = bytes % 1073741824;
    if rem > 0 {
        q + 1
    } else {
        q
    }
}

/// One-shot probe turning the raw identity values into display fields.
pub struct StaticIdentityProbe;

impl StaticIdentityProbe {
    /// Every identity field formatted for display, with `N/A` or
    /// `default` sentinels where the OS supplied nothing.
    pub fn compute(probe: IdentityReadings) -> (r: StaticIdentity)
        ensures
            r.os_name@ == spec_text_or(probe.os_name, "default"@),
            r.os_version@ == spec_text_or(probe.os_version, "default"@),
            r.cpu_name@ == spec_text_or(probe.cpu_brand, "N/A"@),
            r.cpu_count_label@ == spec_cpu_count_label(
                probe.physical_cores,
                probe.logical_threads as int,
            ),
            r.board_label@ == spec_board_label(probe.board),
            r.memory_label@ == spec_memory_summary(
                probe.total_memory_bytes as int,
                probe.total_swap_bytes as int,
            ),
    {
        proof {
            reveal_strlit("N/A");
            reveal_strlit("default");
            reveal_strlit(" (");
            reveal_strlit("(");
            reveal_strlit(")");
            reveal_strlit("GB (Virtual-");
            reveal_strlit("GB)");
        }
        let board_label = match probe.board {
            None => String::from_str("N/A"),
            Some(b) => {
                let mut s = text_or(b.vendor, "N/A");
                s.append(" (");
                let n = text_or(b.name, "N/A");
                s.append(n.as_str());
                s.append(")");
                s
            },
        };
        let cpu_count_label = match probe.physical_cores {
            Some(c) => {
                let mut s = decimal_string(c);
                s.append("(");
                let t = decimal_string(probe.logical_threads);
                s.append(t.as_str());
                s.append(")");
                s
            },
            None => String::from_str("N/A"),
        };
        let mut memory_label = decimal_string(gib_ceil(probe.total_memory_bytes));
        memory_label.append("GB (Virtual-");
        let swap = decimal_string(gib_ceil(probe.total_swap_bytes));
        memory_label.append(swap.as_str());
        memory_label.append("GB)");
        StaticIdentity {
            os_name: text_or(probe.os_name, "default"),
            os_version: text_or(probe.os_version, "default"),
            cpu_name: text_or(probe.cpu_brand, "N/A"),
            cpu_count_label,
            board_label,
            memory_label,
        }
    }
}

} // verus!
