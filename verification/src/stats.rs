//! Per-container resource sampling: the raw counters of a stats sample and
//! the CPU percentage derived from two successive samples.
use vstd::prelude::*;

verus! {

/// Raw counters needed to derive a CPU percentage.
#[derive(Debug, Clone, Copy, PartialEq, Eq, Structural)]
pub struct StatsSnapshot {
    /// Cumulative CPU time of the container, in nanoseconds.
    pub cpu_total: u64,
    /// Cumulative CPU time of the whole system, in nanoseconds.
    pub system_cpu: u64,
    /// CPUs visible to the container (at least one).
    pub online_cpus: u32,
}

/// `a - b`, or zero when `b` is larger (a counter that went backwards).
pub open spec fn delta(a: u64, b: u64) -> nat {
    if a >= b { (a - b) as nat } else { 0 }
}

/// CPU use between two samples in hundredths of a percent, rounded down:
/// the container's share of the system CPU time, times the CPU count,
/// times 100%, kept within 0 to 100% per CPU; zero unless both counters
/// advanced.
pub open spec fn cpu_hundredths(prev: StatsSnapshot, curr: StatsSnapshot) -> nat {
    let cd = delta(curr.cpu_total, prev.cpu_total);
    let sd = delta(curr.system_cpu, prev.system_cpu);
    let cap = curr.online_cpus * 10000;
    if sd > 0 && cd > 0 {
        let raw = ((cd * curr.online_cpus * 10000) / (sd as int)) as nat;
        if raw <= cap { raw } else { cap as nat }
    } else {
        0
    }
}

impl StatsSnapshot {
    /// Builds a snapshot from the optional fields of a stats sample: missing
    /// counters read as zero and the CPU count as one, never below one.
    pub fn from_raw(cpu_total: Option<u64>, system_cpu: Option<u64>, online_cpus: Option<u32>) -> (s: Self)
        ensures
            s.cpu_total == (match cpu_total { Some(v) => v, None => 0 }),
            s.system_cpu == (match system_cpu { Some(v) => v, None => 0 }),
            s.online_cpus == (match online_cpus { Some(v) => if v == 0 { 1 } else { v }, None => 1 }),
    {
        let cpus = match online_cpus {
            Some(v) => if v == 0 { 1 } else { v },
            None => 1,
        };
        StatsSnapshot {
            cpu_total: match cpu_total { Some(v) => v, None => 0 },
            system_cpu: match system_cpu { Some(v) => v, None => 0 },
            online_cpus: cpus,
        }
    }
}

/// CPU percentage (in hundredths of a percent) from two successive samples:
/// 0 to `online_cpus * 100%`.
pub fn calc_cpu_percent(prev: StatsSnapshot, curr: StatsSnapshot) -> (p: u128)
    ensures
        p == cpu_hundredths(prev, curr),
{
    let cpu_delta: u64 = curr.cpu_total.saturating_sub(prev.cpu_total);
    let system_delta: u64 = curr.system_cpu.saturating_sub(prev.system_cpu);
    if system_delta > 0 && cpu_delta > 0 {
        let cd = cpu_delta as u128;
        let cpus = curr.online_cpus as u128;
        assert(cd * cpus <= 0xffff_ffff_ffff_ffff * 0xffff_ffff) by (nonlinear_arith)
            requires cd <= 0xffff_ffff_ffff_ffff, cpus <= 0xffff_ffff;
        let raw = (cd * cpus * 10000) / (system_delta as u128);
        let cap = cpus * 10000;
        if raw <= cap { raw } else { cap }
    } else {
        0
    }
}

/// The CPU figure reported for a sample: zero for the first sample of a
/// stream (there is no delta yet), otherwise `calc_cpu_percent` capped at
/// `u64::MAX`.
pub fn cpu_sample(prev: Option<StatsSnapshot>, curr: StatsSnapshot) -> (p: u64)
    ensures
        prev is None ==> p == 0,
        prev matches Some(q) ==> p == (if cpu_hundredths(q, curr) <= u64::MAX {
            cpu_hundredths(q, curr)
        } else {
            u64::MAX as nat
        }),
{
    match prev {
        None => 0,
        Some(q) => {
            let v = calc_cpu_percent(q, curr);
            if v <= u64::MAX as u128 { v as u64 } else { u64::MAX }
        },
    }
}

/// Sum of the known byte counts in `s`.
pub open spec fn sum_bytes(s: Seq<Option<u64>>) -> nat
    decreases s.len(),
{
    if s.len() == 0 {
        0
    } else {
        sum_bytes(s.drop_last()) + match s.last() { Some(v) => v as nat, None => 0nat }
    }
}

/// Total received and transmitted bytes over all network interfaces
/// (`rx`, `tx` per interface; missing counts read as zero); `None` when a
/// total does not fit in 64 bits.
pub fn network_totals(rx: &Vec<Option<u64>>, tx: &Vec<Option<u64>>) -> (r: Option<(u64, u64)>)
    requires
        rx@.len() == tx@.len(),
    ensures
        (sum_bytes(rx@) <= u64::MAX && sum_bytes(tx@) <= u64::MAX) ==> r == Some(
            (sum_bytes(rx@) as u64, sum_bytes(tx@) as u64),
        ),
        !(sum_bytes(rx@) <= u64::MAX && sum_bytes(tx@) <= u64::MAX) ==> r is None,
{
    let mut total_rx: u64 = 0;
    let mut total_tx: u64 = 0;
    let mut ok = true;
    let mut i: usize = 0;
    while i < rx.len()
        invariant
            i <= rx@.len(),
            rx@.len() == tx@.len(),
            ok ==> total_rx == sum_bytes(rx@.take(i as int)) && total_tx == sum_bytes(tx@.take(i as int)),
            !ok ==> sum_bytes(rx@.take(i as int)) > u64::MAX || sum_bytes(tx@.take(i as int)) > u64::MAX,
        decreases rx@.len() - i,
    {
        assert(rx@.take(i as int + 1).drop_last() =~= rx@.take(i as int));
        assert(tx@.take(i as int + 1).drop_last() =~= tx@.take(i as int));
        let a: u64 = match rx[i] { Some(v) => v, None => 0 };
        let b: u64 = match tx[i] { Some(v) => v, None => 0 };
        if ok {
            match (total_rx.checked_add(a), total_tx.checked_add(b)) {
                (Some(x), Some(y)) => {
                    total_rx = x;
                    total_tx = y;
                },
                _ => {
                    ok = false;
                },
            }
        }
        i = i + 1;
    }
    assert(rx@.take(i as int) =~= rx@);
    assert(tx@.take(i as int) =~= tx@);
    if ok {
        Some((total_rx, total_tx))
    } else {
        None
    }
}

} // verus!
