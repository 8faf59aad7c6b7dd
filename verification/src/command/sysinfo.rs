//! Built-in system metric commands: CPU usage and frequency, memory, swap
//! and disk usage, and network counters.  The numbers come from the
//! `sysinfo` crate behind trusted wrappers; the throttling, selection,
//! aggregation and formatting are verified.

use vstd::prelude::*;
use crate::utils::{
    human_readable, human_readable_p10, u64_to_string, spec_dec, spec_fixed2, spec_binary_unit,
    spec_decimal_unit,
};
use crate::event::string_eq;

verus! {

/// A command that yields the CPU usage, of one core or over all cores, as
/// a percentage.
#[derive(Debug)]
pub struct CPUUsageCommand(pub Option<usize>);

/// A command that yields a core's frequency.
#[derive(Debug)]
pub struct CPUFreqCommand(pub Option<usize>);

/// A command that yields one quantity of one memory-like store.
#[derive(Debug)]
pub struct MemoryInfoCommand {
    pub ty: MemoryInfoType,
    pub val: MemoryInfoValue,
}

/// Which store a memory command reads: RAM, swap, or the disk mounted at a
/// configured mountpoint.
#[derive(Debug)]
pub enum MemoryInfoType {
    RAM,
    Swap,
    Disk(Option<String>),
}

/// Which quantity of the store is shown.
#[derive(Clone, Copy, Debug, PartialEq, Eq, Structural)]
pub enum MemoryInfoValue {
    Usage,
    Total,
    Free,
    Percent,
}

/// A command that yields a network counter, optionally of one interface.
#[derive(Debug)]
pub struct NetInfoCommand {
    pub name: Option<String>,
    pub ty: NetInfoType,
    pub time: NetInfoTime,
    pub val: NetInfoValue,
}

/// The direction of the counted traffic.
#[derive(Clone, Copy, Debug, PartialEq, Eq, Structural)]
pub enum NetInfoType {
    Download,
    Upload,
}

/// Over which span the counter is taken: since the last sample, per
/// second, or over the interface's lifetime.
#[derive(Clone, Copy, Debug, PartialEq, Eq, Structural)]
pub enum NetInfoTime {
    Since,
    PerSecond,
    Total,
}

/// What is counted.
#[derive(Clone, Copy, Debug, PartialEq, Eq, Structural)]
pub enum NetInfoValue {
    Bits,
    Bytes,
    Packets,
    Errors,
}

/// One interface's counters, as sampled by the driver: bytes, packets and
/// errors in both directions since the last refresh, and lifetime byte
/// totals.
#[derive(Debug)]
pub struct NetCounters {
    pub name: String,
    pub received: u64,
    pub transmitted: u64,
    pub packets_received: u64,
    pub packets_transmitted: u64,
    pub errors_received: u64,
    pub errors_transmitted: u64,
    pub total_received: u64,
    pub total_transmitted: u64,
    pub total_packets_received: u64,
    pub total_packets_transmitted: u64,
    pub total_errors_received: u64,
    pub total_errors_transmitted: u64,
}

#[verifier::external_type_specification]
#[verifier::external_body]
pub struct ExSystem(sysinfo::System);

#[verifier::external_type_specification]
#[verifier::external_body]
pub struct ExNetworks(sysinfo::Networks);

#[verifier::external_type_specification]
#[verifier::external_body]
pub struct ExDisks(sysinfo::Disks);

#[verifier::external_type_specification]
#[verifier::external_body]
pub struct ExDisk(sysinfo::Disk);

#[verifier::external_type_specification]
#[verifier::external_body]
pub struct ExNetworkData(sysinfo::NetworkData);

/// The stateful sampler behind all metric commands: the sampled system
/// handles and the last sample time of each metric class, so that several
/// widgets asking in one tick share one sample.
pub struct SystemSingleton {
    pub system: sysinfo::System,
    pub networks: sysinfo::Networks,
    pub disks: sysinfo::Disks,
    pub last_cpu: Option<u64>,
    pub last_mem: Option<u64>,
    pub last_net: Option<u64>,
    pub last_disks: Option<u64>,
    pub net_update_time_ms: u64,
}

/// How long, at least, between two samples of one metric class, in
/// milliseconds.
pub open spec fn spec_throttle_ms() -> int {
    30
}

/// Whether a metric class is due for a new sample.
pub open spec fn spec_should_resample(last: Option<u64>, now: u64) -> bool {
    match last {
        None => true,
        Some(t) => now > t + spec_throttle_ms(),
    }
}

/// Whether a metric class is due for a new sample.
pub fn should_resample(last: &Option<u64>, now: u64) -> (r: bool)
    ensures
        r == spec_should_resample(*last, now),
{
    match last {
        None => true,
        Some(t) => now > *t && now - *t > 30,
    }
}

/// Relies on `sysinfo::System::new`: a handle with nothing sampled yet.
#[verifier::external_body]
fn sys_new() -> sysinfo::System {
    sysinfo::System::new()
}

/// Relies on `sysinfo::Networks::new`: an empty interface list.
#[verifier::external_body]
fn networks_new() -> sysinfo::Networks {
    sysinfo::Networks::new()
}

/// Relies on `sysinfo::Disks::new`: an empty disk list.
#[verifier::external_body]
fn disks_new() -> sysinfo::Disks {
    sysinfo::Disks::new()
}

/// Relies on `sysinfo::System::refresh_cpu_usage` and
/// `refresh_cpu_frequency`: samples the CPU usage and frequency.
#[verifier::external_body]
fn sys_refresh_cpu(sys: &mut sysinfo::System) {
    sys.refresh_cpu_usage();
    sys.refresh_cpu_frequency();
}

/// Relies on `sysinfo::System::refresh_memory`: samples RAM and swap.
#[verifier::external_body]
fn sys_refresh_memory(sys: &mut sysinfo::System) {
    sys.refresh_memory();
}

/// Relies on `sysinfo::Networks::refresh`: samples the interface counters,
/// adding new interfaces and dropping vanished ones.
#[verifier::external_body]
fn networks_refresh(networks: &mut sysinfo::Networks) {
    networks.refresh(true);
}

/// Relies on `sysinfo::Disks::refresh`: samples the disk list and usage.
#[verifier::external_body]
fn disks_refresh(disks: &mut sysinfo::Disks) {
    disks.refresh(true);
}

/// Relies on `sysinfo::System::global_cpu_usage`, `cpus` and
/// `Cpu::cpu_usage`: the usage percentage, formatted to whole percents, of
/// one core or of all, or nothing for an unknown core index.
#[verifier::external_body]
fn sys_cpu_usage_str(sys: &sysinfo::System, core: &Option<usize>) -> Option<String> {
    match core {
        Some(c) => sys.cpus().get(*c).map(|p| format!("{:.0}", p.cpu_usage())),
        None => Some(format!("{:.0}", sys.global_cpu_usage())),
    }
}

/// Relies on `sysinfo::System::cpus` and `Cpu::frequency`: a core's
/// frequency in megahertz, or nothing for an unknown core index.
#[verifier::external_body]
fn sys_cpu_freq_mhz(sys: &sysinfo::System, core: usize) -> Option<u64> {
    sys.cpus().get(core).map(|p| p.frequency())
}

/// Relies on `sysinfo::System::used_memory`: used RAM in bytes.
#[verifier::external_body]
fn sys_used_memory(sys: &sysinfo::System) -> u64 {
    sys.used_memory()
}

/// Relies on `sysinfo::System::total_memory`: total RAM in bytes.
#[verifier::external_body]
fn sys_total_memory(sys: &sysinfo::System) -> u64 {
    sys.total_memory()
}

/// Relies on `sysinfo::System::used_swap`: used swap in bytes.
#[verifier::external_body]
fn sys_used_swap(sys: &sysinfo::System) -> u64 {
    sys.used_swap()
}

/// Relies on `sysinfo::System::total_swap`: total swap in bytes.
#[verifier::external_body]
fn sys_total_swap(sys: &sysinfo::System) -> u64 {
    sys.total_swap()
}

/// Relies on `sysinfo::Disks::list`, `Disk::mount_point`, `total_space`
/// and `available_space`: each disk as its mount path with total and
/// available bytes.
#[verifier::external_body]
fn disks_snapshot(disks: &sysinfo::Disks) -> Vec<(String, u64, u64)> {
    disks.list().iter().map(
        |d| (d.mount_point().to_string_lossy().into_owned(), d.total_space(), d.available_space()),
    ).collect()
}

/// Relies on `sysinfo::Networks::list` and the `NetworkData` counter
/// getters: each interface's counters as plain numbers.
#[verifier::external_body]
fn networks_snapshot(networks: &sysinfo::Networks) -> Vec<NetCounters> {
    networks.list().iter().map(|(name, n)| NetCounters {
        name: name.clone(),
        received: n.received(), transmitted: n.transmitted(),
        packets_received: n.packets_received(), packets_transmitted: n.packets_transmitted(),
        errors_received: n.errors_on_received(), errors_transmitted: n.errors_on_transmitted(),
        total_received: n.total_received(), total_transmitted: n.total_transmitted(),
        total_packets_received: n.total_packets_received(),
        total_packets_transmitted: n.total_packets_transmitted(),
        total_errors_received: n.total_errors_on_received(),
        total_errors_transmitted: n.total_errors_on_transmitted(),
    }).collect()
}

/// A number clamped into the unsigned 64-bit range.
pub open spec fn spec_sat_u64(x: int) -> u64 {
    if x > u64::MAX {
        u64::MAX
    } else if x < 0 {
        0u64
    } else {
        x as u64
    }
}

/// The quantity string a memory command shows for sampled usage and total:
/// the chosen quantity scaled to a binary unit with a `B` suffix, or the
/// usage as whole rounded percents.  Free space saturates at zero, and a
/// percentage of an empty store has no value.
pub open spec fn spec_format_memory(val: MemoryInfoValue, usage: u64, total: u64) -> Seq<char> {
    match val {
        MemoryInfoValue::Total => spec_fixed2(total as nat, spec_binary_unit(total as nat).0)
            + spec_binary_unit(total as nat).1 + "B"@,
        MemoryInfoValue::Usage => spec_fixed2(usage as nat, spec_binary_unit(usage as nat).0)
            + spec_binary_unit(usage as nat).1 + "B"@,
        MemoryInfoValue::Free => {
            let free = if usage <= total {
                (total - usage) as nat
            } else {
                0nat
            };
            spec_fixed2(free, spec_binary_unit(free).0) + spec_binary_unit(free).1 + "B"@
        },
        MemoryInfoValue::Percent => if total > 0 {
            spec_dec(spec_sat_u64((usage * 200 + total) / (2 * total)) as nat).push('%')
        } else {
            "ERR"@
        },
    }
}

/// Formats one quantity of a memory-like store from its sampled usage and
/// total.
pub fn format_memory(val: &MemoryInfoValue, usage: u64, total: u64) -> (r: String)
    ensures
        r@ == spec_format_memory(*val, usage, total),
{
    proof {
        reveal_strlit("B");
    }
    match val {
        MemoryInfoValue::Total => {
            let mut s = human_readable(total);
            s.push('B');
            proof {
                assert(s@ =~= spec_format_memory(*val, usage, total));
            }
            s
        },
        MemoryInfoValue::Usage => {
            let mut s = human_readable(usage);
            s.push('B');
            proof {
                assert(s@ =~= spec_format_memory(*val, usage, total));
            }
            s
        },
        MemoryInfoValue::Free => {
            let free = if usage <= total {
                total - usage
            } else {
                0
            };
            let mut s = human_readable(free);
            s.push('B');
            proof {
                assert(s@ =~= spec_format_memory(*val, usage, total));
            }
            s
        },
        MemoryInfoValue::Percent => {
            if total > 0 {
                let usage2 = usage as u128;
                let total2 = total as u128;
                let p = (usage2 * 200 + total2) / (2 * total2);
                proof {
                    vstd::arithmetic::div_mod::lemma_div_pos_is_pos(
                        (usage2 * 200 + total2) as int,
                        (2 * total2) as int,
                    );
                }
                let p64: u64 = if p > u64::MAX as u128 {
                    u64::MAX
                } else {
                    p as u64
                };
                let mut s = u64_to_string(p64);
                s.push('%');
                s
            } else {
                String::from_str("ERR")
            }
        },
    }
}

/// Whether an interface is counted for a command: a configured name must
/// match; without one every interface counts.
pub open spec fn spec_net_matches(c: NetCounters, name: Option<String>) -> bool {
    match name {
        Some(n) => c.name@ == n@,
        None => true,
    }
}

/// The raw counter one command reads from one interface, bits counted
/// eight to the byte.
pub open spec fn spec_net_pick(
    c: NetCounters,
    ty: NetInfoType,
    time: NetInfoTime,
    val: NetInfoValue,
) -> int {
    match time {
        NetInfoTime::Total => match ty {
            NetInfoType::Download => match val {
                NetInfoValue::Bits => c.total_received * 8,
                NetInfoValue::Bytes => c.total_received as int,
                NetInfoValue::Packets => c.total_packets_received as int,
                NetInfoValue::Errors => c.total_errors_received as int,
            },
            NetInfoType::Upload => match val {
                NetInfoValue::Bits => c.total_transmitted * 8,
                NetInfoValue::Bytes => c.total_transmitted as int,
                NetInfoValue::Packets => c.total_packets_transmitted as int,
                NetInfoValue::Errors => c.total_errors_transmitted as int,
            },
        },
        _ => match ty {
            NetInfoType::Download => match val {
                NetInfoValue::Bits => c.received * 8,
                NetInfoValue::Bytes => c.received as int,
                NetInfoValue::Packets => c.packets_received as int,
                NetInfoValue::Errors => c.errors_received as int,
            },
            NetInfoType::Upload => match val {
                NetInfoValue::Bits => c.transmitted * 8,
                NetInfoValue::Bytes => c.transmitted as int,
                NetInfoValue::Packets => c.packets_transmitted as int,
                NetInfoValue::Errors => c.errors_transmitted as int,
            },
        },
    }
}

/// A counter turned into a rate: per-second counts are scaled by the time
/// the sample spans; a span of zero, as before the first sample, leaves
/// the count as it is.
pub open spec fn spec_net_rate(x: int, time: NetInfoTime, elapsed_ms: u64) -> int {
    if time is PerSecond && elapsed_ms > 0 {
        x * 1000 / elapsed_ms as int
    } else {
        x
    }
}

/// The summed value a network command reads over an interface list, or
/// nothing when no interface matches.
pub open spec fn spec_net_value(
    cs: Seq<NetCounters>,
    name: Option<String>,
    ty: NetInfoType,
    time: NetInfoTime,
    val: NetInfoValue,
    elapsed_ms: u64,
) -> Option<int>
    decreases cs.len(),
{
    if cs.len() == 0 {
        None
    } else {
        let rest = spec_net_value(cs.drop_first(), name, ty, time, val, elapsed_ms);
        if spec_net_matches(cs[0], name) {
            let here = spec_net_rate(spec_net_pick(cs[0], ty, time, val), time, elapsed_ms);
            match rest {
                Some(r) => Some(here + r),
                None => Some(here),
            }
        } else {
            rest
        }
    }
}

/// Sums the value a network command reads over sampled interface
/// counters; the sum is clamped into the 64-bit range.
pub fn net_value(
    counters: &Vec<NetCounters>,
    name: &Option<String>,
    ty: &NetInfoType,
    time: &NetInfoTime,
    val: &NetInfoValue,
    elapsed_ms: u64,
) -> (r: Option<u64>)
    ensures
        r == match spec_net_value(counters@, *name, *ty, *time, *val, elapsed_ms) {
            Some(v) => Some(spec_sat_u64(v)),
            None => None::<u64>,
        },
{
    let n = counters.len();
    let mut i: usize = 0;
    let mut acc: u64 = 0;
    let ghost mut partial: int = 0int;
    let mut present = false;
    proof {
        assert(counters@.skip(0) =~= counters@);
    }
    while i < n
        invariant
            n == counters@.len(),
            i <= n,
            0 <= partial,
            acc == spec_sat_u64(partial),
            !present ==> partial == 0,
            ({
                let whole = spec_net_value(counters@, *name, *ty, *time, *val, elapsed_ms);
                let rest = spec_net_value(
                    counters@.skip(i as int),
                    *name,
                    *ty,
                    *time,
                    *val,
                    elapsed_ms,
                );
                match whole {
                    Some(v) => {
                        &&& (present || rest is Some)
                        &&& v == partial + match rest {
                            Some(x) => x,
                            None => 0int,
                        }
                    },
                    None => !present && rest is None,
                }
            }),
        decreases n - i,
    {
        proof {
            assert(counters@.skip(i as int)[0] == counters@[i as int]);
            assert(counters@.skip(i as int).drop_first() =~= counters@.skip(i + 1));
        }
        let c = &counters[i];
        let matches_name = match name {
            Some(nm) => string_eq(&c.name, nm),
            None => true,
        };
        if matches_name {
            let base: u64 = match time {
                NetInfoTime::Total => match ty {
                    NetInfoType::Download => match val {
                        NetInfoValue::Bits => c.total_received,
                        NetInfoValue::Bytes => c.total_received,
                        NetInfoValue::Packets => c.total_packets_received,
                        NetInfoValue::Errors => c.total_errors_received,
                    },
                    NetInfoType::Upload => match val {
                        NetInfoValue::Bits => c.total_transmitted,
                        NetInfoValue::Bytes => c.total_transmitted,
                        NetInfoValue::Packets => c.total_packets_transmitted,
                        NetInfoValue::Errors => c.total_errors_transmitted,
                    },
                },
                _ => match ty {
                    NetInfoType::Download => match val {
                        NetInfoValue::Bits => c.received,
                        NetInfoValue::Bytes => c.received,
                        NetInfoValue::Packets => c.packets_received,
                        NetInfoValue::Errors => c.errors_received,
                    },
                    NetInfoType::Upload => match val {
                        NetInfoValue::Bits => c.transmitted,
                        NetInfoValue::Bytes => c.transmitted,
                        NetInfoValue::Packets => c.packets_transmitted,
                        NetInfoValue::Errors => c.errors_transmitted,
                    },
                },
            };
            let raw: u128 = if matches!(val, NetInfoValue::Bits) {
                (base as u128) * 8
            } else {
                base as u128
            };
            let here: u128 = if matches!(time, NetInfoTime::PerSecond) && elapsed_ms > 0 {
                raw * 1000 / (elapsed_ms as u128)
            } else {
                raw
            };
            proof {
                assert(raw * 1000 <= 0x8_0000_0000_0000_0000u128 * 1000) by (nonlinear_arith)
                    requires
                        raw <= 0x8_0000_0000_0000_0000u128,
                ;
                if matches!(*time, NetInfoTime::PerSecond) && elapsed_ms > 0 {
                    vstd::arithmetic::div_mod::lemma_div_pos_is_pos(
                        (raw * 1000) as int,
                        elapsed_ms as int,
                    );
                }
                assert(here as int == spec_net_rate(
                    spec_net_pick(counters@[i as int], *ty, *time, *val),
                    *time,
                    elapsed_ms,
                ));
            }
            let sum: u128 = (acc as u128) + here;
            acc = if sum > u64::MAX as u128 {
                u64::MAX
            } else {
                sum as u64
            };
            proof {
                partial = partial + here as int;
            }
            present = true;
        }
        i = i + 1;
    }
    proof {
        assert(counters@.skip(n as int) =~= Seq::<NetCounters>::empty());
    }
    if present {
        Some(acc)
    } else {
        None
    }
}

/// The string a network command shows for a value: bits per second get a
/// decimal unit and `bps`, bytes a binary unit and `B/s`, packets and
/// errors a decimal unit; the per-second suffix only for rates.
pub open spec fn spec_format_net(value: u64, time: NetInfoTime, val: NetInfoValue) -> Seq<char> {
    let hr = match val {
        NetInfoValue::Bytes => spec_fixed2(value as nat, spec_binary_unit(value as nat).0)
            + spec_binary_unit(value as nat).1,
        _ => spec_fixed2(value as nat, spec_decimal_unit(value as nat).0) + spec_decimal_unit(
            value as nat,
        ).1,
    };
    let unit = match val {
        NetInfoValue::Bits => "b"@,
        NetInfoValue::Bytes => "B"@,
        _ => ""@,
    };
    let suffix = if time is PerSecond {
        match val {
            NetInfoValue::Bits => "ps"@,
            _ => "/s"@,
        }
    } else {
        ""@
    };
    hr + unit + suffix
}

/// Formats the value a network command shows.
pub fn format_net(value: u64, time: &NetInfoTime, val: &NetInfoValue) -> (r: String)
    ensures
        r@ == spec_format_net(value, *time, *val),
{
    proof {
        reveal_strlit("b");
        reveal_strlit("B");
        reveal_strlit("ps");
        reveal_strlit("/s");
        reveal_strlit("");
    }
    let mut s = match val {
        NetInfoValue::Bytes => human_readable(value),
        _ => human_readable_p10(value),
    };
    match val {
        NetInfoValue::Bits => s.push('b'),
        NetInfoValue::Bytes => s.push('B'),
        _ => {},
    }
    if matches!(time, NetInfoTime::PerSecond) {
        match val {
            NetInfoValue::Bits => {
                s.push('p');
                s.push('s');
            },
            _ => {
                s.push('/');
                s.push('s');
            },
        }
    }
    proof {
        assert(s@ =~= spec_format_net(value, *time, *val));
    }
    s
}

/// The mount path a disk command looks for: an absolute configured
/// mountpoint as it is, a relative one under the configuration directory.
pub open spec fn spec_mount_path(workdir: Option<String>, mnt: Seq<char>) -> Seq<char> {
    if mnt.len() > 0 && mnt[0] == '/' {
        mnt
    } else {
        match workdir {
            Some(w) => w@ + "/"@ + mnt,
            None => mnt,
        }
    }
}

/// The first sampled disk mounted at a path, as the used and total bytes.
pub open spec fn spec_disk_lookup(ds: Seq<(String, u64, u64)>, path: Seq<char>) -> Option<
    (u64, u64),
>
    decreases ds.len(),
{
    if ds.len() == 0 {
        None
    } else if ds[0].0@ == path {
        Some(
            (
                if ds[0].2 <= ds[0].1 {
                    (ds[0].1 - ds[0].2) as u64
                } else {
                    0u64
                },
                ds[0].1,
            ),
        )
    } else {
        spec_disk_lookup(ds.drop_first(), path)
    }
}

/// Whatever the snapshot held, a found disk's used bytes never exceed its
/// total.
proof fn lemma_disk_lookup_bounded(ds: Seq<(String, u64, u64)>, path: Seq<char>)
    ensures
        spec_disk_lookup(ds, path) matches Some(p) ==> p.0 <= p.1,
    decreases ds.len(),
{
    if ds.len() > 0 && ds[0].0@ != path {
        lemma_disk_lookup_bounded(ds.drop_first(), path);
    }
}

/// Finds the sampled disk mounted at a path and reads its used and total
/// bytes.
fn disk_lookup(ds: &Vec<(String, u64, u64)>, path: &String) -> (r: Option<(u64, u64)>)
    ensures
        r == spec_disk_lookup(ds@, path@),
{
    let n = ds.len();
    let mut i: usize = 0;
    proof {
        assert(ds@.skip(0) =~= ds@);
    }
    while i < n
        invariant
            n == ds@.len(),
            i <= n,
            spec_disk_lookup(ds@, path@) == spec_disk_lookup(ds@.skip(i as int), path@),
        decreases n - i,
    {
        proof {
            assert(ds@.skip(i as int)[0] == ds@[i as int]);
            assert(ds@.skip(i as int).drop_first() =~= ds@.skip(i + 1));
        }
        let d = &ds[i];
        if string_eq(&d.0, path) {
            let used = if d.2 <= d.1 {
                d.1 - d.2
            } else {
                0
            };
            return Some((used, d.1));
        }
        i = i + 1;
    }
    proof {
        assert(ds@.skip(n as int) =~= Seq::<(String, u64, u64)>::empty());
    }
    None
}

impl SystemSingleton {
    /// A sampler with nothing sampled yet.
    pub fn new() -> (r: Self)
        ensures
            r.last_cpu is None,
            r.last_mem is None,
            r.last_net is None,
            r.last_disks is None,
            r.net_update_time_ms == 0,
    {
        Self {
            system: sys_new(),
            networks: networks_new(),
            disks: disks_new(),
            last_cpu: None,
            last_mem: None,
            last_net: None,
            last_disks: None,
            net_update_time_ms: 0,
        }
    }

    /// Samples the CPU class unless it was sampled within the throttle
    /// window.
    pub fn refresh_cpu(&mut self, now: u64)
        ensures
            final(self).last_cpu == if spec_should_resample(old(self).last_cpu, now) {
                Some(now)
            } else {
                old(self).last_cpu
            },
            final(self).last_mem == old(self).last_mem,
            final(self).last_net == old(self).last_net,
            final(self).last_disks == old(self).last_disks,
            final(self).net_update_time_ms == old(self).net_update_time_ms,
    {
        if should_resample(&self.last_cpu, now) {
            sys_refresh_cpu(&mut self.system);
            self.last_cpu = Some(now);
        }
    }

    /// Samples the memory class unless it was sampled within the throttle
    /// window.
    pub fn refresh_mem(&mut self, now: u64)
        ensures
            final(self).last_mem == if spec_should_resample(old(self).last_mem, now) {
                Some(now)
            } else {
                old(self).last_mem
            },
            final(self).last_cpu == old(self).last_cpu,
            final(self).last_net == old(self).last_net,
            final(self).last_disks == old(self).last_disks,
            final(self).net_update_time_ms == old(self).net_update_time_ms,
    {
        if should_resample(&self.last_mem, now) {
            sys_refresh_memory(&mut self.system);
            self.last_mem = Some(now);
        }
    }

    /// Samples the disk class unless it was sampled within the throttle
    /// window.
    pub fn refresh_disks(&mut self, now: u64)
        ensures
            final(self).last_disks == if spec_should_resample(old(self).last_disks, now) {
                Some(now)
            } else {
                old(self).last_disks
            },
            final(self).last_cpu == old(self).last_cpu,
            final(self).last_mem == old(self).last_mem,
            final(self).last_net == old(self).last_net,
            final(self).net_update_time_ms == old(self).net_update_time_ms,
    {
        if should_resample(&self.last_disks, now) {
            disks_refresh(&mut self.disks);
            self.last_disks = Some(now);
        }
    }

    /// Samples the network class unless it was sampled within the throttle
    /// window, and records the time the sample spans, for rates.
    pub fn refresh_net(&mut self, now: u64)
        ensures
            final(self).net_update_time_ms == match old(self).last_net {
                Some(t) => if now >= t {
                    (now - t) as u64
                } else {
                    0u64
                },
                None => 0u64,
            },
            final(self).last_net == if spec_should_resample(old(self).last_net, now) {
                Some(now)
            } else {
                old(self).last_net
            },
            final(self).last_cpu == old(self).last_cpu,
            final(self).last_mem == old(self).last_mem,
            final(self).last_disks == old(self).last_disks,
    {
        self.net_update_time_ms = match self.last_net {
            Some(t) => if now >= t {
                now - t
            } else {
                0
            },
            None => 0,
        };
        if should_resample(&self.last_net, now) {
            networks_refresh(&mut self.networks);
            self.last_net = Some(now);
        }
    }

    /// The used and total bytes of a memory-like store, if the store can
    /// be read: RAM and swap always, a disk only when a mountpoint is
    /// configured and a sampled disk is mounted there.
    pub fn mem(
        &mut self,
        ty: &MemoryInfoType,
        now: u64,
        workdir: &Option<String>,
    ) -> (r: Option<(u64, u64)>)
        ensures
            ty is RAM || ty is Swap ==> r is Some,
            ty matches MemoryInfoType::Disk(mnt) ==> match mnt {
                None => r is None,
                Some(m) => (exists|snapshot: Seq<(String, u64, u64)>|
                    r == spec_disk_lookup(snapshot, spec_mount_path(*workdir, m@))) && (
                r matches Some(p) ==> p.0 <= p.1),
            },
            final(self).last_mem == if ty is RAM || ty is Swap {
                if spec_should_resample(old(self).last_mem, now) {
                    Some(now)
                } else {
                    old(self).last_mem
                }
            } else {
                old(self).last_mem
            },
            final(self).last_disks == if ty is Disk {
                if spec_should_resample(old(self).last_disks, now) {
                    Some(now)
                } else {
                    old(self).last_disks
                }
            } else {
                old(self).last_disks
            },
            final(self).last_cpu == old(self).last_cpu,
            final(self).last_net == old(self).last_net,
            final(self).net_update_time_ms == old(self).net_update_time_ms,
    {
        match ty {
            MemoryInfoType::RAM => {
                self.refresh_mem(now);
                Some((sys_used_memory(&self.system), sys_total_memory(&self.system)))
            },
            MemoryInfoType::Swap => {
                self.refresh_mem(now);
                Some((sys_used_swap(&self.system), sys_total_swap(&self.system)))
            },
            MemoryInfoType::Disk(mnt) => {
                self.refresh_disks(now);
                match mnt {
                    Some(m) => {
                        let path = mount_path(workdir, m);
                        let snapshot = disks_snapshot(&self.disks);
                        let r = disk_lookup(&snapshot, &path);
                        proof {
                            assert(r == spec_disk_lookup(snapshot@, spec_mount_path(
                                *workdir,
                                m@,
                            )));
                            lemma_disk_lookup_bounded(snapshot@, path@);
                        }
                        r
                    },
                    None => None,
                }
            },
        }
    }
}

/// The mount path a disk command looks for.
fn mount_path(workdir: &Option<String>, mnt: &String) -> (r: String)
    ensures
        r@ == spec_mount_path(*workdir, mnt@),
{
    let n = mnt.as_str().unicode_len();
    if n > 0 && mnt.as_str().get_char(0) == '/' {
        return mnt.clone();
    }
    match workdir {
        Some(w) => {
            let mut out = w.clone();
            out.push('/');
            out.append(mnt.as_str());
            proof {
                reveal_strlit("/");
                assert(out@ =~= spec_mount_path(*workdir, mnt@));
            }
            out
        },
        None => mnt.clone(),
    }
}

impl CPUUsageCommand {
    /// The CPU usage as a whole-percent string, or `ERR` for an unknown
    /// core.
    pub fn execute(&self, state: &mut SystemSingleton, now: u64) -> (r: String)
        ensures
            r@ == "ERR"@ || (r@.len() >= 1 && r@.last() == '%'),
    {
        state.refresh_cpu(now);
        match sys_cpu_usage_str(&state.system, &self.0) {
            Some(mut s) => {
                s.push('%');
                s
            },
            None => String::from_str("ERR"),
        }
    }
}

impl CPUFreqCommand {
    /// A core's frequency scaled to a decimal unit with a `Hz` suffix, or
    /// `ERR` for an unknown core.  Without a configured core the first
    /// core's frequency stands in for the machine's.
    pub fn execute(&self, state: &mut SystemSingleton, now: u64) -> (r: String)
        ensures
            r@ == "ERR"@ || (r@.len() >= 2 && r@.last() == 'z'),
    {
        state.refresh_cpu(now);
        let core = match &self.0 {
            Some(c) => *c,
            None => 0,
        };
        match sys_cpu_freq_mhz(&state.system, core) {
            Some(mhz) => {
                let hz = if mhz > u64::MAX / 1000000 {
                    u64::MAX
                } else {
                    mhz * 1000000
                };
                let mut s = human_readable_p10(hz);
                s.push('H');
                s.push('z');
                s
            },
            None => String::from_str("ERR"),
        }
    }
}

impl MemoryInfoCommand {
    /// The configured quantity of the configured store, or `ERR` when the
    /// store cannot be read.
    pub fn execute(
        &self,
        state: &mut SystemSingleton,
        now: u64,
        workdir: &Option<String>,
    ) -> (r: String)
        ensures
            r@ == "ERR"@ || exists|u: u64, t: u64| r@ == spec_format_memory(self.val, u, t),
            self.ty is RAM || self.ty is Swap ==> exists|u: u64, t: u64|
                r@ == spec_format_memory(self.val, u, t),
    {
        match state.mem(&self.ty, now, workdir) {
            Some((usage, total)) => {
                let out = format_memory(&self.val, usage, total);
                proof {
                    assert(out@ == spec_format_memory(self.val, usage, total));
                }
                out
            },
            None => String::from_str("ERR"),
        }
    }
}

impl NetInfoCommand {
    /// The configured network counter over the matching interfaces, or
    /// `ERR` when none matches.
    pub fn execute(&self, state: &mut SystemSingleton, now: u64) -> (r: String)
        ensures
            r@ == "ERR"@ || exists|v: u64| r@ == spec_format_net(v, self.time, self.val),
    {
        state.refresh_net(now);
        let counters = networks_snapshot(&state.networks);
        match net_value(
            &counters,
            &self.name,
            &self.ty,
            &self.time,
            &self.val,
            state.net_update_time_ms,
        ) {
            Some(v) => format_net(v, &self.time, &self.val),
            None => String::from_str("ERR"),
        }
    }
}

} // verus!
