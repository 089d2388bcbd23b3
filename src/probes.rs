//! Probe results and the snapshot of one collection cycle.

use vstd::prelude::*;
use crate::client::Message;
use crate::decimal::{decimal, decimal_string};
use crate::payload::{put, put_all, Entry, Payload};

verus! {

/// One metric read from the host.
///
/// Load averages are held as the decimal text of the values the host
/// reported, since that text is all the payload carries of them.
pub enum Probe {
    /// Number of logical CPUs.
    CPUNumber(u32),
    /// Load average over one, five and fifteen minutes.
    LoadAvg(String, String, String),
    /// Memory in kilobytes: total, free, available, buffers, cached.
    MemInfo(u64, u64, u64, u64, u64),
    /// Disk space in bytes: total, free.
    DiskInfo(u64, u64),
}

/// What the system-stats provider returned for each metric in one cycle;
/// `None` where the provider call failed.
pub struct Readings {
    pub cpu_num: Option<u32>,
    pub loadavg: Option<(String, String, String)>,
    pub mem_info: Option<(u64, u64, u64, u64, u64)>,
    pub disk_info: Option<(u64, u64)>,
}

/// The kind of metric a probe result is: 0 CPU count, 1 load average,
/// 2 memory, 3 disk.
pub open spec fn probe_kind(p: Probe) -> nat {
    match p {
        Probe::CPUNumber(..) => 0,
        Probe::LoadAvg(..) => 1,
        Probe::MemInfo(..) => 2,
        Probe::DiskInfo(..) => 3,
    }
}

/// Whether some result of `s` is of kind `k`.
pub open spec fn has_kind(s: Seq<Probe>, k: nat) -> bool {
    exists|i: int| 0 <= i < s.len() && probe_kind(#[trigger] s[i]) == k
}

/// The snapshot for `r`: one result for each metric the provider delivered,
/// in the order CPU count, load average, memory, disk.
pub open spec fn snapshot_of(r: Readings) -> Seq<Probe> {
    let cpu = match r.cpu_num {
        Some(n) => seq![Probe::CPUNumber(n)],
        None => Seq::empty(),
    };
    let load = match r.loadavg {
        Some(l) => seq![Probe::LoadAvg(l.0, l.1, l.2)],
        None => Seq::empty(),
    };
    let mem = match r.mem_info {
        Some(m) => seq![Probe::MemInfo(m.0, m.1, m.2, m.3, m.4)],
        None => Seq::empty(),
    };
    let disk = match r.disk_info {
        Some(d) => seq![Probe::DiskInfo(d.0, d.1)],
        None => Seq::empty(),
    };
    cpu + load + mem + disk
}

/// Builds the snapshot of one collection cycle from the provider's results.
/// A failed metric is left out; the others are kept.
pub fn get_probes(readings: Readings) -> (r: Vec<Probe>)
    ensures
        r@ == snapshot_of(readings),
        forall|i: int, j: int| 0 <= i < j < r@.len() ==> probe_kind(r@[i]) < probe_kind(r@[j]),
        has_kind(r@, 0) <==> readings.cpu_num is Some,
        has_kind(r@, 1) <==> readings.loadavg is Some,
        has_kind(r@, 2) <==> readings.mem_info is Some,
        has_kind(r@, 3) <==> readings.disk_info is Some,
{
    let ghost g = readings;
    let mut v: Vec<Probe> = Vec::new();
    if let Some(n) = readings.cpu_num {
        v.push(Probe::CPUNumber(n));
    }
    if let Some(l) = readings.loadavg {
        v.push(Probe::LoadAvg(l.0, l.1, l.2));
    }
    if let Some(m) = readings.mem_info {
        v.push(Probe::MemInfo(m.0, m.1, m.2, m.3, m.4));
    }
    if let Some(d) = readings.disk_info {
        v.push(Probe::DiskInfo(d.0, d.1));
    }
    assert(v@ =~= snapshot_of(g));
    proof {
        let s = v@;
        assert forall|k: nat| #[trigger] has_kind(s, k) implies k < 4 && (k == 0 ==> g.cpu_num is Some)
            && (k == 1 ==> g.loadavg is Some) && (k == 2 ==> g.mem_info is Some)
            && (k == 3 ==> g.disk_info is Some) by {
            let i = choose|i: int| 0 <= i < s.len() && probe_kind(#[trigger] s[i]) == k;
        }
        if g.cpu_num is Some {
            assert(probe_kind(s[0]) == 0);
        }
        if g.loadavg is Some {
            let i = if g.cpu_num is Some { 1int } else { 0int };
            assert(probe_kind(s[i]) == 1);
        }
        if g.mem_info is Some {
            let i = (if g.cpu_num is Some { 1int } else { 0int }) + (if g.loadavg is Some { 1int } else { 0int });
            assert(probe_kind(s[i]) == 2);
        }
        if g.disk_info is Some {
            let i = s.len() - 1;
            assert(probe_kind(s[i]) == 3);
        }
        assert(has_kind(s, 0) == g.cpu_num is Some);
        assert(has_kind(s, 1) == g.loadavg is Some);
        assert(has_kind(s, 2) == g.mem_info is Some);
        assert(has_kind(s, 3) == g.disk_info is Some);
    }
    v
}

proof fn lemma_put_all_push(e: Seq<Entry>, fs: Seq<Entry>, x: Entry)
    ensures
        put_all(e, fs.push(x)) == put(put_all(e, fs), x.0, x.1),
{
    assert(fs.push(x).drop_last() =~= fs);
}

impl Message for Probe {
    open spec fn fields(&self) -> Seq<Entry> {
        match *self {
            Probe::CPUNumber(n) => seq![("cpu_number"@, decimal(n as nat))],
            Probe::LoadAvg(one, five, fifteen) => seq![
                ("load_one"@, one@),
                ("load_five"@, five@),
                ("load_fifteen"@, fifteen@),
            ],
            Probe::MemInfo(total, free, avail, buffers, cached) => seq![
                ("mem_total"@, decimal(total as nat)),
                ("mem_free"@, decimal(free as nat)),
                ("mem_avail"@, decimal(avail as nat)),
                ("mem_buffers"@, decimal(buffers as nat)),
                ("mem_cached"@, decimal(cached as nat)),
            ],
            Probe::DiskInfo(total, free) => seq![
                ("disk_total"@, decimal(total as nat)),
                ("disk_free"@, decimal(free as nat)),
            ],
        }
    }

    fn write(&self, map: &mut Payload) {
        let ghost e0 = map@;
        match self {
            Probe::CPUNumber(n) => {
                map.insert(String::from_str("cpu_number"), decimal_string(*n as u64));
                proof {
                    lemma_put_all_push(e0, seq![], self.fields()[0]);
                    assert(seq![].push(self.fields()[0]) =~= self.fields());
                }
            }
            Probe::LoadAvg(one, five, fifteen) => {
                map.insert(String::from_str("load_one"), one.clone());
                map.insert(String::from_str("load_five"), five.clone());
                map.insert(String::from_str("load_fifteen"), fifteen.clone());
                proof {
                    let f = self.fields();
                    lemma_put_all_push(e0, seq![], f[0]);
                    lemma_put_all_push(e0, seq![f[0]], f[1]);
                    lemma_put_all_push(e0, seq![f[0], f[1]], f[2]);
                    assert(seq![].push(f[0]) =~= seq![f[0]]);
                    assert(seq![f[0]].push(f[1]) =~= seq![f[0], f[1]]);
                    assert(seq![f[0], f[1]].push(f[2]) =~= f);
                }
            }
            Probe::MemInfo(total, free, avail, buffers, cached) => {
                map.insert(String::from_str("mem_total"), decimal_string(*total));
                map.insert(String::from_str("mem_free"), decimal_string(*free));
                map.insert(String::from_str("mem_avail"), decimal_string(*avail));
                map.insert(String::from_str("mem_buffers"), decimal_string(*buffers));
                map.insert(String::from_str("mem_cached"), decimal_string(*cached));
                proof {
                    let f = self.fields();
                    lemma_put_all_push(e0, seq![], f[0]);
                    lemma_put_all_push(e0, seq![f[0]], f[1]);
                    lemma_put_all_push(e0, seq![f[0], f[1]], f[2]);
                    lemma_put_all_push(e0, seq![f[0], f[1], f[2]], f[3]);
                    lemma_put_all_push(e0, seq![f[0], f[1], f[2], f[3]], f[4]);
                    assert(seq![].push(f[0]) =~= seq![f[0]]);
                    assert(seq![f[0]].push(f[1]) =~= seq![f[0], f[1]]);
                    assert(seq![f[0], f[1]].push(f[2]) =~= seq![f[0], f[1], f[2]]);
                    assert(seq![f[0], f[1], f[2]].push(f[3]) =~= seq![f[0], f[1], f[2], f[3]]);
                    assert(seq![f[0], f[1], f[2], f[3]].push(f[4]) =~= f);
                }
            }
            Probe::DiskInfo(total, free) => {
                map.insert(String::from_str("disk_total"), decimal_string(*total));
                map.insert(String::from_str("disk_free"), decimal_string(*free));
                proof {
                    let f = self.fields();
                    lemma_put_all_push(e0, seq![], f[0]);
                    lemma_put_all_push(e0, seq![f[0]], f[1]);
                    assert(seq![].push(f[0]) =~= seq![f[0]]);
                    assert(seq![f[0]].push(f[1]) =~= f);
                }
            }
        }
    }
}

} // verus!
