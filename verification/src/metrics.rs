//! The metrics store: one family per exported series group, rebuilt from
//! each fetched collection.
//!
//! Every reconcile call behaves as an atomic full replace of the affected
//! entity type's label space: the families are cleared, then fresh values
//! are set or counted only for label combinations present in the new
//! collection, so series of entities that vanished between polls disappear
//! from the output instead of lingering at stale values.
//!
//! Label names are held in the order the rendered output wants them
//! (sorted by name), and label values follow that same order.

use crate::family::Family;
use crate::render::family_chars;
use crate::render::push_family;
use crate::family::spec_inc;
use crate::family::spec_set;
use crate::sample::Rational;
use crate::sample::SampleValue;
use crate::strutil::or_view;
use crate::strutil::unwrap_or_string;
use crate::unifi::Client;
use crate::unifi::Device;
use crate::unifi::Site;
use vstd::prelude::*;

verus! {

/// The registry of all exported metric families.
#[derive(Debug)]
pub struct Metrics {
    pub device_info: Family,
    pub device_uptime: Family,
    pub device_adopted: Family,
    pub device_state: Family,
    pub device_cpu_usage: Family,
    pub device_memory_usage: Family,
    pub device_memory_total: Family,
    pub device_bytes_total: Family,
    pub device_packets_total: Family,
    pub client_info: Family,
    pub client_bytes_total: Family,
    pub client_signal_strength: Family,
    pub client_uptime: Family,
    pub clients_total: Family,
    pub sites_total: Family,
}

// Label keys of the device families.  Values follow the label-name order:
// device identity families use (id, mac, name), the info family adds
// model, type and version, the cpu family adds the averaging period, and
// the traffic families put the direction first.
pub open spec fn dev_key3(d: Device) -> Seq<Seq<char>> {
    seq![d._id@, d.mac@, or_view(d.name, "unknown"@)]
}

pub open spec fn dev_info_key(d: Device) -> Seq<Seq<char>> {
    seq![
        d._id@,
        d.mac@,
        or_view(d.model, "unknown"@),
        or_view(d.name, "unknown"@),
        d.device_type@,
        or_view(d.version, "unknown"@),
    ]
}

pub open spec fn dev_cpu_key(d: Device, period: Seq<char>) -> Seq<Seq<char>> {
    seq![d._id@, d.mac@, or_view(d.name, "unknown"@), period]
}

pub open spec fn dev_dir_key(d: Device, dir: Seq<char>) -> Seq<Seq<char>> {
    seq![dir, d._id@, d.mac@, or_view(d.name, "unknown"@)]
}

// What one device contributes to each device family.
pub open spec fn apply_dev_info(
    rows: Seq<(Seq<Seq<char>>, SampleValue)>,
    d: Device,
) -> Seq<(Seq<Seq<char>>, SampleValue)> {
    spec_set(rows, dev_info_key(d), SampleValue::Int(1))
}

pub open spec fn apply_dev_uptime(
    rows: Seq<(Seq<Seq<char>>, SampleValue)>,
    d: Device,
) -> Seq<(Seq<Seq<char>>, SampleValue)> {
    match d.uptime {
        Some(u) => spec_set(rows, dev_key3(d), SampleValue::Int(u)),
        None => rows,
    }
}

pub open spec fn apply_dev_adopted(
    rows: Seq<(Seq<Seq<char>>, SampleValue)>,
    d: Device,
) -> Seq<(Seq<Seq<char>>, SampleValue)> {
    spec_set(
        rows,
        dev_key3(d),
        SampleValue::Int(
            if d.adopted {
                1
            } else {
                0
            },
        ),
    )
}

pub open spec fn apply_dev_state(
    rows: Seq<(Seq<Seq<char>>, SampleValue)>,
    d: Device,
) -> Seq<(Seq<Seq<char>>, SampleValue)> {
    spec_set(rows, dev_key3(d), SampleValue::Int(d.state as i64))
}

pub open spec fn apply_dev_cpu(
    rows: Seq<(Seq<Seq<char>>, SampleValue)>,
    d: Device,
) -> Seq<(Seq<Seq<char>>, SampleValue)> {
    match d.sys_stats {
        None => rows,
        Some(s) => {
            let r1 = match s.loadavg_1 {
                Some(l) => spec_set(rows, dev_cpu_key(d, "1m"@), SampleValue::Ratio(l)),
                None => rows,
            };
            let r5 = match s.loadavg_5 {
                Some(l) => spec_set(r1, dev_cpu_key(d, "5m"@), SampleValue::Ratio(l)),
                None => r1,
            };
            match s.loadavg_15 {
                Some(l) => spec_set(r5, dev_cpu_key(d, "15m"@), SampleValue::Ratio(l)),
                None => r5,
            }
        },
    }
}

/// The memory usage ratio is set only when both memory figures are present
/// and the total is positive, so the ratio is never a division by zero.
pub open spec fn apply_dev_mem_usage(
    rows: Seq<(Seq<Seq<char>>, SampleValue)>,
    d: Device,
) -> Seq<(Seq<Seq<char>>, SampleValue)> {
    match d.sys_stats {
        None => rows,
        Some(s) => match (s.mem_used, s.mem_total) {
            (Some(u), Some(t)) => if t > 0 {
                spec_set(
                    rows,
                    dev_key3(d),
                    SampleValue::Ratio(Rational { num: u, den: t as u64 }),
                )
            } else {
                rows
            },
            _ => rows,
        },
    }
}

pub open spec fn apply_dev_mem_total(
    rows: Seq<(Seq<Seq<char>>, SampleValue)>,
    d: Device,
) -> Seq<(Seq<Seq<char>>, SampleValue)> {
    match d.sys_stats {
        None => rows,
        Some(s) => match (s.mem_used, s.mem_total) {
            (Some(_), Some(t)) => spec_set(rows, dev_key3(d), SampleValue::Int(t)),
            _ => rows,
        },
    }
}

pub open spec fn apply_dev_bytes(
    rows: Seq<(Seq<Seq<char>>, SampleValue)>,
    d: Device,
) -> Seq<(Seq<Seq<char>>, SampleValue)> {
    match d.stat {
        None => rows,
        Some(st) => {
            let r1 = match st.tx_bytes {
                Some(b) => spec_inc(rows, dev_dir_key(d, "tx"@), b as u64),
                None => rows,
            };
            match st.rx_bytes {
                Some(b) => spec_inc(r1, dev_dir_key(d, "rx"@), b as u64),
                None => r1,
            }
        },
    }
}

pub open spec fn apply_dev_packets(
    rows: Seq<(Seq<Seq<char>>, SampleValue)>,
    d: Device,
) -> Seq<(Seq<Seq<char>>, SampleValue)> {
    match d.stat {
        None => rows,
        Some(st) => {
            let r1 = match st.tx_packets {
                Some(b) => spec_inc(rows, dev_dir_key(d, "tx"@), b as u64),
                None => rows,
            };
            match st.rx_packets {
                Some(b) => spec_inc(r1, dev_dir_key(d, "rx"@), b as u64),
                None => r1,
            }
        },
    }
}

// The rows of each device family after reconciling a whole collection,
// starting from cleared families.
pub open spec fn dev_info_rows(devs: Seq<Device>) -> Seq<(Seq<Seq<char>>, SampleValue)>
    decreases devs.len(),
{
    if devs.len() == 0 {
        Seq::empty()
    } else {
        apply_dev_info(dev_info_rows(devs.drop_last()), devs.last())
    }
}

pub open spec fn dev_uptime_rows(devs: Seq<Device>) -> Seq<(Seq<Seq<char>>, SampleValue)>
    decreases devs.len(),
{
    if devs.len() == 0 {
        Seq::empty()
    } else {
        apply_dev_uptime(dev_uptime_rows(devs.drop_last()), devs.last())
    }
}

pub open spec fn dev_adopted_rows(devs: Seq<Device>) -> Seq<(Seq<Seq<char>>, SampleValue)>
    decreases devs.len(),
{
    if devs.len() == 0 {
        Seq::empty()
    } else {
        apply_dev_adopted(dev_adopted_rows(devs.drop_last()), devs.last())
    }
}

pub open spec fn dev_state_rows(devs: Seq<Device>) -> Seq<(Seq<Seq<char>>, SampleValue)>
    decreases devs.len(),
{
    if devs.len() == 0 {
        Seq::empty()
    } else {
        apply_dev_state(dev_state_rows(devs.drop_last()), devs.last())
    }
}

pub open spec fn dev_cpu_rows(devs: Seq<Device>) -> Seq<(Seq<Seq<char>>, SampleValue)>
    decreases devs.len(),
{
    if devs.len() == 0 {
        Seq::empty()
    } else {
        apply_dev_cpu(dev_cpu_rows(devs.drop_last()), devs.last())
    }
}

pub open spec fn dev_mem_usage_rows(devs: Seq<Device>) -> Seq<(Seq<Seq<char>>, SampleValue)>
    decreases devs.len(),
{
    if devs.len() == 0 {
        Seq::empty()
    } else {
        apply_dev_mem_usage(dev_mem_usage_rows(devs.drop_last()), devs.last())
    }
}

pub open spec fn dev_mem_total_rows(devs: Seq<Device>) -> Seq<(Seq<Seq<char>>, SampleValue)>
    decreases devs.len(),
{
    if devs.len() == 0 {
        Seq::empty()
    } else {
        apply_dev_mem_total(dev_mem_total_rows(devs.drop_last()), devs.last())
    }
}

pub open spec fn dev_bytes_rows(devs: Seq<Device>) -> Seq<(Seq<Seq<char>>, SampleValue)>
    decreases devs.len(),
{
    if devs.len() == 0 {
        Seq::empty()
    } else {
        apply_dev_bytes(dev_bytes_rows(devs.drop_last()), devs.last())
    }
}

pub open spec fn dev_packets_rows(devs: Seq<Device>) -> Seq<(Seq<Seq<char>>, SampleValue)>
    decreases devs.len(),
{
    if devs.len() == 0 {
        Seq::empty()
    } else {
        apply_dev_packets(dev_packets_rows(devs.drop_last()), devs.last())
    }
}

/// The sole row of the sites family: the cardinality of the collection,
/// with no labels.
pub open spec fn sites_rows(sites: Seq<Site>) -> Seq<(Seq<Seq<char>>, SampleValue)> {
    seq![(Seq::<Seq<char>>::empty(), SampleValue::Int(sites.len() as i64))]
}

fn names3(a: &str, b: &str, c: &str) -> (r: Vec<String>)
    ensures
        r.deep_view() == seq![a@, b@, c@],
        r@.len() == 3,
{
    let mut v: Vec<String> = Vec::new();
    v.push(a.to_owned());
    v.push(b.to_owned());
    v.push(c.to_owned());
    proof {
        assert(v.deep_view() =~= seq![a@, b@, c@]);
    }
    v
}

fn names4(a: &str, b: &str, c: &str, d: &str) -> (r: Vec<String>)
    ensures
        r.deep_view() == seq![a@, b@, c@, d@],
        r@.len() == 4,
{
    let mut v: Vec<String> = Vec::new();
    v.push(a.to_owned());
    v.push(b.to_owned());
    v.push(c.to_owned());
    v.push(d.to_owned());
    proof {
        assert(v.deep_view() =~= seq![a@, b@, c@, d@]);
    }
    v
}

fn names6(a: &str, b: &str, c: &str, d: &str, e: &str, f: &str) -> (r: Vec<String>)
    ensures
        r.deep_view() == seq![a@, b@, c@, d@, e@, f@],
        r@.len() == 6,
{
    let mut v: Vec<String> = Vec::new();
    v.push(a.to_owned());
    v.push(b.to_owned());
    v.push(c.to_owned());
    v.push(d.to_owned());
    v.push(e.to_owned());
    v.push(f.to_owned());
    proof {
        assert(v.deep_view() =~= seq![a@, b@, c@, d@, e@, f@]);
    }
    v
}

fn names7(a: &str, b: &str, c: &str, d: &str, e: &str, f: &str, g: &str) -> (r: Vec<String>)
    ensures
        r.deep_view() == seq![a@, b@, c@, d@, e@, f@, g@],
        r@.len() == 7,
{
    let mut v: Vec<String> = Vec::new();
    v.push(a.to_owned());
    v.push(b.to_owned());
    v.push(c.to_owned());
    v.push(d.to_owned());
    v.push(e.to_owned());
    v.push(f.to_owned());
    v.push(g.to_owned());
    proof {
        assert(v.deep_view() =~= seq![a@, b@, c@, d@, e@, f@, g@]);
    }
    v
}


// Label keys of the client families.  Identity-shaped client families use
// (hostname, id, mac); the info family adds the other string fields, with
// a missing string rendered as the empty string and a missing network as
// "unknown"; the traffic family puts the direction first.
pub open spec fn cl_key3(c: Client) -> Seq<Seq<char>> {
    seq![or_view(c.hostname, ""@), c._id@, c.mac@]
}

pub open spec fn cl_info_key(c: Client) -> Seq<Seq<char>> {
    seq![
        or_view(c.ap_mac, ""@),
        or_view(c.hostname, ""@),
        c._id@,
        or_view(c.ip, ""@),
        c.mac@,
        or_view(c.name, ""@),
        or_view(c.network, "unknown"@),
    ]
}

pub open spec fn cl_dir_key(c: Client, dir: Seq<char>) -> Seq<Seq<char>> {
    seq![dir, or_view(c.hostname, ""@), c._id@, c.mac@]
}

// What one client contributes to each per-client family.
pub open spec fn apply_cl_info(
    rows: Seq<(Seq<Seq<char>>, SampleValue)>,
    c: Client,
) -> Seq<(Seq<Seq<char>>, SampleValue)> {
    spec_set(rows, cl_info_key(c), SampleValue::Int(1))
}

pub open spec fn apply_cl_bytes(
    rows: Seq<(Seq<Seq<char>>, SampleValue)>,
    c: Client,
) -> Seq<(Seq<Seq<char>>, SampleValue)> {
    let r1 = match c.tx_bytes {
        Some(b) => spec_inc(rows, cl_dir_key(c, "tx"@), b as u64),
        None => rows,
    };
    match c.rx_bytes {
        Some(b) => spec_inc(r1, cl_dir_key(c, "rx"@), b as u64),
        None => r1,
    }
}

/// Signal strength is never recorded for a wired client, even when a
/// signal value is present in the input.
pub open spec fn apply_cl_signal(
    rows: Seq<(Seq<Seq<char>>, SampleValue)>,
    c: Client,
) -> Seq<(Seq<Seq<char>>, SampleValue)> {
    if !c.is_wired {
        match c.signal {
            Some(s) => spec_set(rows, cl_key3(c), SampleValue::Int(s as i64)),
            None => rows,
        }
    } else {
        rows
    }
}

pub open spec fn apply_cl_uptime(
    rows: Seq<(Seq<Seq<char>>, SampleValue)>,
    c: Client,
) -> Seq<(Seq<Seq<char>>, SampleValue)> {
    match c.uptime {
        Some(u) => spec_set(rows, cl_key3(c), SampleValue::Int(u)),
        None => rows,
    }
}

// The rows of each per-client family after reconciling a whole collection.
pub open spec fn cl_info_rows(cs: Seq<Client>) -> Seq<(Seq<Seq<char>>, SampleValue)>
    decreases cs.len(),
{
    if cs.len() == 0 {
        Seq::empty()
    } else {
        apply_cl_info(cl_info_rows(cs.drop_last()), cs.last())
    }
}

pub open spec fn cl_bytes_rows(cs: Seq<Client>) -> Seq<(Seq<Seq<char>>, SampleValue)>
    decreases cs.len(),
{
    if cs.len() == 0 {
        Seq::empty()
    } else {
        apply_cl_bytes(cl_bytes_rows(cs.drop_last()), cs.last())
    }
}

pub open spec fn cl_signal_rows(cs: Seq<Client>) -> Seq<(Seq<Seq<char>>, SampleValue)>
    decreases cs.len(),
{
    if cs.len() == 0 {
        Seq::empty()
    } else {
        apply_cl_signal(cl_signal_rows(cs.drop_last()), cs.last())
    }
}

pub open spec fn cl_uptime_rows(cs: Seq<Client>) -> Seq<(Seq<Seq<char>>, SampleValue)>
    decreases cs.len(),
{
    if cs.len() == 0 {
        Seq::empty()
    } else {
        apply_cl_uptime(cl_uptime_rows(cs.drop_last()), cs.last())
    }
}

// Aggregate counts over the whole client collection.
pub open spec fn count_wired(cs: Seq<Client>) -> int
    decreases cs.len(),
{
    if cs.len() == 0 {
        0
    } else {
        count_wired(cs.drop_last()) + if cs.last().is_wired {
            1int
        } else {
            0int
        }
    }
}

pub open spec fn count_wireless(cs: Seq<Client>) -> int
    decreases cs.len(),
{
    if cs.len() == 0 {
        0
    } else {
        count_wireless(cs.drop_last()) + if cs.last().is_wired {
            0int
        } else {
            1int
        }
    }
}

pub open spec fn count_guest(cs: Seq<Client>) -> int
    decreases cs.len(),
{
    if cs.len() == 0 {
        0
    } else {
        count_guest(cs.drop_last()) + if cs.last().is_guest {
            1int
        } else {
            0int
        }
    }
}

/// The network a client is counted under.
pub open spec fn net_name(c: Client) -> Seq<char> {
    or_view(c.network, "unknown"@)
}

/// A network tally list after counting one more client of network `n`:
/// the first entry for `n` is incremented, or a fresh entry appended.
pub open spec fn bump_net(m: Seq<(Seq<char>, int)>, n: Seq<char>) -> Seq<(Seq<char>, int)>
    decreases m.len(),
{
    if m.len() == 0 {
        seq![(n, 1int)]
    } else if m[0].0 == n {
        seq![(m[0].0, m[0].1 + 1)] + m.drop_first()
    } else {
        seq![m[0]] + bump_net(m.drop_first(), n)
    }
}

/// Clients counted per network, in first-seen order.
pub open spec fn net_counts(cs: Seq<Client>) -> Seq<(Seq<char>, int)>
    decreases cs.len(),
{
    if cs.len() == 0 {
        Seq::empty()
    } else {
        bump_net(net_counts(cs.drop_last()), net_name(cs.last()))
    }
}

// The four fixed label keys of the aggregate count family, and the
// per-network key.
pub open spec fn wired_total_key() -> Seq<Seq<char>> {
    seq!["false"@, "all"@, "wired"@]
}

pub open spec fn wireless_total_key() -> Seq<Seq<char>> {
    seq!["false"@, "all"@, "wireless"@]
}

pub open spec fn guest_total_key() -> Seq<Seq<char>> {
    seq!["true"@, "all"@, "all"@]
}

pub open spec fn all_total_key() -> Seq<Seq<char>> {
    seq!["false"@, "all"@, "all"@]
}

pub open spec fn net_total_key(n: Seq<char>) -> Seq<Seq<char>> {
    seq!["all"@, n, "all"@]
}

pub open spec fn apply_net_totals(
    rows: Seq<(Seq<Seq<char>>, SampleValue)>,
    nets: Seq<(Seq<char>, int)>,
) -> Seq<(Seq<Seq<char>>, SampleValue)>
    decreases nets.len(),
{
    if nets.len() == 0 {
        rows
    } else {
        apply_net_totals(
            spec_set(rows, net_total_key(nets[0].0), SampleValue::Int(nets[0].1 as i64)),
            nets.drop_first(),
        )
    }
}

/// The aggregate count rows from the four totals and the per-network
/// tallies: wired non-guests, wireless, guests across all networks, the
/// grand total of non-guests floored at zero, then one count per network.
pub open spec fn totals_rows_from(
    w: int,
    wl: int,
    g: int,
    nets: Seq<(Seq<char>, int)>,
) -> Seq<(Seq<Seq<char>>, SampleValue)> {
    let nonguest = if w + wl - g > 0 {
        w + wl - g
    } else {
        0
    };
    apply_net_totals(
        spec_set(
            spec_set(
                spec_set(
                    spec_set(Seq::empty(), wired_total_key(), SampleValue::Int(w as i64)),
                    wireless_total_key(),
                    SampleValue::Int(wl as i64),
                ),
                guest_total_key(),
                SampleValue::Int(g as i64),
            ),
            all_total_key(),
            SampleValue::Int(nonguest as i64),
        ),
        nets,
    )
}

/// The aggregate count rows a client collection derives.
pub open spec fn totals_rows(cs: Seq<Client>) -> Seq<(Seq<Seq<char>>, SampleValue)> {
    totals_rows_from(count_wired(cs), count_wireless(cs), count_guest(cs), net_counts(cs))
}

/// The abstract contents of a network tally list.
pub open spec fn nets_view(m: Seq<(String, usize)>) -> Seq<(Seq<char>, int)> {
    Seq::new(m.len(), |i: int| (m[i].0@, m[i].1 as int))
}

proof fn lemma_bump_net_found(m: Seq<(Seq<char>, int)>, n: Seq<char>, i: int)
    requires
        0 <= i < m.len(),
        m[i].0 == n,
        forall|j: int| 0 <= j < i ==> (#[trigger] m[j]).0 != n,
    ensures
        bump_net(m, n) == m.update(i, (m[i].0, m[i].1 + 1)),
    decreases i,
{
    if i == 0 {
        assert(bump_net(m, n) =~= m.update(0, (m[0].0, m[0].1 + 1)));
    } else {
        assert(m[0].0 != n);
        assert(forall|j: int| 0 <= j < i - 1 ==> (#[trigger] m.drop_first()[j]).0 == m[j + 1].0);
        lemma_bump_net_found(m.drop_first(), n, i - 1);
        assert(bump_net(m, n) =~= m.update(i, (m[i].0, m[i].1 + 1)));
    }
}

proof fn lemma_bump_net_absent(m: Seq<(Seq<char>, int)>, n: Seq<char>)
    requires
        forall|j: int| 0 <= j < m.len() ==> (#[trigger] m[j]).0 != n,
    ensures
        bump_net(m, n) == m.push((n, 1int)),
    decreases m.len(),
{
    if m.len() == 0 {
        assert(bump_net(m, n) =~= m.push((n, 1int)));
    } else {
        assert(forall|j: int| 0 <= j < m.drop_first().len() ==> (#[trigger] m.drop_first()[j]).0
            == m[j + 1].0);
        lemma_bump_net_absent(m.drop_first(), n);
        assert(bump_net(m, n) =~= m.push((n, 1int)));
    }
}

/// Counts one client under its network in the tally list, keeping every
/// count bounded by the number of clients counted so far.
fn bump_network(nets: &mut Vec<(String, usize)>, name: String, seen: usize)
    requires
        seen < usize::MAX,
        forall|j: int| 0 <= j < old(nets)@.len() ==> 0 < (#[trigger] old(nets)@[j]).1 <= seen,
    ensures
        nets_view(final(nets)@) == bump_net(nets_view(old(nets)@), name@),
        forall|j: int| 0 <= j < final(nets)@.len() ==> 0 < (#[trigger] final(nets)@[j]).1 <= seen
            + 1,
{
    let ghost n = name@;
    let mut i: usize = 0;
    while i < nets.len()
        invariant
            i <= nets.len(),
            *nets == *old(nets),
            seen < usize::MAX,
            n == name@,
            forall|j: int| 0 <= j < nets@.len() ==> 0 < (#[trigger] nets@[j]).1 <= seen,
            forall|j: int| 0 <= j < i ==> (#[trigger] nets_view(old(nets)@)[j]).0 != n,
        decreases nets.len() - i,
    {
        if nets[i].0 == name {
            proof {
                assert(nets_view(old(nets)@)[i as int].0 == nets@[i as int].0@);
            }
            let cnt = nets[i].1;
            nets[i] = (name, cnt + 1);
            proof {
                lemma_bump_net_found(nets_view(old(nets)@), n, i as int);
                assert(nets_view(final(nets)@) =~= nets_view(old(nets)@).update(
                    i as int,
                    (nets_view(old(nets)@)[i as int].0, nets_view(old(nets)@)[i as int].1 + 1),
                ));
            }
            return ;
        }
        i += 1;
    }
    nets.push((name, 1));
    proof {
        lemma_bump_net_absent(nets_view(old(nets)@), n);
        assert(nets_view(final(nets)@) =~= nets_view(old(nets)@).push((n, 1int)));
    }
}

impl Metrics {
    /// Every family carries its declared name, help text, kind and label
    /// names.
    pub open spec fn headers_ok(self) -> bool {
        &&& self.device_info.name@ == "unifi_device_info"@
        &&& self.device_info.help@ == "UniFi device information"@
        &&& !self.device_info.counter
        &&& self.device_info.label_names.deep_view() == seq![
            "id"@,
            "mac"@,
            "model"@,
            "name"@,
            "type"@,
            "version"@,
        ]
        &&& self.device_uptime.name@ == "unifi_device_uptime_seconds"@
        &&& self.device_uptime.help@ == "Device uptime in seconds"@
        &&& !self.device_uptime.counter
        &&& self.device_uptime.label_names.deep_view() == seq!["id"@, "mac"@, "name"@]
        &&& self.device_adopted.name@ == "unifi_device_adopted"@
        &&& self.device_adopted.help@ == "Device adoption status (1=adopted, 0=not adopted)"@
        &&& !self.device_adopted.counter
        &&& self.device_adopted.label_names.deep_view() == seq!["id"@, "mac"@, "name"@]
        &&& self.device_state.name@ == "unifi_device_state"@
        &&& self.device_state.help@ == "Device state"@
        &&& !self.device_state.counter
        &&& self.device_state.label_names.deep_view() == seq!["id"@, "mac"@, "name"@]
        &&& self.device_cpu_usage.name@ == "unifi_device_cpu_usage"@
        &&& self.device_cpu_usage.help@ == "Device CPU usage (load average)"@
        &&& !self.device_cpu_usage.counter
        &&& self.device_cpu_usage.label_names.deep_view() == seq![
            "id"@,
            "mac"@,
            "name"@,
            "period"@,
        ]
        &&& self.device_memory_usage.name@ == "unifi_device_memory_usage_ratio"@
        &&& self.device_memory_usage.help@ == "Device memory usage ratio"@
        &&& !self.device_memory_usage.counter
        &&& self.device_memory_usage.label_names.deep_view() == seq!["id"@, "mac"@, "name"@]
        &&& self.device_memory_total.name@ == "unifi_device_memory_total_bytes"@
        &&& self.device_memory_total.help@ == "Device total memory in bytes"@
        &&& !self.device_memory_total.counter
        &&& self.device_memory_total.label_names.deep_view() == seq!["id"@, "mac"@, "name"@]
        &&& self.device_bytes_total.name@ == "unifi_device_bytes_total"@
        &&& self.device_bytes_total.help@ == "Total bytes transferred"@
        &&& self.device_bytes_total.counter
        &&& self.device_bytes_total.label_names.deep_view() == seq![
            "direction"@,
            "id"@,
            "mac"@,
            "name"@,
        ]
        &&& self.device_packets_total.name@ == "unifi_device_packets_total"@
        &&& self.device_packets_total.help@ == "Total packets transferred"@
        &&& self.device_packets_total.counter
        &&& self.device_packets_total.label_names.deep_view() == seq![
            "direction"@,
            "id"@,
            "mac"@,
            "name"@,
        ]
        &&& self.client_info.name@ == "unifi_client_info"@
        &&& self.client_info.help@ == "UniFi client information"@
        &&& !self.client_info.counter
        &&& self.client_info.label_names.deep_view() == seq![
            "ap_mac"@,
            "hostname"@,
            "id"@,
            "ip"@,
            "mac"@,
            "name"@,
            "network"@,
        ]
        &&& self.client_bytes_total.name@ == "unifi_client_bytes_total"@
        &&& self.client_bytes_total.help@ == "Total bytes transferred by client"@
        &&& self.client_bytes_total.counter
        &&& self.client_bytes_total.label_names.deep_view() == seq![
            "direction"@,
            "hostname"@,
            "id"@,
            "mac"@,
        ]
        &&& self.client_signal_strength.name@ == "unifi_client_signal_strength_dbm"@
        &&& self.client_signal_strength.help@ == "Client WiFi signal strength in dBm"@
        &&& !self.client_signal_strength.counter
        &&& self.client_signal_strength.label_names.deep_view() == seq![
            "hostname"@,
            "id"@,
            "mac"@,
        ]
        &&& self.client_uptime.name@ == "unifi_client_uptime_seconds"@
        &&& self.client_uptime.help@ == "Client connection uptime in seconds"@
        &&& !self.client_uptime.counter
        &&& self.client_uptime.label_names.deep_view() == seq!["hostname"@, "id"@, "mac"@]
        &&& self.clients_total.name@ == "unifi_clients_total"@
        &&& self.clients_total.help@ == "Total number of clients"@
        &&& !self.clients_total.counter
        &&& self.clients_total.label_names.deep_view() == seq!["is_guest"@, "network"@, "type"@]
        &&& self.sites_total.name@ == "unifi_sites_total"@
        &&& self.sites_total.help@ == "Total number of sites"@
        &&& !self.sites_total.counter
        &&& self.sites_total.label_names.deep_view() == Seq::<Seq<char>>::empty()
    }

    pub open spec fn wf(self) -> bool {
        &&& self.device_info.wf()
        &&& self.device_uptime.wf()
        &&& self.device_adopted.wf()
        &&& self.device_state.wf()
        &&& self.device_cpu_usage.wf()
        &&& self.device_memory_usage.wf()
        &&& self.device_memory_total.wf()
        &&& self.device_bytes_total.wf()
        &&& self.device_packets_total.wf()
        &&& self.client_info.wf()
        &&& self.client_bytes_total.wf()
        &&& self.client_signal_strength.wf()
        &&& self.client_uptime.wf()
        &&& self.clients_total.wf()
        &&& self.sites_total.wf()
    }

    /// No family holds any series.
    pub open spec fn all_empty(self) -> bool {
        &&& self.device_info.rows().len() == 0
        &&& self.device_uptime.rows().len() == 0
        &&& self.device_adopted.rows().len() == 0
        &&& self.device_state.rows().len() == 0
        &&& self.device_cpu_usage.rows().len() == 0
        &&& self.device_memory_usage.rows().len() == 0
        &&& self.device_memory_total.rows().len() == 0
        &&& self.device_bytes_total.rows().len() == 0
        &&& self.device_packets_total.rows().len() == 0
        &&& self.client_info.rows().len() == 0
        &&& self.client_bytes_total.rows().len() == 0
        &&& self.client_signal_strength.rows().len() == 0
        &&& self.client_uptime.rows().len() == 0
        &&& self.clients_total.rows().len() == 0
        &&& self.sites_total.rows().len() == 0
    }

    /// Builds the registry with every family declared and empty.  The
    /// result is always `Ok`: family construction cannot fail.
    pub fn new() -> (r: Result<Metrics, String>)
        ensures
            r is Ok,
            r matches Ok(m) ==> m.wf() && m.headers_ok() && m.all_empty(),
    {
        let device_info = Family::new_family(
            "unifi_device_info",
            "UniFi device information",
            false,
            names6("id", "mac", "model", "name", "type", "version"),
        );
        let device_uptime = Family::new_family(
            "unifi_device_uptime_seconds",
            "Device uptime in seconds",
            false,
            names3("id", "mac", "name"),
        );
        let device_adopted = Family::new_family(
            "unifi_device_adopted",
            "Device adoption status (1=adopted, 0=not adopted)",
            false,
            names3("id", "mac", "name"),
        );
        let device_state = Family::new_family(
            "unifi_device_state",
            "Device state",
            false,
            names3("id", "mac", "name"),
        );
        let device_cpu_usage = Family::new_family(
            "unifi_device_cpu_usage",
            "Device CPU usage (load average)",
            false,
            names4("id", "mac", "name", "period"),
        );
        let device_memory_usage = Family::new_family(
            "unifi_device_memory_usage_ratio",
            "Device memory usage ratio",
            false,
            names3("id", "mac", "name"),
        );
        let device_memory_total = Family::new_family(
            "unifi_device_memory_total_bytes",
            "Device total memory in bytes",
            false,
            names3("id", "mac", "name"),
        );
        let device_bytes_total = Family::new_family(
            "unifi_device_bytes_total",
            "Total bytes transferred",
            true,
            names4("direction", "id", "mac", "name"),
        );
        let device_packets_total = Family::new_family(
            "unifi_device_packets_total",
            "Total packets transferred",
            true,
            names4("direction", "id", "mac", "name"),
        );
        let client_info = Family::new_family(
            "unifi_client_info",
            "UniFi client information",
            false,
            names7("ap_mac", "hostname", "id", "ip", "mac", "name", "network"),
        );
        let client_bytes_total = Family::new_family(
            "unifi_client_bytes_total",
            "Total bytes transferred by client",
            true,
            names4("direction", "hostname", "id", "mac"),
        );
        let client_signal_strength = Family::new_family(
            "unifi_client_signal_strength_dbm",
            "Client WiFi signal strength in dBm",
            false,
            names3("hostname", "id", "mac"),
        );
        let client_uptime = Family::new_family(
            "unifi_client_uptime_seconds",
            "Client connection uptime in seconds",
            false,
            names3("hostname", "id", "mac"),
        );
        let clients_total = Family::new_family(
            "unifi_clients_total",
            "Total number of clients",
            false,
            names3("is_guest", "network", "type"),
        );
        let empty_names: Vec<String> = Vec::new();
        proof {
            assert(empty_names.deep_view() =~= Seq::<Seq<char>>::empty());
        }
        let sites_total = Family::new_family(
            "unifi_sites_total",
            "Total number of sites",
            false,
            empty_names,
        );
        Ok(
            Metrics {
                device_info,
                device_uptime,
                device_adopted,
                device_state,
                device_cpu_usage,
                device_memory_usage,
                device_memory_total,
                device_bytes_total,
                device_packets_total,
                client_info,
                client_bytes_total,
                client_signal_strength,
                client_uptime,
                clients_total,
                sites_total,
            },
        )
    }

    /// Atomic full replace of the sites family: after the call its single
    /// unlabeled series reads exactly the cardinality of the collection.
    pub fn update_sites(&mut self, sites: &Vec<Site>)
        requires
            old(self).wf(),
            old(self).headers_ok(),
        ensures
            final(self).wf(),
            final(self).headers_ok(),
            final(self).sites_total.rows() == sites_rows(sites@),
            final(self).device_info == old(self).device_info,
            final(self).device_uptime == old(self).device_uptime,
            final(self).device_adopted == old(self).device_adopted,
            final(self).device_state == old(self).device_state,
            final(self).device_cpu_usage == old(self).device_cpu_usage,
            final(self).device_memory_usage == old(self).device_memory_usage,
            final(self).device_memory_total == old(self).device_memory_total,
            final(self).device_bytes_total == old(self).device_bytes_total,
            final(self).device_packets_total == old(self).device_packets_total,
            final(self).client_info == old(self).client_info,
            final(self).client_bytes_total == old(self).client_bytes_total,
            final(self).client_signal_strength == old(self).client_signal_strength,
            final(self).client_uptime == old(self).client_uptime,
            final(self).clients_total == old(self).clients_total,
    {
        self.sites_total.reset();
        let n = sites.len();
        let count: i64 = #[verifier::truncate] (n as i64);
        let no_labels: Vec<String> = Vec::new();
        proof {
            assert(no_labels.deep_view() =~= Seq::<Seq<char>>::empty());
            assert(self.sites_total.label_names.deep_view().len()
                == self.sites_total.label_names@.len());
        }
        self.sites_total.set(no_labels, SampleValue::Int(count));
        proof {
            assert(final(self).sites_total.rows() =~= sites_rows(sites@));
        }
    }

    /// Atomic full replace of every device family from the fetched device
    /// collection: the nine families are cleared and rebuilt so that their
    /// rows are exactly what the collection derives, in input order.
    pub fn update_devices(&mut self, devices: &Vec<Device>)
        requires
            old(self).wf(),
            old(self).headers_ok(),
            forall|i: int| 0 <= i < devices@.len() ==> (#[trigger] devices@[i]).wf(),
        ensures
            final(self).wf(),
            final(self).headers_ok(),
            final(self).device_info.rows() == dev_info_rows(devices@),
            final(self).device_uptime.rows() == dev_uptime_rows(devices@),
            final(self).device_adopted.rows() == dev_adopted_rows(devices@),
            final(self).device_state.rows() == dev_state_rows(devices@),
            final(self).device_cpu_usage.rows() == dev_cpu_rows(devices@),
            final(self).device_memory_usage.rows() == dev_mem_usage_rows(devices@),
            final(self).device_memory_total.rows() == dev_mem_total_rows(devices@),
            final(self).device_bytes_total.rows() == dev_bytes_rows(devices@),
            final(self).device_packets_total.rows() == dev_packets_rows(devices@),
            final(self).client_info == old(self).client_info,
            final(self).client_bytes_total == old(self).client_bytes_total,
            final(self).client_signal_strength == old(self).client_signal_strength,
            final(self).client_uptime == old(self).client_uptime,
            final(self).clients_total == old(self).clients_total,
            final(self).sites_total == old(self).sites_total,
    {
        self.device_info.reset();
        self.device_uptime.reset();
        self.device_adopted.reset();
        self.device_state.reset();
        self.device_cpu_usage.reset();
        self.device_memory_usage.reset();
        self.device_memory_total.reset();
        self.device_bytes_total.reset();
        self.device_packets_total.reset();
        let mut i: usize = 0;
        proof {
            assert(devices@.take(0) =~= Seq::<Device>::empty());
        }
        while i < devices.len()
            invariant
                i <= devices.len(),
                self.wf(),
                self.headers_ok(),
                forall|j: int| 0 <= j < devices@.len() ==> (#[trigger] devices@[j]).wf(),
                self.device_info.rows() == dev_info_rows(devices@.take(i as int)),
                self.device_uptime.rows() == dev_uptime_rows(devices@.take(i as int)),
                self.device_adopted.rows() == dev_adopted_rows(devices@.take(i as int)),
                self.device_state.rows() == dev_state_rows(devices@.take(i as int)),
                self.device_cpu_usage.rows() == dev_cpu_rows(devices@.take(i as int)),
                self.device_memory_usage.rows() == dev_mem_usage_rows(devices@.take(i as int)),
                self.device_memory_total.rows() == dev_mem_total_rows(devices@.take(i as int)),
                self.device_bytes_total.rows() == dev_bytes_rows(devices@.take(i as int)),
                self.device_packets_total.rows() == dev_packets_rows(devices@.take(i as int)),
                self.client_info == old(self).client_info,
                self.client_bytes_total == old(self).client_bytes_total,
                self.client_signal_strength == old(self).client_signal_strength,
                self.client_uptime == old(self).client_uptime,
                self.clients_total == old(self).clients_total,
                self.sites_total == old(self).sites_total,
            decreases devices.len() - i,
        {
            let d = &devices[i];
            proof {
                assert(devices@.take(i + 1).drop_last() =~= devices@.take(i as int));
                assert(devices@.take(i + 1).last() == devices@[i as int]);
            }
            self.apply_device(d);
            i += 1;
        }
        proof {
            assert(devices@.take(devices@.len() as int) =~= devices@);
        }
    }

    /// Applies one device's contribution to every device family.
    fn apply_device(&mut self, d: &Device)
        requires
            old(self).wf(),
            old(self).headers_ok(),
            d.wf(),
        ensures
            final(self).wf(),
            final(self).headers_ok(),
            final(self).device_info.rows() == apply_dev_info(old(self).device_info.rows(), *d),
            final(self).device_uptime.rows() == apply_dev_uptime(
                old(self).device_uptime.rows(),
                *d,
            ),
            final(self).device_adopted.rows() == apply_dev_adopted(
                old(self).device_adopted.rows(),
                *d,
            ),
            final(self).device_state.rows() == apply_dev_state(old(self).device_state.rows(), *d),
            final(self).device_cpu_usage.rows() == apply_dev_cpu(
                old(self).device_cpu_usage.rows(),
                *d,
            ),
            final(self).device_memory_usage.rows() == apply_dev_mem_usage(
                old(self).device_memory_usage.rows(),
                *d,
            ),
            final(self).device_memory_total.rows() == apply_dev_mem_total(
                old(self).device_memory_total.rows(),
                *d,
            ),
            final(self).device_bytes_total.rows() == apply_dev_bytes(
                old(self).device_bytes_total.rows(),
                *d,
            ),
            final(self).device_packets_total.rows() == apply_dev_packets(
                old(self).device_packets_total.rows(),
                *d,
            ),
            final(self).client_info == old(self).client_info,
            final(self).client_bytes_total == old(self).client_bytes_total,
            final(self).client_signal_strength == old(self).client_signal_strength,
            final(self).client_uptime == old(self).client_uptime,
            final(self).clients_total == old(self).clients_total,
            final(self).sites_total == old(self).sites_total,
    {
        self.apply_device_identity(d);
        self.apply_device_system(d);
        self.apply_device_traffic(d);
    }

    /// The identity-shaped device series: info, uptime, adoption and state.
    fn apply_device_identity(&mut self, d: &Device)
        requires
            old(self).wf(),
            old(self).headers_ok(),
        ensures
            final(self).wf(),
            final(self).headers_ok(),
            final(self).device_info.rows() == apply_dev_info(old(self).device_info.rows(), *d),
            final(self).device_uptime.rows() == apply_dev_uptime(
                old(self).device_uptime.rows(),
                *d,
            ),
            final(self).device_adopted.rows() == apply_dev_adopted(
                old(self).device_adopted.rows(),
                *d,
            ),
            final(self).device_state.rows() == apply_dev_state(old(self).device_state.rows(), *d),
            final(self).device_cpu_usage == old(self).device_cpu_usage,
            final(self).device_memory_usage == old(self).device_memory_usage,
            final(self).device_memory_total == old(self).device_memory_total,
            final(self).device_bytes_total == old(self).device_bytes_total,
            final(self).device_packets_total == old(self).device_packets_total,
            final(self).client_info == old(self).client_info,
            final(self).client_bytes_total == old(self).client_bytes_total,
            final(self).client_signal_strength == old(self).client_signal_strength,
            final(self).client_uptime == old(self).client_uptime,
            final(self).clients_total == old(self).clients_total,
            final(self).sites_total == old(self).sites_total,
    {
        proof {
            assert(self.device_info.label_names.deep_view().len()
                == self.device_info.label_names@.len());
            assert(self.device_uptime.label_names.deep_view().len()
                == self.device_uptime.label_names@.len());
            assert(self.device_adopted.label_names.deep_view().len()
                == self.device_adopted.label_names@.len());
            assert(self.device_state.label_names.deep_view().len()
                == self.device_state.label_names@.len());
        }
        let name = unwrap_or_string(&d.name, "unknown");
        let model = unwrap_or_string(&d.model, "unknown");
        let version = unwrap_or_string(&d.version, "unknown");

        // Identity/info gauge, value 1.
        let mut labels: Vec<String> = Vec::new();
        labels.push(d._id.clone());
        labels.push(d.mac.clone());
        labels.push(model);
        labels.push(name.clone());
        labels.push(d.device_type.clone());
        labels.push(version);
        proof {
            assert(labels.deep_view() =~= dev_info_key(*d));
        }
        self.device_info.set(labels, SampleValue::Int(1));

        // Uptime gauge, when reported.
        match d.uptime {
            Some(uptime) => {
                let key = self.dev_key3_vec(d);
                self.device_uptime.set(key, SampleValue::Int(uptime));
            },
            None => {},
        }

        // Adoption gauge, 1 or 0.
        let key = self.dev_key3_vec(d);
        self.device_adopted.set(
            key,
            SampleValue::Int(
                if d.adopted {
                    1
                } else {
                    0
                },
            ),
        );

        // Raw state code.
        let key = self.dev_key3_vec(d);
        self.device_state.set(key, SampleValue::Int(d.state as i64));
    }

    /// The system-statistics device series: load averages and memory.
    fn apply_device_system(&mut self, d: &Device)
        requires
            old(self).wf(),
            old(self).headers_ok(),
            d.wf(),
        ensures
            final(self).wf(),
            final(self).headers_ok(),
            final(self).device_cpu_usage.rows() == apply_dev_cpu(
                old(self).device_cpu_usage.rows(),
                *d,
            ),
            final(self).device_memory_usage.rows() == apply_dev_mem_usage(
                old(self).device_memory_usage.rows(),
                *d,
            ),
            final(self).device_memory_total.rows() == apply_dev_mem_total(
                old(self).device_memory_total.rows(),
                *d,
            ),
            final(self).device_info == old(self).device_info,
            final(self).device_uptime == old(self).device_uptime,
            final(self).device_adopted == old(self).device_adopted,
            final(self).device_state == old(self).device_state,
            final(self).device_bytes_total == old(self).device_bytes_total,
            final(self).device_packets_total == old(self).device_packets_total,
            final(self).client_info == old(self).client_info,
            final(self).client_bytes_total == old(self).client_bytes_total,
            final(self).client_signal_strength == old(self).client_signal_strength,
            final(self).client_uptime == old(self).client_uptime,
            final(self).clients_total == old(self).clients_total,
            final(self).sites_total == old(self).sites_total,
    {
        proof {
            assert(self.device_cpu_usage.label_names.deep_view().len()
                == self.device_cpu_usage.label_names@.len());
            assert(self.device_memory_usage.label_names.deep_view().len()
                == self.device_memory_usage.label_names@.len());
            assert(self.device_memory_total.label_names.deep_view().len()
                == self.device_memory_total.label_names@.len());
        }
        match &d.sys_stats {
            Some(s) => {
                match s.loadavg_1 {
                    Some(l) => {
                        let key = self.dev_cpu_key_vec(d, "1m");
                        self.device_cpu_usage.set(key, SampleValue::Ratio(l));
                    },
                    None => {},
                }
                match s.loadavg_5 {
                    Some(l) => {
                        let key = self.dev_cpu_key_vec(d, "5m");
                        self.device_cpu_usage.set(key, SampleValue::Ratio(l));
                    },
                    None => {},
                }
                match s.loadavg_15 {
                    Some(l) => {
                        let key = self.dev_cpu_key_vec(d, "15m");
                        self.device_cpu_usage.set(key, SampleValue::Ratio(l));
                    },
                    None => {},
                }
                match (s.mem_used, s.mem_total) {
                    (Some(used), Some(total)) => {
                        if total > 0 {
                            let key = self.dev_key3_vec(d);
                            self.device_memory_usage.set(
                                key,
                                SampleValue::Ratio(Rational { num: used, den: total as u64 }),
                            );
                        }
                        let key = self.dev_key3_vec(d);
                        self.device_memory_total.set(key, SampleValue::Int(total));
                    },
                    _ => {},
                }
            },
            None => {},
        }
    }

    /// The traffic counters of one device, split by direction.
    fn apply_device_traffic(&mut self, d: &Device)
        requires
            old(self).wf(),
            old(self).headers_ok(),
        ensures
            final(self).wf(),
            final(self).headers_ok(),
            final(self).device_bytes_total.rows() == apply_dev_bytes(
                old(self).device_bytes_total.rows(),
                *d,
            ),
            final(self).device_packets_total.rows() == apply_dev_packets(
                old(self).device_packets_total.rows(),
                *d,
            ),
            final(self).device_info == old(self).device_info,
            final(self).device_uptime == old(self).device_uptime,
            final(self).device_adopted == old(self).device_adopted,
            final(self).device_state == old(self).device_state,
            final(self).device_cpu_usage == old(self).device_cpu_usage,
            final(self).device_memory_usage == old(self).device_memory_usage,
            final(self).device_memory_total == old(self).device_memory_total,
            final(self).client_info == old(self).client_info,
            final(self).client_bytes_total == old(self).client_bytes_total,
            final(self).client_signal_strength == old(self).client_signal_strength,
            final(self).client_uptime == old(self).client_uptime,
            final(self).clients_total == old(self).clients_total,
            final(self).sites_total == old(self).sites_total,
    {
        proof {
            assert(self.device_bytes_total.label_names.deep_view().len()
                == self.device_bytes_total.label_names@.len());
            assert(self.device_packets_total.label_names.deep_view().len()
                == self.device_packets_total.label_names@.len());
        }
        match &d.stat {
            Some(st) => {
                match st.tx_bytes {
                    Some(b) => {
                        let key = self.dev_dir_key_vec(d, "tx");
                        self.device_bytes_total.inc(key, #[verifier::truncate] (b as u64));
                    },
                    None => {},
                }
                match st.rx_bytes {
                    Some(b) => {
                        let key = self.dev_dir_key_vec(d, "rx");
                        self.device_bytes_total.inc(key, #[verifier::truncate] (b as u64));
                    },
                    None => {},
                }
                match st.tx_packets {
                    Some(b) => {
                        let key = self.dev_dir_key_vec(d, "tx");
                        self.device_packets_total.inc(key, #[verifier::truncate] (b as u64));
                    },
                    None => {},
                }
                match st.rx_packets {
                    Some(b) => {
                        let key = self.dev_dir_key_vec(d, "rx");
                        self.device_packets_total.inc(key, #[verifier::truncate] (b as u64));
                    },
                    None => {},
                }
            },
            None => {},
        }
    }

    /// The (id, mac, name) label values shared by most device families.
    fn dev_key3_vec(&self, d: &Device) -> (r: Vec<String>)
        ensures
            r.deep_view() == dev_key3(*d),
            r@.len() == 3,
    {
        let mut v: Vec<String> = Vec::new();
        v.push(d._id.clone());
        v.push(d.mac.clone());
        v.push(unwrap_or_string(&d.name, "unknown"));
        proof {
            assert(v.deep_view() =~= dev_key3(*d));
        }
        v
    }

    /// The (id, mac, name, period) label values of the cpu family.
    fn dev_cpu_key_vec(&self, d: &Device, period: &str) -> (r: Vec<String>)
        ensures
            r.deep_view() == dev_cpu_key(*d, period@),
            r@.len() == 4,
    {
        let mut v: Vec<String> = Vec::new();
        v.push(d._id.clone());
        v.push(d.mac.clone());
        v.push(unwrap_or_string(&d.name, "unknown"));
        v.push(period.to_owned());
        proof {
            assert(v.deep_view() =~= dev_cpu_key(*d, period@));
        }
        v
    }

    /// The (direction, id, mac, name) label values of the traffic families.
    fn dev_dir_key_vec(&self, d: &Device, dir: &str) -> (r: Vec<String>)
        ensures
            r.deep_view() == dev_dir_key(*d, dir@),
            r@.len() == 4,
    {
        let mut v: Vec<String> = Vec::new();
        v.push(dir.to_owned());
        v.push(d._id.clone());
        v.push(d.mac.clone());
        v.push(unwrap_or_string(&d.name, "unknown"));
        proof {
            assert(v.deep_view() =~= dev_dir_key(*d, dir@));
        }
        v
    }

    /// Atomic full replace of every client family from the fetched client
    /// collection: the five families are cleared, the four per-client
    /// families are rebuilt in input order, and the aggregate count family
    /// is set from one pass over the collection.
    pub fn update_clients(&mut self, clients: &Vec<Client>)
        requires
            old(self).wf(),
            old(self).headers_ok(),
            clients@.len() <= 0x7fff_ffff_ffff_ffff,
        ensures
            final(self).wf(),
            final(self).headers_ok(),
            final(self).client_info.rows() == cl_info_rows(clients@),
            final(self).client_bytes_total.rows() == cl_bytes_rows(clients@),
            final(self).client_signal_strength.rows() == cl_signal_rows(clients@),
            final(self).client_uptime.rows() == cl_uptime_rows(clients@),
            final(self).clients_total.rows() == totals_rows(clients@),
            final(self).device_info == old(self).device_info,
            final(self).device_uptime == old(self).device_uptime,
            final(self).device_adopted == old(self).device_adopted,
            final(self).device_state == old(self).device_state,
            final(self).device_cpu_usage == old(self).device_cpu_usage,
            final(self).device_memory_usage == old(self).device_memory_usage,
            final(self).device_memory_total == old(self).device_memory_total,
            final(self).device_bytes_total == old(self).device_bytes_total,
            final(self).device_packets_total == old(self).device_packets_total,
            final(self).sites_total == old(self).sites_total,
    {
        self.client_info.reset();
        self.client_bytes_total.reset();
        self.client_signal_strength.reset();
        self.client_uptime.reset();
        self.clients_total.reset();
        let mut wired: usize = 0;
        let mut wireless: usize = 0;
        let mut guest: usize = 0;
        let mut nets: Vec<(String, usize)> = Vec::new();
        let mut i: usize = 0;
        proof {
            assert(clients@.take(0) =~= Seq::<Client>::empty());
            assert(nets_view(nets@) =~= Seq::<(Seq<char>, int)>::empty());
        }
        while i < clients.len()
            invariant
                i <= clients.len(),
                clients@.len() <= 0x7fff_ffff_ffff_ffff,
                self.wf(),
                self.headers_ok(),
                self.client_info.rows() == cl_info_rows(clients@.take(i as int)),
                self.client_bytes_total.rows() == cl_bytes_rows(clients@.take(i as int)),
                self.client_signal_strength.rows() == cl_signal_rows(clients@.take(i as int)),
                self.client_uptime.rows() == cl_uptime_rows(clients@.take(i as int)),
                self.clients_total.rows() == Seq::<(Seq<Seq<char>>, SampleValue)>::empty(),
                wired as int == count_wired(clients@.take(i as int)),
                wireless as int == count_wireless(clients@.take(i as int)),
                guest as int == count_guest(clients@.take(i as int)),
                nets_view(nets@) == net_counts(clients@.take(i as int)),
                wired + wireless == i,
                guest <= i,
                forall|j: int| 0 <= j < nets@.len() ==> 0 < (#[trigger] nets@[j]).1 <= i,
                self.device_info == old(self).device_info,
                self.device_uptime == old(self).device_uptime,
                self.device_adopted == old(self).device_adopted,
                self.device_state == old(self).device_state,
                self.device_cpu_usage == old(self).device_cpu_usage,
                self.device_memory_usage == old(self).device_memory_usage,
                self.device_memory_total == old(self).device_memory_total,
                self.device_bytes_total == old(self).device_bytes_total,
                self.device_packets_total == old(self).device_packets_total,
                self.sites_total == old(self).sites_total,
            decreases clients.len() - i,
        {
            let c = &clients[i];
            proof {
                assert(clients@.take(i + 1).drop_last() =~= clients@.take(i as int));
                assert(clients@.take(i + 1).last() == clients@[i as int]);
            }
            self.apply_client(c);
            if c.is_wired {
                wired += 1;
            } else {
                wireless += 1;
            }
            if c.is_guest {
                guest += 1;
            }
            bump_network(&mut nets, unwrap_or_string(&c.network, "unknown"), i);
            i += 1;
        }
        proof {
            assert(clients@.take(clients@.len() as int) =~= clients@);
        }
        self.set_client_totals(wired, wireless, guest, &nets);
    }

    /// Sets the aggregate count family from the tallies of one pass.
    fn set_client_totals(
        &mut self,
        wired: usize,
        wireless: usize,
        guest: usize,
        nets: &Vec<(String, usize)>,
    )
        requires
            old(self).wf(),
            old(self).headers_ok(),
            old(self).clients_total.rows() == Seq::<(Seq<Seq<char>>, SampleValue)>::empty(),
            wired + wireless <= usize::MAX,
            wired + wireless <= 0x7fff_ffff_ffff_ffff,
            guest <= wired + wireless,
            forall|j: int| 0 <= j < nets@.len() ==> 0 < (#[trigger] nets@[j]).1 <= wired
                + wireless,
        ensures
            final(self).wf(),
            final(self).headers_ok(),
            final(self).clients_total.rows() == totals_rows_from(
                wired as int,
                wireless as int,
                guest as int,
                nets_view(nets@),
            ),
            final(self).device_info == old(self).device_info,
            final(self).device_uptime == old(self).device_uptime,
            final(self).device_adopted == old(self).device_adopted,
            final(self).device_state == old(self).device_state,
            final(self).device_cpu_usage == old(self).device_cpu_usage,
            final(self).device_memory_usage == old(self).device_memory_usage,
            final(self).device_memory_total == old(self).device_memory_total,
            final(self).device_bytes_total == old(self).device_bytes_total,
            final(self).device_packets_total == old(self).device_packets_total,
            final(self).client_info == old(self).client_info,
            final(self).client_bytes_total == old(self).client_bytes_total,
            final(self).client_signal_strength == old(self).client_signal_strength,
            final(self).client_uptime == old(self).client_uptime,
            final(self).sites_total == old(self).sites_total,
    {
        proof {
            assert(self.clients_total.label_names.deep_view().len()
                == self.clients_total.label_names@.len());
        }
        let k = names3("false", "all", "wired");
        proof {
            assert(k.deep_view() == wired_total_key());
        }
        self.clients_total.set(k, SampleValue::Int(wired as i64));
        let k = names3("false", "all", "wireless");
        proof {
            assert(k.deep_view() == wireless_total_key());
        }
        self.clients_total.set(k, SampleValue::Int(wireless as i64));
        let k = names3("true", "all", "all");
        proof {
            assert(k.deep_view() == guest_total_key());
        }
        self.clients_total.set(k, SampleValue::Int(guest as i64));
        let total = wired + wireless;
        let nonguest: usize = if total > guest {
            total - guest
        } else {
            0
        };
        let k = names3("false", "all", "all");
        proof {
            assert(k.deep_view() == all_total_key());
        }
        self.clients_total.set(k, SampleValue::Int(nonguest as i64));
        let ghost base = self.clients_total.rows();
        let ghost all_nets = nets_view(nets@);
        proof {
            assert(all_nets.skip(0) =~= all_nets);
        }
        let mut j: usize = 0;
        while j < nets.len()
            invariant
                j <= nets.len(),
                self.wf(),
                self.headers_ok(),
                all_nets == nets_view(nets@),
                forall|t: int| 0 <= t < nets@.len() ==> 0 < (#[trigger] nets@[t]).1
                    <= 0x7fff_ffff_ffff_ffff,
                apply_net_totals(self.clients_total.rows(), all_nets.skip(j as int))
                    == apply_net_totals(base, all_nets),
                self.device_info == old(self).device_info,
                self.device_uptime == old(self).device_uptime,
                self.device_adopted == old(self).device_adopted,
                self.device_state == old(self).device_state,
                self.device_cpu_usage == old(self).device_cpu_usage,
                self.device_memory_usage == old(self).device_memory_usage,
                self.device_memory_total == old(self).device_memory_total,
                self.device_bytes_total == old(self).device_bytes_total,
                self.device_packets_total == old(self).device_packets_total,
                self.client_info == old(self).client_info,
                self.client_bytes_total == old(self).client_bytes_total,
                self.client_signal_strength == old(self).client_signal_strength,
                self.client_uptime == old(self).client_uptime,
                self.sites_total == old(self).sites_total,
            decreases nets.len() - j,
        {
            proof {
                assert(self.clients_total.label_names.deep_view().len()
                    == self.clients_total.label_names@.len());
                assert(all_nets.skip(j as int)[0] == all_nets[j as int]);
                assert(all_nets.skip(j as int).drop_first() =~= all_nets.skip(j + 1));
            }
            let nname = nets[j].0.clone();
            let cnt = nets[j].1;
            let mut kv: Vec<String> = Vec::new();
            kv.push("all".to_owned());
            kv.push(nname);
            kv.push("all".to_owned());
            proof {
                assert(kv.deep_view() =~= net_total_key(all_nets[j as int].0));
            }
            self.clients_total.set(kv, SampleValue::Int(cnt as i64));
            j += 1;
        }
        proof {
            assert(all_nets.skip(nets@.len() as int) =~= Seq::<(Seq<char>, int)>::empty());
        }
    }

    /// Applies one client's contribution to the four per-client families.
    fn apply_client(&mut self, c: &Client)
        requires
            old(self).wf(),
            old(self).headers_ok(),
        ensures
            final(self).wf(),
            final(self).headers_ok(),
            final(self).client_info.rows() == apply_cl_info(old(self).client_info.rows(), *c),
            final(self).client_bytes_total.rows() == apply_cl_bytes(
                old(self).client_bytes_total.rows(),
                *c,
            ),
            final(self).client_signal_strength.rows() == apply_cl_signal(
                old(self).client_signal_strength.rows(),
                *c,
            ),
            final(self).client_uptime.rows() == apply_cl_uptime(
                old(self).client_uptime.rows(),
                *c,
            ),
            final(self).clients_total == old(self).clients_total,
            final(self).device_info == old(self).device_info,
            final(self).device_uptime == old(self).device_uptime,
            final(self).device_adopted == old(self).device_adopted,
            final(self).device_state == old(self).device_state,
            final(self).device_cpu_usage == old(self).device_cpu_usage,
            final(self).device_memory_usage == old(self).device_memory_usage,
            final(self).device_memory_total == old(self).device_memory_total,
            final(self).device_bytes_total == old(self).device_bytes_total,
            final(self).device_packets_total == old(self).device_packets_total,
            final(self).sites_total == old(self).sites_total,
    {
        proof {
            assert(self.client_info.label_names.deep_view().len()
                == self.client_info.label_names@.len());
            assert(self.client_bytes_total.label_names.deep_view().len()
                == self.client_bytes_total.label_names@.len());
            assert(self.client_signal_strength.label_names.deep_view().len()
                == self.client_signal_strength.label_names@.len());
            assert(self.client_uptime.label_names.deep_view().len()
                == self.client_uptime.label_names@.len());
        }
        // Identity/info gauge, value 1; missing strings render as empty,
        // a missing network as "unknown".
        let mut labels: Vec<String> = Vec::new();
        labels.push(unwrap_or_string(&c.ap_mac, ""));
        labels.push(unwrap_or_string(&c.hostname, ""));
        labels.push(c._id.clone());
        labels.push(unwrap_or_string(&c.ip, ""));
        labels.push(c.mac.clone());
        labels.push(unwrap_or_string(&c.name, ""));
        labels.push(unwrap_or_string(&c.network, "unknown"));
        proof {
            assert(labels.deep_view() =~= cl_info_key(*c));
        }
        self.client_info.set(labels, SampleValue::Int(1));

        // Traffic counters, split by direction.
        match c.tx_bytes {
            Some(b) => {
                let key = self.cl_dir_key_vec(c, "tx");
                self.client_bytes_total.inc(key, #[verifier::truncate] (b as u64));
            },
            None => {},
        }
        match c.rx_bytes {
            Some(b) => {
                let key = self.cl_dir_key_vec(c, "rx");
                self.client_bytes_total.inc(key, #[verifier::truncate] (b as u64));
            },
            None => {},
        }

        // Signal strength, for wireless clients only.
        if !c.is_wired {
            match c.signal {
                Some(s) => {
                    let key = self.cl_key3_vec(c);
                    self.client_signal_strength.set(key, SampleValue::Int(s as i64));
                },
                None => {},
            }
        }

        // Uptime gauge, when reported.
        match c.uptime {
            Some(u) => {
                let key = self.cl_key3_vec(c);
                self.client_uptime.set(key, SampleValue::Int(u));
            },
            None => {},
        }
    }

    /// The (hostname, id, mac) label values shared by most client families.
    fn cl_key3_vec(&self, c: &Client) -> (r: Vec<String>)
        ensures
            r.deep_view() == cl_key3(*c),
            r@.len() == 3,
    {
        let mut v: Vec<String> = Vec::new();
        v.push(unwrap_or_string(&c.hostname, ""));
        v.push(c._id.clone());
        v.push(c.mac.clone());
        proof {
            assert(v.deep_view() =~= cl_key3(*c));
        }
        v
    }

    /// The (direction, hostname, id, mac) label values of the client
    /// traffic family.
    fn cl_dir_key_vec(&self, c: &Client, dir: &str) -> (r: Vec<String>)
        ensures
            r.deep_view() == cl_dir_key(*c, dir@),
            r@.len() == 4,
    {
        let mut v: Vec<String> = Vec::new();
        v.push(dir.to_owned());
        v.push(unwrap_or_string(&c.hostname, ""));
        v.push(c._id.clone());
        v.push(c.mac.clone());
        proof {
            assert(v.deep_view() =~= cl_dir_key(*c, dir@));
        }
        v
    }
}


/// The whole snapshot in the text exposition format: every family with at
/// least one series, in ascending order of family name.
pub open spec fn snapshot_view(m: Metrics) -> Seq<char> {
    family_chars(m.client_bytes_total) + family_chars(m.client_info) + family_chars(
        m.client_signal_strength,
    ) + family_chars(m.client_uptime) + family_chars(m.clients_total) + family_chars(
        m.device_adopted,
    ) + family_chars(m.device_bytes_total) + family_chars(m.device_cpu_usage) + family_chars(
        m.device_info,
    ) + family_chars(m.device_memory_total) + family_chars(m.device_memory_usage) + family_chars(
        m.device_packets_total,
    ) + family_chars(m.device_state) + family_chars(m.device_uptime) + family_chars(m.sites_total)
}

impl Metrics {
    /// Renders the whole registry in the text exposition format.  This
    /// never fails: the result is exactly the rendering of the current
    /// contents.
    pub fn gather(&self) -> (r: String)
        requires
            self.wf(),
        ensures
            r@ == snapshot_view(*self),
    {
        let mut out = String::new();
        push_family(&mut out, &self.client_bytes_total);
        push_family(&mut out, &self.client_info);
        push_family(&mut out, &self.client_signal_strength);
        push_family(&mut out, &self.client_uptime);
        push_family(&mut out, &self.clients_total);
        push_family(&mut out, &self.device_adopted);
        push_family(&mut out, &self.device_bytes_total);
        push_family(&mut out, &self.device_cpu_usage);
        push_family(&mut out, &self.device_info);
        push_family(&mut out, &self.device_memory_total);
        push_family(&mut out, &self.device_memory_usage);
        push_family(&mut out, &self.device_packets_total);
        push_family(&mut out, &self.device_state);
        push_family(&mut out, &self.device_uptime);
        push_family(&mut out, &self.sites_total);
        proof {
            assert(out@ =~= snapshot_view(*self));
        }
        out
    }
}


/// Both memory figures are present and the total is positive, so a usage
/// ratio is recorded.
pub open spec fn has_mem_ratio(d: Device) -> bool {
    &&& d.sys_stats matches Some(s)
    &&& s.mem_used is Some
    &&& (s.mem_total matches Some(t) && t > 0)
}

/// The client is wireless and reports a signal value, so a signal series
/// is recorded.
pub open spec fn emits_signal(c: Client) -> bool {
    !c.is_wired && c.signal is Some
}

/// Reconciling a device collection whose info label combinations are
/// pairwise distinct yields exactly one info series per element of the
/// collection, in input order, each reading 1 — missing name, model and
/// version already rendered as "unknown" inside the label values.  With
/// the contract of `update_devices` and of `gather`, the snapshot after a
/// reconcile carries exactly these series.
pub proof fn lemma_device_info_complete(devs: Seq<Device>)
    requires
        forall|i: int, j: int|
            0 <= i < j < devs.len() ==> dev_info_key(#[trigger] devs[i]) != dev_info_key(
                #[trigger] devs[j],
            ),
    ensures
        dev_info_rows(devs).len() == devs.len(),
        forall|i: int|
            0 <= i < devs.len() ==> dev_info_rows(devs)[i] == (
                dev_info_key(#[trigger] devs[i]),
                SampleValue::Int(1),
            ),
    decreases devs.len(),
{
    if devs.len() == 0 {
    } else {
        let prior = devs.drop_last();
        let d = devs.last();
        assert(forall|i: int| 0 <= i < prior.len() ==> prior[i] == devs[i]);
        lemma_device_info_complete(prior);
        let prev = dev_info_rows(prior);
        assert forall|j: int| 0 <= j < prev.len() implies (#[trigger] prev[j]).0 != dev_info_key(
            d,
        ) by {
            assert(prev[j] == (dev_info_key(prior[j]), SampleValue::Int(1)));
            assert(dev_info_key(devs[j]) != dev_info_key(devs[devs.len() - 1]));
        }
        crate::family::lemma_spec_set_absent(prev, dev_info_key(d), SampleValue::Int(1));
        assert(dev_info_rows(devs) == prev.push((dev_info_key(d), SampleValue::Int(1))));
    }
}

/// Reconciling with an empty collection clears that entity type: no
/// previously set label combination survives.  The device families and the
/// per-client families are left with no series at all; the aggregate count
/// family keeps only its four fixed series, all reading zero, and the
/// sites family its single series reading zero.
pub proof fn lemma_empty_reconcile_clears()
    ensures
        dev_info_rows(Seq::<Device>::empty()).len() == 0,
        dev_uptime_rows(Seq::<Device>::empty()).len() == 0,
        dev_adopted_rows(Seq::<Device>::empty()).len() == 0,
        dev_state_rows(Seq::<Device>::empty()).len() == 0,
        dev_cpu_rows(Seq::<Device>::empty()).len() == 0,
        dev_mem_usage_rows(Seq::<Device>::empty()).len() == 0,
        dev_mem_total_rows(Seq::<Device>::empty()).len() == 0,
        dev_bytes_rows(Seq::<Device>::empty()).len() == 0,
        dev_packets_rows(Seq::<Device>::empty()).len() == 0,
        cl_info_rows(Seq::<Client>::empty()).len() == 0,
        cl_bytes_rows(Seq::<Client>::empty()).len() == 0,
        cl_signal_rows(Seq::<Client>::empty()).len() == 0,
        cl_uptime_rows(Seq::<Client>::empty()).len() == 0,
        totals_rows(Seq::<Client>::empty()) == totals_rows_from(
            0,
            0,
            0,
            Seq::<(Seq<char>, int)>::empty(),
        ),
        sites_rows(Seq::<Site>::empty()) == seq![
            (Seq::<Seq<char>>::empty(), SampleValue::Int(0)),
        ],
{
    assert(sites_rows(Seq::<Site>::empty()) =~= seq![
        (Seq::<Seq<char>>::empty(), SampleValue::Int(0)),
    ]);
}

/// A memory usage ratio series exists for a key exactly when some device
/// with that identity reports both memory figures with a positive total;
/// in particular, a device whose total is zero or absent emits no usage
/// ratio series of its own.
pub proof fn lemma_memory_ratio_emitted_iff(devs: Seq<Device>, q: Seq<Seq<char>>)
    ensures
        (crate::family::lookup(dev_mem_usage_rows(devs), q) is Some) <==> exists|t: int|
            0 <= t < devs.len() && dev_key3(#[trigger] devs[t]) == q && has_mem_ratio(devs[t]),
    decreases devs.len(),
{
    if devs.len() == 0 {
    } else {
        let prior = devs.drop_last();
        let d = devs.last();
        assert(forall|i: int| 0 <= i < prior.len() ==> prior[i] == devs[i]);
        lemma_memory_ratio_emitted_iff(prior, q);
        let prev = dev_mem_usage_rows(prior);
        if has_mem_ratio(d) {
            let s = d.sys_stats->0;
            let v = SampleValue::Ratio(
                Rational { num: s.mem_used->0, den: s.mem_total->0 as u64 },
            );
            assert(dev_mem_usage_rows(devs) == spec_set(prev, dev_key3(d), v));
            crate::family::lemma_lookup_set(prev, dev_key3(d), v, q);
            if q == dev_key3(d) {
                assert(dev_key3(devs[devs.len() - 1]) == q && has_mem_ratio(devs[devs.len() - 1]));
            } else {
                if crate::family::lookup(prev, q) is Some {
                    let t = choose|t: int|
                        0 <= t < prior.len() && dev_key3(#[trigger] prior[t]) == q
                            && has_mem_ratio(prior[t]);
                    assert(dev_key3(devs[t]) == q && has_mem_ratio(devs[t]));
                }
                if exists|t: int|
                    0 <= t < devs.len() && dev_key3(#[trigger] devs[t]) == q && has_mem_ratio(
                        devs[t],
                    ) {
                    let t = choose|t: int|
                        0 <= t < devs.len() && dev_key3(#[trigger] devs[t]) == q && has_mem_ratio(
                            devs[t],
                        );
                    assert(t < devs.len() - 1);
                    assert(dev_key3(prior[t]) == q && has_mem_ratio(prior[t]));
                }
            }
        } else {
            assert(dev_mem_usage_rows(devs) == prev);
            if crate::family::lookup(prev, q) is Some {
                let t = choose|t: int|
                    0 <= t < prior.len() && dev_key3(#[trigger] prior[t]) == q && has_mem_ratio(
                        prior[t],
                    );
                assert(dev_key3(devs[t]) == q && has_mem_ratio(devs[t]));
            }
            if exists|t: int|
                0 <= t < devs.len() && dev_key3(#[trigger] devs[t]) == q && has_mem_ratio(
                    devs[t],
                ) {
                let t = choose|t: int|
                    0 <= t < devs.len() && dev_key3(#[trigger] devs[t]) == q && has_mem_ratio(
                        devs[t],
                    );
                assert(t < devs.len() - 1);
                assert(dev_key3(prior[t]) == q && has_mem_ratio(prior[t]));
            }
        }
    }
}

/// A signal strength series exists for a key exactly when some wireless
/// client with a present signal value has that identity.
pub proof fn lemma_signal_emitted_iff(cs: Seq<Client>, q: Seq<Seq<char>>)
    ensures
        (crate::family::lookup(cl_signal_rows(cs), q) is Some) <==> exists|t: int|
            0 <= t < cs.len() && cl_key3(#[trigger] cs[t]) == q && emits_signal(cs[t]),
    decreases cs.len(),
{
    if cs.len() == 0 {
    } else {
        let prior = cs.drop_last();
        let c = cs.last();
        assert(forall|i: int| 0 <= i < prior.len() ==> prior[i] == cs[i]);
        lemma_signal_emitted_iff(prior, q);
        let prev = cl_signal_rows(prior);
        if emits_signal(c) {
            let v = SampleValue::Int(c.signal->0 as i64);
            assert(cl_signal_rows(cs) == spec_set(prev, cl_key3(c), v));
            crate::family::lemma_lookup_set(prev, cl_key3(c), v, q);
            if q == cl_key3(c) {
                assert(cl_key3(cs[cs.len() - 1]) == q && emits_signal(cs[cs.len() - 1]));
            } else {
                if crate::family::lookup(prev, q) is Some {
                    let t = choose|t: int|
                        0 <= t < prior.len() && cl_key3(#[trigger] prior[t]) == q && emits_signal(
                            prior[t],
                        );
                    assert(cl_key3(cs[t]) == q && emits_signal(cs[t]));
                }
                if exists|t: int|
                    0 <= t < cs.len() && cl_key3(#[trigger] cs[t]) == q && emits_signal(cs[t]) {
                    let t = choose|t: int|
                        0 <= t < cs.len() && cl_key3(#[trigger] cs[t]) == q && emits_signal(
                            cs[t],
                        );
                    assert(t < cs.len() - 1);
                    assert(cl_key3(prior[t]) == q && emits_signal(prior[t]));
                }
            }
        } else {
            assert(cl_signal_rows(cs) == prev);
            if crate::family::lookup(prev, q) is Some {
                let t = choose|t: int|
                    0 <= t < prior.len() && cl_key3(#[trigger] prior[t]) == q && emits_signal(
                        prior[t],
                    );
                assert(cl_key3(cs[t]) == q && emits_signal(cs[t]));
            }
            if exists|t: int|
                0 <= t < cs.len() && cl_key3(#[trigger] cs[t]) == q && emits_signal(cs[t]) {
                let t = choose|t: int|
                    0 <= t < cs.len() && cl_key3(#[trigger] cs[t]) == q && emits_signal(cs[t]);
                assert(t < cs.len() - 1);
                assert(cl_key3(prior[t]) == q && emits_signal(prior[t]));
            }
        }
    }
}

/// Signal strength is never emitted for a wired client: when every client
/// sharing the wired client's identity labels is wired, the reconciled
/// signal family holds no series under those labels, even if a signal
/// value is present in the input.
pub proof fn lemma_signal_never_wired(cs: Seq<Client>, i: int)
    requires
        0 <= i < cs.len(),
        cs[i].is_wired,
        forall|j: int|
            0 <= j < cs.len() && cl_key3(#[trigger] cs[j]) == cl_key3(cs[i]) ==> cs[j].is_wired,
    ensures
        crate::family::lookup(cl_signal_rows(cs), cl_key3(cs[i])) is None,
{
    lemma_signal_emitted_iff(cs, cl_key3(cs[i]));
    if crate::family::lookup(cl_signal_rows(cs), cl_key3(cs[i])) is Some {
        let t = choose|t: int|
            0 <= t < cs.len() && cl_key3(#[trigger] cs[t]) == cl_key3(cs[i]) && emits_signal(
                cs[t],
            );
        assert(cs[t].is_wired);
        assert(false);
    }
}

/// Applying the per-network counts never touches a key whose first label
/// is not the literal "all".
proof fn lemma_net_totals_preserve(
    rows: Seq<(Seq<Seq<char>>, SampleValue)>,
    nets: Seq<(Seq<char>, int)>,
    q: Seq<Seq<char>>,
)
    requires
        q.len() == 3,
        q[0] != "all"@,
    ensures
        crate::family::lookup(apply_net_totals(rows, nets), q) == crate::family::lookup(rows, q),
    decreases nets.len(),
{
    if nets.len() == 0 {
    } else {
        let stepped = spec_set(rows, net_total_key(nets[0].0), SampleValue::Int(nets[0].1 as i64));
        crate::family::lemma_lookup_set(
            rows,
            net_total_key(nets[0].0),
            SampleValue::Int(nets[0].1 as i64),
            q,
        );
        assert(q != net_total_key(nets[0].0)) by {
            if q == net_total_key(nets[0].0) {
                assert(q[0] == net_total_key(nets[0].0)[0]);
            }
        }
        lemma_net_totals_preserve(stepped, nets.drop_first(), q);
    }
}

/// The four aggregate count series read: wired non-guests, wireless
/// clients, guests across all networks, and the grand total of non-guests
/// floored at zero.
pub proof fn lemma_client_counts(cs: Seq<Client>)
    ensures
        crate::family::lookup(totals_rows(cs), wired_total_key()) == Some(
            SampleValue::Int(count_wired(cs) as i64),
        ),
        crate::family::lookup(totals_rows(cs), wireless_total_key()) == Some(
            SampleValue::Int(count_wireless(cs) as i64),
        ),
        crate::family::lookup(totals_rows(cs), guest_total_key()) == Some(
            SampleValue::Int(count_guest(cs) as i64),
        ),
        crate::family::lookup(totals_rows(cs), all_total_key()) == Some(
            SampleValue::Int(
                (if count_wired(cs) + count_wireless(cs) - count_guest(cs) > 0 {
                    count_wired(cs) + count_wireless(cs) - count_guest(cs)
                } else {
                    0
                }) as i64,
            ),
        ),
{
    reveal_strlit("all");
    reveal_strlit("false");
    reveal_strlit("true");
    reveal_strlit("wired");
    reveal_strlit("wireless");
    let w = count_wired(cs);
    let wl = count_wireless(cs);
    let g = count_guest(cs);
    let nonguest = if w + wl - g > 0 {
        w + wl - g
    } else {
        0
    };
    let r1 = spec_set(
        Seq::<(Seq<Seq<char>>, SampleValue)>::empty(),
        wired_total_key(),
        SampleValue::Int(w as i64),
    );
    let r2 = spec_set(r1, wireless_total_key(), SampleValue::Int(wl as i64));
    let r3 = spec_set(r2, guest_total_key(), SampleValue::Int(g as i64));
    let r4 = spec_set(r3, all_total_key(), SampleValue::Int(nonguest as i64));
    assert("all"@.len() == 3);
    assert("false"@.len() == 5);
    assert("true"@.len() == 4);
    assert("wired"@.len() == 5);
    assert("wireless"@.len() == 8);
    assert(wired_total_key() != wireless_total_key()) by {
        if wired_total_key() == wireless_total_key() {
            assert(wired_total_key()[2] == wireless_total_key()[2]);
        }
    }
    assert(wired_total_key() != guest_total_key()) by {
        if wired_total_key() == guest_total_key() {
            assert(wired_total_key()[0] == guest_total_key()[0]);
        }
    }
    assert(wired_total_key() != all_total_key()) by {
        if wired_total_key() == all_total_key() {
            assert(wired_total_key()[2] == all_total_key()[2]);
        }
    }
    assert(wireless_total_key() != guest_total_key()) by {
        if wireless_total_key() == guest_total_key() {
            assert(wireless_total_key()[0] == guest_total_key()[0]);
        }
    }
    assert(wireless_total_key() != all_total_key()) by {
        if wireless_total_key() == all_total_key() {
            assert(wireless_total_key()[2] == all_total_key()[2]);
        }
    }
    assert(guest_total_key() != all_total_key()) by {
        if guest_total_key() == all_total_key() {
            assert(guest_total_key()[0] == all_total_key()[0]);
        }
    }
    assert(wired_total_key()[0] != "all"@);
    assert(wireless_total_key()[0] != "all"@);
    assert(guest_total_key()[0] != "all"@);
    assert(all_total_key()[0] != "all"@);
    crate::family::lemma_lookup_set(
        Seq::<(Seq<Seq<char>>, SampleValue)>::empty(),
        wired_total_key(),
        SampleValue::Int(w as i64),
        wired_total_key(),
    );
    crate::family::lemma_lookup_set(r1, wireless_total_key(), SampleValue::Int(wl as i64), wired_total_key());
    crate::family::lemma_lookup_set(r2, guest_total_key(), SampleValue::Int(g as i64), wired_total_key());
    crate::family::lemma_lookup_set(r3, all_total_key(), SampleValue::Int(nonguest as i64), wired_total_key());
    crate::family::lemma_lookup_set(
        Seq::<(Seq<Seq<char>>, SampleValue)>::empty(),
        wired_total_key(),
        SampleValue::Int(w as i64),
        wireless_total_key(),
    );
    crate::family::lemma_lookup_set(r1, wireless_total_key(), SampleValue::Int(wl as i64), wireless_total_key());
    crate::family::lemma_lookup_set(r2, guest_total_key(), SampleValue::Int(g as i64), wireless_total_key());
    crate::family::lemma_lookup_set(r3, all_total_key(), SampleValue::Int(nonguest as i64), wireless_total_key());
    crate::family::lemma_lookup_set(
        Seq::<(Seq<Seq<char>>, SampleValue)>::empty(),
        wired_total_key(),
        SampleValue::Int(w as i64),
        guest_total_key(),
    );
    crate::family::lemma_lookup_set(r1, wireless_total_key(), SampleValue::Int(wl as i64), guest_total_key());
    crate::family::lemma_lookup_set(r2, guest_total_key(), SampleValue::Int(g as i64), guest_total_key());
    crate::family::lemma_lookup_set(r3, all_total_key(), SampleValue::Int(nonguest as i64), guest_total_key());
    crate::family::lemma_lookup_set(
        Seq::<(Seq<Seq<char>>, SampleValue)>::empty(),
        wired_total_key(),
        SampleValue::Int(w as i64),
        all_total_key(),
    );
    crate::family::lemma_lookup_set(r1, wireless_total_key(), SampleValue::Int(wl as i64), all_total_key());
    crate::family::lemma_lookup_set(r2, guest_total_key(), SampleValue::Int(g as i64), all_total_key());
    crate::family::lemma_lookup_set(r3, all_total_key(), SampleValue::Int(nonguest as i64), all_total_key());
    lemma_net_totals_preserve(r4, net_counts(cs), wired_total_key());
    lemma_net_totals_preserve(r4, net_counts(cs), wireless_total_key());
    lemma_net_totals_preserve(r4, net_counts(cs), guest_total_key());
    lemma_net_totals_preserve(r4, net_counts(cs), all_total_key());
}


/// Label text round-trips into the snapshot: a label value of any device
/// info series, when it holds no character the format escapes, appears
/// verbatim as a contiguous run of the rendered snapshot.
pub proof fn lemma_snapshot_contains_device_label(m: Metrics, i: int, j: int)
    requires
        m.device_info.wf(),
        0 <= i < m.device_info.rows().len(),
        0 <= j < m.device_info.label_names@.len(),
        crate::render::plain_text(m.device_info.rows()[i].0[j]),
    ensures
        crate::render::appears_in(snapshot_view(m), m.device_info.rows()[i].0[j]),
{
    let x = m.device_info.rows()[i].0[j];
    crate::render::lemma_family_contains_label_value(m.device_info, i, j);
    let t8 = family_chars(m.client_bytes_total) + family_chars(m.client_info) + family_chars(
        m.client_signal_strength,
    ) + family_chars(m.client_uptime) + family_chars(m.clients_total) + family_chars(
        m.device_adopted,
    ) + family_chars(m.device_bytes_total) + family_chars(m.device_cpu_usage);
    crate::render::lemma_appears_concat_left(t8, family_chars(m.device_info), x);
    let t9 = t8 + family_chars(m.device_info);
    crate::render::lemma_appears_concat_right(t9, family_chars(m.device_memory_total), x);
    let t10 = t9 + family_chars(m.device_memory_total);
    crate::render::lemma_appears_concat_right(t10, family_chars(m.device_memory_usage), x);
    let t11 = t10 + family_chars(m.device_memory_usage);
    crate::render::lemma_appears_concat_right(t11, family_chars(m.device_packets_total), x);
    let t12 = t11 + family_chars(m.device_packets_total);
    crate::render::lemma_appears_concat_right(t12, family_chars(m.device_state), x);
    let t13 = t12 + family_chars(m.device_state);
    crate::render::lemma_appears_concat_right(t13, family_chars(m.device_uptime), x);
    let t14 = t13 + family_chars(m.device_uptime);
    crate::render::lemma_appears_concat_right(t14, family_chars(m.sites_total), x);
    assert(snapshot_view(m) == t14 + family_chars(m.sites_total));
}

/// Label text round-trips into the snapshot: a label value of any client
/// info series, when it holds no character the format escapes, appears
/// verbatim as a contiguous run of the rendered snapshot.
pub proof fn lemma_snapshot_contains_client_label(m: Metrics, i: int, j: int)
    requires
        m.client_info.wf(),
        0 <= i < m.client_info.rows().len(),
        0 <= j < m.client_info.label_names@.len(),
        crate::render::plain_text(m.client_info.rows()[i].0[j]),
    ensures
        crate::render::appears_in(snapshot_view(m), m.client_info.rows()[i].0[j]),
{
    let x = m.client_info.rows()[i].0[j];
    crate::render::lemma_family_contains_label_value(m.client_info, i, j);
    let t1 = family_chars(m.client_bytes_total);
    crate::render::lemma_appears_concat_left(t1, family_chars(m.client_info), x);
    let t2 = t1 + family_chars(m.client_info);
    crate::render::lemma_appears_concat_right(t2, family_chars(m.client_signal_strength), x);
    let t3 = t2 + family_chars(m.client_signal_strength);
    crate::render::lemma_appears_concat_right(t3, family_chars(m.client_uptime), x);
    let t4 = t3 + family_chars(m.client_uptime);
    crate::render::lemma_appears_concat_right(t4, family_chars(m.clients_total), x);
    let t5 = t4 + family_chars(m.clients_total);
    crate::render::lemma_appears_concat_right(t5, family_chars(m.device_adopted), x);
    let t6 = t5 + family_chars(m.device_adopted);
    crate::render::lemma_appears_concat_right(t6, family_chars(m.device_bytes_total), x);
    let t7 = t6 + family_chars(m.device_bytes_total);
    crate::render::lemma_appears_concat_right(t7, family_chars(m.device_cpu_usage), x);
    let t8 = t7 + family_chars(m.device_cpu_usage);
    crate::render::lemma_appears_concat_right(t8, family_chars(m.device_info), x);
    let t9 = t8 + family_chars(m.device_info);
    crate::render::lemma_appears_concat_right(t9, family_chars(m.device_memory_total), x);
    let t10 = t9 + family_chars(m.device_memory_total);
    crate::render::lemma_appears_concat_right(t10, family_chars(m.device_memory_usage), x);
    let t11 = t10 + family_chars(m.device_memory_usage);
    crate::render::lemma_appears_concat_right(t11, family_chars(m.device_packets_total), x);
    let t12 = t11 + family_chars(m.device_packets_total);
    crate::render::lemma_appears_concat_right(t12, family_chars(m.device_state), x);
    let t13 = t12 + family_chars(m.device_state);
    crate::render::lemma_appears_concat_right(t13, family_chars(m.device_uptime), x);
    let t14 = t13 + family_chars(m.device_uptime);
    crate::render::lemma_appears_concat_right(t14, family_chars(m.sites_total), x);
    assert(snapshot_view(m) == t14 + family_chars(m.sites_total));
}

} // verus!
