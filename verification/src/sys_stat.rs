//! The node's measurements of itself, read from the kernel's status files
//! (`/proc/uptime`, `/proc/stat`, `/proc/cpuinfo`, `/proc/meminfo`,
//! `/proc/net/route`, `/proc/net/dev`) and from the measuring scripts.
//! Reading the files, waiting between samples and the floating-point
//! arithmetic on the samples are the caller's; this module picks the
//! fields out of the text, parses and subtracts the counters and assembles
//! the records that the node reports.

use vstd::prelude::*;
use crate::json::hex_lower;
use crate::text::{
    opt_view,
    parse_i64, parse_i64_spec, push_char, push_str, split_on, split_pieces, split_whitespace, str_eq,
    take_chars, take_chars_spec, trim, trim_newlines, trim_newlines_spec, trim_spec, ws_fields,
};

verus! {

/// The `field`-th whitespace-separated field of the `line`-th line, if both
/// exist.
pub open spec fn field_at(lines: Seq<Seq<char>>, line: int, field: int) -> Option<Seq<char>> {
    if 0 <= line < lines.len() && 0 <= field < ws_fields(lines[line]).len() {
        Some(ws_fields(lines[line])[field])
    } else {
        None
    }
}

/// The `idx`-th `':'`-separated piece of the `line`-th line, trimmed, if
/// both exist.
pub open spec fn colon_field_at(lines: Seq<Seq<char>>, line: int, idx: int) -> Option<Seq<char>> {
    if 0 <= line < lines.len() && 0 <= idx < split_pieces(lines[line], ':').len() {
        Some(trim_spec(split_pieces(lines[line], ':')[idx]))
    } else {
        None
    }
}

/// The `field`-th whitespace-separated field of the `line`-th line.
pub fn line_field(lines: &Vec<String>, line: usize, field: usize) -> (r: Option<String>)
    ensures
        opt_view(r) == field_at(lines.deep_view(), line as int, field as int),
{
    if line >= lines.len() {
        return None;
    }
    let fields = split_whitespace(lines[line].as_str());
    if field >= fields.len() {
        return None;
    }
    Some(fields[field].clone())
}

/// The `idx`-th `':'`-separated piece of the `line`-th line, trimmed.
pub fn colon_field(lines: &Vec<String>, line: usize, idx: usize) -> (r: Option<String>)
    ensures
        opt_view(r) == colon_field_at(lines.deep_view(), line as int, idx as int),
{
    if line >= lines.len() {
        return None;
    }
    let pieces = split_on(lines[line].as_str(), ':');
    if idx >= pieces.len() {
        return None;
    }
    Some(trim(pieces[idx].as_str()))
}


/// The sum of `v`.
pub open spec fn sum_seq(v: Seq<i64>) -> int
    decreases v.len(),
{
    if v.len() == 0 {
        0
    } else {
        sum_seq(v.drop_last()) + v.last()
    }
}

/// Whether every running sum of `v`, from the first element on, fits in an
/// `i64`: an `i64` sum added up from the left does not overflow.
pub open spec fn sums_fit(v: Seq<i64>) -> bool
    decreases v.len(),
{
    if v.len() == 0 {
        true
    } else {
        sums_fit(v.drop_last()) && i64::MIN <= sum_seq(v) <= i64::MAX
    }
}

/// Whether every field parses as an `i64`.
pub open spec fn all_parse(t: Seq<Seq<char>>) -> bool {
    forall|i: int| 0 <= i < t.len() ==> (#[trigger] parse_i64_spec(t[i])) is Some
}

/// The values of the fields.
pub open spec fn parsed_values(t: Seq<Seq<char>>) -> Seq<i64> {
    t.map_values(|x: Seq<char>| parse_i64_spec(x).unwrap())
}

/// The counters of a `/proc/stat` line: its fields after the label.
pub open spec fn stat_counters(line: Seq<char>) -> Seq<Seq<char>> {
    let f = ws_fields(line);
    if f.len() == 0 {
        f
    } else {
        f.drop_first()
    }
}

/// The (total, idle) CPU time of `/proc/stat`: the sum of the counters on
/// the first line, and its fifth field (the idle counter). `None` where a
/// counter does not parse as an `i64`, a running sum overflows, or the line
/// or the idle field is missing.
pub open spec fn cpu_time_spec(lines: Seq<Seq<char>>) -> Option<(i64, i64)> {
    if lines.len() == 0 {
        None
    } else {
        let t = stat_counters(lines[0]);
        if all_parse(t) && sums_fit(parsed_values(t)) {
            match field_at(lines, 0, 4) {
                Some(f) => match parse_i64_spec(f) {
                    Some(idle) => Some((sum_seq(parsed_values(t)) as i64, idle)),
                    None => None,
                },
                None => None,
            }
        } else {
            None
        }
    }
}

proof fn lemma_sums_fit_prefix(v: Seq<i64>, m: int)
    requires
        sums_fit(v),
        0 <= m <= v.len(),
    ensures
        sums_fit(v.take(m)),
    decreases v.len() - m,
{
    if m == v.len() {
        assert(v.take(m) =~= v);
    } else {
        lemma_sums_fit_prefix(v, m + 1);
        assert(v.take(m + 1).drop_last() =~= v.take(m));
    }
}

/// (total, idle) differences between two samples, or `None` where a
/// subtraction overflows.
pub open spec fn pair_delta_spec(before: (i64, i64), after: (i64, i64)) -> Option<(i64, i64)> {
    let a = after.0 - before.0;
    let b = after.1 - before.1;
    if i64::MIN <= a <= i64::MAX && i64::MIN <= b <= i64::MAX {
        Some((a as i64, b as i64))
    } else {
        None
    }
}

/// Whether both differences `after - before` of two counter samples fit in
/// an `i64`.
pub fn delta_fits(before: (i64, i64), after: (i64, i64)) -> (r: bool)
    ensures
        r == pair_delta_spec(before, after) is Some,
{
    after.0.checked_sub(before.0).is_some() && after.1.checked_sub(before.1).is_some()
}

/// Element-wise difference `after - before` of two counter samples.
pub fn pair_delta(before: (i64, i64), after: (i64, i64)) -> (r: (i64, i64))
    requires
        pair_delta_spec(before, after) is Some,
    ensures
        Some(r) == pair_delta_spec(before, after),
{
    (after.0 - before.0, after.1 - before.1)
}

/// The processor description: the values on lines 1 to 4 of
/// `/proc/cpuinfo`, joined by commas; `None` where one is missing.
pub open spec fn model_spec(lines: Seq<Seq<char>>) -> Option<Seq<char>> {
    match (
        colon_field_at(lines, 1, 1),
        colon_field_at(lines, 2, 1),
        colon_field_at(lines, 3, 1),
        colon_field_at(lines, 4, 1),
    ) {
        (Some(a), Some(b), Some(c), Some(d)) => Some(
            a.push(',') + b.push(',') + c.push(',') + d,
        ),
        _ => None,
    }
}

/// Whether `/proc/cpuinfo` has the four model values (`model_spec`).
pub fn model_readable(cpuinfo: &Vec<String>) -> (r: bool)
    ensures
        r == model_spec(cpuinfo.deep_view()) is Some,
{
    try_cpu_model(cpuinfo).is_some()
}

/// Processor description of a CPU (usually vendor, family, model, name):
/// the values of lines 1 to 4 of `/proc/cpuinfo`, joined by commas.
pub fn cpu_model(cpuinfo: &Vec<String>) -> (r: String)
    requires
        model_spec(cpuinfo.deep_view()) is Some,
    ensures
        Some(r@) == model_spec(cpuinfo.deep_view()),
{
    try_cpu_model(cpuinfo).unwrap()
}

fn try_cpu_model(cpuinfo: &Vec<String>) -> (r: Option<String>)
    ensures
        opt_view(r) == model_spec(cpuinfo.deep_view()),
{
    let a = colon_field(cpuinfo, 1, 1);
    let b = colon_field(cpuinfo, 2, 1);
    let c = colon_field(cpuinfo, 3, 1);
    let d = colon_field(cpuinfo, 4, 1);
    match (a, b, c, d) {
        (Some(a), Some(b), Some(c), Some(d)) => {
            let mut out = a;
            push_char(&mut out, ',');
            push_str(&mut out, b.as_str());
            push_char(&mut out, ',');
            push_str(&mut out, c.as_str());
            push_char(&mut out, ',');
            push_str(&mut out, d.as_str());
            assert(out@ =~= model_spec(cpuinfo.deep_view())->0);
            Some(out)
        },
        _ => None,
    }
}

/// Processor state of the node: its model, the last (total, idle) time
/// sample and the usage over the last interval, as text.
#[derive(Debug)]
pub struct CpuInfo {
    pub model: String,
    pub cputime: (i64, i64),
    pub usage: String,
}

impl CpuInfo {
    /// Whether `/proc/stat` holds a (total, idle) time (`cpu_time_spec`).
    pub fn stat_readable(stat: &Vec<String>) -> (r: bool)
        ensures
            r == cpu_time_spec(stat.deep_view()) is Some,
    {
        CpuInfo::try_time(stat).is_some()
    }

    /// The (total, idle) CPU time in `/proc/stat`.
    pub fn time(stat: &Vec<String>) -> (r: (i64, i64))
        requires
            cpu_time_spec(stat.deep_view()) is Some,
        ensures
            Some(r) == cpu_time_spec(stat.deep_view()),
    {
        CpuInfo::try_time(stat).unwrap()
    }

    fn try_time(stat: &Vec<String>) -> (r: Option<(i64, i64)>)
        ensures
            r == cpu_time_spec(stat.deep_view()),
    {
        let ghost lines = stat.deep_view();
        if stat.len() == 0 {
            return None;
        }
        let fields = split_whitespace(stat[0].as_str());
        let ghost t = stat_counters(lines[0]);
        let ghost vals = parsed_values(t);
        let nf = fields.len();
        let mut total: i64 = 0;
        let mut k: usize = 1;
        if nf == 0 {
            assert(t.len() == 0);
        } else {
            assert(t =~= fields.deep_view().drop_first());
        }
        assert(vals.take(0) =~= Seq::<i64>::empty());
        while k < nf
            invariant
                lines == stat.deep_view(),
                lines.len() > 0,
                t == stat_counters(lines[0]),
                fields.deep_view() == ws_fields(lines[0]),
                nf == fields.deep_view().len(),
                nf > 0 ==> t =~= fields.deep_view().drop_first(),
                nf == 0 ==> t.len() == 0,
                1 <= k,
                nf > 0 ==> k <= nf,
                vals == parsed_values(t),
                forall|i: int| 0 <= i < k - 1 ==> (#[trigger] parse_i64_spec(t[i])) is Some,
                sums_fit(vals.take(k - 1)),
                total == sum_seq(vals.take(k - 1)),
            decreases nf - k,
        {
            let v = parse_i64(fields[k].as_str());
            assert(t[k - 1] == fields.deep_view()[k as int]);
            match v {
                None => {
                    assert(!all_parse(t));
                    return None;
                },
                Some(x) => {
                    assert(vals.take(k as int).drop_last() =~= vals.take(k - 1));
                    assert(vals[k - 1] == x);
                    match total.checked_add(x) {
                        None => {
                            proof {
                                if all_parse(t) && sums_fit(vals) {
                                    lemma_sums_fit_prefix(vals, k as int);
                                }
                            }
                            return None;
                        },
                        Some(s) => {
                            total = s;
                        },
                    }
                },
            }
            k = k + 1;
        }
        if nf > 0 {
            assert(vals.take(nf - 1) =~= vals);
        } else {
            assert(vals.take(0) =~= vals);
        }
        assert(all_parse(t));
        let idle_field = line_field(stat, 0, 4);
        match idle_field {
            None => None,
            Some(f) => match parse_i64(f.as_str()) {
                None => None,
                Some(idle) => Some((total, idle)),
            },
        }
    }

    /// A processor record from its model text, the current time sample and
    /// the usage text.
    pub fn from_readings(cpuinfo: &Vec<String>, cputime: (i64, i64), usage: String) -> (r: CpuInfo)
        requires
            model_spec(cpuinfo.deep_view()) is Some,
        ensures
            model_spec(cpuinfo.deep_view()) == Some(r.model@),
            r.cputime == cputime,
            r.usage == usage,
    {
        CpuInfo { model: cpu_model(cpuinfo), cputime, usage }
    }

    /// Takes a new (total, idle) time sample: returns its difference to the
    /// previous one and keeps it as the current sample.
    pub fn advance(&mut self, now: (i64, i64)) -> (r: (i64, i64))
        requires
            pair_delta_spec(old(self).cputime, now) is Some,
        ensures
            Some(r) == pair_delta_spec(old(self).cputime, now),
            final(self).cputime == now,
            final(self).model == old(self).model,
            final(self).usage == old(self).usage,
    {
        let d = pair_delta(self.cputime, now);
        self.cputime = now;
        d
    }
}


/// The seven `/proc/meminfo` values that the memory figures are computed
/// from, as they stand in the file (kB).
#[derive(Debug)]
pub struct MemReadings {
    pub total: String,
    pub free: String,
    pub available: String,
    pub buffers: String,
    pub cached: String,
    pub sreclaimable: String,
    pub shmem: String,
}

/// Memory state of the node, as text: usage in percent with and without
/// caches and buffers, and total, free and available memory in GB.
#[derive(Debug)]
pub struct MemInfo {
    pub usage: (String, String),
    pub total: String,
    pub free: String,
    pub available: String,
}

/// Whether `/proc/meminfo` has the second field on each of lines 0, 1, 2,
/// 3, 4, 22 and 20.
pub open spec fn meminfo_readable(lines: Seq<Seq<char>>) -> bool {
    &&& field_at(lines, 0, 1) is Some
    &&& field_at(lines, 1, 1) is Some
    &&& field_at(lines, 2, 1) is Some
    &&& field_at(lines, 3, 1) is Some
    &&& field_at(lines, 4, 1) is Some
    &&& field_at(lines, 22, 1) is Some
    &&& field_at(lines, 20, 1) is Some
}

impl MemInfo {
    /// Whether `/proc/meminfo` holds the seven values (`meminfo_readable`).
    pub fn readable(meminfo: &Vec<String>) -> (r: bool)
        ensures
            r == meminfo_readable(meminfo.deep_view()),
    {
        MemInfo::try_readings(meminfo).is_some()
    }

    /// The second field of lines 0, 1, 2, 3, 4, 22 and 20 of `/proc/meminfo`
    /// (MemTotal, MemFree, MemAvailable, Buffers, Cached, SReclaimable,
    /// Shmem in the kernel's layout).
    pub fn readings(meminfo: &Vec<String>) -> (m: MemReadings)
        requires
            meminfo_readable(meminfo.deep_view()),
        ensures
            field_at(meminfo.deep_view(), 0, 1) == Some(m.total@),
            field_at(meminfo.deep_view(), 1, 1) == Some(m.free@),
            field_at(meminfo.deep_view(), 2, 1) == Some(m.available@),
            field_at(meminfo.deep_view(), 3, 1) == Some(m.buffers@),
            field_at(meminfo.deep_view(), 4, 1) == Some(m.cached@),
            field_at(meminfo.deep_view(), 22, 1) == Some(m.sreclaimable@),
            field_at(meminfo.deep_view(), 20, 1) == Some(m.shmem@),
    {
        MemInfo::try_readings(meminfo).unwrap()
    }

    fn try_readings(meminfo: &Vec<String>) -> (r: Option<MemReadings>)
        ensures
            r is Some <==> meminfo_readable(meminfo.deep_view()),
            r matches Some(m) ==> {
                &&& field_at(meminfo.deep_view(), 0, 1) == Some(m.total@)
                &&& field_at(meminfo.deep_view(), 1, 1) == Some(m.free@)
                &&& field_at(meminfo.deep_view(), 2, 1) == Some(m.available@)
                &&& field_at(meminfo.deep_view(), 3, 1) == Some(m.buffers@)
                &&& field_at(meminfo.deep_view(), 4, 1) == Some(m.cached@)
                &&& field_at(meminfo.deep_view(), 22, 1) == Some(m.sreclaimable@)
                &&& field_at(meminfo.deep_view(), 20, 1) == Some(m.shmem@)
            },
    {
        let total = line_field(meminfo, 0, 1);
        let free = line_field(meminfo, 1, 1);
        let available = line_field(meminfo, 2, 1);
        let buffers = line_field(meminfo, 3, 1);
        let cached = line_field(meminfo, 4, 1);
        let sreclaimable = line_field(meminfo, 22, 1);
        let shmem = line_field(meminfo, 20, 1);
        match (total, free, available, buffers, cached, sreclaimable, shmem) {
            (Some(total), Some(free), Some(available), Some(buffers), Some(cached), Some(
                sreclaimable,
            ), Some(shmem)) => Some(
                MemReadings { total, free, available, buffers, cached, sreclaimable, shmem },
            ),
            _ => None,
        }
    }
}

/// Whether a `/proc/net/route` line names a route with a gateway: its third
/// field exists and is not `00000000`.
pub open spec fn has_gateway(line: Seq<char>) -> bool {
    ws_fields(line).len() > 2 && ws_fields(line)[2] != "00000000"@
}

/// Index of the last line that `has_gateway`.
pub open spec fn last_gateway_line(lines: Seq<Seq<char>>) -> Option<int>
    decreases lines.len(),
{
    if lines.len() == 0 {
        None
    } else if has_gateway(lines.last()) {
        Some(lines.len() - 1)
    } else {
        last_gateway_line(lines.drop_last())
    }
}

/// The interface of the last route with a gateway.
pub open spec fn interface_spec(lines: Seq<Seq<char>>) -> Option<Seq<char>> {
    match last_gateway_line(lines) {
        Some(j) => Some(ws_fields(lines[j])[0]),
        None => None,
    }
}

/// Whether a `/proc/net/dev` line is the one of interface `iface`: its first
/// field is the name followed by a colon.
pub open spec fn names_interface(line: Seq<char>, iface: Seq<char>) -> bool {
    ws_fields(line).len() > 0 && ws_fields(line)[0] == iface.push(':')
}

/// Index of the last line of interface `iface`.
pub open spec fn last_interface_line(lines: Seq<Seq<char>>, iface: Seq<char>) -> Option<int>
    decreases lines.len(),
{
    if lines.len() == 0 {
        None
    } else if names_interface(lines.last(), iface) {
        Some(lines.len() - 1)
    } else {
        last_interface_line(lines.drop_last(), iface)
    }
}

/// The (received, transmitted) byte counters of `iface`: fields 1 and 10 of
/// its last line; `None` where there is no such line, or a field is missing
/// or does not parse as an `i64`.
pub open spec fn counters_spec(lines: Seq<Seq<char>>, iface: Seq<char>) -> Option<(i64, i64)> {
    match last_interface_line(lines, iface) {
        Some(j) => match (field_at(lines, j, 1), field_at(lines, j, 10)) {
            (Some(a), Some(b)) => match (parse_i64_spec(a), parse_i64_spec(b)) {
                (Some(rx), Some(tx)) => Some((rx, tx)),
                _ => None,
            },
            _ => None,
        },
        None => None,
    }
}

/// Network state of the node: the interface of its default route and the
/// (down, up) rate measured on it, as text (MB/s).
#[derive(Debug)]
pub struct NetInfo {
    pub current_interface: String,
    pub speed: (String, String),
}

impl NetInfo {
    /// Whether `/proc/net/route` has a route with a gateway.
    pub fn has_gateway_route(route: &Vec<String>) -> (r: bool)
        ensures
            r == interface_spec(route.deep_view()) is Some,
    {
        NetInfo::try_interface(route).is_some()
    }

    /// The interface of the last route in `/proc/net/route` that has a
    /// gateway.
    pub fn current_interface(route: &Vec<String>) -> (r: String)
        requires
            interface_spec(route.deep_view()) is Some,
        ensures
            Some(r@) == interface_spec(route.deep_view()),
    {
        NetInfo::try_interface(route).unwrap()
    }

    fn try_interface(route: &Vec<String>) -> (r: Option<String>)
        ensures
            opt_view(r) == interface_spec(route.deep_view()),
    {
        let ghost lines = route.deep_view();
        let mut i: usize = route.len();
        assert(lines.take(i as int) =~= lines);
        while i > 0
            invariant
                lines == route.deep_view(),
                i <= lines.len(),
                last_gateway_line(lines) == last_gateway_line(lines.take(i as int)),
            decreases i,
        {
            let fields = split_whitespace(route[i - 1].as_str());
            let ghost pre = lines.take(i as int);
            assert(pre.last() == lines[i - 1]);
            assert(pre.drop_last() =~= lines.take(i - 1));
            if fields.len() > 2 && !str_eq(fields[2].as_str(), "00000000") {
                assert(has_gateway(lines[i - 1]));
                return Some(fields[0].clone());
            }
            i = i - 1;
        }
        assert(lines.take(0) =~= Seq::<Seq<char>>::empty());
        None
    }

    /// Whether `/proc/net/dev` holds the counters of `iface`
    /// (`counters_spec`).
    pub fn counters_readable(dev: &Vec<String>, iface: &str) -> (r: bool)
        ensures
            r == counters_spec(dev.deep_view(), iface@) is Some,
    {
        NetInfo::try_counters(dev, iface).is_some()
    }

    /// The (received, transmitted) counters of `iface` in `/proc/net/dev`:
    /// fields 1 and 10 of its line.
    pub fn counters(dev: &Vec<String>, iface: &str) -> (r: (i64, i64))
        requires
            counters_spec(dev.deep_view(), iface@) is Some,
        ensures
            Some(r) == counters_spec(dev.deep_view(), iface@),
    {
        NetInfo::try_counters(dev, iface).unwrap()
    }

    fn try_counters(dev: &Vec<String>, iface: &str) -> (r: Option<(i64, i64)>)
        ensures
            r == counters_spec(dev.deep_view(), iface@),
    {
        let ghost lines = dev.deep_view();
        let mut label = iface.to_owned();
        push_char(&mut label, ':');
        let mut i: usize = dev.len();
        assert(lines.take(i as int) =~= lines);
        while i > 0
            invariant
                lines == dev.deep_view(),
                label@ == iface@.push(':'),
                i <= lines.len(),
                last_interface_line(lines, iface@) == last_interface_line(lines.take(i as int), iface@),
            decreases i,
        {
            let fields = split_whitespace(dev[i - 1].as_str());
            let ghost pre = lines.take(i as int);
            assert(pre.last() == lines[i - 1]);
            assert(pre.drop_last() =~= lines.take(i - 1));
            if fields.len() > 0 && str_eq(fields[0].as_str(), label.as_str()) {
                assert(names_interface(lines[i - 1], iface@));
                if fields.len() <= 10 {
                    return None;
                }
                let rx = parse_i64(fields[1].as_str());
                let tx = parse_i64(fields[10].as_str());
                return match (rx, tx) {
                    (Some(a), Some(b)) => Some((a, b)),
                    _ => None,
                };
            }
            i = i - 1;
        }
        assert(lines.take(0) =~= Seq::<Seq<char>>::empty());
        None
    }

    /// An identical record.
    pub fn duplicate(&self) -> (r: NetInfo)
        ensures
            r == *self,
    {
        NetInfo {
            current_interface: self.current_interface.clone(),
            speed: (self.speed.0.clone(), self.speed.1.clone()),
        }
    }
}

/// Whether `c` is a lower-case hexadecimal digit.
pub open spec fn is_lower_hex(c: char) -> bool {
    ('0' <= c && c <= '9') || ('a' <= c && c <= 'f')
}

/// Whether `s` is the hyphenated lower-case text of a random (version 4,
/// RFC 4122 variant) UUID.
pub open spec fn is_v4_uuid_text(s: Seq<char>) -> bool {
    &&& s.len() == 36
    &&& forall|i: int|
        0 <= i < 36 ==> if i == 8 || i == 13 || i == 18 || i == 23 {
            #[trigger] s[i] == '-'
        } else {
            is_lower_hex(s[i])
        }
    &&& s[14] == '4'
    &&& (s[19] == '8' || s[19] == '9' || s[19] == 'a' || s[19] == 'b')
}

/// Sixteen bytes from the operating system's random source
/// (`getrandom::fill`), or `None` where it cannot supply them. Which bytes
/// come out depends on chance and is not stated.
#[verifier::external_body]
fn random_bytes() -> (r: Option<[u8; 16]>) {
    let mut bytes = [0u8; 16];
    match getrandom::fill(&mut bytes) {
        Ok(()) => Some(bytes),
        Err(_) => None,
    }
}

/// The bytes of a random UUID made from `b`: the high half of byte 6 set to
/// the version (4), the two top bits of byte 8 to the variant (`10`).
pub open spec fn v4_bytes(b: Seq<u8>) -> Seq<u8> {
    b.update(6, (b[6] & 0x0f) | 0x40).update(8, (b[8] & 0x3f) | 0x80)
}

/// Two lower-case hexadecimal digits of a byte, high half first.
pub open spec fn hex_byte(x: u8) -> Seq<char> {
    seq![hex_lower((x / 16) as int), hex_lower((x % 16) as int)]
}

/// Lower-case hexadecimal digits of the bytes, in order.
pub open spec fn hex_bytes(b: Seq<u8>) -> Seq<char>
    decreases b.len(),
{
    if b.len() == 0 {
        Seq::empty()
    } else {
        hex_bytes(b.drop_last()) + hex_byte(b.last())
    }
}

/// The hyphenated text of sixteen UUID bytes: groups of 4, 2, 2, 2 and 6
/// bytes in hex, separated by hyphens.
pub open spec fn hyphenated(b: Seq<u8>) -> Seq<char> {
    hex_bytes(b.subrange(0, 4)) + seq!['-'] + hex_bytes(b.subrange(4, 6)) + seq!['-']
        + hex_bytes(b.subrange(6, 8)) + seq!['-'] + hex_bytes(b.subrange(8, 10)) + seq!['-']
        + hex_bytes(b.subrange(10, 16))
}

/// `uuid::Builder::from_random_bytes(bytes).into_uuid().to_string()`.
/// Claimed, as the builder and the `Display` of `Uuid` show: the version and
/// variant bits are set (`v4_bytes`) and the bytes are written as
/// hyphenated lower-case hex (`hyphenated`).
#[verifier::external_body]
fn uuid_text(bytes: [u8; 16]) -> (r: String)
    ensures
        r@ == hyphenated(v4_bytes(bytes@)),
{
    uuid::Builder::from_random_bytes(bytes).into_uuid().to_string()
}

proof fn lemma_hex_bytes(b: Seq<u8>)
    ensures
        hex_bytes(b).len() == 2 * b.len(),
        forall|i: int|
            0 <= i < b.len() ==> #[trigger] hex_bytes(b)[2 * i] == hex_lower((b[i] / 16) as int)
                && hex_bytes(b)[2 * i + 1] == hex_lower((b[i] % 16) as int),
    decreases b.len(),
{
    if b.len() > 0 {
        lemma_hex_bytes(b.drop_last());
        assert forall|i: int| 0 <= i < b.len() implies #[trigger] hex_bytes(b)[2 * i] == hex_lower(
            (b[i] / 16) as int,
        ) && hex_bytes(b)[2 * i + 1] == hex_lower((b[i] % 16) as int) by {
            if i < b.len() - 1 {
                assert(b.drop_last()[i] == b[i]);
                assert(hex_bytes(b.drop_last())[2 * i] == hex_lower((b[i] / 16) as int));
            }
        }
    }
}

proof fn lemma_hex_bytes_lower(b: Seq<u8>)
    ensures
        forall|j: int| 0 <= j < hex_bytes(b).len() ==> is_lower_hex(#[trigger] hex_bytes(b)[j]),
{
    lemma_hex_bytes(b);
    assert forall|j: int| 0 <= j < hex_bytes(b).len() implies is_lower_hex(
        #[trigger] hex_bytes(b)[j],
    ) by {
        let i = j / 2;
        if j % 2 == 0 {
            assert(j == 2 * i);
            assert(hex_bytes(b)[2 * i] == hex_lower((b[i] / 16) as int));
        } else {
            assert(j == 2 * i + 1);
            assert(hex_bytes(b)[2 * i] == hex_lower((b[i] / 16) as int));
        }
    }
}

/// The text of every random UUID has the hyphenated lower-case layout of a
/// version-4 UUID.
pub proof fn lemma_v4_text_shape(b: Seq<u8>)
    requires
        b.len() == 16,
    ensures
        is_v4_uuid_text(hyphenated(v4_bytes(b))),
{
    let v = v4_bytes(b);
    let x6 = b[6];
    let x8 = b[8];
    assert(((x6 & 0x0f) | 0x40) / 16 == 4) by (bit_vector);
    assert(8 <= ((x8 & 0x3f) | 0x80) / 16 <= 11) by (bit_vector);
    let g0 = v.subrange(0, 4);
    let g1 = v.subrange(4, 6);
    let g2 = v.subrange(6, 8);
    let g3 = v.subrange(8, 10);
    let g4 = v.subrange(10, 16);
    lemma_hex_bytes(g2);
    lemma_hex_bytes(g3);
    lemma_hex_bytes_lower(g0);
    lemma_hex_bytes_lower(g1);
    lemma_hex_bytes_lower(g2);
    lemma_hex_bytes_lower(g3);
    lemma_hex_bytes_lower(g4);
    lemma_hex_bytes(g0);
    lemma_hex_bytes(g1);
    lemma_hex_bytes(g4);
    let s = hyphenated(v);
    assert(g2[0] == v[6]);
    assert(g3[0] == v[8]);
    assert(hex_bytes(g2)[2 * 0int] == hex_lower((g2[0] / 16) as int));
    assert(hex_bytes(g3)[2 * 0int] == hex_lower((g3[0] / 16) as int));
    assert(s.len() == 36);
    assert forall|i: int|
        0 <= i < 36 implies if i == 8 || i == 13 || i == 18 || i == 23 {
        #[trigger] s[i] == '-'
    } else {
        is_lower_hex(s[i])
    } by {
        if i < 8 {
            assert(s[i] == hex_bytes(g0)[i]);
        } else if i == 8 {
        } else if i < 13 {
            assert(s[i] == hex_bytes(g1)[i - 9]);
        } else if i == 13 {
        } else if i < 18 {
            assert(s[i] == hex_bytes(g2)[i - 14]);
        } else if i == 18 {
        } else if i < 23 {
            assert(s[i] == hex_bytes(g3)[i - 19]);
        } else if i == 23 {
        } else {
            assert(s[i] == hex_bytes(g4)[i - 24]);
        }
    }
    assert(s[14] == hex_bytes(g2)[0]);
    assert(s[19] == hex_bytes(g3)[0]);
}

/// A fresh random identifier: sixteen random bytes made into the text of a
/// version-4 UUID; `None` where the random source fails.
fn random_uuid() -> (r: Option<String>)
    ensures
        r matches Some(s) ==> is_v4_uuid_text(s@),
{
    match random_bytes() {
        Some(b) => {
            proof {
                lemma_v4_text_shape(b@);
            }
            Some(uuid_text(b))
        },
        None => None,
    }
}

/// The report of the node's resources that is sent on registration.
#[derive(Debug)]
pub struct Resources {
    pub uuid: String,
    pub cpu: CpuInfo,
    pub mem: MemInfo,
    pub net: NetInfo,
    pub uptime: String,
}

/// The periodic update of the node's resources.
#[derive(Debug)]
pub struct StatUpdate {
    pub uuid: String,
    pub cpu_usage: String,
    pub mem_usage: (String, String),
    pub mem_free: String,
    pub mem_available: String,
    pub net: NetInfo,
    pub uptime: String,
}

/// Whether `b` keeps what a refresh of `a` must not change: the
/// identifier, the uptime, the processor model and the total memory.
pub open spec fn keeps_identity(a: Resources, b: Resources) -> bool {
    &&& b.uuid == a.uuid
    &&& b.uptime == a.uptime
    &&& b.cpu.model == a.cpu.model
    &&& b.mem.total == a.mem.total
}

/// A refresh, a new processor sample followed by new figures, keeps the
/// identifier, the uptime, the processor model and the total memory.
pub proof fn lemma_refresh_keeps_identity(before: Resources, sampled: Resources, after: Resources)
    requires
        keeps_identity(before, sampled),
        keeps_identity(sampled, after),
    ensures
        keeps_identity(before, after),
{
}

impl Resources {
    /// A report with identifier `uuid` and the uptime in `/proc/uptime`
    /// (its first field).
    pub fn with_uuid(uuid: String, cpu: CpuInfo, mem: MemInfo, net: NetInfo, uptime: &Vec<String>) -> (r:
        Resources)
        requires
            field_at(uptime.deep_view(), 0, 0) is Some,
        ensures
            r.uuid == uuid,
            r.cpu == cpu,
            r.mem == mem,
            r.net == net,
            field_at(uptime.deep_view(), 0, 0) == Some(r.uptime@),
    {
        let up = line_field(uptime, 0, 0).unwrap();
        Resources { uuid, cpu, mem, net, uptime: up }
    }

    /// A report under a fresh random identifier (see `with_uuid`); `None`
    /// where the operating system's random source fails.
    pub fn measured(cpu: CpuInfo, mem: MemInfo, net: NetInfo, uptime: &Vec<String>) -> (r: Option<
        Resources,
    >)
        requires
            field_at(uptime.deep_view(), 0, 0) is Some,
        ensures
            r matches Some(res) ==> {
                &&& is_v4_uuid_text(res.uuid@)
                &&& res.cpu == cpu
                &&& res.mem == mem
                &&& res.net == net
                &&& field_at(uptime.deep_view(), 0, 0) == Some(res.uptime@)
            },
    {
        match random_uuid() {
            Some(id) => Some(Resources::with_uuid(id, cpu, mem, net, uptime)),
            None => None,
        }
    }

    /// The update to send after a new measurement: the identifier, CPU and
    /// memory usage, free and available memory and network state of this
    /// report, with the uptime in `/proc/uptime`.
    pub fn update_stat(&self, uptime: &Vec<String>) -> (u: StatUpdate)
        requires
            field_at(uptime.deep_view(), 0, 0) is Some,
        ensures
            u.uuid == self.uuid,
            u.cpu_usage == self.cpu.usage,
            u.mem_usage == self.mem.usage,
            u.mem_free == self.mem.free,
            u.mem_available == self.mem.available,
            u.net == self.net,
            field_at(uptime.deep_view(), 0, 0) == Some(u.uptime@),
    {
        let up = line_field(uptime, 0, 0).unwrap();
        StatUpdate {
            uuid: self.uuid.clone(),
            cpu_usage: self.cpu.usage.clone(),
            mem_usage: (self.mem.usage.0.clone(), self.mem.usage.1.clone()),
            mem_free: self.mem.free.clone(),
            mem_available: self.mem.available.clone(),
            net: self.net.duplicate(),
            uptime: up,
        }
    }

    /// First step of a refresh: a new processor time sample; returns the
    /// (total, idle) differences to the previous one. Only the sample
    /// changes.
    pub fn advance_cpu(&mut self, now: (i64, i64)) -> (r: (i64, i64))
        requires
            pair_delta_spec(old(self).cpu.cputime, now) is Some,
        ensures
            Some(r) == pair_delta_spec(old(self).cpu.cputime, now),
            final(self).cpu.cputime == now,
            final(self).cpu.usage == old(self).cpu.usage,
            final(self).mem == old(self).mem,
            final(self).net == old(self).net,
            keeps_identity(*old(self), *final(self)),
    {
        self.cpu.advance(now)
    }

    /// Second step of a refresh: the new processor usage, memory usage,
    /// free and available memory, and network interface and rates. The
    /// identifier, uptime, processor model and sample and the total memory
    /// stay.
    pub fn refresh(
        &mut self,
        cpu_usage: String,
        mem_usage: (String, String),
        mem_free: String,
        mem_available: String,
        interface: String,
        speed: (String, String),
    )
        ensures
            final(self).cpu.usage == cpu_usage,
            final(self).mem.usage == mem_usage,
            final(self).mem.free == mem_free,
            final(self).mem.available == mem_available,
            final(self).net.current_interface == interface,
            final(self).net.speed == speed,
            final(self).cpu.cputime == old(self).cpu.cputime,
            keeps_identity(*old(self), *final(self)),
    {
        self.cpu.usage = cpu_usage;
        self.mem.usage = mem_usage;
        self.mem.free = mem_free;
        self.mem.available = mem_available;
        self.net.current_interface = interface;
        self.net.speed = speed;
    }

    /// Takes the outputs of the memory-limit, CPU-usage and memory-usage
    /// scripts: the total memory becomes the first output without its
    /// surrounding line feeds, the CPU usage and the second memory usage
    /// the first five characters of the other two so trimmed.
    pub fn apply_script_readings(&mut self, mem_total: &str, cpu_use: &str, mem_use: &str)
        ensures
            final(self).mem.total@ == trim_newlines_spec(mem_total@),
            final(self).cpu.usage@ == take_chars_spec(trim_newlines_spec(cpu_use@), 5),
            final(self).mem.usage.1@ == take_chars_spec(trim_newlines_spec(mem_use@), 5),
            final(self).mem.usage.0 == old(self).mem.usage.0,
            final(self).mem.free == old(self).mem.free,
            final(self).mem.available == old(self).mem.available,
            final(self).cpu.model == old(self).cpu.model,
            final(self).cpu.cputime == old(self).cpu.cputime,
            final(self).uuid == old(self).uuid,
            final(self).net == old(self).net,
            final(self).uptime == old(self).uptime,
    {
        self.mem.total = trim_newlines(mem_total);
        let c = trim_newlines(cpu_use);
        self.cpu.usage = take_chars(c.as_str(), 5);
        let m = trim_newlines(mem_use);
        self.mem.usage.1 = take_chars(m.as_str(), 5);
    }
}

impl StatUpdate {
    /// Takes the outputs of the CPU-usage and memory-usage scripts: the CPU
    /// usage and the second memory usage become their first five characters
    /// after the surrounding line feeds are removed.
    pub fn apply_script_readings(&mut self, cpu_use: &str, mem_use: &str)
        ensures
            final(self).cpu_usage@ == take_chars_spec(trim_newlines_spec(cpu_use@), 5),
            final(self).mem_usage.1@ == take_chars_spec(trim_newlines_spec(mem_use@), 5),
            final(self).mem_usage.0 == old(self).mem_usage.0,
            final(self).uuid == old(self).uuid,
            final(self).mem_free == old(self).mem_free,
            final(self).mem_available == old(self).mem_available,
            final(self).net == old(self).net,
            final(self).uptime == old(self).uptime,
    {
        let c = trim_newlines(cpu_use);
        self.cpu_usage = take_chars(c.as_str(), 5);
        let m = trim_newlines(mem_use);
        self.mem_usage.1 = take_chars(m.as_str(), 5);
    }
}

} // verus!
