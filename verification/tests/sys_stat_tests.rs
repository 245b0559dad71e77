use cbnb_node::message::NodeMessage;
use cbnb_node::sys_stat::{
    colon_field, cpu_model, delta_fits, line_field, model_readable, pair_delta, CpuInfo, MemInfo,
    NetInfo, Resources,
};

fn lines(v: &[&str]) -> Vec<String> {
    v.iter().map(|s| s.to_string()).collect()
}

fn sample_cpu() -> CpuInfo {
    CpuInfo {
        model: "GenuineIntel,6,85,Intel(R) Xeon(R)".to_string(),
        cputime: (550, 40),
        usage: "12.50".to_string(),
    }
}

fn sample_mem() -> MemInfo {
    MemInfo {
        usage: ("40.000".to_string(), "20.000".to_string()),
        total: "15.527".to_string(),
        free: "9.316".to_string(),
        available: "12.420".to_string(),
    }
}

fn sample_net() -> NetInfo {
    NetInfo {
        current_interface: "eth0".to_string(),
        speed: ("0.01000".to_string(), "0.00200".to_string()),
    }
}

fn meminfo_sample() -> Vec<String> {
    let mut v: Vec<String> = Vec::new();
    let names = [
        "MemTotal:", "MemFree:", "MemAvailable:", "Buffers:", "Cached:", "SwapCached:",
        "Active:", "Inactive:", "Active(anon):", "Inactive(anon):", "Active(file):",
        "Inactive(file):", "Unevictable:", "Mlocked:", "SwapTotal:", "SwapFree:", "Dirty:",
        "Writeback:", "AnonPages:", "Mapped:", "Shmem:", "KReclaimable:", "SReclaimable:",
    ];
    for (i, n) in names.iter().enumerate() {
        v.push(format!("{:<16}{:>8} kB", n, 1000 + i));
    }
    v
}

#[test]
fn sys_stat_run() {
    let a = lines(&["350735.47 234388.90"]);
    let v = line_field(&a, 0, 0).unwrap();
    println!("{}", v);
    assert_eq!(v, "350735.47");
}

#[test]
fn fields_of_lines() {
    let a = lines(&["a b c", "  d\te  "]);
    assert_eq!(line_field(&a, 1, 1), Some("e".to_string()));
    assert_eq!(line_field(&a, 1, 2), None);
    assert_eq!(line_field(&a, 2, 0), None);
    let c = lines(&["processor\t: 0", "vendor_id\t: GenuineIntel", "a:b:c"]);
    assert_eq!(colon_field(&c, 1, 1), Some("GenuineIntel".to_string()));
    assert_eq!(colon_field(&c, 2, 2), Some("c".to_string()));
    assert_eq!(colon_field(&c, 1, 2), None);
    assert_eq!(colon_field(&c, 3, 0), None);
}

#[test]
fn cpu_time_from_stat() {
    let stat = lines(&["cpu  10 20 30 40 50 60 70 80 90 100", "cpu0 1 2 3 4"]);
    assert!(CpuInfo::stat_readable(&stat));
    assert_eq!(CpuInfo::time(&stat), (550, 40));
    assert!(!CpuInfo::stat_readable(&lines(&["cpu 1 2 3"])));
    assert!(!CpuInfo::stat_readable(&lines(&["cpu 1 2 x 4 5"])));
    assert!(!CpuInfo::stat_readable(&lines(&[])));
    assert!(!CpuInfo::stat_readable(&lines(&[""])));
    assert!(!CpuInfo::stat_readable(&lines(&["cpu 9223372036854775807 1 0 0 0"])));
    assert_eq!(CpuInfo::time(&lines(&["cpu 9223372036854775807 -1 0 0 0"])), (i64::MAX - 1, 0));
    assert_eq!(CpuInfo::time(&lines(&["cpu -3 -4 0 7"])), (0, 7));
}

#[test]
fn cpu_model_and_usage_deltas() {
    let info = lines(&[
        "processor\t: 0",
        "vendor_id\t: GenuineIntel",
        "cpu family\t: 6",
        "model\t\t: 85",
        "model name\t: Intel(R) Xeon(R) CPU @ 2.00GHz",
        "stepping\t: 3",
    ]);
    assert!(model_readable(&info));
    assert_eq!(cpu_model(&info), "GenuineIntel,6,85,Intel(R) Xeon(R) CPU @ 2.00GHz");
    assert!(!model_readable(&lines(&["processor : 0", "vendor_id : x"])));
    let c = CpuInfo::from_readings(&info, (550, 40), "1.00".to_string());
    assert_eq!(c.model, "GenuineIntel,6,85,Intel(R) Xeon(R) CPU @ 2.00GHz");
    assert_eq!(c.cputime, (550, 40));
    assert_eq!(c.usage, "1.00");
    assert!(delta_fits((550, 40), (650, 70)));
    assert_eq!(pair_delta((550, 40), (650, 70)), (100, 30));
    assert!(!delta_fits((i64::MIN, 0), (1, 0)));
    assert!(!delta_fits((0, -1), (0, i64::MAX)));
    let mut cpu = sample_cpu();
    assert_eq!(cpu.advance((650, 70)), (100, 30));
    assert_eq!(cpu.cputime, (650, 70));
    assert_eq!(cpu.usage, "12.50");
    assert!(!delta_fits(cpu.cputime, (i64::MIN, 70)));
}

#[test]
fn meminfo_readings() {
    assert!(MemInfo::readable(&meminfo_sample()));
    let m = MemInfo::readings(&meminfo_sample());
    assert_eq!(m.total, "1000");
    assert_eq!(m.free, "1001");
    assert_eq!(m.available, "1002");
    assert_eq!(m.buffers, "1003");
    assert_eq!(m.cached, "1004");
    assert_eq!(m.shmem, "1020");
    assert_eq!(m.sreclaimable, "1022");
    let short: Vec<String> = meminfo_sample().into_iter().take(22).collect();
    assert!(!MemInfo::readable(&short));
}

#[test]
fn default_route_interface() {
    let route = lines(&[
        "Iface\tDestination\tGateway \tFlags\tRefCnt\tUse\tMetric\tMask",
        "eth0\t00000000\t0102A8C0\t0003\t0\t0\t100\t00000000",
        "eth0\t0002A8C0\t00000000\t0001\t0\t0\t100\t00FFFFFF",
        "wlan0\t00000000\t0101A8C0\t0003\t0\t0\t600\t00000000",
        "wlan0\t0001A8C0\t00000000\t0001\t0\t0\t600\t00FFFFFF",
    ]);
    // the header's third field is "Gateway", which is not all zeros
    assert!(NetInfo::has_gateway_route(&route));
    assert_eq!(NetInfo::current_interface(&route), "wlan0");
    assert_eq!(NetInfo::current_interface(&route[..1].to_vec()), "Iface");
    let none = lines(&["lo\t0000007F\t00000000\t0001", "x y"]);
    assert!(!NetInfo::has_gateway_route(&none));
    assert!(!NetInfo::has_gateway_route(&lines(&[])));
}

#[test]
fn interface_counters() {
    let dev = lines(&[
        "Inter-|   Receive                                                |  Transmit",
        " face |bytes    packets errs drop fifo frame compressed multicast|bytes    packets errs drop fifo colls carrier compressed",
        "    lo: 1000 10 0 0 0 0 0 0 1000 10 0 0 0 0 0 0",
        "  eth0: 123456 789 0 0 0 0 0 0 654321 987 0 0 0 0 0 0",
    ]);
    // field 10 is the eleventh field: the transmitted packets in the kernel's layout
    assert_eq!(NetInfo::counters(&dev, "eth0"), (123456, 987));
    assert_eq!(NetInfo::counters(&dev, "lo"), (1000, 10));
    assert!(NetInfo::counters_readable(&dev, "eth0"));
    assert!(!NetInfo::counters_readable(&dev, "wlan0"));
    assert!(!NetInfo::counters_readable(&lines(&["eth0:123 2 3 4 5 6 7 8 9 10 11"]), "eth0"));
    assert!(!NetInfo::counters_readable(&lines(&["eth0: 1 2 3"]), "eth0"));
    assert!(!NetInfo::counters_readable(&lines(&["eth0: x 2 3 4 5 6 7 8 9 10 11"]), "eth0"));
}

#[test]
fn resources_reports() {
    let uptime = lines(&["350735.47 234388.90"]);
    let r = Resources::with_uuid("id-1".to_string(), sample_cpu(), sample_mem(), sample_net(), &uptime);
    assert_eq!(r.uuid, "id-1");
    assert_eq!(r.uptime, "350735.47");
    assert!(line_field(&lines(&[]), 0, 0).is_none());
    let u = r.update_stat(&lines(&["400000.00 1.0"]));
    assert_eq!(u.uuid, "id-1");
    assert_eq!(u.cpu_usage, "12.50");
    assert_eq!(u.mem_usage, ("40.000".to_string(), "20.000".to_string()));
    assert_eq!(u.mem_free, "9.316");
    assert_eq!(u.mem_available, "12.420");
    assert_eq!(u.net.current_interface, "eth0");
    assert_eq!(u.uptime, "400000.00");
    assert!(line_field(&lines(&[""]), 0, 0).is_none());
}

#[test]
fn random_identifier_shape() {
    let uptime = lines(&["1.0 2.0"]);
    let a = Resources::measured(sample_cpu(), sample_mem(), sample_net(), &uptime).unwrap();
    let b = Resources::measured(sample_cpu(), sample_mem(), sample_net(), &uptime).unwrap();
    assert_ne!(a.uuid, b.uuid);
    let chars: Vec<char> = a.uuid.chars().collect();
    assert_eq!(chars.len(), 36);
    for (i, c) in chars.iter().enumerate() {
        if i == 8 || i == 13 || i == 18 || i == 23 {
            assert_eq!(*c, '-');
        } else {
            assert!(c.is_ascii_hexdigit() && !c.is_ascii_uppercase());
        }
    }
    assert_eq!(chars[14], '4');
    assert!("89ab".contains(chars[19]));
}

#[test]
fn script_readings() {
    let uptime = lines(&["1.0 2.0"]);
    let mut r = Resources::with_uuid("id".to_string(), sample_cpu(), sample_mem(), sample_net(), &uptime);
    r.apply_script_readings("16000000\n", "\n3.1415926\n", "45.678901\n");
    assert_eq!(r.mem.total, "16000000");
    assert_eq!(r.cpu.usage, "3.141");
    assert_eq!(r.mem.usage.1, "45.67");
    assert_eq!(r.mem.usage.0, "40.000");
    let mut u = r.update_stat(&uptime);
    u.apply_script_readings("7.5\n", "99.999999");
    assert_eq!(u.cpu_usage, "7.5");
    assert_eq!(u.mem_usage.1, "99.99");
}

#[test]
fn message_run() {
    // the resource report is framed as the content of a registration
    let stat_json = "{\"uuid\":\"id\",\"uptime\":\"1.0\"}";
    let msg = NodeMessage::register(stat_json);
    println!("{}", msg);
    assert_eq!(
        msg,
        "{\"Node\":{\"uuid\":\"Node_uuid\",\"msg_type\":\"REGISTER\",\"content\":\"{\\\"uuid\\\":\\\"id\\\",\\\"uptime\\\":\\\"1.0\\\"}\"}}"
    );
}

#[test]
fn refresh_keeps_identity() {
    let uptime = lines(&["1.0 2.0"]);
    let mut r = Resources::with_uuid("id-9".to_string(), sample_cpu(), sample_mem(), sample_net(), &uptime);
    assert_eq!(r.advance_cpu((600, 50)), (50, 10));
    r.refresh(
        "20.00".to_string(),
        ("1.000".to_string(), "0.500".to_string()),
        "8.000".to_string(),
        "9.000".to_string(),
        "wlan0".to_string(),
        ("1.00000".to_string(), "2.00000".to_string()),
    );
    assert_eq!(r.uuid, "id-9");
    assert_eq!(r.uptime, "1.0");
    assert_eq!(r.cpu.model, "GenuineIntel,6,85,Intel(R) Xeon(R)");
    assert_eq!(r.mem.total, "15.527");
    assert_eq!(r.cpu.cputime, (600, 50));
    assert_eq!(r.cpu.usage, "20.00");
    assert_eq!(r.mem.free, "8.000");
    assert_eq!(r.net.current_interface, "wlan0");
}
