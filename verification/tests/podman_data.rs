use podman_tui::podman::{
    count_cpu_cores, extract_name, parse_u64, read_memory, read_network, system_info_from,
    ContainerInfo, NamesField, SwapInfo, SystemInfo,
};
use podman_tui::text::to_chars;

#[test]
fn names_field() {
    assert_eq!(extract_name(Some(NamesField::One("web".to_string()))), "web");
    assert_eq!(
        extract_name(Some(NamesField::Many(vec!["a".to_string(), "b".to_string()]))),
        "a"
    );
    assert_eq!(extract_name(Some(NamesField::Many(vec![]))), "");
    assert_eq!(extract_name(None), "");
}

#[test]
fn container_from_raw_fields() {
    let c = ContainerInfo::from_raw(
        Some("abc".to_string()),
        Some(NamesField::Many(vec!["db".to_string()])),
        None,
        Some("Up 2 hours".to_string()),
        Some("running".to_string()),
    );
    assert_eq!(c.id, "abc");
    assert_eq!(c.name, "db");
    assert_eq!(c.image, "");
    assert_eq!(c.status, "Up 2 hours");
    assert_eq!(c.state, "running");
}

#[test]
fn u64_parsing() {
    assert_eq!(parse_u64(&to_chars("0")), Some(0));
    assert_eq!(parse_u64(&to_chars("+42")), Some(42));
    assert_eq!(parse_u64(&to_chars("18446744073709551615")), Some(u64::MAX));
    assert_eq!(parse_u64(&to_chars("18446744073709551616")), None);
    assert_eq!(parse_u64(&to_chars("")), None);
    assert_eq!(parse_u64(&to_chars("+")), None);
    assert_eq!(parse_u64(&to_chars("-1")), None);
    assert_eq!(parse_u64(&to_chars("12a")), None);
    assert_eq!(parse_u64(&to_chars(" 1")), None);
    for s in ["0", "7", "+9", "1234567890", "99999999999999999999", "x", "+-1"] {
        assert_eq!(parse_u64(&to_chars(s)), s.parse::<u64>().ok(), "{}", s);
    }
}

#[test]
fn cpu_cores() {
    let info = "processor\t: 0\nmodel name\t: x\n\nprocessor\t: 1\nflags\t: y\n";
    assert_eq!(count_cpu_cores(Some(info)), 2);
    assert_eq!(count_cpu_cores(Some("")), 0);
    assert_eq!(count_cpu_cores(None), 1);
}

#[test]
fn meminfo() {
    let info = "MemTotal:       16000000 kB\nMemFree:         1000 kB\nMemAvailable:    6000000 kB\nSwapTotal:       2000000 kB\nSwapFree:        1500000 kB\n";
    let (total, used, swap) = read_memory(Some(info));
    assert_eq!(total, 16000000 * 1024);
    assert_eq!(used, 10000000 * 1024);
    assert_eq!(swap, SwapInfo { total_bytes: 2000000 * 1024, used_bytes: 500000 * 1024 });
    // Lines without a unit are not read.
    let (total, used, _) = read_memory(Some("MemTotal: 100\nMemAvailable: 50\n"));
    assert_eq!((total, used), (0, 0));
    // Available above total counts as nothing used.
    let (total, used, _) = read_memory(Some("MemTotal: 1 kB\nMemAvailable: 2 kB\n"));
    assert_eq!((total, used), (1024, 0));
    // An unreadable swap value counts as zero, an unreadable memory value is ignored.
    let (total, _, swap) =
        read_memory(Some("MemTotal: 4 kB\nMemTotal: x kB\nSwapTotal: 8 kB\nSwapTotal: y kB\n"));
    assert_eq!(total, 4096);
    assert_eq!(swap.total_bytes, 0);
    assert_eq!(read_memory(None), (0, 0, SwapInfo { total_bytes: 0, used_bytes: 0 }));
}

const NET_DEV: &str = "Inter-|   Receive                                                |  Transmit\n face |bytes    packets errs drop fifo frame compressed multicast|bytes    packets errs drop fifo colls carrier compressed\n    lo: 1000      10    0    0    0     0          0         0     1000      10    0    0    0     0       0          0\n  eth0: 5000      50    0    0    0     0          0         0     7000      70    0    0    0     0       0          0\n wlan0: 300       3    0    0    0     0          0         0     400       4    0    0    0     0       0          0\n short: 1 2 3\n";

#[test]
fn network_totals() {
    assert_eq!(read_network(Some(NET_DEV)), (5300, 7400));
    assert_eq!(read_network(Some("a\nb\n")), (0, 0));
    assert_eq!(read_network(None), (0, 0));
}

#[test]
fn system_info_assembly() {
    let sys = system_info_from(
        Some("processor : 0\n"),
        Some("MemTotal: 10 kB\nMemAvailable: 4 kB\n"),
        Some(NET_DEV),
    );
    assert_eq!(
        sys,
        SystemInfo {
            cpu_cores: 1,
            total_mem_bytes: 10240,
            used_mem_bytes: 6144,
            swap: SwapInfo { total_bytes: 0, used_bytes: 0 },
            net_rx_bytes: 5300,
            net_tx_bytes: 7400,
        }
    );
    assert_eq!(SystemInfo::default().cpu_cores, 0);
}
