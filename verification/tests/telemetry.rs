use mso::telemetry::{io_bytes, resident_bytes, stat_ticks, listen_ports, CpuTracker, apply_sample};
use mso::protocol::{ManagedProcess, ProcessStatus, ProcessTelemetry};

#[test]
fn io_bytes_adds_read_and_written() {
    assert_eq!(io_bytes("rchar: 100\nwchar: 50\nsyscr: 7\n"), Some(150));
    assert_eq!(io_bytes("syscr: 7\nread_bytes: 4096\n"), Some(0));
    assert_eq!(io_bytes(""), Some(0));
}

#[test]
fn io_bytes_reads_unparsable_values_as_zero() {
    assert_eq!(io_bytes("rchar: abc\nwchar:  20 \n"), Some(20));
    assert_eq!(io_bytes("rchar: +5\r\nwchar: 1\n"), Some(6));
    assert_eq!(io_bytes("rchar:100\n"), Some(0));
}

#[test]
fn io_bytes_overflow_is_reported() {
    assert_eq!(io_bytes("rchar: 18446744073709551615\nwchar: 1\n"), None);
    assert_eq!(io_bytes("rchar: 18446744073709551615\nwchar: 0\n"), Some(u64::MAX));
    assert_eq!(io_bytes("rchar: 18446744073709551616\n"), Some(0));
}

#[test]
fn resident_bytes_uses_second_field() {
    assert_eq!(resident_bytes("100 25 3 4 5 0 0\n", 4096), Some(25 * 4096));
    assert_eq!(resident_bytes("", 4096), Some(0));
    assert_eq!(resident_bytes("1 x", 4096), Some(0));
    assert_eq!(resident_bytes("1 18446744073709551615", 2), None);
    assert_eq!(resident_bytes("1 18446744073709551615", 1), Some(u64::MAX));
}

#[test]
fn stat_ticks_reads_fields_13_and_14() {
    let stat = "1234 (cmd) S 1 1234 1234 0 -1 4194560 100 0 0 0 7 3 0 0 20 0 1 0 100\n";
    assert_eq!(stat_ticks(stat), Some((7, 3)));
    assert_eq!(stat_ticks("1 (a) S 1 1 1 0 -1 0 0 0 0 0 7"), None);
    assert_eq!(stat_ticks("1 (a) S 1 1 1 0 -1 0 0 0 0 0 x 3"), None);
}

#[test]
fn listen_ports_takes_listening_sockets() {
    let table = "  sl  local_address rem_address   st tx_queue rx_queue tr tm->when retrnsmt   uid  timeout inode\n   \
0: 00000000:1F90 00000000:0000 0A 00000000:00000000 00:00000000 00000000  1000        0 12345 1\n   \
1: 0100007F:0277 00000000:0000 0A 00000000:00000000 00:00000000 00000000     0        0 2345 1\n   \
2: 0100007F:D431 0100007F:1F90 01 00000000:00000000 00:00000000 00000000  1000        0 3456 1\n";
    assert_eq!(listen_ports(table), vec![8080, 631]);
}

#[test]
fn listen_ports_skips_header_and_bad_lines() {
    assert_eq!(listen_ports(""), Vec::<u16>::new());
    assert_eq!(listen_ports("   0: 00000000:1F90 00000000:0000 0A\n"), Vec::<u16>::new());
    let t = "header\n 0: 00000000000000000000000000000000:0050 x 0A\n 1: nocolon y 0A\n 2: a:ZZ y 0A\n 3: a:1F90\n";
    assert_eq!(listen_ports(t), vec![80]);
}

#[test]
fn cpu_tracker_reports_deltas() {
    let mut t = CpuTracker::new();
    assert_eq!(t.sample(1, 100, 50, 1000), Some((150, 1000)));
    assert_eq!(t.sample(1, 130, 60, 3000), Some((40, 2000)));
    assert_eq!(t.sample(1, 120, 60, 2500), Some((0, 0)));
    assert_eq!(t.sample(2, 5, 5, 10), Some((10, 10)));
    assert_eq!(t.sample(3, u64::MAX, 1, 0), None);
}

#[test]
fn apply_sample_sets_figures_and_uptime() {
    let mut p = ManagedProcess::default();
    p.status = ProcessStatus::Running;
    p.started_at = 10_000;
    let t = ProcessTelemetry { ports: vec![80], cpu_percent_bits: 42, memory_bytes: 7, io_bytes: 9 };
    apply_sample(&mut p, t, 75_500);
    assert_eq!(p.ports, vec![80]);
    assert_eq!(p.cpu_percent_bits, 42);
    assert_eq!(p.memory_bytes, 7);
    assert_eq!(p.io_bytes, 9);
    assert_eq!(p.uptime_secs, 65);

    let mut q = ManagedProcess::default();
    q.status = ProcessStatus::Stopped;
    q.uptime_secs = 3;
    let t = ProcessTelemetry { ports: vec![], cpu_percent_bits: 0, memory_bytes: 0, io_bytes: 0 };
    apply_sample(&mut q, t, 0);
    assert_eq!(q.uptime_secs, 3);
}
