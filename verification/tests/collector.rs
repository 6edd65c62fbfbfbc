use edr::collector::ebpf::{
    build_edr_event, build_edr_event_at, decode_raw_event, stub_event, RAW_EVENT_SIZE,
};
use edr::collector::fanotify::{fd_link, file_event, file_event_at, mask_to_operation, Mask};
use edr::collector::hasher::{check_size, sha256_file, sha256_hex, MAX_HASH_SIZE};
use edr::collector::network_proc::{
    connection_event, connection_event_at, inode_to_pid, is_scan, new_connections, parse_hex_addr,
    parse_proc_net_tcp, ConnectionWatch, ProcDir, ScanDetector, TcpEntry,
};
use edr::collector::proc_enricher::{
    find_username, join_arguments, Environ, ProcEnricher, ProcInfo, ProcSnapshot,
};
use edr::common::{EdrEvent, FileOperation, NetworkProtocol};
use edr::time::Timestamp;

const TCP: &str = "  sl  local_address rem_address   st tx_queue rx_queue tr tm->when retrnsmt   uid  timeout inode
   0: 0100007F:0050 0200A8C0:01BB 01 00000000:00000000 00:00000000 00000000  1000        0 4242 1 0000000000000000 20 4 30 10 -1
   1: 00000000:0016 00000000:0000 0A 00000000:00000000 00:00000000 00000000     0        0 17 1 0000000000000000 100 0 0 10 0
   2: 0100007F:0051 0200A8C0:01BB 01 00000000:00000000 00:00000000 00000000  1000        0 what 1 0000000000000000 20 4 30 10 -1
   3: short line 01
   4: 0100007F 0200A8C0:01BB 01 00000000:00000000 00:00000000 00000000  1000        0 4242 1 0000000000000000 20 4 30 10 -1
";

fn stamp() -> Timestamp {
    Timestamp::new(1_700_000_000, 0).unwrap()
}

fn report(kind: u32) -> Vec<u8> {
    let mut bytes = vec![0u8; RAW_EVENT_SIZE];
    let mut put = |at: usize, field: &[u8]| bytes[at..at + field.len()].copy_from_slice(field);
    put(0, &kind.to_le_bytes());
    put(4, &10u32.to_le_bytes());
    put(8, &11u32.to_le_bytes());
    put(12, &12u32.to_le_bytes());
    put(16, &13u32.to_le_bytes());
    put(24, &0x0102_0304_0506_0708u64.to_le_bytes());
    put(32, b"/bin/x\0rest");
    put(288, b"-a -b");
    put(544, b"/etc/passwd");
    put(672, &0xC0A8_0102u32.to_le_bytes());
    put(676, &443u16.to_le_bytes());
    put(678, &50000u16.to_le_bytes());
    put(680, &(-9i32).to_le_bytes());
    put(684, &3u32.to_le_bytes());
    bytes
}

#[test]
fn reports_are_decoded() {
    let raw = decode_raw_event(&report(0)).unwrap();
    assert_eq!((raw.event_type, raw.pid, raw.ppid, raw.uid, raw.gid), (0, 10, 11, 12, 13));
    assert_eq!(raw.timestamp_ns, 0x0102_0304_0506_0708);
    assert_eq!(raw.exe_path_str(), "/bin/x");
    assert_eq!(raw.args_str(), "-a -b");
    assert_eq!(raw.filename_str(), "/etc/passwd");
    assert_eq!((raw.dst_ip, raw.dst_port, raw.src_port), (0xC0A8_0102, 443, 50000));
    assert_eq!((raw.exit_code, raw.file_op), (-9, 3));
    assert!(decode_raw_event(&report(0)[1..]).is_none());
    assert!(decode_raw_event(&[]).is_none());
    let mut longer = report(0);
    longer.push(1);
    assert!(decode_raw_event(&longer).is_some());
}

#[test]
fn events_of_reports() {
    let event = |kind| {
        let raw = decode_raw_event(&report(kind)).unwrap();
        build_edr_event_at(&raw, ProcInfo::default(), Some("hash".into()), stamp())
    };
    match event(0) {
        Some(EdrEvent::Process(e)) => {
            assert_eq!((e.pid, e.ppid, e.uid, e.gid), (10, 11, 12, 13));
            assert_eq!((e.exe_path.as_str(), e.args.as_str()), ("/bin/x", "-a -b"));
            assert_eq!((e.cwd.as_str(), e.username.as_str()), ("", "12"));
            assert_eq!(e.sha256.as_deref(), Some("hash"));
            assert_eq!(e.timestamp, stamp());
        }
        other => panic!("{:?}", other),
    }
    match event(1) {
        Some(EdrEvent::Fork(e)) => assert_eq!((e.parent_pid, e.child_pid), (11, 10)),
        other => panic!("{:?}", other),
    }
    match event(2) {
        Some(EdrEvent::Exit(e)) => assert_eq!((e.pid, e.exit_code, e.lifetime_ms), (10, -9, 0)),
        other => panic!("{:?}", other),
    }
    match event(3) {
        Some(EdrEvent::File(e)) => {
            assert_eq!((e.pid, e.path.as_str()), (10, "/etc/passwd"));
            assert_eq!(e.operation, FileOperation::Write);
            assert_eq!(e.sha256, None);
        }
        other => panic!("{:?}", other),
    }
    match event(4) {
        Some(EdrEvent::Network(e)) => {
            assert_eq!((e.src_ip.as_str(), e.src_port), ("0.0.0.0", 50000));
            assert_eq!((e.dst_ip.as_str(), e.dst_port), ("192.168.1.2", 443));
            assert_eq!(e.protocol, NetworkProtocol::Tcp);
        }
        other => panic!("{:?}", other),
    }
    assert!(event(5).is_none());
}

#[test]
fn reports_are_completed_from_proc() {
    let raw = decode_raw_event(&report(0)).unwrap();
    let mut info = ProcInfo::default();
    info.ppid = Some(77);
    info.cwd = Some("/home".into());
    info.username = Some("alice".into());
    match build_edr_event(&raw, info, None) {
        Some(EdrEvent::Process(e)) => {
            assert_eq!((e.ppid, e.cwd.as_str(), e.username.as_str()), (77, "/home", "alice"));
            assert_eq!(e.sha256, None);
        }
        other => panic!("{:?}", other),
    }
}

#[test]
fn made_up_events() {
    match stub_event(3, stamp()) {
        EdrEvent::Network(e) => {
            assert_eq!((e.pid, e.dst_ip.as_str(), e.dst_port), (1237, "1.2.3.4", 443))
        }
        other => panic!("{:?}", other),
    }
    match stub_event(5, stamp()) {
        EdrEvent::Process(e) => assert_eq!((e.pid, e.exe_path.as_str()), (1005, "/tmp/malicious")),
        other => panic!("{:?}", other),
    }
    match stub_event(1, stamp()) {
        EdrEvent::Process(e) => assert_eq!((e.pid, e.exe_path.as_str()), (1001, "/usr/bin/bash")),
        other => panic!("{:?}", other),
    }
}

#[test]
fn notifications() {
    let none = Mask { create: false, delete: false, close_write: false, modify: false, open: false };
    assert_eq!(mask_to_operation(none), FileOperation::Unknown(0));
    assert_eq!(mask_to_operation(Mask { open: true, ..none }), FileOperation::Open);
    assert_eq!(mask_to_operation(Mask { open: true, modify: true, ..none }), FileOperation::Write);
    assert_eq!(mask_to_operation(Mask { close_write: true, ..none }), FileOperation::Write);
    assert_eq!(
        mask_to_operation(Mask { delete: true, modify: true, ..none }),
        FileOperation::Delete
    );
    assert_eq!(
        mask_to_operation(Mask { create: true, delete: true, ..none }),
        FileOperation::Create
    );
    assert_eq!(fd_link(7), "/proc/self/fd/7");
    match file_event_at(5, None, Mask { open: true, ..none }, stamp()) {
        EdrEvent::File(e) => {
            assert_eq!((e.pid, e.path.as_str()), (5, "<inconnu>"));
            assert_eq!(e.timestamp, stamp());
        }
        other => panic!("{:?}", other),
    }
    match file_event(5, Some("/a".into()), none) {
        EdrEvent::File(e) => assert_eq!(e.path, "/a"),
        other => panic!("{:?}", other),
    }
}

#[test]
fn hashes() {
    assert_eq!(
        sha256_hex(b""),
        "e3b0c44298fc1c149afbf4c8996fb92427ae41e4649b934ca495991b7852b855"
    );
    assert_eq!(
        sha256_file(3, b"abc").unwrap(),
        "ba7816bf8f01cfea414140de5dae2223b00361a396177a9cb410ff61f20015ad"
    );
    assert!(check_size(MAX_HASH_SIZE).is_ok());
    let e = sha256_file(MAX_HASH_SIZE + 1, b"").unwrap_err();
    assert_eq!(e.size, 52_428_801);
    assert_eq!(e.message(), "Fichier trop grand pour être haché (52428801 octets)");
}

#[test]
fn addresses_are_read() {
    assert_eq!(parse_hex_addr("0100007F:0050"), Some(("127.0.0.1".into(), 80)));
    assert_eq!(parse_hex_addr("FFFFFFFF:FFFF"), Some(("255.255.255.255".into(), 65535)));
    for (a, b, c, d, port) in [(192u8, 168u8, 1u8, 10u8, 443u16), (0, 0, 0, 0, 0), (10, 11, 160, 255, 4096)] {
        assert_eq!(
            parse_hex_addr(&format!("{:02X}{:02X}{:02X}{:02X}:{:04X}", d, c, b, a, port)),
            Some((format!("{}.{}.{}.{}", a, b, c, d), port))
        );
    }
    for bad in ["", ":", "0100007F", "0100007F:0050:1", "0100007G:0050", "0100007F:10000"] {
        assert_eq!(parse_hex_addr(bad), None, "{}", bad);
    }
}

#[test]
fn connections_are_read() {
    let found = parse_proc_net_tcp(TCP);
    assert_eq!(found.len(), 2);
    assert_eq!((found[0].local_addr.as_str(), found[0].local_port), ("127.0.0.1", 80));
    assert_eq!((found[0].remote_addr.as_str(), found[0].remote_port), ("192.168.0.2", 443));
    assert_eq!(found[0].inode, 4242);
    assert_eq!((found[1].local_port, found[1].inode), (81, 0));
    assert!(parse_proc_net_tcp("").is_empty());
    assert!(parse_proc_net_tcp(TCP.lines().next().unwrap()).is_empty());
}

#[test]
fn only_new_connections_are_reported() {
    let current = parse_proc_net_tcp(TCP);
    assert_eq!(new_connections(&vec![], &current).len(), 2);
    assert!(new_connections(&current, &current).is_empty());
    let known = vec![current[0].clone()];
    let twice: Vec<TcpEntry> = current.iter().chain(current.iter()).cloned().collect();
    let fresh = new_connections(&known, &twice);
    assert_eq!(fresh.len(), 1);
    assert_eq!(fresh[0].local_port, 81);
    match connection_event_at(&fresh[0], 9, stamp()) {
        EdrEvent::Network(e) => {
            assert_eq!((e.pid, e.src_ip.as_str(), e.src_port), (9, "127.0.0.1", 81));
            assert_eq!((e.dst_ip.as_str(), e.dst_port), ("192.168.0.2", 443));
            assert_eq!(e.timestamp, stamp());
        }
        other => panic!("{:?}", other),
    }
    assert_eq!(connection_event(&fresh[0], 9).pid(), 9);
}

#[test]
fn scans_are_counted_within_ten_seconds() {
    let second: u128 = 1_000_000_000;
    let mut detector = ScanDetector::new();
    for i in 0..50usize {
        assert_eq!(detector.record(1, second), i + 1);
    }
    assert!(!is_scan(50, 50));
    assert_eq!(detector.record(1, 11 * second), 51);
    assert!(is_scan(51, 50));
    assert!(is_scan(u32::MAX as usize + 1, 50));
    assert_eq!(detector.count_at(1, 11 * second), 52);
    assert_eq!(detector.count_at(1, 11 * second + 1), 2);
    assert_eq!(detector.count_at(3, 0), 1);
    assert_eq!(detector.record(1, 11 * second + 1), 2);
    assert_eq!(detector.record(2, second), 1);
}

#[test]
fn sockets_have_owners() {
    let dir = |name: &str, links: &[&str]| ProcDir {
        name: name.into(),
        links: links.iter().map(|l| l.to_string()).collect(),
    };
    let dirs = vec![
        dir("self", &["socket:[7]"]),
        dir("12", &["/dev/null", "socket:[8]"]),
        dir("13", &["socket:[7]", "pipe:[9]"]),
        dir("14", &["socket:[7]"]),
    ];
    assert_eq!(inode_to_pid(&dirs, 7), Some(13));
    assert_eq!(inode_to_pid(&dirs, 8), Some(12));
    assert_eq!(inode_to_pid(&dirs, 9), None);
    assert_eq!(inode_to_pid(&vec![], 7), None);
}

const PASSWD: &str = "root:x:0:0:root:/root:/bin/bash\nbad line\nalice:x:1000:1000::/home/alice:/bin/sh\n";

fn snapshot() -> ProcSnapshot {
    ProcSnapshot {
        exists: true,
        exe: Some("/bin/x".into()),
        cmdline: Some(b"/bin/x\0-a\0".to_vec()),
        cwd: Some("/home".into()),
        status: Some("Name:\tx\nPPid:\t7\nUid:\t1000\t1000\t1000\t1000\n".into()),
        environ: Some(b"HOME=/home\0LD_PRELOAD=/tmp/x.so\0".to_vec()),
    }
}

#[test]
fn processes_are_described() {
    let mut enricher = ProcEnricher::new();
    assert!(enricher.needs_database(&snapshot()));
    let info = enricher.get_proc_info(snapshot(), &Some(PASSWD.into()));
    assert_eq!(info.exe.as_deref(), Some("/bin/x"));
    assert_eq!(info.cmdline.as_deref(), Some("/bin/x -a"));
    assert_eq!(info.cwd.as_deref(), Some("/home"));
    assert_eq!((info.ppid, info.uid), (Some(7), Some(1000)));
    assert_eq!(info.username.as_deref(), Some("alice"));
    assert_eq!(info.environ.get("HOME").as_deref(), Some("/home"));
    assert!(info.environ.contains_key("LD_PRELOAD"));
    assert!(enricher.has_ld_preload(&snapshot().environ));
    assert!(!enricher.has_ld_preload(&None));
    assert!(!enricher.has_ld_preload(&Some(b"PATH=LD_PRELOAD\0".to_vec())));
    assert!(enricher.has_ld_preload(&Some(b"A=\xff\0LD_PRELOAD=/\xff\xfe.so\0".to_vec())));
    assert!(!enricher.has_ld_preload(&Some(b"\xffLD_PRELOAD=x\0LD_PRELOAD\xff=x\0".to_vec())));
    assert!(!enricher.has_ld_preload(&Some(b"LD_PRELOAD\0".to_vec())));
    // The name is remembered.
    assert!(!enricher.needs_database(&snapshot()));
    assert_eq!(enricher.uid_to_username(1000, &None).as_deref(), Some("alice"));
    assert_eq!(enricher.uid_to_username(0, &None), None);
    assert_eq!(enricher.uid_to_username(0, &Some(PASSWD.into())).as_deref(), Some("root"));
}

#[test]
fn missing_processes_are_blank() {
    let mut gone = snapshot();
    gone.exists = false;
    let mut enricher = ProcEnricher::new();
    assert!(!enricher.needs_database(&gone));
    let info = enricher.get_proc_info(gone, &Some(PASSWD.into()));
    assert_eq!((info.exe, info.cmdline, info.cwd), (None, None, None));
    assert_eq!((info.ppid, info.uid, info.username), (None, None, None));
    assert!(!info.environ.contains_key("HOME"));
}

#[test]
fn users_and_arguments() {
    assert_eq!(find_username(PASSWD, 1000).as_deref(), Some("alice"));
    assert_eq!(find_username(PASSWD, 1), None);
    assert_eq!(find_username("", 0), None);
    assert_eq!(join_arguments("a\0b\0\0"), "a b");
    let env = Environ::new().add_setting("A=1").add_setting("B=2=3").add_setting("A=4");
    assert_eq!(env.get("A").as_deref(), Some("4"));
    assert_eq!(env.get("B").as_deref(), Some("2=3"));
    assert_eq!(env.get("C"), None);
    assert!(!Environ::new().contains_key("A"));
}

#[test]
fn connections_are_watched() {
    let second: u128 = 1_000_000_000;
    let mut watch = ConnectionWatch::new();
    let dirs = vec![ProcDir { name: "5".into(), links: vec!["socket:[4242]".into()] }];
    let found = watch.poll(TCP, &dirs, second, 0);
    assert_eq!(found.len(), 2);
    assert_eq!((found[0].pid, found[0].count, found[0].scan), (5, 1, true));
    assert_eq!(found[0].entry.local_port, 80);
    assert_eq!((found[1].pid, found[1].count), (0, 1));
    assert!(watch.poll(TCP, &dirs, 2 * second, 0).is_empty());
    assert!(watch.poll("heading\n", &dirs, 3 * second, 0).is_empty());
    let again = watch.poll(TCP, &dirs, 4 * second, 2);
    assert_eq!((again[0].pid, again[0].count, again[0].scan), (5, 2, false));
    assert!(watch.poll("", &dirs, 5 * second, 0).is_empty());
    let later = watch.poll(TCP, &dirs, 12 * second, 0);
    assert_eq!((later[0].pid, later[0].count), (5, 2));
}
