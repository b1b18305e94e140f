use std::collections::HashMap;
use wsup::order::{sort_processes, SortMode};
use wsup::ports::{
    assembleProcesses, connectionCountsFit, parseLsofOutput, parseNetstatOutput, parsePsOutput, portKey, PortEntry, SystemProcess,
};

fn table(entries: Vec<PortEntry>) -> HashMap<u64, PortEntry> {
    entries.into_iter().map(|e| (portKey(e.pid, e.port), e)).collect()
}

fn listed(t: HashMap<u64, PortEntry>) -> Vec<PortEntry> {
    for (k, e) in &t {
        assert_eq!(*k, portKey(e.pid, e.port));
    }
    t.into_values().collect()
}
use wsup::process::{killResult, ProcessInfo};

fn proc(pid: u32, name: &str, port: u16, cpu: u32, memory: u64, connections: u32) -> ProcessInfo {
    ProcessInfo {
        pid,
        name: name.to_string(),
        cmd: vec![],
        port,
        cpu_key: cpu,
        memory,
        connections,
        protocol: "TCP".to_string(),
    }
}

fn pids(v: &[ProcessInfo]) -> Vec<u32> {
    v.iter().map(|p| p.pid).collect()
}

#[test]
fn command_display_joins_arguments() {
    let mut p = proc(1, "node", 3000, 0, 0, 0);
    assert_eq!(p.commandDisplay(), "node");
    p.cmd = vec!["node".to_string(), "server.js".to_string(), "--port=3000".to_string()];
    assert_eq!(p.commandDisplay(), "node server.js --port=3000");
    p.cmd = vec!["x".to_string()];
    assert_eq!(p.commandDisplay(), "x");
}

#[test]
fn sort_by_port_is_stable() {
    let v = vec![proc(1, "a", 8080, 0, 0, 0), proc(2, "b", 3000, 0, 0, 0), proc(3, "c", 8080, 0, 0, 0), proc(4, "d", 22, 0, 0, 0)];
    assert_eq!(pids(&sort_processes(v.clone(), SortMode::Port, false)), vec![4, 2, 1, 3]);
    assert_eq!(pids(&sort_processes(v, SortMode::Port, true)), vec![1, 3, 2, 4]);
}

#[test]
fn sort_by_usage_descends_unless_reversed() {
    let v = vec![proc(1, "a", 1, 5, 100, 2), proc(2, "b", 2, 50, 10, 0), proc(3, "c", 3, 5, 1000, 7)];
    assert_eq!(pids(&sort_processes(v.clone(), SortMode::Cpu, false)), vec![2, 1, 3]);
    assert_eq!(pids(&sort_processes(v.clone(), SortMode::Cpu, true)), vec![1, 3, 2]);
    assert_eq!(pids(&sort_processes(v.clone(), SortMode::Memory, false)), vec![3, 1, 2]);
    assert_eq!(pids(&sort_processes(v.clone(), SortMode::Memory, true)), vec![2, 1, 3]);
    assert_eq!(pids(&sort_processes(v.clone(), SortMode::Connections, false)), vec![3, 1, 2]);
    assert_eq!(pids(&sort_processes(v, SortMode::Connections, true)), vec![2, 1, 3]);
}

#[test]
fn cpu_keys_order_as_the_shares_do() {
    let shares: [f32; 8] = [0.0, 12.5, 0.05, 3.3, 100.0, 0.1, 12.49, 3.3];
    let v: Vec<ProcessInfo> = shares.iter().enumerate().map(|(i, &c)| proc(i as u32, "p", 1, c.to_bits(), 0, 0)).collect();
    for rev in [false, true] {
        let mut by_float: Vec<(u32, f32)> = shares.iter().enumerate().map(|(i, &c)| (i as u32, c)).collect();
        by_float.sort_by(|a, b| if rev { a.1.partial_cmp(&b.1).unwrap() } else { b.1.partial_cmp(&a.1).unwrap() });
        let expected: Vec<u32> = by_float.iter().map(|x| x.0).collect();
        assert_eq!(pids(&sort_processes(v.clone(), SortMode::Cpu, rev)), expected);
    }
}

#[test]
fn sort_by_name_uses_string_order() {
    let v = vec![proc(1, "nginx", 1, 0, 0, 0), proc(2, "Node", 2, 0, 0, 0), proc(3, "apache", 3, 0, 0, 0), proc(4, "nginx", 4, 0, 0, 0)];
    assert_eq!(pids(&sort_processes(v.clone(), SortMode::Name, false)), vec![2, 3, 1, 4]);
    assert_eq!(pids(&sort_processes(v, SortMode::Name, true)), vec![1, 4, 3, 2]);
}

#[test]
fn sort_matches_std_stable_sort() {
    let names = ["zeta", "alpha", "beta", "alpha", "gamma", "beta"];
    let v: Vec<ProcessInfo> = (0..24u32)
        .map(|i| proc(i, names[(i as usize * 7) % 6], ((i * 37) % 5) as u16, (i * 13) % 4, ((i * 11) % 3) as u64, (i * 5) % 6))
        .collect();
    for rev in [false, true] {
        let mut by_port = v.clone();
        if rev { by_port.sort_by_key(|p| std::cmp::Reverse(p.port)); } else { by_port.sort_by_key(|p| p.port); }
        assert_eq!(pids(&sort_processes(v.clone(), SortMode::Port, rev)), pids(&by_port));
        let mut by_cpu = v.clone();
        by_cpu.sort_by(|a, b| if rev { a.cpu_key.cmp(&b.cpu_key) } else { b.cpu_key.cmp(&a.cpu_key) });
        assert_eq!(pids(&sort_processes(v.clone(), SortMode::Cpu, rev)), pids(&by_cpu));
        let mut by_name = v.clone();
        by_name.sort_by(|a, b| if rev { b.name.cmp(&a.name) } else { a.name.cmp(&b.name) });
        assert_eq!(pids(&sort_processes(v.clone(), SortMode::Name, rev)), pids(&by_name));
    }
}

const LSOF: &str = "COMMAND   PID USER   FD   TYPE DEVICE SIZE/OFF NODE NAME\n\
node     1234 me   23u  IPv4 0x1      0t0  TCP 127.0.0.1:3000 (LISTEN)\n\
node     1234 me   24u  IPv4 0x2      0t0  TCP 127.0.0.1:3000->127.0.0.1:51000 (ESTABLISHED)\n\
node     1234 me   25u  IPv4 0x3      0t0  TCP 127.0.0.1:51000->127.0.0.1:3000 (ESTABLISHED)\n\
node     1234 me   26u  IPv4 0x4      0t0  TCP 127.0.0.1:3000->127.0.0.1:51001 (ESTABLISHED)\n\
postgres  77 me   5u   IPv6 0x5      0t0  TCP6 [::1]:5432 (LISTEN)\n\
postgres  77 me   6u   IPv4 0x6      0t0  TCP 127.0.0.1:5432 (LISTEN)\n\
broken   abc me   5u   IPv4 0x7      0t0  TCP 127.0.0.1:9999 (LISTEN)\n\
short line\n";

#[test]
fn lsof_listing_gives_listening_ports() {
    let mut t = listed(parseLsofOutput(LSOF));
    t.sort_by_key(|e| (e.pid, e.port));
    let got: Vec<(u32, u16, u32, String)> = t.iter().map(|e| (e.pid, e.port, e.connections, e.protocol.clone())).collect();
    assert_eq!(got, vec![(77, 5432, 0, "TCP".to_string()), (1234, 3000, 2, "TCP".to_string())]);
}

#[test]
fn lsof_counts_connections_on_the_local_port() {
    let text = "COMMAND PID USER FD TYPE DEVICE SIZE/OFF NODE NAME\n\
srv 5 me 1u IPv4 0x1 0t0 TCP *:8080 (LISTEN)\n\
srv 5 me 2u IPv4 0x2 0t0 TCP 10.0.0.2:8080->10.0.0.9:40001 (ESTABLISHED)\n\
srv 5 me 3u IPv6 0x3 0t0 TCP [::1]:8080->[::1]:40002 (ESTABLISHED)\n\
srv 5 me 4u IPv4 0x4 0t0 TCP 10.0.0.2:40003->10.0.0.9:8080 (ESTABLISHED)\n\
srv 5 me 5u IPv4 0x5 0t0 TCP 10.0.0.2:8080->10.0.0.9:40004 (CLOSE_WAIT)\n";
    let t = listed(parseLsofOutput(text));
    assert_eq!(t.len(), 1);
    assert_eq!((t[0].pid, t[0].port, t[0].connections), (5, 8080, 2));
}

#[test]
fn ordinary_listings_fit_the_connection_counts() {
    assert!(connectionCountsFit(LSOF, false));
    assert!(connectionCountsFit("", false));
    assert!(connectionCountsFit("", true));
    assert!(connectionCountsFit("h1\nh2\nh3\nh4\n  TCP 127.0.0.1:1 0.0.0.0:0 ESTABLISHED 5\n", true));
}

#[test]
fn lsof_header_and_empty_output() {
    assert!(parseLsofOutput("").is_empty());
    assert!(parseLsofOutput("COMMAND PID USER FD TYPE DEVICE SIZE NODE NAME\n").is_empty());
    assert!(parseLsofOutput("x 1 u f t d s TCP 127.0.0.1:80 (LISTEN)").is_empty());
}

#[test]
fn netstat_listing_gives_listening_ports() {
    let text = "\r\nActive Connections\r\n\r\n  Proto  Local Address          Foreign Address        State           PID\r\n  TCP    0.0.0.0:135            0.0.0.0:0              LISTENING       948\r\n  TCP    127.0.0.1:135          127.0.0.1:50000        ESTABLISHED     948\r\n  TCP    127.0.0.1:8080         0.0.0.0:0              LISTENING       4242\r\n  TCP    127.0.0.1:9000         0.0.0.0:0              TIME_WAIT       0\r\n";
    let mut t = listed(parseNetstatOutput(text));
    t.sort_by_key(|e| e.port);
    let got: Vec<(u32, u16, u32, String)> = t.iter().map(|e| (e.pid, e.port, e.connections, e.protocol.clone())).collect();
    assert_eq!(got, vec![(948, 135, 1, "TCP".to_string()), (4242, 8080, 0, "TCP".to_string())]);
}

#[test]
fn ps_listing_gives_samples() {
    let text = "  PID  %CPU\n    1   0.0\n  123  12.5\n  bad   1.0\n 77\n";
    let got: Vec<(u32, String)> = parsePsOutput(text).into_iter().map(|c| (c.pid, c.cpu_text)).collect();
    assert_eq!(got, vec![(1, "0.0".to_string()), (123, "12.5".to_string())]);
    assert!(parsePsOutput("").is_empty());
}

#[test]
fn assembled_processes_are_ordered_by_port() {
    let entries = table(vec![
        PortEntry { pid: 10, port: 8080, connections: 2, protocol: "TCP".to_string() },
        PortEntry { pid: 11, port: 3000, connections: 0, protocol: "TCP".to_string() },
        PortEntry { pid: 12, port: 22, connections: 0, protocol: "TCP".to_string() },
    ]);
    let system = vec![
        SystemProcess { pid: 10, name: "java".to_string(), cmd: vec!["java".to_string(), "-jar".to_string()], memory: 1 << 20 },
        SystemProcess { pid: 11, name: "node".to_string(), cmd: vec![], memory: 2048 },
    ];
    let cpu: HashMap<u32, u32> = vec![(10, 5), (11, 7), (10, 125)].into_iter().collect();
    let out = assembleProcesses(&entries, &system, &cpu);
    assert_eq!(pids(&out), vec![11, 10]);
    assert_eq!(out[0].name, "node");
    assert_eq!(out[0].cpu_key, 7);
    assert_eq!(out[1].cpu_key, 125);
    assert_eq!(out[1].connections, 2);
    assert_eq!(out[1].commandDisplay(), "java -jar");
    assert_eq!(out[1].memory, 1 << 20);
}

#[test]
fn unknown_cpu_counts_as_zero() {
    let entries = table(vec![PortEntry { pid: 5, port: 1, connections: 0, protocol: "TCP".to_string() }]);
    let system = vec![SystemProcess { pid: 5, name: "p".to_string(), cmd: vec![], memory: 0 }];
    let out = assembleProcesses(&entries, &system, &HashMap::new());
    assert_eq!(out[0].cpu_key, 0);
}

#[test]
fn port_keys_differ_for_different_ports() {
    assert_eq!(portKey(1, 2), 65538);
    assert_ne!(portKey(1, 0), portKey(0, 65535));
    assert_eq!(portKey(u32::MAX, u16::MAX), (u32::MAX as u64) * 65536 + 65535);
}

#[test]
fn kill_result_reports_the_process() {
    assert_eq!(killResult(42, true), Ok(()));
    assert_eq!(killResult(42, false), Err("Failed to kill process 42".to_string()));
}
