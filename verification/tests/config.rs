use container_viz::config::{default_log_tail_lines, default_safe_mode, default_tick_rate, host_from_entry, AppConfig, HostEntryError};
use container_viz::host::{ConnectionType, HostConfig};

fn h(name: &str) -> HostConfig {
    HostConfig { name: name.to_string(), connection: ConnectionType::default_socket() }
}

#[test]
fn config_defaults() {
    let c = AppConfig::default();
    assert!(c.safe_mode);
    assert_eq!(c.tick_rate, 1000);
    assert_eq!(c.log_tail_lines, 100);
    assert!(c.hosts.is_empty());
    assert!(default_safe_mode());
    assert_eq!(default_tick_rate(), 1000);
    assert_eq!(default_log_tail_lines(), 100);
}

#[test]
fn add_and_remove_hosts() {
    let mut c = AppConfig::default();
    c.add_host(h("homelab"));
    c.add_host(h("vps-01"));
    c.add_host(h("homelab"));
    assert_eq!(c.hosts.len(), 3);
    assert!(c.remove_host("homelab"));
    assert_eq!(c.hosts.len(), 1);
    assert_eq!(c.hosts[0].name, "vps-01");
    assert!(!c.remove_host("homelab"));
    assert!(!c.remove_host("nas"));
    assert!(c.remove_host("vps-01"));
    assert!(c.hosts.is_empty());
}

#[test]
fn host_entries_from_the_file() {
    let h = host_from_entry("homelab".into(), Some("unix:///var/run/docker.sock".into()), None, None, None, false, None, None, true).unwrap();
    assert!(matches!(h.connection, ConnectionType::UnixSocket(ref p) if p == "/var/run/docker.sock"));
    let h = host_from_entry("local".into(), None, Some("unix".into()), None, None, false, None, None, true).unwrap();
    assert!(matches!(h.connection, ConnectionType::UnixSocket(ref p) if p == "/var/run/docker.sock"));
    let h = host_from_entry("vps-01".into(), None, Some("tcp".into()), Some("192.168.1.100".into()), Some(2376), true, Some("/certs".into()), None, true).unwrap();
    match h.connection {
        ConnectionType::Tcp { host, port, tls } => {
            assert_eq!(host, "192.168.1.100");
            assert_eq!(port, 2376);
            assert_eq!(tls.unwrap().cert_path, "/certs");
        }
        _ => panic!("expected tcp"),
    }
    let h = host_from_entry("nas".into(), None, Some("tcp".into()), Some("nas".into()), None, false, None, None, true).unwrap();
    assert!(matches!(h.connection, ConnectionType::Tcp { port: 2375, tls: None, .. }));
    let h = host_from_entry("nas".into(), None, Some("tcp".into()), Some("nas".into()), None, true, Some("/c".into()), None, true).unwrap();
    assert!(matches!(h.connection, ConnectionType::Tcp { port: 2376, .. }));
}

#[test]
fn bad_host_entries_are_refused() {
    assert_eq!(host_from_entry("x".into(), None, Some("tcp".into()), None, None, false, None, None, true).err(), Some(HostEntryError::MissingHost));
    assert_eq!(host_from_entry("x".into(), None, Some("tcp".into()), Some("h".into()), None, true, None, None, true).err(), Some(HostEntryError::MissingCertPath));
    assert_eq!(host_from_entry("x".into(), None, Some("ssh".into()), None, None, false, None, None, true).err(), Some(HostEntryError::UnknownConnection));
}
