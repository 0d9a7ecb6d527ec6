use unifi_exporter::metrics::Metrics;
use unifi_exporter::sample::Rational;
use unifi_exporter::unifi::Client;
use unifi_exporter::unifi::Device;
use unifi_exporter::unifi::DeviceStats;
use unifi_exporter::unifi::Site;
use unifi_exporter::unifi::SysStats;

fn bare_device(id: &str, mac: &str, device_type: &str) -> Device {
    Device {
        _id: id.to_string(),
        name: None,
        mac: mac.to_string(),
        device_type: device_type.to_string(),
        model: None,
        version: None,
        adopted: false,
        state: 0,
        uptime: None,
        sys_stats: None,
        stat: None,
    }
}

fn bare_client(id: &str, mac: &str) -> Client {
    Client {
        _id: id.to_string(),
        mac: mac.to_string(),
        ip: None,
        hostname: None,
        name: None,
        network: None,
        vlan: None,
        ap_mac: None,
        signal: None,
        tx_bytes: None,
        rx_bytes: None,
        uptime: None,
        is_wired: false,
        is_guest: false,
    }
}

#[test]
fn test_main_components() {
    // The registry, the central component, is constructible.
    assert!(Metrics::new().is_ok());
}

#[test]
fn test_metrics_creation() {
    let metrics = Metrics::new();
    assert!(metrics.is_ok());
}

#[test]
fn test_metrics_gather() {
    let mut metrics = Metrics::new().unwrap();

    // First gather might be empty
    let initial_output = metrics.gather();

    // Update with some data to ensure metrics are populated
    let devices = vec![Device {
        _id: "test".to_string(),
        name: Some("Test Device".to_string()),
        mac: "00:00:00:00:00:00".to_string(),
        device_type: "uap".to_string(),
        model: Some("Test Model".to_string()),
        version: Some("1.0".to_string()),
        adopted: true,
        state: 1,
        uptime: Some(100),
        sys_stats: None,
        stat: None,
    }];

    metrics.update_devices(&devices);
    let output = metrics.gather();

    // Now we should have output
    assert!(!output.is_empty() || !initial_output.is_empty());
    if !output.is_empty() {
        assert!(output.contains("# HELP") || output.contains("unifi_"));
    }
}

#[test]
fn test_update_devices() {
    let mut metrics = Metrics::new().unwrap();
    let devices = vec![
        Device {
            _id: "device1".to_string(),
            name: Some("Test AP".to_string()),
            mac: "00:11:22:33:44:55".to_string(),
            device_type: "uap".to_string(),
            model: Some("UAP-AC-Pro".to_string()),
            version: Some("4.3.20".to_string()),
            adopted: true,
            state: 1,
            uptime: Some(86400),
            sys_stats: Some(SysStats {
                loadavg_1: Some(Rational { num: 15, den: 10 }),
                loadavg_5: Some(Rational { num: 12, den: 10 }),
                loadavg_15: Some(Rational { num: 1, den: 1 }),
                mem_total: Some(1073741824),
                mem_used: Some(536870912),
            }),
            stat: Some(DeviceStats {
                bytes: Some(3072000),
                tx_bytes: Some(1024000),
                rx_bytes: Some(2048000),
                tx_packets: Some(1000),
                rx_packets: Some(2000),
            }),
        },
        Device {
            _id: "device2".to_string(),
            name: None,
            mac: "00:11:22:33:44:66".to_string(),
            device_type: "usw".to_string(),
            model: None,
            version: None,
            adopted: false,
            state: 0,
            uptime: None,
            sys_stats: None,
            stat: None,
        },
    ];

    metrics.update_devices(&devices);
    let output = metrics.gather();

    // Check device info metric
    assert!(output.contains("unifi_device_info"));
    assert!(output.contains("Test AP"));
    assert!(output.contains("UAP-AC-Pro"));
    assert!(output.contains("4.3.20"));

    // Check uptime metric
    assert!(output.contains("unifi_device_uptime_seconds"));
    assert!(output.contains("86400"));

    // Check adoption status
    assert!(output.contains("unifi_device_adopted"));

    // Check CPU usage
    assert!(output.contains("unifi_device_cpu_usage"));
    assert!(output.contains("1.5"));

    // Check memory usage
    assert!(output.contains("unifi_device_memory_usage_ratio"));
    assert!(output.contains("0.5")); // 536870912 / 1073741824 = 0.5

    // Check bytes and packets
    assert!(output.contains("unifi_device_bytes_total"));
    assert!(output.contains("unifi_device_packets_total"));
}

#[test]
fn test_update_clients() {
    let mut metrics = Metrics::new().unwrap();
    let clients = vec![
        Client {
            _id: "client1".to_string(),
            mac: "aa:bb:cc:dd:ee:ff".to_string(),
            ip: Some("192.168.1.100".to_string()),
            hostname: Some("test-laptop".to_string()),
            name: Some("Test Laptop".to_string()),
            network: Some("LAN".to_string()),
            vlan: Some(10),
            ap_mac: Some("00:11:22:33:44:55".to_string()),
            signal: Some(-65),
            tx_bytes: Some(1024000),
            rx_bytes: Some(2048000),
            uptime: Some(3600),
            is_wired: false,
            is_guest: false,
        },
        Client {
            _id: "client2".to_string(),
            mac: "aa:bb:cc:dd:ee:00".to_string(),
            ip: Some("192.168.1.101".to_string()),
            hostname: None,
            name: None,
            network: Some("Guest".to_string()),
            vlan: None,
            ap_mac: None,
            signal: None,
            tx_bytes: Some(512000),
            rx_bytes: Some(1024000),
            uptime: Some(1800),
            is_wired: true,
            is_guest: true,
        },
    ];

    metrics.update_clients(&clients);
    let output = metrics.gather();

    // Check client info metric
    assert!(output.contains("unifi_client_info"));
    assert!(output.contains("test-laptop"));
    assert!(output.contains("Test Laptop"));
    assert!(output.contains("192.168.1.100"));

    // Check signal strength (only for wireless)
    assert!(output.contains("unifi_client_signal_strength_dbm"));
    assert!(output.contains("-65"));

    // Check uptime
    assert!(output.contains("unifi_client_uptime_seconds"));
    assert!(output.contains("3600"));

    // Check client counts
    assert!(output.contains("unifi_clients_total"));
    assert!(output.contains(r#"type="wireless"#));
    assert!(output.contains(r#"type="wired"#));
    assert!(output.contains(r#"is_guest="true"#));
    assert!(output.contains(r#"network="LAN"#));
    assert!(output.contains(r#"network="Guest"#));
}

#[test]
fn test_update_sites() {
    let mut metrics = Metrics::new().unwrap();
    let sites = vec![
        Site {
            _id: "site1".to_string(),
            name: "default".to_string(),
            desc: "Default Site".to_string(),
            attr_hidden_id: None,
            attr_no_delete: Some(true),
        },
        Site {
            _id: "site2".to_string(),
            name: "branch".to_string(),
            desc: "Branch Office".to_string(),
            attr_hidden_id: Some("hidden".to_string()),
            attr_no_delete: Some(false),
        },
    ];

    metrics.update_sites(&sites);
    let output = metrics.gather();

    // Check sites total metric
    assert!(output.contains("unifi_sites_total"));
    assert!(output.contains("2")); // 2 sites
}

#[test]
fn test_update_devices_with_missing_data() {
    let mut metrics = Metrics::new().unwrap();
    let devices = vec![Device {
        _id: "device1".to_string(),
        name: None,
        mac: "00:11:22:33:44:55".to_string(),
        device_type: "uap".to_string(),
        model: None,
        version: None,
        adopted: true,
        state: 1,
        uptime: None,
        sys_stats: None,
        stat: None,
    }];

    metrics.update_devices(&devices);
    let output = metrics.gather();

    // Should handle missing values gracefully
    assert!(output.contains("unifi_device_info"));
    assert!(output.contains("unknown")); // Default for missing name/model/version
}

#[test]
fn test_memory_usage_calculation() {
    let mut metrics = Metrics::new().unwrap();
    let devices = vec![Device {
        _id: "device1".to_string(),
        name: Some("Test".to_string()),
        mac: "00:11:22:33:44:55".to_string(),
        device_type: "uap".to_string(),
        model: Some("Model".to_string()),
        version: Some("1.0".to_string()),
        adopted: true,
        state: 1,
        uptime: None,
        sys_stats: Some(SysStats {
            loadavg_1: None,
            loadavg_5: None,
            loadavg_15: None,
            mem_total: Some(1000),
            mem_used: Some(750),
        }),
        stat: None,
    }];

    metrics.update_devices(&devices);
    let output = metrics.gather();

    // Should calculate memory usage ratio correctly
    assert!(output.contains("unifi_device_memory_usage_ratio"));
    assert!(output.contains("0.75")); // 750/1000 = 0.75
}

#[test]
fn test_client_counts() {
    let mut metrics = Metrics::new().unwrap();
    let clients = vec![
        // Wired non-guest client
        Client {
            _id: "c1".to_string(),
            mac: "00:00:00:00:00:01".to_string(),
            ip: None,
            hostname: None,
            name: None,
            network: Some("LAN".to_string()),
            vlan: None,
            ap_mac: None,
            signal: None,
            tx_bytes: None,
            rx_bytes: None,
            uptime: None,
            is_wired: true,
            is_guest: false,
        },
        // Wireless guest client
        Client {
            _id: "c2".to_string(),
            mac: "00:00:00:00:00:02".to_string(),
            ip: None,
            hostname: None,
            name: None,
            network: Some("Guest".to_string()),
            vlan: None,
            ap_mac: None,
            signal: None,
            tx_bytes: None,
            rx_bytes: None,
            uptime: None,
            is_wired: false,
            is_guest: true,
        },
        // Another wireless non-guest client
        Client {
            _id: "c3".to_string(),
            mac: "00:00:00:00:00:03".to_string(),
            ip: None,
            hostname: None,
            name: None,
            network: Some("LAN".to_string()),
            vlan: None,
            ap_mac: None,
            signal: None,
            tx_bytes: None,
            rx_bytes: None,
            uptime: None,
            is_wired: false,
            is_guest: false,
        },
    ];

    metrics.update_clients(&clients);
    let output = metrics.gather();

    // Verify counts are correct
    assert!(output.contains(r#"unifi_clients_total{is_guest="false",network="all",type="wired"} 1"#));
    assert!(output.contains(r#"unifi_clients_total{is_guest="false",network="all",type="wireless"} 2"#));
    assert!(output.contains(r#"unifi_clients_total{is_guest="true",network="all",type="all"} 1"#));
}

#[test]
fn test_empty_reconcile_clears_series() {
    // Reconciling with an empty collection removes every previously set
    // label combination of that entity type.
    let mut metrics = Metrics::new().unwrap();
    metrics.update_devices(&vec![bare_device("d1", "00:00:00:00:00:0a", "uap")]);
    metrics.update_clients(&vec![bare_client("c1", "00:00:00:00:00:0b")]);
    let before = metrics.gather();
    assert!(before.contains("unifi_device_info"));
    assert!(before.contains("unifi_client_info"));

    metrics.update_devices(&Vec::new());
    metrics.update_clients(&Vec::new());
    let after = metrics.gather();
    assert!(!after.contains("unifi_device_info"));
    assert!(!after.contains("unifi_client_info"));
    assert!(!after.contains("00:00:00:00:00:0a"));
    assert!(!after.contains("00:00:00:00:00:0b"));
    // The aggregate counts remain, freshly zeroed.
    assert!(after.contains(r#"unifi_clients_total{is_guest="false",network="all",type="wired"} 0"#));
}

#[test]
fn test_sites_total_reads_collection_length() {
    // The sites series reads exactly N for a collection of length N, with
    // no labels at all.
    let mut metrics = Metrics::new().unwrap();
    let mut sites = Vec::new();
    for i in 0..5 {
        sites.push(Site {
            _id: format!("site{}", i),
            name: format!("name{}", i),
            desc: "A site".to_string(),
            attr_hidden_id: None,
            attr_no_delete: None,
        });
    }
    metrics.update_sites(&sites);
    let output = metrics.gather();
    assert!(output.contains("unifi_sites_total 5"));

    metrics.update_sites(&Vec::new());
    let output = metrics.gather();
    assert!(output.contains("unifi_sites_total 0"));
}

#[test]
fn test_memory_ratio_not_emitted_for_zero_total() {
    let mut metrics = Metrics::new().unwrap();
    let mut device = bare_device("d1", "00:00:00:00:00:01", "uap");
    device.sys_stats = Some(SysStats {
        loadavg_1: None,
        loadavg_5: None,
        loadavg_15: None,
        mem_total: Some(0),
        mem_used: Some(750),
    });
    metrics.update_devices(&vec![device]);
    let output = metrics.gather();
    assert!(!output.contains("unifi_device_memory_usage_ratio"));
    // The total series is still set, even at zero.
    assert!(output.contains("unifi_device_memory_total_bytes"));
}

#[test]
fn test_signal_not_emitted_for_wired_client() {
    // A wired client never yields a signal series, even when a signal
    // value is present in the input.
    let mut metrics = Metrics::new().unwrap();
    let mut client = bare_client("c1", "00:00:00:00:00:01");
    client.is_wired = true;
    client.signal = Some(-40);
    metrics.update_clients(&vec![client]);
    let output = metrics.gather();
    assert!(!output.contains("unifi_client_signal_strength_dbm"));
}

#[test]
fn test_device_info_series_per_element() {
    // One info series per device, with every populated field verbatim in
    // the labels.
    let mut metrics = Metrics::new().unwrap();
    let devices = vec![
        bare_device("a", "aa:aa:aa:aa:aa:aa", "uap"),
        bare_device("b", "bb:bb:bb:bb:bb:bb", "usw"),
        bare_device("c", "cc:cc:cc:cc:cc:cc", "ugw"),
    ];
    metrics.update_devices(&devices);
    let output = metrics.gather();
    let count = output
        .lines()
        .filter(|l| l.starts_with("unifi_device_info{"))
        .count();
    assert_eq!(count, 3);
    assert!(output.contains(r#"mac="bb:bb:bb:bb:bb:bb""#));
}

#[test]
fn test_label_values_are_escaped() {
    let mut metrics = Metrics::new().unwrap();
    let mut device = bare_device("d1", "00:00:00:00:00:01", "uap");
    device.name = Some("quo\"te".to_string());
    metrics.update_devices(&vec![device]);
    let output = metrics.gather();
    assert!(output.contains("name=\"quo\\\"te\""));
}

#[test]
fn test_counter_values_reset_each_cycle() {
    // Counters expose the controller's own reading for the cycle: a second
    // reconcile replaces, not accumulates.
    let mut metrics = Metrics::new().unwrap();
    let mut device = bare_device("d1", "00:00:00:00:00:01", "uap");
    device.stat = Some(DeviceStats {
        bytes: None,
        tx_bytes: Some(100),
        rx_bytes: None,
        tx_packets: None,
        rx_packets: None,
    });
    metrics.update_devices(&vec![device.clone()]);
    metrics.update_devices(&vec![device]);
    let output = metrics.gather();
    assert!(output.contains(r#"unifi_device_bytes_total{direction="tx",id="d1",mac="00:00:00:00:00:01",name="unknown"} 100"#));
}

#[test]
fn test_load_average_renders_exact_decimals() {
    let mut metrics = Metrics::new().unwrap();
    let mut device = bare_device("d1", "00:00:00:00:00:01", "uap");
    device.sys_stats = Some(SysStats {
        loadavg_1: Some(Rational { num: 333, den: 1000 }),
        loadavg_5: Some(Rational { num: 2, den: 1 }),
        loadavg_15: None,
        mem_total: None,
        mem_used: None,
    });
    metrics.update_devices(&vec![device]);
    let output = metrics.gather();
    assert!(output.contains(r#"period="1m"} 0.333"#));
    assert!(output.contains(r#"period="5m"} 2"#));
}
