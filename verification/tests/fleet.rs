use orbitbuild::console::Line;
use orbitbuild::fleet::{
    format_row, format_satellite_row, format_timestamp, print_fleet_table, time_or_number,
};
use orbitbuild::satellite::SatelliteEntry;

fn make_entry(arch: &str, status: &str, registered_at: u64) -> SatelliteEntry {
    let pk = iroh::PublicKey::from_bytes(&[0u8; 32]).unwrap();
    SatelliteEntry {
        arch: arch.to_string(),
        status: status.to_string(),
        endpoint_addr: iroh::EndpointAddr::new(pk),
        registered_at,
    }
}

#[test]
fn test_format_satellite_row() {
    let entry = make_entry("amd64", "idle", 1713264000);
    let row = format_satellite_row("abc123", &entry);
    assert!(row.contains("abc123"));
    assert!(row.contains("amd64"));
    assert!(row.contains("idle"));
}

#[test]
fn test_format_table_empty() {
    // Verify empty fleet message
    let satellites: Vec<(String, SatelliteEntry)> = vec![];
    assert!(satellites.is_empty());
    assert_eq!(
        print_fleet_table(&satellites),
        vec![Line::Stdout("No satellites found in the Constellation.".to_string())]
    );
}

#[test]
fn test_registered_at_formatting() {
    // 2024-04-16 12:00:00 UTC = 1713268800
    let formatted = format_timestamp(1713268800);
    assert_eq!(formatted, "2024-04-16 12:00:00");

    // Another known timestamp: 2025-01-01 00:00:00 UTC = 1735689600
    let formatted = format_timestamp(1735689600);
    assert_eq!(formatted, "2025-01-01 00:00:00");
}

#[test]
fn times_without_a_date_are_numbers() {
    assert_eq!(format_timestamp(0), "1970-01-01 00:00:00");
    assert_eq!(format_timestamp(951_782_399), "2000-02-28 23:59:59");
    assert_eq!(format_timestamp(951_782_400), "2000-02-29 00:00:00");
    assert_eq!(format_timestamp(4_107_542_400), "2100-03-01 00:00:00");
    assert_eq!(format_timestamp(253_402_300_799), "9999-12-31 23:59:59");
    assert_eq!(format_timestamp(253_402_300_800), "+10000-01-01 00:00:00");
    assert_eq!(format_timestamp(9223372036854775807), "9223372036854775807");
    assert_eq!(format_timestamp(9223372036854775808), "9223372036854775808");
    assert_eq!(format_timestamp(u64::MAX), "18446744073709551615");
    assert_eq!(time_or_number(None, 10), "10");
    assert_eq!(time_or_number(Some("now".to_string()), 10), "now");
}

#[test]
fn rows_have_columns() {
    assert_eq!(
        format_row("a", "b", "c", "d"),
        format!("{:<52} {:<8} {:<10} {}", "a", "b", "c", "d")
    );
    let long = "0123456789abcdef0123456789abcdef0123456789abcdef0123456789abcdef";
    assert_eq!(
        format_row(long, "é", "状態", ""),
        format!("{:<52} {:<8} {:<10} {}", long, "é", "状態", "")
    );
}

#[test]
fn tables_have_a_header_and_rows() {
    let satellites = vec![
        ("n1".to_string(), make_entry("amd64", "idle", 0)),
        ("n2".to_string(), make_entry("arm64", "offline", 1713268800)),
    ];
    assert_eq!(
        print_fleet_table(&satellites),
        vec![
            Line::Stdout(format!(
                "{:<52} {:<8} {:<10} REGISTERED",
                "NODE ID", "ARCH", "STATUS"
            )),
            Line::Stdout(format!("{:<52} {:<8} {:<10} 1970-01-01 00:00:00", "n1", "amd64", "idle")),
            Line::Stdout(format!(
                "{:<52} {:<8} {:<10} 2024-04-16 12:00:00",
                "n2", "arm64", "offline"
            )),
        ]
    );
}
