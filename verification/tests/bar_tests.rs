use pwm::bar::{
    battery_icon, battery_status_text, cpu_busy_percent, cpu_fields, cpu_ticks, icon_percent,
    meminfo_totals, ram_used_percent, CPU_ICON, RAM_ICON,
};

#[test]
fn battery_icon_levels() {
    assert_eq!(battery_icon(10, "Charging"), "\u{f0084}");
    assert_eq!(battery_icon(100, "Charging"), "\u{f0084}");
    assert_eq!(battery_icon(10, "Full"), "\u{f240}");
    assert_eq!(battery_icon(90, "Discharging"), "\u{f240}");
    assert_eq!(battery_icon(89, "Discharging"), "\u{f241}");
    assert_eq!(battery_icon(70, "Discharging"), "\u{f241}");
    assert_eq!(battery_icon(69, "Discharging"), "\u{f242}");
    assert_eq!(battery_icon(50, "Discharging"), "\u{f242}");
    assert_eq!(battery_icon(49, "Discharging"), "\u{f243}");
    assert_eq!(battery_icon(20, "Not charging"), "\u{f243}");
    assert_eq!(battery_icon(19, "Discharging"), "\u{f244}");
    assert_eq!(battery_icon(0, ""), "\u{f244}");
}

#[test]
fn battery_text_from_sysfs_contents() {
    assert_eq!(battery_status_text("Charging\n", "55\n").as_deref(), Some("\u{f0084} 55%"));
    assert_eq!(battery_status_text("Discharging\n", "73\n").as_deref(), Some("\u{f241} 73%"));
    assert_eq!(battery_status_text("  Full  ", " 100").as_deref(), Some("\u{f240} 100%"));
    assert_eq!(battery_status_text("Discharging", "7").as_deref(), Some("\u{f244} 7%"));
    assert_eq!(battery_status_text("Discharging", "+0").as_deref(), Some("\u{f244} 0%"));
}

#[test]
fn battery_text_needs_a_number() {
    assert_eq!(battery_status_text("Full", ""), None);
    assert_eq!(battery_status_text("Full", "abc"), None);
    assert_eq!(battery_status_text("Full", "-5"), None);
    assert_eq!(battery_status_text("Full", "4294967296"), None);
}

#[test]
fn icon_percent_formats() {
    assert_eq!(icon_percent(CPU_ICON, 0), "\u{f2db} 0%");
    assert_eq!(icon_percent(RAM_ICON, 42), "\u{e266} 42%");
    assert_eq!(icon_percent("x", 18446744073709551615), "x 18446744073709551615%");
}

#[test]
fn cpu_fields_of_proc_stat() {
    let stat = "cpu  10 20 30 400 50 6 7 8 0 0\ncpu0 1 2 3 4 5 6 7 8 0 0\n";
    assert_eq!(cpu_fields(stat), Some(vec![10, 20, 30, 400, 50, 6, 7, 8, 0, 0]));
    assert_eq!(cpu_fields("cpu 1 x 2 3 4\n"), Some(vec![1, 2, 3, 4]));
    assert_eq!(cpu_fields("cpu 1 2 3\n"), None);
    assert_eq!(cpu_fields("cpu0 1 2 3 4\n"), None);
    assert_eq!(cpu_fields("\ncpu 1 2 3 4\n"), None);
    assert_eq!(cpu_fields(""), None);
}

#[test]
fn cpu_ticks_idle_and_total() {
    assert_eq!(cpu_ticks(&[10, 20, 30, 400, 50, 6]), (450, 516));
    assert_eq!(cpu_ticks(&[1, 2, 3, 4]), (4, 10));
}

#[test]
fn cpu_busy_percent_between_samples() {
    assert_eq!(cpu_busy_percent(None, 100, 200), 0);
    assert_eq!(cpu_busy_percent(Some((100, 200)), 150, 300), 50);
    assert_eq!(cpu_busy_percent(Some((100, 200)), 100, 300), 100);
    assert_eq!(cpu_busy_percent(Some((100, 200)), 200, 300), 0);
    assert_eq!(cpu_busy_percent(Some((100, 200)), 100, 200), 0);
    assert_eq!(cpu_busy_percent(Some((100, 200)), 133, 300), 67);
    // counters that went backwards saturate at zero
    assert_eq!(cpu_busy_percent(Some((100, 200)), 50, 300), 100);
}

#[test]
fn meminfo_totals_of_proc_meminfo() {
    let m = "MemTotal:       16000000 kB\nMemFree:  1 kB\nMemAvailable:    4000000 kB\nBuffers: 3 kB\n";
    assert_eq!(meminfo_totals(m), Some((16000000, 4000000)));
    assert_eq!(meminfo_totals("MemAvailable: 5 kB\r\nMemTotal: 10 kB\r\n"), Some((10, 5)));
    assert_eq!(meminfo_totals("MemTotal: 10 kB\n"), None);
    assert_eq!(meminfo_totals("MemTotal: 0 kB\nMemAvailable: 0 kB\n"), None);
    assert_eq!(meminfo_totals("MemTotal:\nMemAvailable: 5 kB\n"), None);
    assert_eq!(meminfo_totals("MemTotal: x kB\nMemAvailable: 5 kB\n"), None);
    // a later good value replaces an earlier bad one
    assert_eq!(meminfo_totals("MemTotal: x\nMemTotal: 8\nMemAvailable: 2\n"), Some((8, 2)));
    // scanning stops once both are known
    assert_eq!(meminfo_totals("MemTotal: 8\nMemAvailable: 2\nMemTotal:\n"), Some((8, 2)));
}

#[test]
fn ram_used_percent_values() {
    assert_eq!(ram_used_percent(16000000, 4000000), 75);
    assert_eq!(ram_used_percent(3, 0), 100);
    assert_eq!(ram_used_percent(3, 3), 0);
    assert_eq!(ram_used_percent(3, 2), 33);
}
