use chatbox_status::{
    gpu_line, ram_line, CpuInfo, GpuInfo, Info, Provider, RamInfo, SourceKind, TimeInfo,
};

const GIB: u64 = 1 << 30;

/// `MM/DD/YYYY HH:MM:SS UTC±HH:MM:SS`
fn looks_like_a_timestamp(text: &str) -> bool {
    let shape = "dd/dd/dddd dd:dd:dd UTC+dd:dd:dd";
    text.len() == shape.len()
        && text.chars().zip(shape.chars()).all(|(c, s)| match s {
            'd' => c.is_ascii_digit(),
            '+' => c == '+' || c == '-',
            other => c == other,
        })
}

#[test]
fn time_at_the_epoch() {
    assert_eq!(TimeInfo::new(0, 0).get_info(), "01/01/1970 00:00:00 UTC+00:00:00");
}

#[test]
fn time_in_utc() {
    assert_eq!(TimeInfo::new(1_700_000_000, 0).get_info(), "11/14/2023 22:13:20 UTC+00:00:00");
}

#[test]
fn time_east_of_utc() {
    assert_eq!(
        TimeInfo::new(1_700_000_000, 19_800).get_info(),
        "11/15/2023 03:43:20 UTC+05:30:00"
    );
}

#[test]
fn time_west_of_utc() {
    assert_eq!(
        TimeInfo::new(1_700_000_000, -28_800).get_info(),
        "11/14/2023 14:13:20 UTC-08:00:00"
    );
}

#[test]
fn time_offset_down_to_the_second() {
    assert_eq!(
        TimeInfo::new(1_700_000_000, 3_661).get_info(),
        "11/14/2023 23:14:21 UTC+01:01:01"
    );
}

#[test]
fn time_matches_the_timestamp_pattern() {
    for (timestamp, offset) in [(0, 0), (1_700_000_000, 32_400), (951_782_400, -3_600)] {
        let text = TimeInfo::new(timestamp, offset).get_info();
        assert!(looks_like_a_timestamp(&text), "{text}");
    }
    assert!(!looks_like_a_timestamp("11/14/2023 22:13:20 UTC+00"));
}

#[test]
fn time_agrees_with_the_local_clock() {
    let now = chrono::Local::now();
    let info = TimeInfo::new(now.timestamp(), now.offset().local_minus_utc());
    assert_eq!(info.get_info(), now.format("%m/%d/%Y %H:%M:%S UTC%::z").to_string());
    assert!(looks_like_a_timestamp(&info.get_info()));
}

#[test]
fn time_out_of_range_reports_nothing() {
    assert_eq!(TimeInfo::new(0, 86_400).get_info(), "");
    assert_eq!(TimeInfo::new(0, -86_400).get_info(), "");
    assert_eq!(TimeInfo::new(i64::MAX, 0).get_info(), "");
    assert_eq!(TimeInfo::new(i64::MIN, 0).get_info(), "");
}

#[test]
fn cpu_line() {
    assert_eq!(CpuInfo::new(1234, 321).get_info(), "CPU: 12.34%, Processes: 321");
}

#[test]
fn cpu_line_at_the_edges() {
    assert_eq!(CpuInfo::new(0, 0).get_info(), "CPU: 0.00%, Processes: 0");
    assert_eq!(CpuInfo::new(7, 1).get_info(), "CPU: 0.07%, Processes: 1");
    assert_eq!(CpuInfo::new(10000, 99999).get_info(), "CPU: 100.00%, Processes: 99999");
}

#[test]
fn ram_reports_size_and_share() {
    assert_eq!(
        RamInfo::new(8_800_000_000, 16_000_000_000).get_info(),
        "RAM: 8.2 GiB (55.00%)"
    );
}

#[test]
fn ram_line_below_the_first_unit() {
    assert_eq!(RamInfo::new(512, 1024).get_info(), "RAM: 512 B (50.00%)");
    assert_eq!(RamInfo::new(1023, 1023).get_info(), "RAM: 1023 B (100.00%)");
    assert_eq!(RamInfo::new(1024, 2048).get_info(), "RAM: 1.0 kiB (50.00%)");
}

#[test]
fn ram_line_uses_the_size_as_bytesize_writes_it() {
    for used in [0, 1, 1023, 1024, 1_500_000, 3 * GIB, 1_000_000_000_000, u64::MAX] {
        let expected = format!("RAM: {} (", bytesize::to_string(used, true));
        let line = RamInfo::new(used, u64::MAX).get_info();
        assert!(line.starts_with(&expected), "{line}");
        assert!(line.ends_with("%)"), "{line}");
    }
}

#[test]
fn ram_line_without_a_total_leaves_the_share_empty() {
    assert_eq!(RamInfo::new(0, 0).get_info(), "RAM: 0 B (%)");
    assert_eq!(RamInfo::new(2048, 0).get_info(), "RAM: 2.0 kiB (%)");
    for used in [0, 1, 2048, u64::MAX] {
        let line = RamInfo::new(used, 0).get_info();
        assert!(!line.contains("NaN"), "{line}");
        assert!(!line.contains("inf"), "{line}");
    }
}

#[test]
fn ram_line_around_a_given_size() {
    assert_eq!(ram_line("8.2 GiB", 8_800_000_000, 16_000_000_000), "RAM: 8.2 GiB (55.00%)");
    assert_eq!(ram_line("550 B", 550, 1000), "RAM: 550 B (55.00%)");
    assert_eq!(ram_line("", 1, 3), "RAM:  (33.33%)");
    assert_eq!(ram_line("7 B", 7, 0), "RAM: 7 B (%)");
}

#[test]
fn gpu_line_around_a_given_size() {
    let gpu = GpuInfo::new(Some(37), Some(45_123), Some(61), Some((2 * GIB, 8 * GIB)));
    assert_eq!(gpu_line(&gpu, "2.0 GiB"), "GPU: 37% (45.123W, 61°C)\n2.0 GiB (25.00%)");
    assert_eq!(gpu_line(&gpu, "2.0 GiB"), gpu.get_info());
    let bare = GpuInfo::new(None, None, None, None);
    assert_eq!(gpu_line(&bare, ""), "GPU: % (W)\n (%)");
}

#[test]
fn gpu_memory_without_a_total_leaves_the_share_empty() {
    let gpu = GpuInfo::new(Some(37), Some(45_123), Some(61), Some((5, 0)));
    let text = gpu.get_info();
    assert_eq!(text, "GPU: 37% (45.123W, 61°C)\n5 B (%)");
    assert!(!text.contains("NaN"));
    assert!(!text.contains("inf"));
    let idle = GpuInfo::new(Some(0), Some(0), None, Some((0, 0)));
    assert_eq!(idle.get_info(), "GPU: 0% (0.000W)\n0 B (%)");
}

#[test]
fn no_source_reports_a_nul_character() {
    let providers = [
        Provider::Time(TimeInfo::new(1_700_000_000, 3_600)),
        Provider::Time(TimeInfo::new(0, 86_400)),
        Provider::Cpu(CpuInfo::new(1234, 321)),
        Provider::Ram(RamInfo::new(8_800_000_000, 16_000_000_000)),
        Provider::Ram(RamInfo::new(512, 0)),
        Provider::Gpu(GpuInfo::new(Some(37), Some(45_123), Some(61), Some((2 * GIB, 8 * GIB)))),
        Provider::Gpu(GpuInfo::new(None, None, None, None)),
    ];
    for provider in providers {
        assert!(!provider.get_info().contains('\0'));
    }
}

#[test]
fn gpu_lines() {
    let gpu = GpuInfo::new(Some(37), Some(45_123), Some(61), Some((2 * GIB, 8 * GIB)));
    assert_eq!(gpu.get_info(), "GPU: 37% (45.123W, 61°C)\n2.0 GiB (25.00%)");
}

#[test]
fn gpu_without_temperature_drops_the_suffix() {
    let gpu = GpuInfo::new(Some(37), Some(45_123), None, Some((2 * GIB, 8 * GIB)));
    let text = gpu.get_info();
    assert_eq!(text, "GPU: 37% (45.123W)\n2.0 GiB (25.00%)");
    assert!(!text.contains('°'));
    assert!(!text.contains(", "));
    assert!(text.contains("37%"));
    assert!(text.contains("45.123W"));
    assert!(text.contains("2.0 GiB (25.00%)"));
}

#[test]
fn gpu_power_is_written_to_the_milliwatt() {
    let gpu = GpuInfo::new(Some(0), Some(5), Some(0), Some((0, 1)));
    assert_eq!(gpu.get_info(), "GPU: 0% (0.005W, 0°C)\n0 B (0.00%)");
    let busy = GpuInfo::new(Some(100), Some(350_000), Some(90), Some((GIB, GIB)));
    assert_eq!(busy.get_info(), "GPU: 100% (350.000W, 90°C)\n1.0 GiB (100.00%)");
}

#[test]
fn gpu_missing_readings_leave_their_place_empty() {
    let no_load = GpuInfo::new(None, Some(45_123), Some(61), Some((2 * GIB, 8 * GIB)));
    assert_eq!(no_load.get_info(), "GPU: % (45.123W, 61°C)\n2.0 GiB (25.00%)");
    let no_power = GpuInfo::new(Some(37), None, Some(61), Some((2 * GIB, 8 * GIB)));
    assert_eq!(no_power.get_info(), "GPU: 37% (W, 61°C)\n2.0 GiB (25.00%)");
    let no_memory = GpuInfo::new(Some(37), Some(45_123), Some(61), None);
    assert_eq!(no_memory.get_info(), "GPU: 37% (45.123W, 61°C)\n (%)");
    let nothing = GpuInfo::new(None, None, None, None);
    assert_eq!(nothing.get_info(), "GPU: % (W)\n (%)");
}

#[test]
fn constructors_keep_their_arguments() {
    assert_eq!(TimeInfo::new(5, -7), TimeInfo { timestamp: 5, offset: -7 });
    assert_eq!(CpuInfo::new(1, 2), CpuInfo { usage_hundredths: 1, processes: 2 });
    assert_eq!(RamInfo::new(3, 4), RamInfo { used: 3, total: 4 });
    assert_eq!(
        GpuInfo::new(Some(1), None, Some(3), Some((4, 5))),
        GpuInfo { utilization: Some(1), power_milliwatts: None, temperature: Some(3), memory: Some((4, 5)) }
    );
}

#[test]
fn provider_reports_what_its_source_reports() {
    let time = TimeInfo::new(1_700_000_000, 0);
    let cpu = CpuInfo::new(1234, 321);
    let ram = RamInfo::new(512, 1024);
    let gpu = GpuInfo::new(Some(37), Some(45_123), None, Some((2 * GIB, 8 * GIB)));
    assert_eq!(Provider::Time(time).get_info(), time.get_info());
    assert_eq!(Provider::Cpu(cpu).get_info(), cpu.get_info());
    assert_eq!(Provider::Ram(ram).get_info(), ram.get_info());
    assert_eq!(Provider::Gpu(gpu).get_info(), gpu.get_info());
}

#[test]
fn provider_kinds() {
    assert_eq!(Provider::Time(TimeInfo::new(0, 0)).kind(), SourceKind::Time);
    assert_eq!(Provider::Cpu(CpuInfo::new(0, 0)).kind(), SourceKind::Cpu);
    assert_eq!(Provider::Ram(RamInfo::new(0, 0)).kind(), SourceKind::Ram);
    assert_eq!(Provider::Gpu(GpuInfo::new(None, None, None, None)).kind(), SourceKind::Gpu);
}
