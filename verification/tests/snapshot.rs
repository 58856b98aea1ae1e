use chatbox_status::{get_info, CpuInfo, GpuInfo, Info, Provider, RamInfo, TimeInfo};

const GIB: u64 = 1 << 30;

fn silent() -> Provider {
    // A clock whose offset is out of range reports nothing.
    Provider::Time(TimeInfo::new(0, 86_400))
}

fn all_four() -> Vec<Provider> {
    vec![
        Provider::Time(TimeInfo::new(1_700_000_000, 3_600)),
        Provider::Cpu(CpuInfo::new(1234, 321)),
        Provider::Ram(RamInfo::new(8_800_000_000, 16_000_000_000)),
        Provider::Gpu(GpuInfo::new(Some(37), Some(45_123), Some(61), Some((2 * GIB, 8 * GIB)))),
    ]
}

#[test]
fn cpu_and_ram_make_two_lines() {
    let providers = vec![
        Provider::Cpu(CpuInfo::new(1234, 321)),
        Provider::Ram(RamInfo::new(8_800_000_000, 16_000_000_000)),
    ];
    assert_eq!(get_info(&providers), "CPU: 12.34%, Processes: 321\nRAM: 8.2 GiB (55.00%)");
}

#[test]
fn no_provider_makes_an_empty_snapshot() {
    assert_eq!(get_info(&Vec::new()), "");
}

#[test]
fn one_provider_stands_alone() {
    let providers = vec![Provider::Cpu(CpuInfo::new(1234, 321))];
    assert_eq!(get_info(&providers), "CPU: 12.34%, Processes: 321");
}

#[test]
fn all_four_in_reporting_order() {
    assert_eq!(
        get_info(&all_four()),
        "11/14/2023 23:13:20 UTC+01:00:00\n\
         CPU: 12.34%, Processes: 321\n\
         RAM: 8.2 GiB (55.00%)\n\
         GPU: 37% (45.123W, 61°C)\n\
         2.0 GiB (25.00%)"
    );
}

#[test]
fn one_line_per_source_in_the_order_given() {
    let providers = vec![
        Provider::Ram(RamInfo::new(512, 1024)),
        Provider::Time(TimeInfo::new(0, 0)),
        Provider::Cpu(CpuInfo::new(1, 2)),
    ];
    let text = get_info(&providers);
    let lines: Vec<&str> = text.split('\n').collect();
    let reports: Vec<String> = providers.iter().map(|p| p.get_info()).collect();
    assert_eq!(lines, reports);
}

#[test]
fn a_silent_source_is_passed_over() {
    let cpu = Provider::Cpu(CpuInfo::new(1234, 321));
    let ram = Provider::Ram(RamInfo::new(512, 1024));
    let both = "CPU: 12.34%, Processes: 321\nRAM: 512 B (50.00%)";
    assert_eq!(silent().get_info(), "");
    assert_eq!(get_info(&vec![silent(), cpu, ram]), both);
    assert_eq!(get_info(&vec![cpu, silent(), ram]), both);
    assert_eq!(get_info(&vec![cpu, ram, silent()]), both);
    assert_eq!(get_info(&vec![silent(), cpu, silent(), silent(), ram, silent()]), both);
}

#[test]
fn only_silent_sources_make_an_empty_snapshot() {
    assert_eq!(get_info(&vec![silent()]), "");
    assert_eq!(get_info(&vec![silent(), silent(), silent()]), "");
}

#[test]
fn snapshot_has_no_stray_newline() {
    for providers in [all_four(), vec![silent(), all_four()[1], silent(), all_four()[3], silent()]] {
        let text = get_info(&providers);
        assert!(!text.starts_with('\n'));
        assert!(!text.ends_with('\n'));
        assert!(!text.contains("\n\n"));
    }
}

#[test]
fn last_character_is_kept() {
    let text = get_info(&vec![Provider::Ram(RamInfo::new(512, 1024))]);
    assert!(text.ends_with("%)"));
}

#[test]
fn same_samples_make_the_same_snapshot() {
    let first = get_info(&all_four());
    let second = get_info(&all_four());
    assert_eq!(first.as_bytes(), second.as_bytes());
}
