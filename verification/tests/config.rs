use chatbox_status::{ConfigError, Configuration, SourceKind, DEFAULT_INTERVAL};

#[test]
fn zero_interval_is_turned_down() {
    assert_eq!(Configuration::new(true, true, true, true, 0).err(), Some(ConfigError::ZeroInterval));
    assert_eq!(Configuration::new(false, false, false, false, 0).err(), Some(ConfigError::ZeroInterval));
}

#[test]
fn any_positive_interval_is_taken() {
    for interval in [1, 3, 60, u64::MAX] {
        let config = Configuration::new(true, true, true, true, interval).unwrap();
        assert_eq!(config.interval(), interval);
    }
}

#[test]
fn default_interval_is_three_seconds() {
    assert_eq!(DEFAULT_INTERVAL, 3);
}

#[test]
fn registry_of_all_sources() {
    let config = Configuration::new(true, true, true, true, 3).unwrap();
    assert_eq!(
        config.sources(),
        vec![SourceKind::Time, SourceKind::Cpu, SourceKind::Ram, SourceKind::Gpu]
    );
}

#[test]
fn registry_of_no_source() {
    let config = Configuration::new(false, false, false, false, 3).unwrap();
    assert_eq!(config.sources(), Vec::new());
}

#[test]
fn registry_keeps_the_reporting_order() {
    let config = Configuration::new(false, true, false, true, 3).unwrap();
    assert_eq!(config.sources(), vec![SourceKind::Cpu, SourceKind::Gpu]);
    let config = Configuration::new(true, false, true, false, 3).unwrap();
    assert_eq!(config.sources(), vec![SourceKind::Time, SourceKind::Ram]);
    let config = Configuration::new(true, false, false, false, 1).unwrap();
    assert_eq!(config.sources(), vec![SourceKind::Time]);
}

#[test]
fn registry_lists_what_is_enabled() {
    let kinds = [SourceKind::Time, SourceKind::Cpu, SourceKind::Ram, SourceKind::Gpu];
    for mask in 0..16u32 {
        let on = |bit: u32| mask & (1 << bit) != 0;
        let config = Configuration::new(on(0), on(1), on(2), on(3), 3).unwrap();
        let listed = config.sources();
        for (bit, kind) in kinds.iter().enumerate() {
            assert_eq!(config.is_enabled(*kind), on(bit as u32));
            assert_eq!(listed.contains(kind), on(bit as u32));
        }
        assert_eq!(listed.len() as u32, mask.count_ones());
    }
}
