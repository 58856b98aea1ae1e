//! The configuration: which sources are on, and how often to poll.

use vstd::prelude::*;

verus! {

/// The four kinds of source, in the order in which they report.
#[derive(Clone, Copy, Debug, PartialEq, Eq, Structural)]
pub enum SourceKind {
    Time,
    Cpu,
    Ram,
    Gpu,
}

/// Why a configuration was turned down.
#[derive(Clone, Copy, Debug, PartialEq, Eq, Structural)]
pub enum ConfigError {
    /// The poll interval must be at least one second.
    ZeroInterval,
}

/// The poll interval, in seconds, where none is asked for.
pub const DEFAULT_INTERVAL: u64 = 3;

/// A configuration as the contracts see it.
pub struct ConfigurationView {
    /// The sources that are switched on.
    pub enabled: Set<SourceKind>,
    /// Seconds between two polls.
    pub interval: nat,
}

/// Which sources are switched on, and the seconds between two polls. Made
/// once and never changed; the interval is at least one second.
#[derive(Clone, Copy, Debug)]
pub struct Configuration {
    time: bool,
    cpu: bool,
    ram: bool,
    gpu: bool,
    interval: u64,
}

/// `seq![kind]` where `kind` is switched on, nothing where it is not.
pub open spec fn pick(enabled: Set<SourceKind>, kind: SourceKind) -> Seq<SourceKind> {
    if enabled.contains(kind) {
        seq![kind]
    } else {
        Seq::empty()
    }
}

/// The registry of a set of sources: those of the four kinds that are
/// switched on, in the order time, CPU, RAM, GPU.
pub open spec fn registry(enabled: Set<SourceKind>) -> Seq<SourceKind> {
    pick(enabled, SourceKind::Time) + pick(enabled, SourceKind::Cpu) + pick(
        enabled,
        SourceKind::Ram,
    ) + pick(enabled, SourceKind::Gpu)
}

/// The place of a kind in the reporting order.
pub open spec fn rank(kind: SourceKind) -> int {
    match kind {
        SourceKind::Time => 0,
        SourceKind::Cpu => 1,
        SourceKind::Ram => 2,
        SourceKind::Gpu => 3,
    }
}

impl View for Configuration {
    type V = ConfigurationView;

    closed spec fn view(&self) -> ConfigurationView {
        ConfigurationView {
            enabled: Set::new(
                |kind: SourceKind|
                    match kind {
                        SourceKind::Time => self.time,
                        SourceKind::Cpu => self.cpu,
                        SourceKind::Ram => self.ram,
                        SourceKind::Gpu => self.gpu,
                    },
            ),
            interval: self.interval as nat,
        }
    }
}

impl Configuration {
    #[verifier::type_invariant]
    spec fn interval_is_positive(&self) -> bool {
        self.interval >= 1
    }

    /// A configuration with the given sources switched on that polls every
    /// `interval` seconds. An interval of zero is turned down.
    pub fn new(time: bool, cpu: bool, ram: bool, gpu: bool, interval: u64) -> (made: Result<
        Configuration,
        ConfigError,
    >)
        ensures
            match made {
                Ok(config) => {
                    &&& interval >= 1
                    &&& config@.interval == interval
                    &&& config@.enabled.contains(SourceKind::Time) == time
                    &&& config@.enabled.contains(SourceKind::Cpu) == cpu
                    &&& config@.enabled.contains(SourceKind::Ram) == ram
                    &&& config@.enabled.contains(SourceKind::Gpu) == gpu
                },
                Err(error) => interval == 0 && error == ConfigError::ZeroInterval,
            },
    {
        if interval == 0 {
            Err(ConfigError::ZeroInterval)
        } else {
            Ok(Configuration { time, cpu, ram, gpu, interval })
        }
    }

    /// Seconds between two polls.
    pub fn interval(&self) -> (seconds: u64)
        ensures
            seconds == self@.interval,
            seconds >= 1,
    {
        proof {
            use_type_invariant(self);
        }
        self.interval
    }

    /// Whether the source of this kind is switched on.
    pub fn is_enabled(&self, kind: SourceKind) -> (on: bool)
        ensures
            on == self@.enabled.contains(kind),
    {
        match kind {
            SourceKind::Time => self.time,
            SourceKind::Cpu => self.cpu,
            SourceKind::Ram => self.ram,
            SourceKind::Gpu => self.gpu,
        }
    }

    /// The registry: the kinds that are switched on, in reporting order.
    pub fn sources(&self) -> (kinds: Vec<SourceKind>)
        ensures
            kinds@ == registry(self@.enabled),
    {
        let mut kinds: Vec<SourceKind> = Vec::new();
        if self.time {
            kinds.push(SourceKind::Time);
        }
        if self.cpu {
            kinds.push(SourceKind::Cpu);
        }
        if self.ram {
            kinds.push(SourceKind::Ram);
        }
        if self.gpu {
            kinds.push(SourceKind::Gpu);
        }
        assert(kinds@ =~= registry(self@.enabled));
        kinds
    }
}

/// The registry lists exactly the sources that are switched on, each once,
/// in reporting order.
pub proof fn lemma_registry(enabled: Set<SourceKind>)
    ensures
        forall|kind: SourceKind| registry(enabled).contains(kind) <==> enabled.contains(kind),
        forall|i: int, j: int|
            0 <= i < j < registry(enabled).len() ==> rank(registry(enabled)[i]) < rank(
                registry(enabled)[j],
            ),
        registry(enabled).len() == 0 <==> forall|kind: SourceKind| !enabled.contains(kind),
{
    let listed = registry(enabled);
    let time = pick(enabled, SourceKind::Time);
    let cpu = pick(enabled, SourceKind::Cpu);
    let ram = pick(enabled, SourceKind::Ram);
    let gpu = pick(enabled, SourceKind::Gpu);
    assert forall|kind: SourceKind| enabled.contains(kind) implies listed.contains(kind) by {
        let at = match kind {
            SourceKind::Time => 0,
            SourceKind::Cpu => time.len() as int,
            SourceKind::Ram => (time.len() + cpu.len()) as int,
            SourceKind::Gpu => (time.len() + cpu.len() + ram.len()) as int,
        };
        assert(listed[at] == kind);
    }
    assert forall|kind: SourceKind| listed.contains(kind) implies enabled.contains(kind) by {
        let at = choose|i: int| 0 <= i < listed.len() && listed[i] == kind;
        assert(listed[at] == kind);
    }
    if listed.len() == 0 {
        assert forall|kind: SourceKind| !enabled.contains(kind) by {
            if enabled.contains(kind) {
                assert(listed.contains(kind));
            }
        }
    }
}

} // verus!
