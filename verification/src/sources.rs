//! The metric sources: what each one holds of its latest sample, and the
//! line of text it reports.

use vstd::prelude::*;
use std::fmt::Write;
use chrono::TimeZone;
use crate::config::SourceKind;
use crate::digits::{
    decimal, fixed_point, lemma_decimal_nul_free, lemma_fixed_point_nul_free, push_decimal,
    push_fixed_point,
};
use crate::percent::{lemma_percent_nul_free, percent_text, push_percent};
use crate::text::{lemma_nul_free_concat, nul_free};

verus! {

/// What `bytesize::to_string` writes for a number of bytes: the plain count
/// and `B` below the first unit, else one decimal and a unit. With `binary`
/// the units are powers of 1024, named `kiB`, `MiB`, `GiB` and so on;
/// without, powers of 1000, named `KB`, `MB`, `GB`.
pub uninterp spec fn size_text(bytes: u64, binary: bool) -> Seq<char>;

/// What chrono writes for the moment `timestamp` seconds after the Unix
/// epoch, seen `offset` seconds east of UTC, under the strftime pattern
/// `format`; `None` where chrono cannot hold the offset or the moment, or
/// refuses the pattern.
pub uninterp spec fn time_text(timestamp: i64, offset: i32, format: Seq<char>) -> Option<Seq<char>>;

/// Calls `bytesize::to_string(bytes, binary)`. The result is named
/// [`size_text`]. Below the first unit (1024 bytes if `binary`, else 1000)
/// it is the plain count followed by `" B"`, as the function's first branch
/// writes it. In both branches the function writes digits, a point, a
/// space and letters of the unit and nothing else, so no NUL character.
#[verifier::external_body]
fn human_size(bytes: u64, binary: bool) -> (text: String)
    ensures
        text@ == size_text(bytes, binary),
        bytes < (if binary { 1024u64 } else { 1000u64 }) ==> text@ == decimal(bytes as nat) + seq![' ', 'B'],
        nul_free(text@),
{
    bytesize::to_string(bytes, binary)
}

/// Builds the moment with `chrono::FixedOffset::east_opt` and
/// `TimeZone::timestamp_opt`, then writes `DateTime::format(format)` into a
/// string. The result is named [`time_text`]; a refusal at any of the three
/// steps comes back as `None`. Chrono writes the pattern's own characters
/// and, for each specifier, digits, signs, separators and English names:
/// for a pattern without a NUL character, text without one.
#[verifier::external_body]
fn format_moment(timestamp: i64, offset: i32, format: &str) -> (text: Option<String>)
    ensures
        match text {
            Some(t) => time_text(timestamp, offset, format@) == Some(t@) && (nul_free(format@)
                ==> nul_free(t@)),
            None => time_text(timestamp, offset, format@) is None,
        },
{
    let zone = chrono::FixedOffset::east_opt(offset)?;
    let moment = zone.timestamp_opt(timestamp, 0).single()?;
    let mut text = String::new();
    write!(text, "{}", moment.format(format)).ok()?;
    Some(text)
}

/// A source of one metric: it reports its latest sample as text.
pub trait Info {
    /// The text this source reports.
    spec fn line(&self) -> Seq<char>;

    /// Writes out [`Info::line`]. What comes back holds no NUL character,
    /// so it can travel as an OSC string.
    fn get_info(&self) -> (info: String)
        ensures
            info@ == self.line(),
            nul_free(info@),
    ;
}

/// The strftime pattern of the clock line: date, time of day, and the
/// offset from UTC down to the second.
pub open spec fn time_format() -> Seq<char> {
    "%m/%d/%Y %H:%M:%S UTC%::z"@
}

/// The wall clock: a moment and the local offset from UTC.
#[derive(Clone, Copy, Debug, PartialEq, Eq)]
pub struct TimeInfo {
    /// Seconds since the Unix epoch.
    pub timestamp: i64,
    /// Seconds that local time is ahead of UTC.
    pub offset: i32,
}

impl TimeInfo {
    pub fn new(timestamp: i64, offset: i32) -> (info: Self)
        ensures
            info.timestamp == timestamp,
            info.offset == offset,
    {
        TimeInfo { timestamp, offset }
    }
}

impl Info for TimeInfo {
    /// `MM/DD/YYYY HH:MM:SS UTC±HH:MM:SS` in local time; nothing where the
    /// moment or the offset is out of the calendar's range.
    open spec fn line(&self) -> Seq<char> {
        match time_text(self.timestamp, self.offset, time_format()) {
            Some(text) => text,
            None => Seq::empty(),
        }
    }

    fn get_info(&self) -> (info: String) {
        proof {
            reveal_strlit("%m/%d/%Y %H:%M:%S UTC%::z");
            assert(nul_free(time_format()));
        }
        match format_moment(self.timestamp, self.offset, "%m/%d/%Y %H:%M:%S UTC%::z") {
            Some(text) => text,
            None => String::new(),
        }
    }
}

/// Processor load and the size of the process table.
#[derive(Clone, Copy, Debug, PartialEq, Eq)]
pub struct CpuInfo {
    /// Utilization in hundredths of a percent.
    pub usage_hundredths: u32,
    /// Number of processes.
    pub processes: usize,
}

impl CpuInfo {
    pub fn new(usage_hundredths: u32, processes: usize) -> (info: Self)
        ensures
            info.usage_hundredths == usage_hundredths,
            info.processes == processes,
    {
        CpuInfo { usage_hundredths, processes }
    }
}

impl Info for CpuInfo {
    /// `CPU: 12.34%, Processes: 321`
    open spec fn line(&self) -> Seq<char> {
        "CPU: "@ + fixed_point(self.usage_hundredths as nat, 2) + "%, Processes: "@ + decimal(
            self.processes as nat,
        )
    }

    fn get_info(&self) -> (info: String) {
        let mut out = String::new();
        out.append("CPU: ");
        push_fixed_point(&mut out, self.usage_hundredths as u128, 2);
        out.append("%, Processes: ");
        push_decimal(&mut out, self.processes as u128);
        assert(out@ =~= self.line());
        proof {
            lemma_cpu_line_nul_free(*self);
        }
        out
    }
}

/// The processor line holds no NUL character.
pub proof fn lemma_cpu_line_nul_free(info: CpuInfo)
    ensures
        nul_free(info.line()),
{
    let load = fixed_point(info.usage_hundredths as nat, 2);
    let count = decimal(info.processes as nat);
    reveal_strlit("CPU: ");
    reveal_strlit("%, Processes: ");
    assert(nul_free("CPU: "@));
    assert(nul_free("%, Processes: "@));
    lemma_fixed_point_nul_free(info.usage_hundredths as nat, 2);
    lemma_decimal_nul_free(info.processes as nat);
    lemma_nul_free_concat("CPU: "@, load);
    lemma_nul_free_concat("CPU: "@ + load, "%, Processes: "@);
    lemma_nul_free_concat("CPU: "@ + load + "%, Processes: "@, count);
}

/// Memory in use and memory installed, in bytes.
#[derive(Clone, Copy, Debug, PartialEq, Eq)]
pub struct RamInfo {
    pub used: u64,
    pub total: u64,
}

impl RamInfo {
    pub fn new(used: u64, total: u64) -> (info: Self)
        ensures
            info.used == used,
            info.total == total,
    {
        RamInfo { used, total }
    }
}

/// The size of a memory as the memory lines show it: the plain count and
/// `B` below 1024 bytes, and from there on what [`size_text`] names, in
/// units of 1024.
pub open spec fn memory_size_text(bytes: u64) -> Seq<char> {
    if bytes < 1024 {
        decimal(bytes as nat) + " B"@
    } else {
        size_text(bytes, true)
    }
}

/// The memory line around a given size text.
pub open spec fn ram_text(size: Seq<char>, used: nat, total: nat) -> Seq<char> {
    "RAM: "@ + size + " ("@ + percent_text(used, total) + "%)"@
}

/// The memory line holds no NUL character unless the size text does.
pub proof fn lemma_ram_text_nul_free(size: Seq<char>, used: nat, total: nat)
    requires
        nul_free(size),
    ensures
        nul_free(ram_text(size, used, total)),
{
    let share = percent_text(used, total);
    reveal_strlit("RAM: ");
    reveal_strlit(" (");
    reveal_strlit("%)");
    assert(nul_free("RAM: "@));
    assert(nul_free(" ("@));
    assert(nul_free("%)"@));
    lemma_percent_nul_free(used, total);
    lemma_nul_free_concat("RAM: "@, size);
    lemma_nul_free_concat("RAM: "@ + size, " ("@);
    lemma_nul_free_concat("RAM: "@ + size + " ("@, share);
    lemma_nul_free_concat("RAM: "@ + size + " ("@ + share, "%)"@);
}

/// The memory line for `used` bytes out of `total`, with `size` standing
/// for the memory in use: `RAM: 8.2 GiB (55.00%)`. Without a total the
/// share is left empty.
pub fn ram_line(size: &str, used: u64, total: u64) -> (line: String)
    ensures
        line@ == ram_text(size@, used as nat, total as nat),
        nul_free(size@) ==> nul_free(line@),
{
    let mut out = String::new();
    out.append("RAM: ");
    out.append(size);
    out.append(" (");
    push_percent(&mut out, used, total);
    out.append("%)");
    assert(out@ =~= ram_text(size@, used as nat, total as nat));
    proof {
        if nul_free(size@) {
            lemma_ram_text_nul_free(size@, used as nat, total as nat);
        }
    }
    out
}

/// The size of a memory in readable units.
fn memory_size(bytes: u64) -> (size: String)
    ensures
        size@ == memory_size_text(bytes),
        nul_free(size@),
{
    let size = human_size(bytes, true);
    proof {
        reveal_strlit(" B");
        assert(" B"@ =~= seq![' ', 'B']);
    }
    size
}

impl Info for RamInfo {
    /// `RAM: 8.2 GiB (55.00%)`
    open spec fn line(&self) -> Seq<char> {
        ram_text(memory_size_text(self.used), self.used as nat, self.total as nat)
    }

    fn get_info(&self) -> (info: String) {
        let size = memory_size(self.used);
        ram_line(size.as_str(), self.used, self.total)
    }
}

/// One graphics device: load, power draw, temperature and memory. A
/// reading that the device did not give is `None`.
#[derive(Clone, Copy, Debug, PartialEq, Eq)]
pub struct GpuInfo {
    /// Utilization in whole percent.
    pub utilization: Option<u32>,
    /// Power draw in milliwatts.
    pub power_milliwatts: Option<u32>,
    /// Temperature in degrees Celsius.
    pub temperature: Option<u32>,
    /// Device memory in bytes: in use, then installed.
    pub memory: Option<(u64, u64)>,
}

impl GpuInfo {
    pub fn new(
        utilization: Option<u32>,
        power_milliwatts: Option<u32>,
        temperature: Option<u32>,
        memory: Option<(u64, u64)>,
    ) -> (info: Self)
        ensures
            info.utilization == utilization,
            info.power_milliwatts == power_milliwatts,
            info.temperature == temperature,
            info.memory == memory,
    {
        GpuInfo { utilization, power_milliwatts, temperature, memory }
    }

    /// The load in whole percent; nothing without a reading.
    pub open spec fn utilization_text(&self) -> Seq<char> {
        match self.utilization {
            Some(load) => decimal(load as nat),
            None => Seq::empty(),
        }
    }

    /// The power draw in watts, to the milliwatt; nothing without a reading.
    pub open spec fn power_text(&self) -> Seq<char> {
        match self.power_milliwatts {
            Some(draw) => fixed_point(draw as nat, 3),
            None => Seq::empty(),
        }
    }

    /// `, 45°C`; left out altogether without a reading.
    pub open spec fn temperature_text(&self) -> Seq<char> {
        match self.temperature {
            Some(degrees) => ", "@ + decimal(degrees as nat) + "°C"@,
            None => Seq::empty(),
        }
    }

    /// The memory in use, in readable units; nothing without a reading.
    pub open spec fn memory_text(&self) -> Seq<char> {
        match self.memory {
            Some((used, _)) => memory_size_text(used),
            None => Seq::empty(),
        }
    }

    /// The memory in use as a percentage of what is installed; nothing
    /// without a reading, and nothing where nothing is installed.
    pub open spec fn memory_percent_text(&self) -> Seq<char> {
        match self.memory {
            Some((used, total)) => percent_text(used as nat, total as nat),
            None => Seq::empty(),
        }
    }

    /// The first of the two lines, up to and with its newline.
    pub open spec fn load_text(&self) -> Seq<char> {
        "GPU: "@ + self.utilization_text() + "% ("@ + self.power_text() + "W"@
            + self.temperature_text() + ")\n"@
    }
}

/// The two lines of a graphics device around a given size text: `GPU: 37%
/// (45.123W, 61°C)`, then `2.0 GiB (25.00%)`. A missing temperature takes
/// its comma and unit with it; any other missing reading leaves its place
/// empty.
pub open spec fn gpu_text(info: GpuInfo, size: Seq<char>) -> Seq<char> {
    info.load_text() + size + " ("@ + info.memory_percent_text() + "%)"@
}

/// The first line of a graphics device holds no NUL character.
pub proof fn lemma_load_text_nul_free(info: GpuInfo)
    ensures
        nul_free(info.load_text()),
{
    let load = info.utilization_text();
    let draw = info.power_text();
    let heat = info.temperature_text();
    reveal_strlit("GPU: ");
    reveal_strlit("% (");
    reveal_strlit("W");
    reveal_strlit(", ");
    reveal_strlit("°C");
    reveal_strlit(")\n");
    assert(nul_free("GPU: "@));
    assert(nul_free("% ("@));
    assert(nul_free("W"@));
    assert(nul_free(", "@));
    assert(nul_free("°C"@));
    assert(nul_free(")\n"@));
    assert(nul_free(load)) by {
        if let Some(percent) = info.utilization {
            lemma_decimal_nul_free(percent as nat);
        }
    }
    assert(nul_free(draw)) by {
        if let Some(milliwatts) = info.power_milliwatts {
            lemma_fixed_point_nul_free(milliwatts as nat, 3);
        }
    }
    assert(nul_free(heat)) by {
        if let Some(degrees) = info.temperature {
            lemma_decimal_nul_free(degrees as nat);
            lemma_nul_free_concat(", "@, decimal(degrees as nat));
            lemma_nul_free_concat(", "@ + decimal(degrees as nat), "°C"@);
        }
    }
    lemma_nul_free_concat("GPU: "@, load);
    lemma_nul_free_concat("GPU: "@ + load, "% ("@);
    lemma_nul_free_concat("GPU: "@ + load + "% ("@, draw);
    lemma_nul_free_concat("GPU: "@ + load + "% ("@ + draw, "W"@);
    lemma_nul_free_concat("GPU: "@ + load + "% ("@ + draw + "W"@, heat);
    lemma_nul_free_concat("GPU: "@ + load + "% ("@ + draw + "W"@ + heat, ")\n"@);
}

/// The lines of a graphics device hold no NUL character unless the size
/// text does.
pub proof fn lemma_gpu_text_nul_free(info: GpuInfo, size: Seq<char>)
    requires
        nul_free(size),
    ensures
        nul_free(gpu_text(info, size)),
{
    let head = info.load_text();
    let share = info.memory_percent_text();
    reveal_strlit(" (");
    reveal_strlit("%)");
    assert(nul_free(" ("@));
    assert(nul_free("%)"@));
    lemma_load_text_nul_free(info);
    assert(nul_free(share)) by {
        if let Some((used, total)) = info.memory {
            lemma_percent_nul_free(used as nat, total as nat);
        }
    }
    lemma_nul_free_concat(head, size);
    lemma_nul_free_concat(head + size, " ("@);
    lemma_nul_free_concat(head + size + " ("@, share);
    lemma_nul_free_concat(head + size + " ("@ + share, "%)"@);
}

/// The two lines of the graphics device `info`, with `size` standing for
/// the memory in use.
pub fn gpu_line(info: &GpuInfo, size: &str) -> (line: String)
    ensures
        line@ == gpu_text(*info, size@),
        nul_free(size@) ==> nul_free(line@),
{
    let mut out = String::new();
    out.append("GPU: ");
    if let Some(load) = info.utilization {
        push_decimal(&mut out, load as u128);
    }
    out.append("% (");
    if let Some(draw) = info.power_milliwatts {
        push_fixed_point(&mut out, draw as u128, 3);
    }
    out.append("W");
    if let Some(degrees) = info.temperature {
        out.append(", ");
        push_decimal(&mut out, degrees as u128);
        out.append("°C");
    }
    out.append(")\n");
    assert(out@ =~= info.load_text());
    out.append(size);
    out.append(" (");
    if let Some((used, total)) = info.memory {
        push_percent(&mut out, used, total);
    }
    out.append("%)");
    assert(out@ =~= gpu_text(*info, size@));
    proof {
        if nul_free(size@) {
            lemma_gpu_text_nul_free(*info, size@);
        }
    }
    out
}

impl Info for GpuInfo {
    /// `GPU: 37% (45.123W, 61°C)`, then `2.0 GiB (25.00%)`
    open spec fn line(&self) -> Seq<char> {
        gpu_text(*self, self.memory_text())
    }

    fn get_info(&self) -> (info: String) {
        let size = match self.memory {
            Some((used, _)) => memory_size(used),
            None => String::new(),
        };
        gpu_line(self, size.as_str())
    }
}

/// Any one of the four sources.
#[derive(Clone, Copy, Debug, PartialEq, Eq)]
pub enum Provider {
    Time(TimeInfo),
    Cpu(CpuInfo),
    Ram(RamInfo),
    Gpu(GpuInfo),
}

impl Provider {
    /// The kind of source behind this provider.
    pub open spec fn spec_kind(&self) -> SourceKind {
        match self {
            Provider::Time(_) => SourceKind::Time,
            Provider::Cpu(_) => SourceKind::Cpu,
            Provider::Ram(_) => SourceKind::Ram,
            Provider::Gpu(_) => SourceKind::Gpu,
        }
    }

    /// The kind of source behind this provider.
    #[verifier::when_used_as_spec(spec_kind)]
    pub fn kind(&self) -> (kind: SourceKind)
        ensures
            kind == self.spec_kind(),
    {
        match self {
            Provider::Time(_) => SourceKind::Time,
            Provider::Cpu(_) => SourceKind::Cpu,
            Provider::Ram(_) => SourceKind::Ram,
            Provider::Gpu(_) => SourceKind::Gpu,
        }
    }
}

impl Info for Provider {
    open spec fn line(&self) -> Seq<char> {
        match self {
            Provider::Time(source) => source.line(),
            Provider::Cpu(source) => source.line(),
            Provider::Ram(source) => source.line(),
            Provider::Gpu(source) => source.line(),
        }
    }

    fn get_info(&self) -> (info: String) {
        match self {
            Provider::Time(source) => source.get_info(),
            Provider::Cpu(source) => source.get_info(),
            Provider::Ram(source) => source.get_info(),
            Provider::Gpu(source) => source.get_info(),
        }
    }
}

} // verus!
