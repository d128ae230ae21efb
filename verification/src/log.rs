//! What goes to the event log, and the stack monitor that writes there.

use vstd::prelude::*;
use vstd::string::*;

use crate::text::push_decimal;

verus! {

/// How serious a line is.
#[derive(Clone, Copy, PartialEq, Eq, Structural, Debug)]
pub enum Level {
    Info,
    Warning,
    Error,
}

/// One line for the event log.
pub struct Line {
    pub level: Level,
    pub text: String,
}

/// A line as its level and its characters.
pub open spec fn line_view(l: Line) -> (Level, Seq<char>) {
    (l.level, l.text@)
}

/// Event log source of the service.
pub const EVENT_SOURCE_SERVICE: &'static str = "HpThermal-Service";
/// Event log source of the tray.
pub const EVENT_SOURCE_TRAY: &'static str = "HpThermal-Tray";

/// The event log source of a process: the service calls itself "svc".
pub open spec fn source_of(label: Seq<char>) -> Seq<char> {
    if label == "svc"@ {
        EVENT_SOURCE_SERVICE@
    } else {
        EVENT_SOURCE_TRAY@
    }
}

/// The event log source of a process.
pub fn source_name(label: &str) -> (out: String)
    ensures
        out@ == source_of(label@),
{
    if label.to_owned() == "svc".to_owned() {
        EVENT_SOURCE_SERVICE.to_owned()
    } else {
        EVENT_SOURCE_TRAY.to_owned()
    }
}

/// Number of bins of the stack histogram.
pub const STACK_NUM_BINS: usize = 8;

/// What the stack monitor has seen so far.
#[derive(Clone, Copy)]
pub struct StackMonitor {
    /// Samples are taken only while this is set.
    pub on: bool,
    /// Every sample writes a line while this is set.
    pub verbose: bool,
    /// How many samples fell into each bin of committed size.
    pub bins: [u32; 8],
    /// Largest committed size, in bytes.
    pub peak: usize,
    /// Largest depth, in bytes.
    pub depth_peak: usize,
    /// Number of samples.
    pub samples: u32,
    /// Number of samples in the last bin: the stack is close to its reserve.
    pub overflows: u32,
}

/// The bin of a committed size in KB: below 4 KB, a power of two each from 4 KB
/// on, and the last for 256 KB and more.
pub open spec fn bin_of(kb: int) -> int {
    if kb < 4 {
        0
    } else if kb < 8 {
        1
    } else if kb < 16 {
        2
    } else if kb < 32 {
        3
    } else if kb < 64 {
        4
    } else if kb < 128 {
        5
    } else if kb < 256 {
        6
    } else {
        7
    }
}

/// How the bins are called.
pub open spec fn bin_label(bin: int) -> Seq<char> {
    if bin == 0 {
        "<4K"@
    } else if bin == 1 {
        "4-8K"@
    } else if bin == 2 {
        "8-16K"@
    } else if bin == 3 {
        "16-32K"@
    } else if bin == 4 {
        "32-64K"@
    } else if bin == 5 {
        "64-128K"@
    } else if bin == 6 {
        "128-256K"@
    } else {
        "256K+!"@
    }
}

fn label_of_bin(bin: usize) -> (s: &'static str)
    requires
        bin < STACK_NUM_BINS,
    ensures
        s@ == bin_label(bin as int),
{
    match bin {
        0 => "<4K",
        1 => "4-8K",
        2 => "8-16K",
        3 => "16-32K",
        4 => "32-64K",
        5 => "64-128K",
        6 => "128-256K",
        _ => "256K+!",
    }
}

fn bin_for(kb: usize) -> (bin: usize)
    ensures
        bin == bin_of(kb as int),
        bin < STACK_NUM_BINS,
{
    let mut bin: usize = 0;
    let mut limit: usize = 4;
    while bin < STACK_NUM_BINS - 1 && kb >= limit
        invariant
            bin <= STACK_NUM_BINS - 1,
            bin == 0 ==> limit == 4,
            bin == 1 ==> limit == 8,
            bin == 2 ==> limit == 16,
            bin == 3 ==> limit == 32,
            bin == 4 ==> limit == 64,
            bin == 5 ==> limit == 128,
            bin == 6 ==> limit == 256,
            bin == 7 ==> limit == 512,
            bin > 0 ==> 2 * kb >= limit,
        decreases STACK_NUM_BINS - bin,
    {
        bin = bin + 1;
        limit = limit * 2;
    }
    bin
}

/// The sum of the bins.
pub open spec fn total_of(bins: Seq<u32>) -> int
    decreases bins.len(),
{
    if bins.len() == 0 {
        0
    } else {
        total_of(bins.drop_last()) + bins.last()
    }
}

/// `n` modulo the width of the counters.
pub open spec fn wrapped(n: int) -> u32 {
    (n % 0x1_0000_0000) as u32
}

impl StackMonitor {
    /// The last bin is counted twice, and the bins add up to the samples, modulo
    /// the width of the counters.
    pub open spec fn wf(self) -> bool {
        &&& self.overflows == self.bins[7]
        &&& wrapped(total_of(self.bins@)) == self.samples
    }

    /// What one sample makes of the monitor.
    pub open spec fn sampled(self, committed: usize, depth: usize, after: StackMonitor) -> bool {
        let bin = bin_of(committed as int / 1024);
        &&& after.on == self.on
        &&& after.verbose == self.verbose
        &&& after.bins@ == self.bins@.update(bin, wrapped(self.bins[bin] + 1))
        &&& after.peak == if committed > self.peak {
            committed
        } else {
            self.peak
        }
        &&& after.depth_peak == if depth > self.depth_peak {
            depth
        } else {
            self.depth_peak
        }
        &&& after.samples == wrapped(self.samples + 1)
        &&& after.overflows == if bin == 7 {
            wrapped(self.overflows + 1)
        } else {
            self.overflows
        }
    }

    /// A monitor that has seen nothing yet and is switched off.
    pub fn new() -> (m: StackMonitor)
        ensures
            m.wf(),
            !m.on,
            !m.verbose,
            m.samples == 0,
            m.peak == 0,
            m.depth_peak == 0,
            m.overflows == 0,
            m.bins@ == seq![0u32, 0u32, 0u32, 0u32, 0u32, 0u32, 0u32, 0u32],
    {
        let m = StackMonitor {
            on: false,
            verbose: false,
            bins: [0, 0, 0, 0, 0, 0, 0, 0],
            peak: 0,
            depth_peak: 0,
            samples: 0,
            overflows: 0,
        };
        proof {
            reveal_with_fuel(total_of, 9);
            assert(total_of(m.bins@) == 0);
        }
        m
    }
}

proof fn total_of_update(bins: Seq<u32>, i: int, v: u32)
    requires
        0 <= i < bins.len(),
    ensures
        total_of(bins.update(i, v)) == total_of(bins) - bins[i] + v,
    decreases bins.len(),
{
    let after = bins.update(i, v);
    if i == bins.len() - 1 {
        assert(after.drop_last() =~= bins.drop_last());
    } else {
        total_of_update(bins.drop_last(), i, v);
        assert(after.drop_last() =~= bins.drop_last().update(i, v));
    }
}

/// Whether every sample writes a line.
pub fn is_verbose(m: &StackMonitor) -> (r: bool)
    ensures
        r == m.verbose,
{
    m.verbose
}

/// Whether samples are taken.
pub fn is_stack_monitor(m: &StackMonitor) -> (r: bool)
    ensures
        r == m.on,
{
    m.on
}

/// Switches the monitor on or off and says so in the log. What it has counted
/// stays.
pub fn set_stack_monitor(m: &mut StackMonitor, on: bool) -> (line: Line)
    ensures
        *final(m) == (StackMonitor { on, ..*old(m) }),
        line_view(line) == (Level::Info, "stack monitor "@ + if on {
            "ON"@
        } else {
            "OFF"@
        }),
{
    m.on = on;
    let mut text: String = "stack monitor ".to_owned();
    text.append(
        if on {
            "ON"
        } else {
            "OFF"
        },
    );
    Line { level: Level::Info, text }
}

/// Depth of the stack, from its high end down to the stack pointer.
pub open spec fn depth_of(high: int, stack_pointer: int) -> int {
    if stack_pointer <= high {
        high - stack_pointer
    } else {
        0
    }
}

/// Depth of the stack, from its high end down to the stack pointer.
pub fn stack_depth(high: usize, stack_pointer: usize) -> (depth: usize)
    ensures
        depth == depth_of(high as int, stack_pointer as int),
{
    high.saturating_sub(stack_pointer)
}

/// A region of the stack's address range, from the low end up.
#[derive(Clone, Copy)]
pub struct Region {
    pub size: usize,
    pub committed: bool,
}

/// The end of the first `n` regions that start at `low`.
pub open spec fn regions_end(low: int, regions: Seq<Region>, n: int) -> int
    decreases n,
{
    if n <= 0 {
        low
    } else {
        regions_end(low, regions, n - 1) + regions[n - 1].size
    }
}

/// The committed bytes of those of the first `n` regions that start below `high`.
pub open spec fn committed_bytes(low: int, high: int, regions: Seq<Region>, n: int) -> int
    decreases n,
{
    if n <= 0 {
        0
    } else {
        committed_bytes(low, high, regions, n - 1) + if regions[n - 1].committed && regions_end(
            low,
            regions,
            n - 1,
        ) < high {
            regions[n - 1].size as int
        } else {
            0
        }
    }
}

proof fn regions_bounds(low: int, high: int, regions: Seq<Region>, n: int, m: int)
    requires
        0 <= n <= m,
    ensures
        regions_end(low, regions, n) <= regions_end(low, regions, m),
        0 <= committed_bytes(low, high, regions, n) <= regions_end(low, regions, n) - low,
        regions_end(low, regions, n) >= high ==> committed_bytes(low, high, regions, m)
            == committed_bytes(low, high, regions, n),
    decreases m,
{
    if n < m {
        regions_bounds(low, high, regions, n, m - 1);
    } else if n > 0 {
        regions_bounds(low, high, regions, n - 1, n - 1);
    }
}

/// The committed part of the stack between `low` and `high`, in bytes. Committed
/// pages stay committed, so this shows the deepest call so far.
pub fn stack_committed(low: usize, high: usize, regions: &[Region]) -> (bytes: usize)
    requires
        regions_end(low as int, regions@, regions@.len() as int) <= usize::MAX,
    ensures
        bytes == committed_bytes(low as int, high as int, regions@, regions@.len() as int),
{
    let mut bytes: usize = 0;
    let mut addr: usize = low;
    let mut i: usize = 0;
    let ghost count = regions@.len() as int;
    while i < regions.len() && addr < high
        invariant
            i <= regions@.len() == count,
            addr == regions_end(low as int, regions@, i as int),
            bytes == committed_bytes(low as int, high as int, regions@, i as int),
            regions_end(low as int, regions@, count) <= usize::MAX,
        decreases regions@.len() - i,
    {
        proof {
            regions_bounds(low as int, high as int, regions@, i + 1, count);
        }
        if regions[i].committed {
            bytes = bytes + regions[i].size;
        }
        addr = addr + regions[i].size;
        i = i + 1;
    }
    proof {
        regions_bounds(low as int, high as int, regions@, i as int, count);
    }
    bytes
}

/// The line that the first sample in the last bin writes.
pub open spec fn overflow_text(label: Seq<char>, kb: int) -> Seq<char> {
    "stack ["@ + label + "] hit overflow bin! committed="@ + crate::text::decimal(kb) + " KB"@
}

/// The line that every sample writes while the monitor is verbose.
pub open spec fn sample_text(
    label: Seq<char>,
    depth: int,
    kb: int,
    depth_peak: int,
    peak: int,
) -> Seq<char> {
    "stack ["@ + label + "] depth="@ + crate::text::decimal(depth / 1024) + " KB committed="@
        + crate::text::decimal(kb) + " KB peak_depth="@ + crate::text::decimal(depth_peak / 1024)
        + " KB peak_committed="@ + crate::text::decimal(peak / 1024) + " KB"@
}

/// The lines that a sample writes, given the monitor before and after it.
pub open spec fn sample_lines(
    label: Seq<char>,
    committed: usize,
    depth: usize,
    before: StackMonitor,
    after: StackMonitor,
) -> Seq<(Level, Seq<char>)> {
    let kb = committed as int / 1024;
    let first = if bin_of(kb) == 7 && before.overflows == 0 {
        seq![(Level::Warning, overflow_text(label, kb))]
    } else {
        Seq::empty()
    };
    if before.verbose {
        first.push(
            (
                Level::Info,
                sample_text(label, depth as int, kb, after.depth_peak as int, after.peak as int),
            ),
        )
    } else {
        first
    }
}

/// The lines as levels and characters.
pub open spec fn lines_view(lines: Seq<Line>) -> Seq<(Level, Seq<char>)> {
    Seq::new(lines.len(), |i: int| line_view(lines[i]))
}

fn overflow_line(label: &str, kb: usize) -> (line: Line)
    ensures
        line_view(line) == (Level::Warning, overflow_text(label@, kb as int)),
{
    let mut text: String = "stack [".to_owned();
    text.append(label);
    text.append("] hit overflow bin! committed=");
    push_decimal(&mut text, kb as u64);
    text.append(" KB");
    Line { level: Level::Warning, text }
}

fn sample_line(label: &str, depth: usize, kb: usize, depth_peak: usize, peak: usize) -> (line: Line)
    ensures
        line_view(line) == (
            Level::Info,
            sample_text(label@, depth as int, kb as int, depth_peak as int, peak as int),
        ),
{
    let mut text: String = "stack [".to_owned();
    text.append(label);
    text.append("] depth=");
    push_decimal(&mut text, (depth / 1024) as u64);
    text.append(" KB committed=");
    push_decimal(&mut text, kb as u64);
    text.append(" KB peak_depth=");
    push_decimal(&mut text, (depth_peak / 1024) as u64);
    text.append(" KB peak_committed=");
    push_decimal(&mut text, (peak / 1024) as u64);
    text.append(" KB");
    Line { level: Level::Info, text }
}

/// Takes a sample: counts it, keeps the peaks, and says what to log. Nothing
/// happens while the monitor is off.
pub fn stack_sample(m: &mut StackMonitor, label: &str, committed: usize, depth: usize) -> (lines:
    Vec<Line>)
    ensures
        old(m).wf() ==> final(m).wf(),
        !old(m).on ==> *final(m) == *old(m) && lines@.len() == 0,
        old(m).on ==> old(m).sampled(committed, depth, *final(m)) && lines_view(lines@)
            == sample_lines(label@, committed, depth, *old(m), *final(m)),
{
    let mut lines: Vec<Line> = Vec::new();
    if !m.on {
        return lines;
    }
    let ghost before = *m;
    if committed > m.peak {
        m.peak = committed;
    }
    let kb: usize = committed / 1024;
    let bin: usize = bin_for(kb);
    let count: u32 = m.bins[bin].wrapping_add(1);
    m.bins[bin] = count;
    m.samples = m.samples.wrapping_add(1);
    if bin == STACK_NUM_BINS - 1 {
        if m.overflows == 0 {
            lines.push(overflow_line(label, kb));
        }
        m.overflows = m.overflows.wrapping_add(1);
    }
    if depth > m.depth_peak {
        m.depth_peak = depth;
    }
    proof {
        total_of_update(before.bins@, bin as int, count);
        assert(m.bins@ =~= before.bins@.update(bin as int, count));
    }
    if m.verbose {
        lines.push(sample_line(label, depth, kb, m.depth_peak, m.peak));
    }
    assert(lines_view(lines@) =~= sample_lines(label@, committed, depth, before, *m));
    lines
}

/// The bins up to `n` that are not empty, each with its count.
pub open spec fn bins_text(bins: Seq<u32>, n: int) -> Seq<char>
    decreases n,
{
    if n <= 0 {
        Seq::empty()
    } else if bins[n - 1] > 0 {
        bins_text(bins, n - 1) + " "@ + bin_label(n - 1) + ":"@ + crate::text::decimal(
            bins[n - 1] as int,
        )
    } else {
        bins_text(bins, n - 1)
    }
}

/// The histogram on one line.
pub open spec fn report_text(m: StackMonitor) -> Seq<char> {
    "stack report: peak_depth="@ + crate::text::decimal(m.depth_peak as int / 1024)
        + " KB peak_committed="@ + crate::text::decimal(m.peak as int / 1024) + " KB samples="@
        + crate::text::decimal(m.samples as int) + (if m.overflows > 0 {
        " OVERFLOW="@ + crate::text::decimal(m.overflows as int)
    } else {
        Seq::empty()
    }) + " |"@ + bins_text(m.bins@, 8)
}

/// The histogram on one line, for the log.
pub fn stack_report(m: &StackMonitor) -> (out: String)
    ensures
        out@ == report_text(*m),
{
    let mut out: String = "stack report: peak_depth=".to_owned();
    push_decimal(&mut out, (m.depth_peak / 1024) as u64);
    out.append(" KB peak_committed=");
    push_decimal(&mut out, (m.peak / 1024) as u64);
    out.append(" KB samples=");
    push_decimal(&mut out, m.samples as u64);
    let ghost head = out@;
    if m.overflows > 0 {
        out.append(" OVERFLOW=");
        push_decimal(&mut out, m.overflows as u64);
    }
    assert(out@ =~= head + (if m.overflows > 0 {
        " OVERFLOW="@ + crate::text::decimal(m.overflows as int)
    } else {
        Seq::empty()
    }));
    out.append(" |");
    let ghost start = out@;
    let mut i: usize = 0;
    assert(start =~= start + bins_text(m.bins@, 0));
    while i < STACK_NUM_BINS
        invariant
            i <= STACK_NUM_BINS,
            out@ == start + bins_text(m.bins@, i as int),
        decreases STACK_NUM_BINS - i,
    {
        if m.bins[i] > 0 {
            let ghost so_far = out@;
            out.append(" ");
            out.append(label_of_bin(i));
            out.append(":");
            push_decimal(&mut out, m.bins[i] as u64);
            assert(out@ =~= start + bins_text(m.bins@, i + 1));
        }
        i = i + 1;
    }
    out
}

/// No line break is in the text.
pub open spec fn is_one_line(s: Seq<char>) -> bool {
    forall|i: int| 0 <= i < s.len() ==> #[trigger] s[i] != '\n'
}

proof fn digits_are_one_line(n: int)
    requires
        0 <= n,
    ensures
        is_one_line(crate::text::decimal(n)),
    decreases n,
{
    if n >= 10 {
        digits_are_one_line(n / 10);
    }
}

proof fn bins_are_one_line(bins: Seq<u32>, n: int)
    requires
        n <= bins.len(),
    ensures
        is_one_line(bins_text(bins, n)),
    decreases n,
{
    if n > 0 {
        bins_are_one_line(bins, n - 1);
        digits_are_one_line(bins[n - 1] as int);
        reveal_strlit(" ");
        reveal_strlit(":");
        reveal_strlit("<4K");
        reveal_strlit("4-8K");
        reveal_strlit("8-16K");
        reveal_strlit("16-32K");
        reveal_strlit("32-64K");
        reveal_strlit("64-128K");
        reveal_strlit("128-256K");
        reveal_strlit("256K+!");
    }
}

/// The report of the stack monitor is one line, whatever was sampled.
pub proof fn report_is_one_line(m: StackMonitor)
    ensures
        is_one_line(report_text(m)),
{
    digits_are_one_line(m.depth_peak as int / 1024);
    digits_are_one_line(m.peak as int / 1024);
    digits_are_one_line(m.samples as int);
    digits_are_one_line(m.overflows as int);
    bins_are_one_line(m.bins@, 8);
    reveal_strlit("stack report: peak_depth=");
    reveal_strlit(" KB peak_committed=");
    reveal_strlit(" KB samples=");
    reveal_strlit(" OVERFLOW=");
    reveal_strlit(" |");
}

/// Largest committed size, in KB.
pub fn stack_peak_kb(m: &StackMonitor) -> (kb: usize)
    ensures
        kb == m.peak / 1024,
{
    m.peak / 1024
}

/// Largest depth, in KB.
pub fn stack_depth_peak_kb(m: &StackMonitor) -> (kb: usize)
    ensures
        kb == m.depth_peak / 1024,
{
    m.depth_peak / 1024
}

/// Samples only ever raise the peaks, and the committed peak covers every sample.
pub proof fn peaks_only_rise(
    before: StackMonitor,
    committed: usize,
    depth: usize,
    after: StackMonitor,
)
    requires
        before.sampled(committed, depth, after),
    ensures
        after.peak >= before.peak,
        after.peak >= committed,
        after.depth_peak >= before.depth_peak,
        after.depth_peak >= depth,
{
}

/// The service logs under its own source, and every other process under that of the
/// tray.
pub proof fn the_service_has_its_own_source(label: Seq<char>)
    ensures
        source_of(label) == "HpThermal-Service"@ <==> label == "svc"@,
        source_of(label) == "HpThermal-Tray"@ <==> label != "svc"@,
{
    reveal_strlit("HpThermal-Service");
    reveal_strlit("HpThermal-Tray");
    assert("HpThermal-Service"@.len() == 17);
    assert("HpThermal-Tray"@.len() == 14);
}

/// The bins double in width: below 4 KB, then from each power of two to the next, and
/// 256 KB and more in the last.
pub proof fn bins_double(kb: int, bin: int)
    requires
        0 <= kb,
        1 <= bin <= 6,
    ensures
        bin_of(kb) == 0 <==> kb < 4,
        bin_of(kb) == bin <==> vstd::arithmetic::power2::pow2((bin + 1) as nat) <= kb
            < vstd::arithmetic::power2::pow2((bin + 2) as nat),
        bin_of(kb) == 7 <==> kb >= 256,
        0 <= bin_of(kb) <= 7,
{
    vstd::arithmetic::power2::lemma2_to64();
}

/// The label of a bin between the first and the last names where it begins and where it
/// ends, in KB.
pub proof fn labels_name_the_bins(bin: int)
    requires
        1 <= bin <= 6,
    ensures
        bin_label(bin) == crate::text::decimal(
            vstd::arithmetic::power2::pow2((bin + 1) as nat) as int,
        ) + "-"@ + crate::text::decimal(vstd::arithmetic::power2::pow2((bin + 2) as nat) as int)
            + "K"@,
{
    vstd::arithmetic::power2::lemma2_to64();
    reveal_with_fuel(crate::text::decimal, 4);
    reveal_strlit("-");
    reveal_strlit("K");
    reveal_strlit("4-8K");
    reveal_strlit("8-16K");
    reveal_strlit("16-32K");
    reveal_strlit("32-64K");
    reveal_strlit("64-128K");
    reveal_strlit("128-256K");
    let told = crate::text::decimal(vstd::arithmetic::power2::pow2((bin + 1) as nat) as int) + "-"@
        + crate::text::decimal(vstd::arithmetic::power2::pow2((bin + 2) as nat) as int) + "K"@;
    if bin == 1 {
        assert(bin_label(bin) =~= told);
    } else if bin == 2 {
        assert(bin_label(bin) =~= told);
    } else if bin == 3 {
        assert(bin_label(bin) =~= told);
    } else if bin == 4 {
        assert(bin_label(bin) =~= told);
    } else if bin == 5 {
        assert(bin_label(bin) =~= told);
    } else {
        assert(bin_label(bin) =~= told);
    }
}

/// The depth is what lies between the stack pointer and the high end: nothing where the
/// pointer is beyond it.
pub proof fn depths_reach_up_to_the_high_end(high: int, stack_pointer: int)
    ensures
        stack_pointer <= high ==> stack_pointer + depth_of(high, stack_pointer) == high,
        stack_pointer > high ==> depth_of(high, stack_pointer) == 0,
{
}

/// A sample adds one to the bin of its committed size, leaves the other bins alone, and
/// a peak is either what it was or what was just seen.
pub proof fn samples_count_once(
    before: StackMonitor,
    committed: usize,
    depth: usize,
    after: StackMonitor,
    bin: int,
)
    requires
        before.sampled(committed, depth, after),
        0 <= bin < 8,
    ensures
        after.bins@[bin] == (before.bins@[bin] + if bin == bin_of(committed as int / 1024) {
            1int
        } else {
            0
        }) % 0x1_0000_0000,
        after.samples == (before.samples + 1) % 0x1_0000_0000,
        after.peak == before.peak || after.peak == committed,
        after.depth_peak == before.depth_peak || after.depth_peak == depth,
        after.overflows != before.overflows ==> committed >= 256 * 1024,
{
}

/// The first sample of 256 KB or more is warned of, later ones are not; a verbose monitor
/// tells every sample, and after any warning.
pub proof fn the_first_overflow_is_warned_of(
    label: Seq<char>,
    committed: usize,
    depth: usize,
    before: StackMonitor,
    after: StackMonitor,
)
    ensures
        ({
            let lines = sample_lines(label, committed, depth, before, after);
            let warned = committed >= 256 * 1024 && before.overflows == 0;
            &&& lines.len() == (if warned {
                1int
            } else {
                0
            }) + (if before.verbose {
                1int
            } else {
                0
            })
            &&& warned ==> lines[0].0 == Level::Warning
            &&& before.verbose ==> lines.last().0 == Level::Info
        }),
{
}

/// Where every region lies below the high end, the committed and the other regions make
/// up all of it; a region that begins at or above the high end does not count.
pub proof fn committed_regions_are_counted(
    low: int,
    high: int,
    regions: Seq<Region>,
    others: Seq<Region>,
    n: int,
)
    requires
        0 <= n <= regions.len(),
        others.len() == regions.len(),
        forall|i: int|
            0 <= i < n ==> (#[trigger] others[i]).size == regions[i].size && others[i].committed
                == !regions[i].committed,
        regions_end(low, regions, n) <= high,
    ensures
        committed_bytes(low, high, regions, n) + committed_bytes(low, high, others, n)
            == regions_end(low, regions, n) - low,
        regions_end(low, others, n) == regions_end(low, regions, n),
        (forall|i: int| 0 <= i < n ==> (#[trigger] regions[i]).committed) ==> committed_bytes(
            low,
            high,
            regions,
            n,
        ) == regions_end(low, regions, n) - low,
        committed_bytes(low, low, regions, n) == 0,
    decreases n,
{
    if n > 0 {
        let last = regions[n - 1];
        assert(others[n - 1].size == last.size);
        regions_bounds(low, high, regions, n - 1, n);
        regions_bounds(low, low, regions, n - 1, n - 1);
        committed_regions_are_counted(low, high, regions, others, n - 1);
        if last.size == 0 {
        } else {
            assert(regions_end(low, regions, n - 1) < high);
        }
    }
}

/// The report of the stack monitor tells both peaks in KB, each under its name, how many
/// samples there were, and the overflows where there was one.
pub proof fn reports_tell_the_peaks(m: StackMonitor)
    ensures
        ({
            let text = report_text(m);
            &&& crate::text::occurs_in(
                "stack report: peak_depth="@ + crate::text::decimal(m.depth_peak as int / 1024)
                    + " KB peak_committed="@ + crate::text::decimal(m.peak as int / 1024)
                    + " KB samples="@ + crate::text::decimal(m.samples as int),
                text,
            )
            &&& m.overflows > 0 ==> crate::text::occurs_in(
                " OVERFLOW="@ + crate::text::decimal(m.overflows as int) + " |"@,
                text,
            )
        }),
{
    let text = report_text(m);
    let none = Seq::<char>::empty();
    let head = "stack report: peak_depth="@ + crate::text::decimal(m.depth_peak as int / 1024)
        + " KB peak_committed="@ + crate::text::decimal(m.peak as int / 1024) + " KB samples="@
        + crate::text::decimal(m.samples as int);
    let mid = if m.overflows > 0 {
        " OVERFLOW="@ + crate::text::decimal(m.overflows as int)
    } else {
        none
    };
    let tail = " |"@ + bins_text(m.bins@, 8);
    assert(text =~= none + head + (mid + tail));
    crate::text::what_stands_between_occurs(none, head, mid + tail);
    if m.overflows > 0 {
        assert(text =~= head + (mid + " |"@) + bins_text(m.bins@, 8));
        crate::text::what_stands_between_occurs(head, mid + " |"@, bins_text(m.bins@, 8));
    }
}

/// Only the bins that hold samples are listed, each with its label and its count.
pub proof fn only_filled_bins_are_listed(bins: Seq<u32>, n: int)
    requires
        0 < n <= bins.len(),
    ensures
        bins[n - 1] == 0 ==> bins_text(bins, n) == bins_text(bins, n - 1),
        bins[n - 1] > 0 ==> bins_text(bins, n) == bins_text(bins, n - 1) + (" "@ + bin_label(n - 1)
            + ":"@ + crate::text::decimal(bins[n - 1] as int)),
        bins_text(bins, 0).len() == 0,
{
    assert(bins[n - 1] > 0 ==> bins_text(bins, n) =~= bins_text(bins, n - 1) + (" "@ + bin_label(
        n - 1,
    ) + ":"@ + crate::text::decimal(bins[n - 1] as int)));
}

/// A sample in the last bin, and one of a verbose monitor, is told in KB: depth and
/// committed size, and then the peaks in the same order.
pub proof fn samples_are_told_in_kb(
    label: Seq<char>,
    depth: int,
    kb: int,
    depth_peak: int,
    peak: int,
)
    ensures
        crate::text::occurs_in(
            "] depth="@ + crate::text::decimal(depth / 1024) + " KB committed="@
                + crate::text::decimal(kb) + " KB peak_depth="@ + crate::text::decimal(
                depth_peak / 1024,
            ) + " KB peak_committed="@ + crate::text::decimal(peak / 1024),
            sample_text(label, depth, kb, depth_peak, peak),
        ),
        crate::text::occurs_in(
            "] hit overflow bin! committed="@ + crate::text::decimal(kb),
            overflow_text(label, kb),
        ),
{
    let part = "] depth="@ + crate::text::decimal(depth / 1024) + " KB committed="@
        + crate::text::decimal(kb) + " KB peak_depth="@ + crate::text::decimal(depth_peak / 1024)
        + " KB peak_committed="@ + crate::text::decimal(peak / 1024);
    let head = "stack ["@ + label;
    assert(sample_text(label, depth, kb, depth_peak, peak) =~= head + part + " KB"@);
    crate::text::what_stands_between_occurs(head, part, " KB"@);
    let over = "] hit overflow bin! committed="@ + crate::text::decimal(kb);
    assert(overflow_text(label, kb) =~= head + over + " KB"@);
    crate::text::what_stands_between_occurs(head, over, " KB"@);
}

} // verus!
