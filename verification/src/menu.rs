//! The menu of the tray: which entries it has, and what each is about.

use vstd::prelude::*;
use vstd::string::*;

use crate::protocol::status_ok;
use crate::text::{chars_of, push_decimal, push_hex_upper};

verus! {

pub const ID_SMART_SENSE: u32 = 100;
pub const ID_PERFORMANCE: u32 = 101;
pub const ID_BALANCED: u32 = 102;
pub const ID_COOL: u32 = 103;
pub const ID_POWER_SAVER: u32 = 104;
pub const ID_NOISE_ADAPTED: u32 = 105;
pub const ID_CALIBRATE: u32 = 106;
pub const ID_EXIT: u32 = 200;
pub const ID_DEBUG_HEADER: u32 = 300;
pub const ID_SERVICE_DOWN: u32 = 309;
pub const ID_RESTART_SVC: u32 = 311;
pub const ID_STACK_MONITOR: u32 = 312;
pub const ID_CLEAR_CAL: u32 = 314;
pub const ID_DEBUG_CAL: u32 = 316;
pub const ID_FNKEY_SCREEN: u32 = 317;
pub const ID_FNKEY_SLEEP: u32 = 318;
pub const ID_METHOD_BRIGHTNESS: u32 = 319;
pub const ID_METHOD_DPMS: u32 = 320;
pub const ID_METHOD_BLACK: u32 = 321;
pub const ID_SHOW_FINGERPRINT: u32 = 322;

/// How the screen is switched off: by its power state, by its brightness, or by a
/// black window.
pub const METHOD_DPMS: u8 = 0;
pub const METHOD_BRIGHTNESS: u8 = 1;
pub const METHOD_BLACK: u8 = 2;

/// An entry of the menu.
pub enum Entry {
    Separator,
    Item { id: u32, text: String, enabled: bool, checked: bool },
}

/// An entry with its text as characters.
pub enum EntryView {
    Separator,
    Item { id: u32, text: Seq<char>, enabled: bool, checked: bool },
}

/// The view of an entry.
pub open spec fn entry_view(e: Entry) -> EntryView {
    match e {
        Entry::Separator => EntryView::Separator,
        Entry::Item { id, text, enabled, checked } => EntryView::Item {
            id,
            text: text@,
            enabled,
            checked,
        },
    }
}

/// The view of a menu.
pub open spec fn menu_view(m: Seq<Entry>) -> Seq<EntryView> {
    Seq::new(m.len(), |i: int| entry_view(m[i]))
}

/// An entry that can be chosen, checked or not.
pub open spec fn item(id: u32, text: Seq<char>, checked: bool) -> EntryView {
    EntryView::Item { id, text, enabled: true, checked }
}

/// An entry that cannot be chosen.
pub open spec fn disabled(id: u32, text: Seq<char>) -> EntryView {
    EntryView::Item { id, text, enabled: false, checked: false }
}

fn append_separator(m: &mut Vec<Entry>)
    ensures
        menu_view(final(m)@) == menu_view(old(m)@).push(EntryView::Separator),
{
    let ghost before = m@;
    m.push(Entry::Separator);
    assert(menu_view(m@) =~= menu_view(before).push(EntryView::Separator));
}

fn append_item(m: &mut Vec<Entry>, id: u32, text: &str, checked: bool)
    ensures
        menu_view(final(m)@) == menu_view(old(m)@).push(item(id, text@, checked)),
{
    let ghost before = m@;
    m.push(Entry::Item { id, text: text.to_owned(), enabled: true, checked });
    assert(menu_view(m@) =~= menu_view(before).push(item(id, text@, checked)));
}

fn append_item_disabled(m: &mut Vec<Entry>, id: u32, text: &str)
    ensures
        menu_view(final(m)@) == menu_view(old(m)@).push(disabled(id, text@)),
{
    let ghost before = m@;
    m.push(Entry::Item { id, text: text.to_owned(), enabled: false, checked: false });
    assert(menu_view(m@) =~= menu_view(before).push(disabled(id, text@)));
}

/// What the noise adaptation is doing.
#[derive(Clone, Copy, PartialEq, Eq, Structural, Debug)]
pub struct NoiseState {
    pub measuring: bool,
    pub calibrating: bool,
}

/// What the menu shows as set: the thermal mode and Smart Sense, each as far as it
/// is known.
#[derive(Clone, Copy, PartialEq, Eq, Structural, Debug)]
pub struct MenuValues {
    pub mode: Option<u8>,
    pub smart: Option<bool>,
}

/// The values that responses of the service carry.
pub open spec fn values_of_responses(
    thermal: Option<[u8; 2]>,
    coolsense: Option<[u8; 2]>,
) -> MenuValues {
    MenuValues {
        mode: if thermal is Some && crate::protocol::ok_status(thermal->0[0]) {
            Some(thermal->0[1])
        } else {
            None
        },
        smart: if coolsense is Some && crate::protocol::ok_status(coolsense->0[0]) {
            Some(coolsense->0[1] != 0)
        } else {
            None
        },
    }
}

/// The values that responses of the service carry; none where it did not answer or
/// answered with a failure.
pub fn values_from_responses(thermal: Option<[u8; 2]>, coolsense: Option<[u8; 2]>) -> (v:
    MenuValues)
    ensures
        v == values_of_responses(thermal, coolsense),
{
    MenuValues {
        mode: match thermal {
            Some(r) => if status_ok(r[0]) {
                Some(r[1])
            } else {
                None
            },
            None => None,
        },
        smart: match coolsense {
            Some(r) => if status_ok(r[0]) {
                Some(r[1] != 0)
            } else {
                None
            },
            None => None,
        },
    }
}

/// The values in the cache.
pub open spec fn values_in_cache(thermal: u8, coolsense: u8) -> MenuValues {
    MenuValues {
        mode: if thermal <= 3 {
            Some(thermal)
        } else {
            None
        },
        smart: if coolsense == 0 {
            Some(false)
        } else if coolsense == 1 {
            Some(true)
        } else {
            None
        },
    }
}

/// The values in the cache. Anything but a mode, and anything but on or off, is
/// unknown.
pub fn values_from_cache(thermal: u8, coolsense: u8) -> (v: MenuValues)
    ensures
        v == values_in_cache(thermal, coolsense),
{
    MenuValues {
        mode: if thermal <= 3 {
            Some(thermal)
        } else {
            None
        },
        smart: match coolsense {
            0 => Some(false),
            1 => Some(true),
            _ => None,
        },
    }
}

/// `live` where the service runs, else an entry that cannot be chosen.
pub open spec fn if_connected(connected: bool, id: u32, text: Seq<char>, checked: bool) -> EntryView {
    if connected {
        item(id, text, checked)
    } else {
        disabled(id, text)
    }
}

fn append_if_connected(m: &mut Vec<Entry>, connected: bool, id: u32, text: &str, checked: bool)
    ensures
        menu_view(final(m)@) == menu_view(old(m)@).push(if_connected(connected, id, text@, checked)),
{
    if connected {
        append_item(m, id, text, checked);
    } else {
        append_item_disabled(m, id, text);
    }
}

/// The entry of the noise adaptation: it can be chosen while neither it nor a
/// calibration runs.
pub open spec fn noise_entry(connected: bool, n: NoiseState) -> EntryView {
    if connected && n.measuring {
        disabled(ID_NOISE_ADAPTED, "Noise Adapted (measuring...)"@)
    } else {
        if_connected(connected && !n.calibrating, ID_NOISE_ADAPTED, "Noise Adapted"@, false)
    }
}

/// The entry of the calibration: it can be chosen while neither it nor a
/// measurement runs.
pub open spec fn calibrate_entry(connected: bool, n: NoiseState) -> EntryView {
    if connected && n.calibrating {
        disabled(ID_CALIBRATE, "Calibrating..."@)
    } else {
        if_connected(connected && !n.measuring, ID_CALIBRATE, "Run calibration..."@, false)
    }
}

/// Smart Sense, and the noise adaptation where it is there.
pub open spec fn top_section(
    connected: bool,
    noise: Option<NoiseState>,
    v: MenuValues,
) -> Seq<EntryView> {
    seq![
        if_connected(connected, ID_SMART_SENSE, "Smart Sense"@, v.smart == Some(true)),
        EntryView::Separator,
    ] + (match noise {
        Some(n) => seq![
            noise_entry(connected, n),
            calibrate_entry(connected, n),
            EntryView::Separator,
        ],
        None => Seq::empty(),
    })
}

/// Whether a mode is checked: it is the current one, and Smart Sense is not on.
pub open spec fn mode_checked(v: MenuValues, mode: u8) -> bool {
    v.mode == Some(mode) && v.smart != Some(true)
}

/// The four modes.
pub open spec fn mode_section(connected: bool, v: MenuValues) -> Seq<EntryView> {
    seq![
        if_connected(connected, ID_PERFORMANCE, "Performance"@, mode_checked(v, 0)),
        if_connected(connected, ID_BALANCED, "Balanced"@, mode_checked(v, 1)),
        if_connected(connected, ID_COOL, "Cool"@, mode_checked(v, 2)),
        if_connected(connected, ID_POWER_SAVER, "Power Saver"@, mode_checked(v, 3)),
    ]
}

/// A way to restart the service where it is down, and the exit.
pub open spec fn bottom_section(connected: bool) -> Seq<EntryView> {
    (if connected {
        Seq::empty()
    } else {
        seq![
            EntryView::Separator,
            disabled(ID_SERVICE_DOWN, "Service unavailable"@),
            item(ID_RESTART_SVC, "Restart Service..."@, false),
        ]
    }) + seq![EntryView::Separator, item(ID_EXIT, "Exit"@, false)]
}

fn is_checked(v: &MenuValues, mode: u8) -> (r: bool)
    ensures
        r == mode_checked(*v, mode),
{
    let current: bool = match v.mode {
        Some(m) => m == mode,
        None => false,
    };
    let smart: bool = match v.smart {
        Some(s) => s,
        None => false,
    };
    current && !smart
}

fn append_top(m: &mut Vec<Entry>, connected: bool, noise: Option<NoiseState>, v: &MenuValues)
    ensures
        menu_view(final(m)@) == menu_view(old(m)@) + top_section(connected, noise, *v),
{
    let ghost before = menu_view(m@);
    let smart: bool = match v.smart {
        Some(s) => s,
        None => false,
    };
    append_if_connected(m, connected, ID_SMART_SENSE, "Smart Sense", smart);
    append_separator(m);
    if let Some(n) = noise {
        if connected && n.measuring {
            append_item_disabled(m, ID_NOISE_ADAPTED, "Noise Adapted (measuring...)");
        } else {
            append_if_connected(
                m,
                connected && !n.calibrating,
                ID_NOISE_ADAPTED,
                "Noise Adapted",
                false,
            );
        }
        if connected && n.calibrating {
            append_item_disabled(m, ID_CALIBRATE, "Calibrating...");
        } else {
            append_if_connected(
                m,
                connected && !n.measuring,
                ID_CALIBRATE,
                "Run calibration...",
                false,
            );
        }
        append_separator(m);
    }
    assert(menu_view(m@) =~= before + top_section(connected, noise, *v));
}

fn append_modes(m: &mut Vec<Entry>, connected: bool, v: &MenuValues)
    ensures
        menu_view(final(m)@) == menu_view(old(m)@) + mode_section(connected, *v),
{
    let ghost before = menu_view(m@);
    append_if_connected(m, connected, ID_PERFORMANCE, "Performance", is_checked(v, 0));
    append_if_connected(m, connected, ID_BALANCED, "Balanced", is_checked(v, 1));
    append_if_connected(m, connected, ID_COOL, "Cool", is_checked(v, 2));
    append_if_connected(m, connected, ID_POWER_SAVER, "Power Saver", is_checked(v, 3));
    assert(menu_view(m@) =~= before + mode_section(connected, *v));
}

fn append_bottom(m: &mut Vec<Entry>, connected: bool)
    ensures
        menu_view(final(m)@) == menu_view(old(m)@) + bottom_section(connected),
{
    let ghost before = menu_view(m@);
    if !connected {
        append_separator(m);
        append_item_disabled(m, ID_SERVICE_DOWN, "Service unavailable");
        append_item(m, ID_RESTART_SVC, "Restart Service...", false);
    }
    append_separator(m);
    append_item(m, ID_EXIT, "Exit", false);
    assert(menu_view(m@) =~= before + bottom_section(connected));
}

/// What the menu shows of the graphics card. The power is in watts, as text.
pub struct GpuLine {
    pub name: String,
    pub pstate: u32,
    pub temp_c: u32,
    pub watts: String,
}

/// What the menu shows of the stack, in bytes and in KB.
#[derive(Clone, Copy)]
pub struct StackNumbers {
    pub depth: usize,
    pub committed: usize,
    pub depth_peak_kb: usize,
    pub peak_kb: usize,
}

/// What the menu shows of the noise calibration. The powers and the crossover are
/// texts.
pub struct CalibrationLines {
    /// What was measured, where something was.
    pub measured: Option<Measured>,
    /// A measurement or a calibration runs.
    pub busy: bool,
}

/// A calibration that is there.
pub struct Measured {
    pub perf_power: String,
    pub bal_power: String,
    pub num_points: usize,
    pub crossover: Option<String>,
    pub age_secs: u64,
    /// The fan was measured under load.
    pub fan_measured: bool,
}

/// What Fn+F12 does, and how the screen is switched off.
#[derive(Clone, Copy, PartialEq, Eq, Structural, Debug)]
pub struct FnKeySettings {
    pub screen: bool,
    pub sleep: bool,
    pub method: u8,
}

/// What the menu shows where it is opened for debugging.
pub struct DebugInfo {
    pub build_id: String,
    pub build_date: String,
    pub cpu: String,
    pub temp: Option<[u8; 2]>,
    pub gpu: Option<GpuLine>,
    pub pipe_ok: bool,
    pub thermal: Option<[u8; 2]>,
    pub coolsense: Option<[u8; 2]>,
    pub stack: StackNumbers,
    pub calibration: Option<CalibrationLines>,
    pub keys: FnKeySettings,
    pub stack_monitor: bool,
}

/// A date of the form YYYYMMDD-HHMM with separators; a shorter text as it is.
pub open spec fn date_of(date: Seq<char>) -> Seq<char> {
    if date.len() >= 13 {
        date.subrange(0, 4) + "-"@ + date.subrange(4, 6) + "-"@ + date.subrange(6, 8) + " "@
            + date.subrange(9, 11) + ":"@ + date.subrange(11, 13)
    } else {
        date
    }
}

fn push_range(out: &mut String, chars: &[char], from: usize, to: usize)
    requires
        from <= to <= chars@.len(),
    ensures
        final(out)@ == old(out)@ + chars@.subrange(from as int, to as int),
{
    let ghost start = out@;
    let mut i: usize = from;
    while i < to
        invariant
            from <= i <= to <= chars@.len(),
            out@ == start + chars@.subrange(from as int, i as int),
        decreases to - i,
    {
        out.push(chars[i]);
        i = i + 1;
        assert(out@ =~= start + chars@.subrange(from as int, i as int));
    }
}

/// A build date for people.
pub fn date_text(date: &str) -> (out: String)
    ensures
        out@ == date_of(date@),
{
    let chars = chars_of(date);
    if chars.len() < 13 {
        return date.to_owned();
    }
    let mut out: String = String::new();
    push_range(&mut out, chars.as_slice(), 0, 4);
    out.append("-");
    push_range(&mut out, chars.as_slice(), 4, 6);
    out.append("-");
    push_range(&mut out, chars.as_slice(), 6, 8);
    out.append(" ");
    push_range(&mut out, chars.as_slice(), 9, 11);
    out.append(":");
    push_range(&mut out, chars.as_slice(), 11, 13);
    assert(out@ =~= date_of(date@));
    out
}

/// The line of the build.
pub open spec fn build_line_of(id: Seq<char>, date: Seq<char>) -> Seq<char> {
    "Build: "@ + id + " ("@ + date_of(date) + ")"@
}

fn build_line(id: &str, date: &str) -> (out: String)
    ensures
        out@ == build_line_of(id@, date@),
{
    let when = date_text(date);
    let mut out: String = "Build: ".to_owned();
    out.append(id);
    out.append(" (");
    out.append(when.as_str());
    out.append(")");
    out
}

/// The line of the processor: its temperature where it was read, and its name.
pub open spec fn cpu_line_of(cpu: Seq<char>, temp: Option<[u8; 2]>) -> Seq<char> {
    "CPU:"@ + (if temp is Some && crate::protocol::ok_status(temp->0[0]) {
        " "@ + crate::text::decimal(temp->0[1] as int) + "C"@
    } else {
        Seq::empty()
    }) + " "@ + (if cpu.len() == 0 {
        "unknown"@
    } else {
        cpu
    })
}

fn cpu_line(cpu: &str, temp: Option<[u8; 2]>) -> (out: String)
    ensures
        out@ == cpu_line_of(cpu@, temp),
{
    let mut out: String = "CPU:".to_owned();
    let ghost head = out@;
    if let Some(t) = temp {
        if status_ok(t[0]) {
            out.append(" ");
            push_decimal(&mut out, t[1] as u64);
            out.append("C");
        }
    }
    assert(out@ =~= head + (if temp is Some && crate::protocol::ok_status(temp->0[0]) {
        " "@ + crate::text::decimal(temp->0[1] as int) + "C"@
    } else {
        Seq::empty()
    }));
    out.append(" ");
    if cpu.is_empty() {
        out.append("unknown");
    } else {
        out.append(cpu);
    }
    out
}

/// The line of the graphics card.
pub open spec fn gpu_line_of(gpu: Option<GpuLine>) -> Seq<char> {
    match gpu {
        Some(g) => "dGPU: "@ + g.name@ + " "@ + (if g.pstate <= 15 {
            "P"@ + crate::text::decimal(g.pstate as int)
        } else {
            "P?"@
        }) + " "@ + crate::text::decimal(g.temp_c as int) + "C "@ + g.watts@ + "W"@,
        None => "dGPU: not available"@,
    }
}

fn gpu_line(gpu: &Option<GpuLine>) -> (out: String)
    ensures
        out@ == gpu_line_of(*gpu),
{
    match gpu {
        Some(g) => {
            let mut out: String = "dGPU: ".to_owned();
            out.append(g.name.as_str());
            out.append(" ");
            let ghost head = out@;
            if g.pstate <= 15 {
                out.append("P");
                push_decimal(&mut out, g.pstate as u64);
            } else {
                out.append("P?");
            }
            assert(out@ =~= head + (if g.pstate <= 15 {
                "P"@ + crate::text::decimal(g.pstate as int)
            } else {
                "P?"@
            }));
            out.append(" ");
            push_decimal(&mut out, g.temp_c as u64);
            out.append("C ");
            out.append(g.watts.as_str());
            out.append("W");
            out
        },
        None => "dGPU: not available".to_owned(),
    }
}

/// The line of a response: its two bytes.
pub open spec fn response_line_of(what: Seq<char>, resp: Option<[u8; 2]>) -> Seq<char> {
    match resp {
        Some(r) => what + ": 0x"@ + crate::text::hex_upper(r[0] as int, 2) + " 0x"@
            + crate::text::hex_upper(r[1] as int, 2),
        None => what + ": no response"@,
    }
}

fn response_line(what: &str, resp: Option<[u8; 2]>) -> (out: String)
    ensures
        out@ == response_line_of(what@, resp),
{
    let mut out: String = what.to_owned();
    match resp {
        Some(r) => {
            out.append(": 0x");
            push_hex_upper(&mut out, r[0] as u64, 2);
            out.append(" 0x");
            push_hex_upper(&mut out, r[1] as u64, 2);
        },
        None => {
            out.append(": no response");
        },
    }
    out
}

/// The line of the stack.
pub open spec fn stack_line_of(s: StackNumbers) -> Seq<char> {
    "stack: depth="@ + crate::text::decimal(s.depth as int / 1024) + " KB committed="@
        + crate::text::decimal(s.committed as int / 1024) + " KB (peak: "@ + crate::text::decimal(
        s.depth_peak_kb as int,
    ) + "/"@ + crate::text::decimal(s.peak_kb as int) + ")"@
}

fn stack_line(s: &StackNumbers) -> (out: String)
    ensures
        out@ == stack_line_of(*s),
{
    let mut out: String = "stack: depth=".to_owned();
    push_decimal(&mut out, (s.depth / 1024) as u64);
    out.append(" KB committed=");
    push_decimal(&mut out, (s.committed / 1024) as u64);
    out.append(" KB (peak: ");
    push_decimal(&mut out, s.depth_peak_kb as u64);
    out.append("/");
    push_decimal(&mut out, s.peak_kb as u64);
    out.append(")");
    out
}

/// How long ago the calibration was: in days, or in hours where it is less than one.
pub open spec fn age_of(age_secs: u64, fan_measured: bool) -> Seq<char> {
    if age_secs == 0 || !fan_measured {
        "never"@
    } else if age_secs / 86400 > 0 {
        crate::text::decimal(age_secs as int / 86400) + "d ago"@
    } else {
        crate::text::decimal(age_secs as int % 86400 / 3600) + "h ago"@
    }
}

/// How long ago the calibration was.
pub fn age_text(age_secs: u64, fan_measured: bool) -> (out: String)
    ensures
        out@ == age_of(age_secs, fan_measured),
{
    if age_secs == 0 || !fan_measured {
        return "never".to_owned();
    }
    let mut out: String = String::new();
    let days: u64 = age_secs / 86400;
    let hours: u64 = (age_secs % 86400) / 3600;
    if days > 0 {
        push_decimal(&mut out, days);
        out.append("d ago");
    } else {
        push_decimal(&mut out, hours);
        out.append("h ago");
    }
    assert(out@ =~= age_of(age_secs, fan_measured));
    out
}

/// The machine itself: build, processor, graphics card.
pub open spec fn machine_section(d: DebugInfo) -> Seq<EntryView> {
    seq![
        EntryView::Separator,
        disabled(300, build_line_of(d.build_id@, d.build_date@)),
        disabled(301, cpu_line_of(d.cpu@, d.temp)),
        disabled(302, gpu_line_of(d.gpu)),
    ]
}

/// The service: pipe, responses, stack.
pub open spec fn service_section(d: DebugInfo) -> Seq<EntryView> {
    seq![
        EntryView::Separator,
        disabled(
            303,
            if d.pipe_ok {
                "pipe: connected"@
            } else {
                "pipe: FAIL"@
            },
        ),
        disabled(304, response_line_of("thermal"@, d.thermal)),
        disabled(305, response_line_of("coolsense"@, d.coolsense)),
        disabled(306, stack_line_of(d.stack)),
    ]
}

/// The fingerprint, which can be shown only where the service reads the mode.
pub open spec fn fingerprint_section(d: DebugInfo) -> Seq<EntryView> {
    seq![
        EntryView::Separator,
        if d.thermal is Some && crate::protocol::ok_status(d.thermal->0[0]) {
            item(ID_SHOW_FINGERPRINT, "Show hardware fingerprint..."@, false)
        } else {
            disabled(ID_SHOW_FINGERPRINT, "Hardware fingerprint (no service)"@)
        },
    ]
}

/// The calibration of the noise adaptation.
pub open spec fn calibration_section(c: Option<CalibrationLines>) -> Seq<EntryView> {
    match c {
        Some(lines) => seq![EntryView::Separator] + (match lines.measured {
            Some(m) => seq![
                disabled(307, "Fan: perf="@ + m.perf_power@ + " bal="@ + m.bal_power@),
                disabled(
                    308,
                    "Points: "@ + crate::text::decimal(m.num_points as int) + "/8, crossover ~"@
                        + (match m.crossover {
                        Some(x) => x@,
                        None => "-"@,
                    }) + " dBFS"@,
                ),
                disabled(309, "Last cal: "@ + age_of(m.age_secs, m.fan_measured)),
            ],
            None => seq![disabled(307, "Noise cal: none"@)],
        }) + seq![
            item(ID_CLEAR_CAL, "Clear calibration"@, false),
            if_connected(!lines.busy, ID_DEBUG_CAL, "Debug Calibration (WAV)..."@, false),
        ],
        None => Seq::empty(),
    }
}

/// What Fn+F12 does, how the screen goes off, and the stack monitor.
pub open spec fn settings_section(d: DebugInfo) -> Seq<EntryView> {
    seq![
        EntryView::Separator,
        item(ID_FNKEY_SCREEN, "Fn+F12: Screen On/Off"@, d.keys.screen),
        item(ID_FNKEY_SLEEP, "Fn+F12: Sleep"@, d.keys.sleep),
        EntryView::Separator,
        item(ID_METHOD_DPMS, "Screen Off: DPMS"@, d.keys.method == METHOD_DPMS),
        item(
            ID_METHOD_BRIGHTNESS,
            "Screen Off: Brightness (WMI)"@,
            d.keys.method == METHOD_BRIGHTNESS,
        ),
        item(ID_METHOD_BLACK, "Screen Off: Black Window"@, d.keys.method == METHOD_BLACK),
        EntryView::Separator,
        item(ID_STACK_MONITOR, "Stack Monitor"@, d.stack_monitor),
    ]
}

/// Everything that the menu shows for debugging.
pub open spec fn debug_section(d: DebugInfo) -> Seq<EntryView> {
    machine_section(d) + service_section(d) + fingerprint_section(d) + calibration_section(
        d.calibration,
    ) + settings_section(d)
}

fn append_machine(m: &mut Vec<Entry>, d: &DebugInfo)
    ensures
        menu_view(final(m)@) == menu_view(old(m)@) + machine_section(*d),
{
    let ghost before = menu_view(m@);
    append_separator(m);
    append_item_disabled(
        m,
        ID_DEBUG_HEADER,
        build_line(d.build_id.as_str(), d.build_date.as_str()).as_str(),
    );
    append_item_disabled(m, ID_DEBUG_HEADER + 1, cpu_line(d.cpu.as_str(), d.temp).as_str());
    append_item_disabled(m, ID_DEBUG_HEADER + 2, gpu_line(&d.gpu).as_str());
    assert(menu_view(m@) =~= before + machine_section(*d));
}

fn append_service(m: &mut Vec<Entry>, d: &DebugInfo)
    ensures
        menu_view(final(m)@) == menu_view(old(m)@) + service_section(*d),
{
    let ghost before = menu_view(m@);
    append_separator(m);
    append_item_disabled(
        m,
        ID_DEBUG_HEADER + 3,
        if d.pipe_ok {
            "pipe: connected"
        } else {
            "pipe: FAIL"
        },
    );
    append_item_disabled(m, ID_DEBUG_HEADER + 4, response_line("thermal", d.thermal).as_str());
    append_item_disabled(m, ID_DEBUG_HEADER + 5, response_line("coolsense", d.coolsense).as_str());
    append_item_disabled(m, ID_DEBUG_HEADER + 6, stack_line(&d.stack).as_str());
    assert(menu_view(m@) =~= before + service_section(*d));
}

fn append_fingerprint(m: &mut Vec<Entry>, d: &DebugInfo)
    ensures
        menu_view(final(m)@) == menu_view(old(m)@) + fingerprint_section(*d),
{
    let ghost before = menu_view(m@);
    append_separator(m);
    let readable: bool = match d.thermal {
        Some(r) => status_ok(r[0]),
        None => false,
    };
    if readable {
        append_item(m, ID_SHOW_FINGERPRINT, "Show hardware fingerprint...", false);
    } else {
        append_item_disabled(m, ID_SHOW_FINGERPRINT, "Hardware fingerprint (no service)");
    }
    assert(menu_view(m@) =~= before + fingerprint_section(*d));
}

fn fan_line(x: &Measured) -> (out: String)
    ensures
        out@ == "Fan: perf="@ + x.perf_power@ + " bal="@ + x.bal_power@,
{
    let mut out: String = "Fan: perf=".to_owned();
    out.append(x.perf_power.as_str());
    out.append(" bal=");
    out.append(x.bal_power.as_str());
    out
}

fn points_line(x: &Measured) -> (out: String)
    ensures
        out@ == "Points: "@ + crate::text::decimal(x.num_points as int) + "/8, crossover ~"@
            + (match x.crossover {
            Some(c) => c@,
            None => "-"@,
        }) + " dBFS"@,
{
    let mut out: String = "Points: ".to_owned();
    push_decimal(&mut out, x.num_points as u64);
    out.append("/8, crossover ~");
    match &x.crossover {
        Some(c) => {
            out.append(c.as_str());
        },
        None => {
            out.append("-");
        },
    }
    out.append(" dBFS");
    out
}

fn age_line(x: &Measured) -> (out: String)
    ensures
        out@ == "Last cal: "@ + age_of(x.age_secs, x.fan_measured),
{
    let mut out: String = "Last cal: ".to_owned();
    out.append(age_text(x.age_secs, x.fan_measured).as_str());
    out
}

fn append_calibration(m: &mut Vec<Entry>, c: &Option<CalibrationLines>)
    ensures
        menu_view(final(m)@) == menu_view(old(m)@) + calibration_section(*c),
{
    let ghost before = menu_view(m@);
    if let Some(lines) = c {
        append_separator(m);
        match &lines.measured {
            Some(x) => {
                append_item_disabled(m, ID_DEBUG_HEADER + 7, fan_line(x).as_str());
                append_item_disabled(m, ID_DEBUG_HEADER + 8, points_line(x).as_str());
                append_item_disabled(m, ID_DEBUG_HEADER + 9, age_line(x).as_str());
            },
            None => {
                append_item_disabled(m, ID_DEBUG_HEADER + 7, "Noise cal: none");
            },
        }
        append_item(m, ID_CLEAR_CAL, "Clear calibration", false);
        append_if_connected(m, !lines.busy, ID_DEBUG_CAL, "Debug Calibration (WAV)...", false);
    }
    assert(menu_view(m@) =~= before + calibration_section(*c));
}

fn append_settings(m: &mut Vec<Entry>, d: &DebugInfo)
    ensures
        menu_view(final(m)@) == menu_view(old(m)@) + settings_section(*d),
{
    let ghost before = menu_view(m@);
    append_separator(m);
    append_item(m, ID_FNKEY_SCREEN, "Fn+F12: Screen On/Off", d.keys.screen);
    append_item(m, ID_FNKEY_SLEEP, "Fn+F12: Sleep", d.keys.sleep);
    append_separator(m);
    append_item(m, ID_METHOD_DPMS, "Screen Off: DPMS", d.keys.method == METHOD_DPMS);
    append_item(
        m,
        ID_METHOD_BRIGHTNESS,
        "Screen Off: Brightness (WMI)",
        d.keys.method == METHOD_BRIGHTNESS,
    );
    append_item(m, ID_METHOD_BLACK, "Screen Off: Black Window", d.keys.method == METHOD_BLACK);
    append_separator(m);
    append_item(m, ID_STACK_MONITOR, "Stack Monitor", d.stack_monitor);
    assert(menu_view(m@) =~= before + settings_section(*d));
}

/// The whole menu.
pub open spec fn menu_of(
    connected: bool,
    noise: Option<NoiseState>,
    v: MenuValues,
    debug: Option<DebugInfo>,
) -> Seq<EntryView> {
    top_section(connected, noise, v) + mode_section(connected, v) + bottom_section(connected) + (
    match debug {
        Some(d) => debug_section(d),
        None => Seq::empty(),
    })
}

/// Builds the menu. Whether the service runs decides its shape, `v` its checks, and
/// `debug`, where the menu is opened for debugging, what follows the exit.
pub fn show_context_menu(
    connected: bool,
    noise: Option<NoiseState>,
    v: &MenuValues,
    debug: &Option<DebugInfo>,
) -> (m: Vec<Entry>)
    ensures
        menu_view(m@) == menu_of(connected, noise, *v, *debug),
{
    let mut m: Vec<Entry> = Vec::new();
    assert(menu_view(m@) =~= Seq::empty());
    append_top(&mut m, connected, noise, v);
    append_modes(&mut m, connected, v);
    append_bottom(&mut m, connected);
    if let Some(d) = debug {
        append_machine(&mut m, d);
        append_service(&mut m, d);
        append_fingerprint(&mut m, d);
        append_calibration(&mut m, &d.calibration);
        append_settings(&mut m, d);
    }
    assert(menu_view(m@) =~= menu_of(connected, noise, *v, *debug));
    m
}

/// Whether an entry is checked.
pub open spec fn entry_checked(e: EntryView) -> bool {
    e matches EntryView::Item { checked, .. } && checked
}

/// Whether an entry can be chosen.
pub open spec fn entry_enabled(e: EntryView) -> bool {
    e matches EntryView::Item { enabled, .. } && enabled
}

/// Whether an entry is Smart Sense or one of the modes.
pub open spec fn is_choice(e: EntryView) -> bool {
    e matches EntryView::Item { id, .. } && ID_SMART_SENSE <= id <= ID_POWER_SAVER
}

/// Whether an entry restarts the service.
pub open spec fn is_restart(e: EntryView) -> bool {
    e matches EntryView::Item { id, .. } && id == ID_RESTART_SVC
}

/// The choices of a menu are Smart Sense at its head and the four modes behind what
/// the noise adaptation adds; a way to restart the service is there only without it.
pub proof fn choices_are_where(
    connected: bool,
    noise: Option<NoiseState>,
    v: MenuValues,
    debug: Option<DebugInfo>,
    i: int,
)
    requires
        0 <= i < menu_of(connected, noise, v, debug).len(),
    ensures
        ({
            let menu = menu_of(connected, noise, v, debug);
            let at = top_section(connected, noise, v).len() as int;
            &&& is_choice(menu[i]) ==> i == 0 || at <= i < at + 4
            &&& menu[0] == top_section(connected, noise, v)[0]
            &&& at <= i < at + 4 ==> menu[i] == mode_section(connected, v)[i - at]
            &&& connected ==> !is_restart(menu[i])
            &&& !connected ==> menu[at + 6] == item(ID_RESTART_SVC, "Restart Service..."@, false)
            &&& menu.len() > at + 5
            &&& !connected ==> menu.len() > at + 7
        }),
{
    let top = top_section(connected, noise, v);
    let bottom = bottom_section(connected);
    let at = top.len() as int;
    let menu = menu_of(connected, noise, v, debug);
    if i >= at + 4 + bottom.len() {
        let d = debug->0;
        let k = i - at - 4 - bottom.len();
        assert(menu[i] == debug_section(d)[k]);
        let machine = machine_section(d);
        let service = service_section(d);
        let print = fingerprint_section(d);
        let calibration = calibration_section(d.calibration);
        let settings = settings_section(d);
        if k < 4 {
            assert(debug_section(d)[k] == machine[k]);
        } else if k < 9 {
            assert(debug_section(d)[k] == service[k - 4]);
        } else if k < 11 {
            assert(debug_section(d)[k] == print[k - 9]);
        } else if k < 11 + calibration.len() {
            assert(debug_section(d)[k] == calibration[k - 11]);
        } else {
            assert(debug_section(d)[k] == settings[k - 11 - calibration.len()]);
        }
    } else if i >= at + 4 {
        assert(menu[i] == bottom[i - at - 4]);
    } else if i >= at {
        assert(menu[i] == mode_section(connected, v)[i - at]);
    } else {
        assert(menu[i] == top[i]);
    }
}

/// Without the service neither Smart Sense nor a mode can be chosen or is checked, and
/// the way to restart the service is there.
pub proof fn service_down_offers_a_restart(
    noise: Option<NoiseState>,
    v: MenuValues,
    debug: Option<DebugInfo>,
    i: int,
)
    requires
        0 <= i < menu_of(false, noise, v, debug).len(),
    ensures
        menu_of(false, noise, v, debug).contains(
            item(ID_RESTART_SVC, "Restart Service..."@, false),
        ),
        is_choice(menu_of(false, noise, v, debug)[i]) ==> !entry_enabled(
            menu_of(false, noise, v, debug)[i],
        ) && !entry_checked(menu_of(false, noise, v, debug)[i]),
{
    choices_are_where(false, noise, v, debug, i);
    let at = top_section(false, noise, v).len() as int;
    assert(menu_of(false, noise, v, debug)[at + 6] == item(
        ID_RESTART_SVC,
        "Restart Service..."@,
        false,
    ));
}

/// While the service runs, Smart Sense and all modes can be chosen, and there is no
/// way to restart it.
pub proof fn running_service_offers_all_choices(
    noise: Option<NoiseState>,
    v: MenuValues,
    debug: Option<DebugInfo>,
    i: int,
)
    requires
        0 <= i < menu_of(true, noise, v, debug).len(),
    ensures
        is_choice(menu_of(true, noise, v, debug)[i]) ==> entry_enabled(
            menu_of(true, noise, v, debug)[i],
        ),
        !is_restart(menu_of(true, noise, v, debug)[i]),
{
    choices_are_where(true, noise, v, debug, i);
}

/// Of Smart Sense and the modes at most one is checked.
pub proof fn one_choice_is_checked(
    connected: bool,
    noise: Option<NoiseState>,
    v: MenuValues,
    debug: Option<DebugInfo>,
    i: int,
    j: int,
)
    requires
        0 <= i < menu_of(connected, noise, v, debug).len(),
        0 <= j < menu_of(connected, noise, v, debug).len(),
        is_choice(menu_of(connected, noise, v, debug)[i]),
        is_choice(menu_of(connected, noise, v, debug)[j]),
        entry_checked(menu_of(connected, noise, v, debug)[i]),
        entry_checked(menu_of(connected, noise, v, debug)[j]),
    ensures
        i == j,
{
    choices_are_where(connected, noise, v, debug, i);
    choices_are_where(connected, noise, v, debug, j);
}

/// While a measurement or a calibration runs, neither can be started.
pub proof fn one_measurement_at_a_time(connected: bool, n: NoiseState)
    requires
        n.measuring || n.calibrating,
    ensures
        noise_entry(connected, n) matches EntryView::Item { enabled, .. } && !enabled,
        calibrate_entry(connected, n) matches EntryView::Item { enabled, .. } && !enabled,
{
}

/// Where the menu opens.
pub open spec fn anchor_of(x: i32, y: i32, cursor: (i32, i32)) -> (i32, i32) {
    if x == 0 && y == 0 {
        cursor
    } else {
        (x, y)
    }
}

/// Where the menu opens: where the shell says, or at the cursor where it says
/// nothing.
pub fn menu_anchor(x: i32, y: i32, cursor: (i32, i32)) -> (p: (i32, i32))
    ensures
        p == anchor_of(x, y, cursor),
{
    if x == 0 && y == 0 {
        cursor
    } else {
        (x, y)
    }
}

/// The shell's point is taken unless it is the origin, where both coordinates are zero.
pub proof fn menus_open_where_they_are_asked(x: i32, y: i32, cursor: (i32, i32))
    ensures
        x != 0 || y != 0 ==> anchor_of(x, y, cursor) == (x, y),
        anchor_of(0, 0, cursor) == cursor,
{
}

/// What is known of the mode and of Smart Sense is what the service answered: a failure
/// says nothing of its value, and says nothing of the other one. In the cache a mode is
/// one of the four, and Smart Sense on or off.
pub proof fn values_come_from_good_answers(
    status: u8,
    value: u8,
    other: Option<[u8; 2]>,
    thermal: u8,
    coolsense: u8,
)
    ensures
        ({
            let answer: Option<[u8; 2]> = Some([status, value]);
            let good = crate::protocol::ok_status(status);
            &&& good ==> values_of_responses(answer, other).mode == Some(value)
            &&& good ==> values_of_responses(other, answer).smart == Some(value != 0)
            &&& !good ==> values_of_responses(answer, other).mode is None
            &&& !good ==> values_of_responses(other, answer).smart is None
            &&& values_of_responses(None, other).mode is None
            &&& values_of_responses(other, None).smart is None
            &&& values_of_responses(None, other).smart == values_of_responses(answer, other).smart
            &&& values_of_responses(other, None).mode == values_of_responses(other, answer).mode
        }),
        thermal < 4 ==> values_in_cache(thermal, coolsense).mode == Some(thermal),
        thermal >= 4 ==> values_in_cache(thermal, coolsense).mode is None,
        values_in_cache(thermal, coolsense).smart == Some(true) <==> coolsense == 1,
        values_in_cache(thermal, coolsense).smart == Some(false) <==> coolsense == 0,
{
    let answer: Option<[u8; 2]> = Some([status, value]);
    assert(answer->0[0] == status && answer->0[1] == value);
}

/// What the menu only shows for debugging cannot be chosen.
pub proof fn facts_cannot_be_chosen(d: DebugInfo, i: int)
    ensures
        0 <= i < machine_section(d).len() ==> !entry_enabled(machine_section(d)[i]),
        0 <= i < service_section(d).len() ==> !entry_enabled(service_section(d)[i]),
{
}

/// The age of a calibration is given in whole days, and in whole hours while it is less
/// than a day; of one that never was, or whose fans were not measured, none is given.
pub proof fn ages_are_whole_days_or_hours(days: u64, hours: u64, seconds: u64)
    requires
        days < 0x1_0000_0000,
        hours < 24,
        seconds < 3600,
    ensures
        days > 0 ==> age_of((86400 * days + 3600 * hours + seconds) as u64, true)
            == crate::text::decimal(days as int) + "d ago"@,
        0 < 3600 * hours + seconds ==> age_of((3600 * hours + seconds) as u64, true)
            == crate::text::decimal(hours as int) + "h ago"@,
        age_of(0, true) == "never"@,
        age_of((86400 * days + 3600 * hours + seconds) as u64, false) == "never"@,
{
    let all: int = 86400 * days + 3600 * hours + seconds;
    assert(all / 86400 == days) by (nonlinear_arith)
        requires
            all == 86400 * days + 3600 * hours + seconds,
            0 <= 3600 * hours + seconds < 86400,
    ;
    let part: int = 3600 * hours + seconds;
    assert(part / 3600 == hours) by (nonlinear_arith)
        requires
            part == 3600 * hours + seconds,
            0 <= seconds < 3600,
    ;
    assert(part % 86400 == part && part / 86400 == 0);
}

/// A measurement can be started from the menu exactly while the service runs and neither
/// a measurement nor a calibration does; so can a calibration.
pub proof fn measurements_are_offered_when_idle(connected: bool, n: NoiseState)
    ensures
        entry_enabled(noise_entry(connected, n)) <==> connected && !n.measuring && !n.calibrating,
        entry_enabled(calibrate_entry(connected, n)) <==> connected && !n.measuring
            && !n.calibrating,
        noise_entry(connected, n)->id == 105,
        calibrate_entry(connected, n)->id == 106,
        !entry_checked(noise_entry(connected, n)) && !entry_checked(calibrate_entry(connected, n)),
{
}

/// The menu ends with the exit, whether the service runs or not, unless it is opened for
/// debugging.
pub proof fn menus_end_with_the_exit(connected: bool, noise: Option<NoiseState>, v: MenuValues)
    ensures
        ({
            let m = menu_of(connected, noise, v, None);
            &&& m.len() > 1
            &&& m.last() == item(200, "Exit"@, false)
            &&& m[m.len() - 2] is Separator
        }),
{
}

/// A build date is shown with its parts in their order: year, month, day, hour, minute.
pub proof fn dates_keep_their_parts(
    year: Seq<char>,
    month: Seq<char>,
    day: Seq<char>,
    hour: Seq<char>,
    minute: Seq<char>,
)
    requires
        year.len() == 4,
        month.len() == 2,
        day.len() == 2,
        hour.len() == 2,
        minute.len() == 2,
    ensures
        date_of(year + month + day + "-"@ + hour + minute) == year + "-"@ + month + "-"@ + day
            + " "@ + hour + ":"@ + minute,
{
    reveal_strlit("-");
    let s = year + month + day + "-"@ + hour + minute;
    assert(s.subrange(0, 4) =~= year);
    assert(s.subrange(4, 6) =~= month);
    assert(s.subrange(6, 8) =~= day);
    assert(s.subrange(9, 11) =~= hour);
    assert(s.subrange(11, 13) =~= minute);
}

/// The line of the processor tells its temperature only where the service gave one, and
/// a name in any case.
pub proof fn processors_show_a_temperature_that_was_read(cpu: Seq<char>, status: u8, temp: u8)
    ensures
        ({
            let named = if cpu.len() == 0 {
                "unknown"@
            } else {
                cpu
            };
            &&& status == 0 || status == 128 ==> cpu_line_of(cpu, Some([status, temp]))
                == "CPU: "@ + crate::text::decimal(temp as int) + "C "@ + named
            &&& !(status == 0 || status == 128) ==> cpu_line_of(cpu, Some([status, temp]))
                == "CPU: "@ + named
            &&& cpu_line_of(cpu, None) == "CPU: "@ + named
        }),
{
    reveal_strlit("CPU:");
    reveal_strlit("CPU: ");
    reveal_strlit(" ");
    reveal_strlit("C");
    reveal_strlit("C ");
    let named = if cpu.len() == 0 {
        "unknown"@
    } else {
        cpu
    };
    let t: [u8; 2] = [status, temp];
    if status == 0 || status == 128 {
        assert(cpu_line_of(cpu, Some(t)) =~= "CPU: "@ + crate::text::decimal(temp as int) + "C "@
            + named);
    } else {
        assert(cpu_line_of(cpu, Some(t)) =~= "CPU: "@ + named);
    }
    assert(cpu_line_of(cpu, None) =~= "CPU: "@ + named);
}

/// The line of the graphics card tells the state only where it is one of the sixteen.
pub proof fn cards_show_a_state_that_is_known(g: GpuLine)
    ensures
        gpu_line_of(Some(g)) == "dGPU: "@ + g.name@ + (if g.pstate < 16 {
            " P"@ + crate::text::decimal(g.pstate as int)
        } else {
            " P?"@
        }) + " "@ + crate::text::decimal(g.temp_c as int) + "C "@ + g.watts@ + "W"@,
        gpu_line_of(None) == "dGPU: not available"@,
{
    reveal_strlit(" ");
    reveal_strlit("P");
    reveal_strlit(" P");
    reveal_strlit("P?");
    reveal_strlit(" P?");
    let told = "dGPU: "@ + g.name@ + (if g.pstate < 16 {
        " P"@ + crate::text::decimal(g.pstate as int)
    } else {
        " P?"@
    }) + " "@ + crate::text::decimal(g.temp_c as int) + "C "@ + g.watts@ + "W"@;
    if g.pstate < 16 {
        assert(gpu_line_of(Some(g)) =~= told);
    } else {
        assert(gpu_line_of(Some(g)) =~= told);
    }
}

/// A response is shown by its two bytes, the status first, in two hexadecimal digits
/// each; none is said to be none.
pub proof fn responses_are_shown_by_their_bytes(what: Seq<char>, r: [u8; 2])
    ensures
        ({
            let line = response_line_of(what, Some(r));
            let n = what.len() as int;
            &&& line.len() == n + 11
            &&& line.take(n) == what
            &&& crate::text::number_in(line.subrange(n + 4, n + 6), 16) == r[0]
            &&& crate::text::number_in(line.subrange(n + 9, n + 11), 16) == r[1]
            &&& response_line_of(what, None) == what + ": no response"@
        }),
{
    reveal_strlit(": 0x");
    reveal_strlit(" 0x");
    reveal(vstd::arithmetic::power::pow);
    assert(vstd::arithmetic::power::pow(16, 0) == 1);
    assert(vstd::arithmetic::power::pow(16, 1) == 16);
    assert(vstd::arithmetic::power::pow(16, 2) == 256);
    crate::text::hexadecimals_are_read_back(r[0] as int, 2);
    crate::text::hexadecimals_are_read_back(r[1] as int, 2);
    let line = response_line_of(what, Some(r));
    let n = what.len() as int;
    assert(line.take(n) =~= what);
    assert(line.subrange(n + 4, n + 6) =~= crate::text::hex_upper(r[0] as int, 2));
    assert(line.subrange(n + 9, n + 11) =~= crate::text::hex_upper(r[1] as int, 2));
}

/// The fingerprint can be shown exactly where the service reads the mode.
pub proof fn fingerprints_need_a_service(d: DebugInfo)
    ensures
        fingerprint_section(d)[1]->id == 322,
        entry_enabled(fingerprint_section(d)[1]) <==> (d.thermal is Some && (d.thermal->0[0] == 0
            || d.thermal->0[0] == 128)),
{
}

/// The calibration shows the power of either mode under its own name, how many of eight
/// points there are, and where the choice changes. It can be cleared at any time, and
/// recorded for debugging while nothing else runs.
pub proof fn calibrations_are_shown(m: Measured, busy: bool)
    ensures
        ({
            let s = calibration_section(Some(CalibrationLines { measured: Some(m), busy }));
            let none = calibration_section(Some(CalibrationLines { measured: None, busy }));
            &&& s.len() == 6 && none.len() == 4
            &&& s[1]->text == "Fan: perf="@ + m.perf_power@ + " bal="@ + m.bal_power@
            &&& s[2]->text == "Points: "@ + crate::text::decimal(m.num_points as int)
                + "/8, crossover ~"@ + (if m.crossover is Some {
                m.crossover->0@
            } else {
                "-"@
            }) + " dBFS"@
            &&& s[3]->text == "Last cal: "@ + age_of(m.age_secs, m.fan_measured)
            &&& !entry_enabled(s[1]) && !entry_enabled(s[2]) && !entry_enabled(s[3])
            &&& s[4] == item(314, "Clear calibration"@, false) && none[2] == s[4]
            &&& s[5]->id == 316 && (entry_enabled(s[5]) <==> !busy)
            &&& none[3] == s[5]
            &&& calibration_section(None).len() == 0
        }),
{
}

/// What the menu tells for debugging stands under numbers of its own, from 300 on in its
/// order, none of which can be taken for an entry that does something.
pub proof fn facts_have_numbers_of_their_own(d: DebugInfo, i: int)
    ensures
        1 <= i <= 3 ==> machine_section(d)[i]->id == 299 + i,
        1 <= i <= 4 ==> service_section(d)[i]->id == 302 + i,
        service_section(d)[1]->text == if d.pipe_ok {
            "pipe: connected"@
        } else {
            "pipe: FAIL"@
        },
        service_section(d)[2]->text == response_line_of("thermal"@, d.thermal),
        service_section(d)[3]->text == response_line_of("coolsense"@, d.coolsense),
        machine_section(d)[1]->text == "Build: "@ + d.build_id@ + " ("@ + date_of(d.build_date@)
            + ")"@,
        machine_section(d)[2]->text == cpu_line_of(d.cpu@, d.temp),
        machine_section(d)[3]->text == gpu_line_of(d.gpu),
{
}

} // verus!
