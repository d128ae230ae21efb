//! Calls into the firmware, and what their answers mean.

use vstd::prelude::*;
use vstd::string::*;

use crate::calls::{goes_on, made, since, Firmware};
use crate::log::{Level, Line};
use crate::protocol::STATUS_WMI_ERROR;
use crate::text::{chars_of, ends_with, push_decimal, push_padded_hex_upper};

verus! {

/// Signature of every call: "SECU".
pub const SIGN: [u8; 4] = [0x53, 0x45, 0x43, 0x55];

/// Commands of the firmware.
pub const BIOS_READ: u32 = 1;
pub const BIOS_WRITE: u32 = 2;
/// What a command is about.
pub const THERMAL_MODE: u32 = 76;
pub const COOLSENSE: u32 = 44;

/// A call into the firmware. Its data is four bytes, of which the last two are
/// always zero.
#[derive(Clone, Copy, PartialEq, Eq, Structural, Debug)]
pub struct BiosRequest {
    pub command: u32,
    pub command_type: u32,
    pub first: u8,
    pub second: u8,
}

impl BiosRequest {
    /// The four bytes of data.
    pub fn data(&self) -> (d: [u8; 4])
        ensures
            d@ == self.bytes(),
    {
        let d: [u8; 4] = [self.first, self.second, 0, 0];
        assert(d@ =~= seq![self.first, self.second, 0u8, 0u8]);
        d
    }

    /// The bytes of data.
    pub open spec fn bytes(self) -> Seq<u8> {
        seq![self.first, self.second, 0u8, 0u8]
    }

    /// How many of them the call declares.
    pub open spec fn declared(self) -> u32 {
        if self.command == BIOS_WRITE {
            4u32
        } else {
            0
        }
    }

    /// The size that the call declares: only a write carries data.
    pub fn size(&self) -> (n: u32)
        ensures
            n == self.declared(),
    {
        if self.command == BIOS_WRITE {
            4
        } else {
            0
        }
    }
}

/// What the firmware gave back: a return code and bytes, or the status of a call
/// that did not get that far.
pub type BiosAnswer = Result<(u32, Vec<u8>), u8>;

/// Byte `i` of an answer; zero where it is shorter.
pub open spec fn answer_byte(bytes: Seq<u8>, i: int) -> u8 {
    if i < bytes.len() {
        bytes[i]
    } else {
        0
    }
}

/// The first four bytes of an answer, filled up with zeros.
pub fn first_four(bytes: &[u8]) -> (d: [u8; 4])
    ensures
        forall|i: int| 0 <= i < 4 ==> #[trigger] d[i] == answer_byte(bytes@, i),
{
    let n: usize = bytes.len();
    [
        if n > 0 {
            bytes[0]
        } else {
            0
        },
        if n > 1 {
            bytes[1]
        } else {
            0
        },
        if n > 2 {
            bytes[2]
        } else {
            0
        },
        if n > 3 {
            bytes[3]
        } else {
            0
        },
    ]
}

/// The value of a read: byte `i` of an answer whose return code is zero.
pub open spec fn value_of(answer: BiosAnswer, i: int) -> Result<u8, u8> {
    match answer {
        Ok((rc, bytes)) => if rc != 0 {
            Err(STATUS_WMI_ERROR)
        } else {
            Ok(answer_byte(bytes@, i))
        },
        Err(e) => Err(e),
    }
}

/// The outcome of a write.
pub open spec fn done(answer: BiosAnswer) -> Result<(), u8> {
    match answer {
        Ok((rc, _)) => if rc != 0 {
            Err(STATUS_WMI_ERROR)
        } else {
            Ok(())
        },
        Err(e) => Err(e),
    }
}

/// The thermal mode of an answer.
pub open spec fn thermal_in(answer: BiosAnswer) -> Result<u8, u8> {
    value_of(answer, 0)
}

/// The CoolSense setting of an answer.
pub open spec fn coolsense_in(answer: BiosAnswer) -> Result<u8, u8> {
    value_of(answer, 1)
}

/// The value of a read.
pub fn read_value(answer: &BiosAnswer, i: usize) -> (r: Result<u8, u8>)
    requires
        i < 4,
    ensures
        r == value_of(*answer, i as int),
{
    match answer {
        Ok((rc, bytes)) => {
            if *rc != 0 {
                return Err(STATUS_WMI_ERROR);
            }
            let data = first_four(bytes.as_slice());
            Ok(data[i])
        },
        Err(e) => Err(*e),
    }
}

/// The outcome of a write.
pub fn write_done(answer: &BiosAnswer) -> (r: Result<(), u8>)
    ensures
        r == done(*answer),
{
    match answer {
        Ok((rc, _)) => if *rc != 0 {
            Err(STATUS_WMI_ERROR)
        } else {
            Ok(())
        },
        Err(e) => Err(*e),
    }
}

/// A read of one kind.
pub open spec fn read_of(command_type: u32) -> BiosRequest {
    BiosRequest { command: BIOS_READ, command_type, first: 0, second: 0 }
}

/// The write of a thermal mode.
pub open spec fn thermal_write(mode: u8) -> BiosRequest {
    BiosRequest { command: BIOS_WRITE, command_type: THERMAL_MODE, first: mode, second: 0 }
}

/// The write of a CoolSense setting, with the flags that were there.
pub open spec fn coolsense_write(flags: u8, on: u8) -> BiosRequest {
    BiosRequest { command: BIOS_WRITE, command_type: COOLSENSE, first: flags, second: on }
}

/// The calls that a write of the CoolSense setting makes, with their answers: a read
/// of what is there, and where it brought the flags, the write.
pub open spec fn is_coolsense_write(calls: Seq<(BiosRequest, BiosAnswer)>, on: u8) -> bool {
    &&& calls.len() >= 1
    &&& calls[0].0 == read_of(COOLSENSE)
    &&& match value_of(calls[0].1, 0) {
        Ok(flags) => calls.len() == 2 && calls[1].0 == coolsense_write(flags, on),
        Err(_) => calls.len() == 1,
    }
}

/// What a write of the CoolSense setting comes to: its read failed, or what its write
/// came to.
pub open spec fn coolsense_done(calls: Seq<(BiosRequest, BiosAnswer)>) -> Result<(), u8> {
    match value_of(calls[0].1, 0) {
        Ok(_) => done(calls[1].1),
        Err(e) => Err(e),
    }
}

/// Reads the thermal mode, the first byte, in one call.
pub fn read_thermal<B: Fn(BiosRequest) -> BiosAnswer>(firmware: &mut Firmware<B>) -> (r: Result<
    u8,
    u8,
>)
    requires
        old(firmware).bios().requires((read_of(THERMAL_MODE),)),
    ensures
        final(firmware).bios() == old(firmware).bios(),
        exists|a: BiosAnswer|
            final(firmware).log() == #[trigger] old(firmware).log().push((read_of(THERMAL_MODE), a))
                && old(firmware).bios().ensures((read_of(THERMAL_MODE),), a) && r == thermal_in(a),
{
    let a = firmware.call(
        BiosRequest { command: BIOS_READ, command_type: THERMAL_MODE, first: 0, second: 0 },
    );
    read_value(&a, 0)
}

/// Sets the thermal mode, in one call.
pub fn set_thermal<B: Fn(BiosRequest) -> BiosAnswer>(firmware: &mut Firmware<B>, mode: u8) -> (r:
    Result<(), u8>)
    requires
        old(firmware).bios().requires((thermal_write(mode),)),
    ensures
        final(firmware).bios() == old(firmware).bios(),
        exists|a: BiosAnswer|
            final(firmware).log() == #[trigger] old(firmware).log().push((thermal_write(mode), a))
                && old(firmware).bios().ensures((thermal_write(mode),), a) && r == done(a),
{
    let a = firmware.call(
        BiosRequest { command: BIOS_WRITE, command_type: THERMAL_MODE, first: mode, second: 0 },
    );
    write_done(&a)
}

/// Reads the CoolSense setting, the second byte, in one call.
pub fn read_coolsense<B: Fn(BiosRequest) -> BiosAnswer>(firmware: &mut Firmware<B>) -> (r: Result<
    u8,
    u8,
>)
    requires
        old(firmware).bios().requires((read_of(COOLSENSE),)),
    ensures
        final(firmware).bios() == old(firmware).bios(),
        exists|a: BiosAnswer|
            final(firmware).log() == #[trigger] old(firmware).log().push((read_of(COOLSENSE), a))
                && old(firmware).bios().ensures((read_of(COOLSENSE),), a) && r == coolsense_in(a),
{
    let a = firmware.call(
        BiosRequest { command: BIOS_READ, command_type: COOLSENSE, first: 0, second: 0 },
    );
    read_value(&a, 1)
}

/// Sets the CoolSense setting. The first byte holds flags, so it is read and
/// written back; where that read fails, nothing is written.
pub fn set_coolsense<B: Fn(BiosRequest) -> BiosAnswer>(firmware: &mut Firmware<B>, on: u8) -> (r:
    Result<(), u8>)
    requires
        old(firmware).bios().requires((read_of(COOLSENSE),)),
        forall|a: BiosAnswer, flags: u8|
            #[trigger] old(firmware).bios().ensures((read_of(COOLSENSE),), a) && value_of(a, 0)
                == Ok::<u8, u8>(flags) ==> #[trigger] old(firmware).bios().requires(
                (coolsense_write(flags, on),),
            ),
    ensures
        final(firmware).bios() == old(firmware).bios(),
        goes_on(old(firmware).log(), final(firmware).log()),
        is_coolsense_write(since(old(firmware).log(), final(firmware).log()), on),
        made(old(firmware).bios(), since(old(firmware).log(), final(firmware).log())),
        r == coolsense_done(since(old(firmware).log(), final(firmware).log())),
{
    let ghost start = firmware.log();
    let before = firmware.call(
        BiosRequest { command: BIOS_READ, command_type: COOLSENSE, first: 0, second: 0 },
    );
    assert(since(start, firmware.log()) =~= seq![(read_of(COOLSENSE), before)]);
    assert(firmware.log() =~= start + since(start, firmware.log()));
    match read_value(&before, 0) {
        Err(e) => Err(e),
        Ok(flags) => {
            assert(firmware.bios().requires((coolsense_write(flags, on),)));
            let a = firmware.call(
                BiosRequest {
                    command: BIOS_WRITE,
                    command_type: COOLSENSE,
                    first: flags,
                    second: on,
                },
            );
            assert(since(start, firmware.log()) =~= seq![
                (read_of(COOLSENSE), before),
                (coolsense_write(flags, on), a),
            ]);
            assert(firmware.log() =~= start + since(start, firmware.log()));
            write_done(&a)
        },
    }
}

/// Setting CoolSense leaves the flags as they were: whatever is written carries the
/// first byte that was read just before, and nothing is written where that read failed.
pub proof fn coolsense_keeps_the_flags(calls: Seq<(BiosRequest, BiosAnswer)>, on: u8, i: int)
    requires
        is_coolsense_write(calls, on),
        0 <= i < calls.len(),
        calls[i].0.command == BIOS_WRITE,
    ensures
        i == 1,
        value_of(calls[0].1, 0) == Ok::<u8, u8>(calls[i].0.first),
        calls[i].0.second == on,
{
}

/// How many steps a call takes: to set up its input, to make it, and to take its
/// output apart.
pub const BIOS_STEPS: u8 = 19;
/// Status of a call that fails in its first step; each later step has the next.
pub const FIRST_STEP_ERROR: u8 = 0x10;

/// What follows a step of a call.
pub open spec fn call_after(step: u8, ok: bool) -> Result<u8, u8> {
    if ok {
        Ok((step + 1) as u8)
    } else {
        Err((FIRST_STEP_ERROR + step) as u8)
    }
}

/// The step after `step`, or the status that tells at which step the call failed.
pub fn bios_call_method(step: u8, ok: bool) -> (r: Result<u8, u8>)
    requires
        step < BIOS_STEPS,
    ensures
        r == call_after(step, ok),
{
    if ok {
        Ok(step + 1)
    } else {
        Err(FIRST_STEP_ERROR + step)
    }
}

/// A sensor of the platform framework: its name and its temperature, as far as
/// they could be read.
pub struct EsifRow {
    pub name: Option<String>,
    pub temp: Option<u32>,
}

/// The temperature of a row, where the row is that of the package (its name ends
/// with "_3") and shows more than zero degrees, in a byte at most.
pub open spec fn package_temp(row: EsifRow) -> Option<u8> {
    if row.name is Some && crate::text::finishes_with(row.name->0@, "_3"@) && row.temp is Some
        && row.temp->0 > 0 {
        Some(
            if row.temp->0 > 255 {
                255u8
            } else {
                row.temp->0 as u8
            },
        )
    } else {
        None
    }
}

/// The first package temperature among the rows.
pub open spec fn first_package_temp(rows: Seq<EsifRow>) -> Option<u8>
    decreases rows.len(),
{
    if rows.len() == 0 {
        None
    } else {
        match package_temp(rows[0]) {
            Some(t) => Some(t),
            None => first_package_temp(rows.drop_first()),
        }
    }
}

fn row_temp(row: &EsifRow) -> (r: Option<u8>)
    ensures
        r == package_temp(*row),
{
    match (&row.name, row.temp) {
        (Some(name), Some(temp)) => {
            let chars = chars_of(name.as_str());
            let suffix = chars_of("_3");
            if ends_with(chars.as_slice(), suffix.as_slice()) && temp > 0 {
                Some(
                    if temp > 255 {
                        255
                    } else {
                        temp as u8
                    },
                )
            } else {
                None
            }
        },
        _ => None,
    }
}

/// The temperature of the package, from the rows of the platform framework.
pub fn read_esif_temp(rows: &[EsifRow]) -> (r: Result<u8, u8>)
    ensures
        r == (match first_package_temp(rows@) {
            Some(t) => Ok::<u8, u8>(t),
            None => Err::<u8, u8>(STATUS_WMI_ERROR),
        }),
{
    let mut i: usize = 0;
    assert(rows@.skip(0) =~= rows@);
    while i < rows.len()
        invariant
            i <= rows@.len(),
            first_package_temp(rows@.skip(i as int)) == first_package_temp(rows@),
        decreases rows@.len() - i,
    {
        assert(rows@.skip(i as int).drop_first() =~= rows@.skip(i + 1));
        if let Some(t) = row_temp(&rows[i]) {
            return Ok(t);
        }
        i = i + 1;
    }
    Err(STATUS_WMI_ERROR)
}

/// Degrees Celsius of a value in tenths of Kelvin, where that is above zero. The
/// value is a signed number of 32 bits.
pub open spec fn zone_celsius(raw: u32) -> int {
    if 2732 <= raw <= i32::MAX {
        (raw - 2732) / 10
    } else {
        0
    }
}

/// The highest temperature among the zones that could be read, and at least zero.
pub open spec fn highest(zones: Seq<Option<u32>>) -> int
    decreases zones.len(),
{
    if zones.len() == 0 {
        0
    } else {
        let before = highest(zones.drop_last());
        match zones.last() {
            Some(raw) => if zone_celsius(raw) > before {
                zone_celsius(raw)
            } else {
                before
            },
            None => before,
        }
    }
}

/// The highest temperature of the thermal zones, in a byte at most.
pub fn read_acpi_temp(zones: &[Option<u32>]) -> (t: u8)
    ensures
        t == if highest(zones@) > 255 {
            255
        } else {
            highest(zones@)
        },
{
    let mut max_c: u32 = 0;
    let mut i: usize = 0;
    while i < zones.len()
        invariant
            i <= zones@.len(),
            max_c == highest(zones@.take(i as int)),
        decreases zones@.len() - i,
    {
        proof {
            assert(zones@.take(i + 1).drop_last() =~= zones@.take(i as int));
        }
        if let Some(raw) = zones[i] {
            if 2732 <= raw && raw <= 0x7fff_ffff {
                let c: u32 = (raw - 2732) / 10;
                if c > max_c {
                    max_c = c;
                }
            }
        }
        i = i + 1;
    }
    assert(zones@.take(i as int) =~= zones@);
    if max_c > 255 {
        255
    } else {
        max_c as u8
    }
}

/// The temperature of the processor, from what the two queries brought.
pub open spec fn temp_of(esif: Option<Seq<EsifRow>>, zones: Option<Seq<Option<u32>>>) -> Result<
    u8,
    u8,
> {
    if esif is Some && first_package_temp(esif->0) is Some {
        Ok(first_package_temp(esif->0)->0)
    } else if zones is Some {
        Ok(
            if highest(zones->0) > 255 {
                255u8
            } else {
                highest(zones->0) as u8
            },
        )
    } else {
        Err(STATUS_WMI_ERROR)
    }
}

/// The temperature of the processor: that of the package where there is one, else
/// the highest of the thermal zones. `None` is a query that failed.
pub fn read_temp(esif: Option<&[EsifRow]>, zones: Option<&[Option<u32>]>) -> (r: Result<u8, u8>)
    ensures
        r == temp_of(
            match esif {
                Some(rows) => Some(rows@),
                None => None,
            },
            match zones {
                Some(z) => Some(z@),
                None => None,
            },
        ),
{
    if let Some(rows) = esif {
        if let Ok(t) = read_esif_temp(rows) {
            return Ok(t);
        }
    }
    match zones {
        Some(z) => Ok(read_acpi_temp(z)),
        None => Err(STATUS_WMI_ERROR),
    }
}

/// The brightness that a query brought.
pub open spec fn brightness_of(value: Option<u32>) -> Result<u8, u8> {
    match value {
        Some(v) => Ok(
            if v > 100 {
                100u8
            } else {
                v as u8
            },
        ),
        None => Err(STATUS_WMI_ERROR),
    }
}

/// The brightness of the display, from what the query brought: a percentage at
/// most 100.
pub fn read_brightness(value: Option<u32>) -> (r: Result<u8, u8>)
    ensures
        r == brightness_of(value),
{
    match value {
        Some(v) => Ok(
            if v > 100 {
                100
            } else {
                v as u8
            },
        ),
        None => Err(STATUS_WMI_ERROR),
    }
}

/// The event of Fn+F12.
pub const FN_KEY_EVENT_ID: u32 = 29;

/// Whether the number of an event is that of Fn+F12.
pub open spec fn is_fn_key(event_id: u32) -> bool {
    event_id == FN_KEY_EVENT_ID
}

/// Whether a batch of events holds one of Fn+F12.
pub open spec fn has_fn_key(ids: Seq<Option<u32>>) -> bool {
    ids.contains(Some(FN_KEY_EVENT_ID))
}

/// Whether an event of the firmware is that of Fn+F12.
pub fn should_signal_fn_key(event_id: u32) -> (r: bool)
    ensures
        r == is_fn_key(event_id),
{
    event_id == FN_KEY_EVENT_ID
}

/// Whether a batch of events signals the tray: one of them is that of Fn+F12.
/// However many are, there is one signal to see.
pub fn indicate(ids: &[Option<u32>]) -> (r: bool)
    ensures
        r == has_fn_key(ids@),
{
    let mut i: usize = 0;
    while i < ids.len()
        invariant
            i <= ids@.len(),
            forall|k: int| 0 <= k < i ==> ids@[k] != Some(FN_KEY_EVENT_ID),
        decreases ids@.len() - i,
    {
        if let Some(id) = ids[i] {
            if should_signal_fn_key(id) {
                assert(ids@[i as int] == Some(FN_KEY_EVENT_ID));
                return true;
            }
        }
        i = i + 1;
    }
    false
}

/// The line that a verbose log has for an event.
pub fn event_line(id: u32, data: u32) -> (line: Line)
    ensures
        crate::log::line_view(line) == (
            Level::Info,
            "hpqBEvnt: id="@ + crate::text::decimal(id as int) + " data=0x"@
                + crate::text::padded_hex_upper(data as int, 4),
        ),
{
    let mut text: String = "hpqBEvnt: id=".to_owned();
    push_decimal(&mut text, id as u64);
    text.append(" data=0x");
    push_padded_hex_upper(&mut text, data as u64, 4);
    Line { level: Level::Info, text }
}

/// What is written is what is read: firmware that answers a read with the data of the last
/// write answers with the mode, or the setting, that was set. A write of the one does not
/// touch the other, and a read carries nothing.
pub proof fn writes_are_read_back(mode: u8, flags: u8, on: u8, kind: u32, echo: Vec<u8>)
    ensures
        thermal_write(mode).command == 2 && thermal_write(mode).command_type == 76,
        coolsense_write(flags, on).command == 2 && coolsense_write(flags, on).command_type == 44,
        read_of(kind).command == 1 && read_of(kind).command_type == kind,
        THERMAL_MODE == 76 && COOLSENSE == 44,
        echo@ == thermal_write(mode).bytes() ==> thermal_in(Ok((0, echo))) == Ok::<u8, u8>(mode),
        echo@ == coolsense_write(flags, on).bytes() ==> coolsense_in(Ok((0, echo))) == Ok::<u8, u8>(
            on,
        ) && value_of(Ok((0, echo)), 0) == Ok::<u8, u8>(flags),
        thermal_write(mode).bytes() == seq![mode, 0u8, 0u8, 0u8],
        coolsense_write(flags, on).bytes() == seq![flags, on, 0u8, 0u8],
        read_of(kind).declared() == 0,
        thermal_write(mode).declared() == 4 && coolsense_write(flags, on).declared() == 4,
{
}

/// An answer counts only with a return code of zero; any other is one and the same failure,
/// whatever came with it, and a call that did not get that far keeps its own status.
pub proof fn failed_calls_bring_nothing(rc: u32, bytes: Vec<u8>, status: u8, i: int)
    requires
        0 <= i,
    ensures
        rc != 0 ==> value_of(Ok((rc, bytes)), i) == Err::<u8, u8>(3) && done(Ok((rc, bytes)))
            == Err::<(), u8>(3),
        value_of(Err(status), i) == Err::<u8, u8>(status),
        done(Err(status)) == Err::<(), u8>(status),
        done(Ok((0, bytes))) is Ok,
        value_of(Ok((0, bytes)), i) == Ok::<u8, u8>(
            if i < bytes@.len() {
                bytes@[i]
            } else {
                0
            },
        ),
{
}

/// Setting CoolSense is done only where both calls succeeded; what failed first is what is
/// reported.
pub proof fn coolsense_reports_the_first_failure(calls: Seq<(BiosRequest, BiosAnswer)>, on: u8)
    requires
        is_coolsense_write(calls, on),
    ensures
        coolsense_done(calls) is Ok <==> calls.len() == 2 && calls[0].1 is Ok && calls[0].1->Ok_0.0
            == 0 && calls[1].1 is Ok && calls[1].1->Ok_0.0 == 0,
        calls.len() == 1 ==> coolsense_done(calls) == Err::<(), u8>(value_of(calls[0].1, 0)->Err_0),
        calls[0].0.command == 1 && calls[0].0.command_type == 44,
        calls.len() == 2 ==> calls[1].0.command == 2 && calls[1].0.command_type == 44,
        calls.len() <= 2,
{
}

/// Each step of a call that fails has a status of its own, and none of them is one of the
/// protocol's.
pub proof fn failed_steps_are_told_apart(a: u8, b: u8)
    requires
        a < BIOS_STEPS,
        b < BIOS_STEPS,
    ensures
        BIOS_STEPS == 19,
        call_after(a, true) == Ok::<u8, u8>((a + 1) as u8),
        call_after(a, false) == Err::<u8, u8>((0x10 + a) as u8),
        call_after(a, false) == call_after(b, false) ==> a == b,
        call_after(a, false)->Err_0 > STATUS_WMI_ERROR && !crate::protocol::ok_status(
            call_after(a, false)->Err_0,
        ),
{
}

/// The temperature of a row counts where its name ends in "_3" and it is above zero; what
/// does not fit a byte is the largest that does.
pub proof fn packages_have_a_temperature(row: EsifRow)
    ensures
        package_temp(row) matches Some(t) ==> {
            &&& row.temp matches Some(raw) && raw > 0 && (raw <= 255 ==> t == raw) && (raw > 255
                ==> t == 255)
            &&& row.name matches Some(name) && crate::text::finishes_with(name@, "_3"@)
        },
        package_temp(row) is None <==> row.name is None || row.temp is None || row.temp == Some(0u32)
            || !crate::text::finishes_with(row.name->0@, "_3"@),
{
}

/// Of several packages the first one counts; without one there is none.
pub proof fn the_first_package_counts(rows: Seq<EsifRow>, i: int)
    requires
        0 <= i <= rows.len(),
        forall|k: int| 0 <= k < i ==> package_temp(#[trigger] rows[k]) is None,
        i < rows.len() ==> package_temp(rows[i]) is Some,
    ensures
        first_package_temp(rows) == if i < rows.len() {
            package_temp(rows[i])
        } else {
            None
        },
    decreases rows.len(),
{
    if i > 0 {
        let rest = rows.drop_first();
        assert(package_temp(rows[0]) is None);
        assert forall|k: int| 0 <= k < i - 1 implies package_temp(#[trigger] rest[k]) is None by {
            assert(rest[k] == rows[k + 1]);
        }
        the_first_package_counts(rest, i - 1);
    }
}

/// A zone is in tenths of a Kelvin: whole degrees above freezing count, and nothing below.
pub proof fn zones_are_in_tenths_of_kelvin(celsius: u32, tenths: u32, raw: u32)
    requires
        celsius < 0x0800_0000,
        tenths < 10,
    ensures
        zone_celsius((2732 + 10 * celsius + tenths) as u32) == celsius,
        raw < 2732 ==> zone_celsius(raw) == 0,
        raw >= 0x8000_0000 ==> zone_celsius(raw) == 0,
{
}

/// The highest zone is none lower than any of them, and is one of them, or zero.
pub proof fn the_highest_zone_counts(zones: Seq<Option<u32>>, i: int)
    requires
        0 <= i < zones.len(),
    ensures
        zones[i] matches Some(raw) ==> zone_celsius(raw) <= highest(zones),
        highest(zones) == 0 || exists|k: int|
            0 <= k < zones.len() && (#[trigger] zones[k] matches Some(raw) && zone_celsius(raw)
                == highest(zones)),
        highest(zones) >= 0,
    decreases zones.len(),
{
    let rest = zones.drop_last();
    let last = zones.len() - 1;
    assert(zones[last] == zones.last());
    if rest.len() > 0 {
        the_highest_zone_counts(
            rest,
            if i < last {
                i
            } else {
                0
            },
        );
        if highest(rest) != 0 {
            let k = choose|k: int|
                0 <= k < rest.len() && (#[trigger] rest[k] matches Some(raw) && zone_celsius(raw)
                    == highest(rest));
            assert(zones[k] == rest[k]);
        }
    } else {
        assert(highest(rest) == 0);
    }
}

/// The package comes before the zones, which come in where it shows nothing; without either
/// there is no temperature. A brightness is at most one hundred, and one that could not be
/// read is a failure.
pub proof fn temperatures_have_a_fallback(
    rows: Seq<EsifRow>,
    zones: Seq<Option<u32>>,
    z: Option<Seq<Option<u32>>>,
    value: u32,
)
    ensures
        first_package_temp(rows) is Some ==> temp_of(Some(rows), z) == Ok::<u8, u8>(
            first_package_temp(rows)->0,
        ),
        first_package_temp(rows) is None ==> temp_of(Some(rows), z) == temp_of(None, z),
        0 <= highest(zones) <= 255 ==> temp_of(None, Some(zones)) == Ok::<u8, u8>(
            highest(zones) as u8,
        ),
        highest(zones) > 255 ==> temp_of(None, Some(zones)) == Ok::<u8, u8>(255),
        temp_of(None, None) == Err::<u8, u8>(3),
        value <= 100 ==> brightness_of(Some(value)) == Ok::<u8, u8>(value as u8),
        value > 100 ==> brightness_of(Some(value)) == Ok::<u8, u8>(100),
        brightness_of(None) == Err::<u8, u8>(3),
{
}

/// Fn+F12 is event 29, and a batch signals it wherever it stands, and however often.
pub proof fn one_fn_key_is_enough(ids: Seq<Option<u32>>, id: u32)
    ensures
        is_fn_key(id) <==> id == 29,
        has_fn_key(ids) <==> exists|i: int| 0 <= i < ids.len() && #[trigger] ids[i] == Some(29u32),
        !has_fn_key(Seq::empty()),
{
    if has_fn_key(ids) {
        let i = ids.index_of(Some(29u32));
        assert(ids[i] == Some(29u32));
    }
}

} // verus!
