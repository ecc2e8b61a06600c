//! Local hardware: what firmware and display identification say of the computer and its monitors.

use vstd::prelude::*;

use crate::model::Duplicate;
use crate::text;

verus! {

/// The kind of enclosure that the firmware reports.
#[derive(Clone, Copy, Debug, PartialEq, Eq, Structural)]
pub struct ChassisType(pub u8);

/// What the firmware says of the computer.
#[derive(Clone, Debug, PartialEq, Eq)]
pub struct SystemInfo {
    pub manufacturer: String,
    pub model: String,
    pub serial: String,
    pub asset_tag: String,
    pub chassis_type: ChassisType,
}

/// What a connected monitor says of itself.
#[derive(Clone, Debug, PartialEq, Eq)]
pub struct MonitorInfo {
    pub manufacturer_code: String,
    pub product_code: String,
    pub serial: String,
    pub manufacture_week: u8,
    pub manufacture_year: u16,
}

/// The deep view of a [`MonitorInfo`].
#[verifier::ext_equal]
pub struct MonitorInfoView {
    pub manufacturer_code: Seq<char>,
    pub product_code: Seq<char>,
    pub serial: Seq<char>,
    pub manufacture_week: u8,
    pub manufacture_year: u16,
}

impl DeepView for MonitorInfo {
    type V = MonitorInfoView;

    open spec fn deep_view(&self) -> MonitorInfoView {
        MonitorInfoView {
            manufacturer_code: self.manufacturer_code@,
            product_code: self.product_code@,
            serial: self.serial@,
            manufacture_week: self.manufacture_week,
            manufacture_year: self.manufacture_year,
        }
    }
}

impl Duplicate for MonitorInfo {
    fn duplicate(&self) -> (copy: Self) {
        MonitorInfo {
            manufacturer_code: self.manufacturer_code.clone(),
            product_code: self.product_code.clone(),
            serial: self.serial.clone(),
            manufacture_week: self.manufacture_week,
            manufacture_year: self.manufacture_year,
        }
    }
}

/// One row of the display identification: texts are UTF-16 units that end at a zero.
#[derive(Clone, Debug, PartialEq, Eq)]
pub struct WmiMonitorId {
    pub active: bool,
    pub manufacturer_name: Vec<u16>,
    pub product_code_id: Vec<u16>,
    pub serial_number_id: Vec<u16>,
    pub week_of_manufacture: u8,
    pub year_of_manufacture: u16,
}

/// Whether a UTF-16 unit is the first of a surrogate pair.
pub open spec fn leads(unit: u16) -> bool {
    0xD800 <= unit <= 0xDBFF
}

/// Whether a UTF-16 unit is the second of a surrogate pair.
pub open spec fn trails(unit: u16) -> bool {
    0xDC00 <= unit <= 0xDFFF
}

/// The character that a surrogate pair encodes.
pub open spec fn paired_character(first: u16, second: u16) -> char {
    (0x10000 + (first - 0xD800) * 0x400 + (second - 0xDC00)) as char
}

/// The text that UTF-16 units encode. A surrogate outside a pair stands for the replacement
/// character.
pub open spec fn decoded_utf16(units: Seq<u16>) -> Seq<char>
    decreases units.len(),
{
    if units.len() == 0 {
        Seq::empty()
    } else if leads(units[0]) && units.len() > 1 && trails(units[1]) {
        seq![paired_character(units[0], units[1])] + decoded_utf16(units.skip(2))
    } else if leads(units[0]) || trails(units[0]) {
        seq!['\u{FFFD}'] + decoded_utf16(units.skip(1))
    } else {
        seq![units[0] as char] + decoded_utf16(units.skip(1))
    }
}

/// Decodes UTF-16 units.
///
/// Trusted wrapper of [`String::from_utf16_lossy`]: surrogate pairs are decoded, and each surrogate
/// outside a pair becomes the replacement character.
#[verifier::external_body]
fn decode_utf16(units: &[u16]) -> (text: String)
    ensures
        text@ == decoded_utf16(units@),
{
    String::from_utf16_lossy(units)
}

/// The units before the first zero.
pub open spec fn until_zero(units: Seq<u16>) -> Seq<u16>
    decreases units.len(),
{
    if units.len() == 0 || units[0] == 0 {
        Seq::empty()
    } else {
        seq![units[0]] + until_zero(units.skip(1))
    }
}

/// The text that a field of the display identification holds.
pub open spec fn identification_text(units: Seq<u16>) -> Seq<char> {
    text::trimmed(decoded_utf16(until_zero(units)))
}

/// Reads a field of the display identification.
pub fn decode_wmi_string(value: &[u16]) -> (decoded: String)
    ensures
        decoded@ == identification_text(value@),
{
    let mut units: Vec<u16> = Vec::new();
    let mut index: usize = 0;
    proof {
        assert(value@.skip(0) =~= value@);
        assert(units@ + until_zero(value@) =~= until_zero(value@));
    }
    while index < value.len() && value[index] != 0
        invariant
            index <= value@.len(),
            units@ + until_zero(value@.skip(index as int)) == until_zero(value@),
        decreases value.len() - index,
    {
        let ghost rest = value@.skip(index as int);
        let ghost before = units@;
        units.push(value[index]);
        index += 1;
        proof {
            assert(rest.skip(1) =~= value@.skip(index as int));
            assert(units@ + until_zero(rest.skip(1)) =~= before + (seq![rest[0]] + until_zero(
                rest.skip(1),
            )));
        }
    }
    proof {
        let rest = value@.skip(index as int);
        assert(until_zero(rest) =~= Seq::empty());
        assert(units@ =~= until_zero(value@));
    }
    let decoded = decode_utf16(units.as_slice());
    let chars = text::to_chars(decoded.as_str());
    let trimmed = text::trim(chars.as_slice());
    text::from_chars(trimmed.as_slice())
}

/// The monitor that a row of the display identification stands for: none if the display is not
/// active or has no serial.
pub open spec fn identified_monitor(row: WmiMonitorId) -> Option<MonitorInfoView> {
    if !row.active || identification_text(row.serial_number_id@).len() == 0 {
        None
    } else {
        Some(
            MonitorInfoView {
                manufacturer_code: identification_text(row.manufacturer_name@),
                product_code: identification_text(row.product_code_id@),
                serial: identification_text(row.serial_number_id@),
                manufacture_week: row.week_of_manufacture,
                manufacture_year: row.year_of_manufacture,
            },
        )
    }
}

/// Reads a row of the display identification.
pub fn convert_monitor(row: &WmiMonitorId) -> (monitor: Option<MonitorInfo>)
    ensures
        monitor.deep_view() == identified_monitor(*row),
{
    if !row.active {
        return None;
    }
    let serial = decode_wmi_string(row.serial_number_id.as_slice());
    let chars = text::to_chars(serial.as_str());
    if chars.len() == 0 {
        return None;
    }
    Some(
        MonitorInfo {
            manufacturer_code: decode_wmi_string(row.manufacturer_name.as_slice()),
            product_code: decode_wmi_string(row.product_code_id.as_slice()),
            serial,
            manufacture_week: row.week_of_manufacture,
            manufacture_year: row.year_of_manufacture,
        },
    )
}

/// The monitors that some rows stand for, in order.
pub open spec fn identified_monitors(rows: Seq<WmiMonitorId>) -> Seq<MonitorInfoView>
    decreases rows.len(),
{
    if rows.len() == 0 {
        Seq::empty()
    } else {
        let before = identified_monitors(rows.drop_last());
        match identified_monitor(rows.last()) {
            Some(monitor) => before.push(monitor),
            None => before,
        }
    }
}

/// Reads the rows of the display identification.
pub fn convert_monitors(rows: &Vec<WmiMonitorId>) -> (monitors: Vec<MonitorInfo>)
    ensures
        monitors.deep_view() == identified_monitors(rows@),
{
    let mut monitors: Vec<MonitorInfo> = Vec::new();
    let mut index: usize = 0;
    proof {
        assert(monitors.deep_view() =~= Seq::empty());
        assert(rows@.take(0) =~= Seq::empty());
    }
    while index < rows.len()
        invariant
            index <= rows@.len(),
            monitors.deep_view() == identified_monitors(rows@.take(index as int)),
        decreases rows.len() - index,
    {
        let ghost before = monitors.deep_view();
        proof {
            assert(rows@.take(index as int + 1).drop_last() =~= rows@.take(index as int));
        }
        match convert_monitor(&rows[index]) {
            Some(monitor) => {
                let ghost view = monitor.deep_view();
                monitors.push(monitor);
                proof {
                    assert(monitors.deep_view() =~= before.push(view));
                }
            },
            None => {},
        }
        index += 1;
    }
    proof {
        assert(rows@.take(rows@.len() as int) =~= rows@);
    }
    monitors
}

/// Every monitor that is discovered has a serial that is more than white space.
pub proof fn discovered_monitors_have_serials(rows: Seq<WmiMonitorId>, index: int)
    requires
        0 <= index < identified_monitors(rows).len(),
    ensures
        identified_monitors(rows)[index].serial.len() > 0,
    decreases rows.len(),
{
    if rows.len() > 0 {
        let before = identified_monitors(rows.drop_last());
        if index < before.len() {
            discovered_monitors_have_serials(rows.drop_last(), index);
        }
    }
}

/// The discovery of hardware on Windows: the firmware first, the monitors after it.
#[derive(Clone, Copy, Debug, PartialEq, Eq, Structural)]
pub struct WindowsHardwareDiscovery;

impl WindowsHardwareDiscovery {
    /// Puts together what the firmware and the display identification gave. A failure of the
    /// firmware goes before one of the display identification.
    pub fn discover<E>(
        &self,
        system: Result<SystemInfo, E>,
        rows: Result<Vec<WmiMonitorId>, E>,
    ) -> (result: Result<(SystemInfo, Vec<MonitorInfo>), E>)
        ensures
            match result {
                Ok((found, monitors)) => {
                    &&& system == Ok::<SystemInfo, E>(found)
                    &&& rows is Ok
                    &&& monitors.deep_view() == identified_monitors(rows->Ok_0@)
                },
                Err(error) => match system {
                    Err(first) => error == first,
                    Ok(_) => rows == Err::<Vec<WmiMonitorId>, E>(error),
                },
            },
    {
        match system {
            Err(error) => Err(error),
            Ok(found) => match rows {
                Err(error) => Err(error),
                Ok(rows) => Ok((found, convert_monitors(&rows))),
            },
        }
    }
}

/// A unit that stands for a character by itself is read as that character; two units that stand for
/// one together are read as it; a unit that stands for none is read as the replacement character.
pub proof fn units_are_read_from_the_front(units: Seq<u16>, character: char)
    requires
        units.len() > 0,
    ensures
        ({
            let text = decoded_utf16(units);
            &&& text.len() > 0
            &&& units[0] == character as int && (units[0] < 0xD800 || units[0] > 0xDFFF) ==> text
                == seq![character] + decoded_utf16(units.skip(1))
            &&& 0xD800 <= units[0] <= 0xDBFF && units.len() > 1 && 0xDC00 <= units[1] <= 0xDFFF
                && character as int == 0x10000 + (units[0] - 0xD800) * 0x400 + (units[1] - 0xDC00)
                ==> text == seq![character] + decoded_utf16(units.skip(2))
            &&& 0xDC00 <= units[0] <= 0xDFFF ==> text == seq!['\u{FFFD}'] + decoded_utf16(
                units.skip(1),
            )
            &&& 0xD800 <= units[0] <= 0xDBFF && (units.len() == 1 || units[1] < 0xDC00 || units[1]
                > 0xDFFF) ==> text == seq!['\u{FFFD}'] + decoded_utf16(units.skip(1))
        }),
{
}

/// What is read of an identification ends before its first zero: nothing behind it matters.
pub proof fn identifications_end_at_zero(before: Seq<u16>, after: Seq<u16>)
    requires
        !before.contains(0),
    ensures
        until_zero(before.push(0) + after) == before,
        until_zero(before) == before,
        identification_text(before.push(0) + after) == identification_text(before),
    decreases before.len(),
{
    let whole = before.push(0) + after;
    if before.len() > 0 {
        let rest = before.skip(1);
        assert forall|i: int| 0 <= i < rest.len() implies rest[i] != 0 by {
            assert(before[i + 1] == rest[i]);
            assert(before.contains(before[i + 1]));
        }
        assert(before.contains(before[0]));
        identifications_end_at_zero(rest, after);
        assert(whole.skip(1) =~= rest.push(0) + after);
        assert(seq![before[0]] + rest =~= before);
    } else {
        assert(until_zero(whole) =~= before);
        assert(until_zero(before) =~= before);
    }
}

/// A monitor is discovered exactly if it is active and has a serial, and is told of as identified.
pub proof fn active_monitors_with_serials_are_discovered(row: WmiMonitorId)
    ensures
        ({
            let found = identified_monitor(row);
            let serial = identification_text(row.serial_number_id@);
            &&& found is Some <==> row.active && serial.len() > 0
            &&& found is Some ==> {
                &&& found->0.serial == serial
                &&& found->0.manufacturer_code == identification_text(row.manufacturer_name@)
                &&& found->0.product_code == identification_text(row.product_code_id@)
                &&& found->0.manufacture_week == row.week_of_manufacture
                &&& found->0.manufacture_year == row.year_of_manufacture
            }
        }),
{
}

/// The monitors that are discovered in two lists, one behind the other, are those of the first and
/// then those of the second; so they come in the order of their rows, and none comes twice for one
/// row.
pub proof fn discovered_monitors_keep_their_order(
    first: Seq<WmiMonitorId>,
    second: Seq<WmiMonitorId>,
)
    ensures
        identified_monitors(first + second) == identified_monitors(first) + identified_monitors(
            second,
        ),
    decreases second.len(),
{
    if second.len() > 0 {
        discovered_monitors_keep_their_order(first, second.drop_last());
        assert((first + second).drop_last() =~= first + second.drop_last());
        assert(identified_monitors(first + second) =~= identified_monitors(first)
            + identified_monitors(second));
    } else {
        assert(first + second =~= first);
        assert(identified_monitors(first + second) =~= identified_monitors(first)
            + identified_monitors(second));
    }
}

/// The list of one row has the monitor that is discovered in it, if one is, and nothing else.
pub proof fn rows_are_discovered_one_by_one(row: WmiMonitorId)
    ensures
        identified_monitor(row) is Some ==> identified_monitors(seq![row]) == seq![
            identified_monitor(row)->0,
        ],
        identified_monitor(row) is None ==> identified_monitors(seq![row]).len() == 0,
        identified_monitors(Seq::empty()).len() == 0,
{
    let none = Seq::<WmiMonitorId>::empty();
    assert(seq![row].drop_last() =~= none);
    assert(identified_monitors(none) =~= Seq::<MonitorInfoView>::empty());
}

} // verus!
