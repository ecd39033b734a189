//! Reading a printer report: the `print` section of an MQTT payload and what
//! it does to the monitor's `PrinterState`.

use vstd::prelude::*;
use crate::json::{JsonNumber, JsonValue, entries_get, lookup};
use crate::printer::{
    AmsSlot, AmsSlotView, PrinterState, PrinterStateView, ams_map, hex_color,
    hex_color_sliceable, is_hex_color_sliceable, parse_hex_color,
};
use crate::clock::{is_clock_text, local_clock_text};
use crate::text::{owned, push_signed_decimal, remove_all, signed_decimal, str_eq, without};

verus! {

pub type Entries = Seq<(String, JsonValue)>;

pub open spec fn str_of(o: Option<JsonValue>) -> Option<Seq<char>> {
    match o {
        Some(v) => v.str_value(),
        None => None,
    }
}

pub open spec fn u64_of(o: Option<JsonValue>) -> Option<u64> {
    match o {
        Some(v) => v.u64_value(),
        None => None,
    }
}

pub open spec fn i64_of(o: Option<JsonValue>) -> Option<i64> {
    match o {
        Some(v) => v.i64_value(),
        None => None,
    }
}

pub open spec fn number_of(o: Option<JsonValue>) -> Option<JsonNumber> {
    match o {
        Some(v) => v.number_value(),
        None => None,
    }
}

pub open spec fn array_of(o: Option<JsonValue>) -> Option<Seq<JsonValue>> {
    match o {
        Some(v) => v.array_items(),
        None => None,
    }
}

pub open spec fn object_of(o: Option<JsonValue>) -> Option<Entries> {
    match o {
        Some(v) => v.object_entries(),
        None => None,
    }
}

pub open spec fn str_or(o: Option<Seq<char>>, d: Seq<char>) -> Seq<char> {
    match o {
        Some(s) => s,
        None => d,
    }
}

pub open spec fn u64_or_zero(o: Option<u64>) -> u64 {
    match o {
        Some(n) => n,
        None => 0,
    }
}

pub open spec fn number_or_zero(o: Option<JsonNumber>) -> JsonNumber {
    match o {
        Some(n) => n,
        None => JsonNumber::PosInt(0),
    }
}

/// The first element of `items` that is an object whose `key` holds the
/// string `value`.
pub open spec fn first_object_with(items: Seq<JsonValue>, key: Seq<char>, value: Seq<char>) -> Option<Entries>
    decreases items.len(),
{
    if items.len() == 0 {
        None
    } else {
        match items[0] {
            JsonValue::Object(e) => if str_of(entries_get(e@, key)) == Some(value) {
                Some(e@)
            } else {
                first_object_with(items.drop_first(), key, value)
            },
            _ => first_object_with(items.drop_first(), key, value),
        }
    }
}

/// The `print` section of a payload, where the payload has one that is an
/// object.
pub open spec fn print_section(obj: JsonValue) -> Option<Entries> {
    object_of(obj.field("print"@))
}

/// The reported G-code state, `"UNKNOWN"` where none is given.
pub open spec fn report_gcode_state(pd: Entries) -> Seq<char> {
    str_or(str_of(entries_get(pd, "gcode_state"@)), "UNKNOWN"@)
}

/// A full report names a known G-code state; any other report only refreshes
/// temperatures and the remaining time.
pub open spec fn is_full_report(pd: Entries) -> bool {
    let g = report_gcode_state(pd);
    g.len() > 0 && g != "UNKNOWN"@
}

/// The job name: the subtask name (or, where there is no subtask name, the
/// G-code file name) with every ".3mf" taken out.
pub open spec fn report_job_name(pd: Entries) -> Seq<char> {
    let v = match entries_get(pd, "subtask_name"@) {
        Some(v) => Some(v),
        None => entries_get(pd, "gcode_file"@),
    };
    match str_of(v) {
        Some(s) => without(s, ".3mf"@),
        None => Seq::empty(),
    }
}

/// The speed level in decimal, `"100"` where none is given.
pub open spec fn report_speed(pd: Entries) -> Seq<char> {
    match i64_of(entries_get(pd, "spd_lvl"@)) {
        Some(n) => signed_decimal(n as int),
        None => "100"@,
    }
}

/// The mode of the chamber light: that of the first light reported as
/// `chamber_light`, `"off"` where there is none or it has no mode.
pub open spec fn report_light(pd: Entries) -> Seq<char> {
    match array_of(entries_get(pd, "lights_report"@)) {
        Some(items) => match first_object_with(items, "node"@, "chamber_light"@) {
            Some(l) => str_or(str_of(entries_get(l, "mode"@)), "off"@),
            None => "off"@,
        },
        None => "off"@,
    }
}

pub open spec fn ams_section(pd: Entries) -> Option<Entries> {
    object_of(entries_get(pd, "ams"@))
}

/// The entry an AMS unit gives: where its tray list starts with an object,
/// the name `slot<id>` (`slot?` without an id) and that first tray.
pub open spec fn ams_slot_from(slot: Entries) -> Option<(Seq<char>, AmsSlotView)> {
    match array_of(entries_get(slot, "tray"@)) {
        Some(trays) => if trays.len() > 0 {
            match trays[0] {
                JsonValue::Object(tray) => Some((
                    "slot"@ + str_or(str_of(entries_get(slot, "id"@)), "?"@),
                    AmsSlotView {
                        color: match str_of(entries_get(tray@, "tray_color"@)) {
                            Some(c) => hex_color(c),
                            None => "N/A"@,
                        },
                        material: str_or(str_of(entries_get(tray@, "tray_type"@)), "N/A"@),
                        remaining: u64_or_zero(u64_of(entries_get(tray@, "remain"@))) as u32,
                    },
                )),
                _ => None,
            }
        } else {
            None
        },
        None => None,
    }
}

/// The AMS table from a list of units: the entries of the first `budget`
/// objects of the list, inserted in order into `acc`.
pub open spec fn ams_scan(list: Seq<JsonValue>, budget: nat, acc: Map<Seq<char>, AmsSlotView>) -> Map<Seq<char>, AmsSlotView>
    decreases list.len(),
{
    if list.len() == 0 || budget == 0 {
        acc
    } else {
        match list[0] {
            JsonValue::Object(slot) => ams_scan(
                list.drop_first(),
                (budget - 1) as nat,
                match ams_slot_from(slot@) {
                    Some(p) => acc.insert(p.0, p.1),
                    None => acc,
                },
            ),
            _ => ams_scan(list.drop_first(), budget, acc),
        }
    }
}

/// The AMS table of a report: its first four units.
pub open spec fn report_ams(pd: Entries) -> Map<Seq<char>, AmsSlotView> {
    match ams_section(pd) {
        Some(ad) => match array_of(entries_get(ad, "ams"@)) {
            Some(list) => ams_scan(list, 4, Map::empty()),
            None => Map::empty(),
        },
        None => Map::empty(),
    }
}

/// The material of the tray in use: the tray named by `tray_tar` in the unit
/// named by `tray_now`; empty where either is not found.
pub open spec fn report_filament(pd: Entries) -> Seq<char> {
    match ams_section(pd) {
        Some(ad) => match (str_of(entries_get(ad, "tray_now"@)), str_of(entries_get(ad, "tray_tar"@))) {
            (Some(now), Some(tar)) => match array_of(entries_get(ad, "ams"@)) {
                Some(list) => match first_object_with(list, "id"@, now) {
                    Some(slot) => match array_of(entries_get(slot, "tray"@)) {
                        Some(trays) => match first_object_with(trays, "id"@, tar) {
                            Some(t) => str_or(str_of(entries_get(t, "tray_type"@)), Seq::empty()),
                            None => Seq::empty(),
                        },
                        None => Seq::empty(),
                    },
                    None => Seq::empty(),
                },
                None => Seq::empty(),
            },
            _ => Seq::empty(),
        },
        None => Seq::empty(),
    }
}

pub open spec fn report_number(pd: Entries, key: Seq<char>) -> JsonNumber {
    number_or_zero(number_of(entries_get(pd, key)))
}

pub open spec fn report_u64(pd: Entries, key: Seq<char>) -> u64 {
    u64_or_zero(u64_of(entries_get(pd, key)))
}

/// The state after a report `pd` arrived at time `now`.
pub open spec fn updated_state(pd: Entries, old: PrinterStateView, now: Seq<char>) -> PrinterStateView {
    let nozzle = report_number(pd, "nozzle_temper"@);
    let nozzle_target = report_number(pd, "nozzle_target_temper"@);
    let bed = report_number(pd, "bed_temper"@);
    let bed_target = report_number(pd, "bed_target_temper"@);
    let remaining = report_u64(pd, "mc_remaining_time"@);
    if is_full_report(pd) {
        PrinterStateView {
            gcode_state: report_gcode_state(pd),
            mode: "printer"@,
            action: str_or(str_of(entries_get(pd, "command"@)), Seq::empty()),
            progress: report_number(pd, "mc_percent"@),
            remaining_time: remaining,
            nozzle_temp: nozzle,
            nozzle_target: nozzle_target,
            bed_temp: bed,
            bed_target: bed_target,
            layer_current: report_u64(pd, "layer_num"@) as u32,
            layer_total: report_u64(pd, "total_layer_num"@) as u32,
            speed: report_speed(pd),
            filament_type: report_filament(pd),
            ams: report_ams(pd),
            job_name: report_job_name(pd),
            live_speed: report_u64(pd, "fan_gear"@) as u32,
            light: report_light(pd),
            online: true,
            last_update: now,
        }
    } else {
        PrinterStateView {
            online: true,
            last_update: now,
            nozzle_temp: if nozzle.positive() { nozzle } else { old.nozzle_temp },
            bed_temp: if bed.positive() { bed } else { old.bed_temp },
            nozzle_target: if nozzle_target.positive() { nozzle_target } else { old.nozzle_target },
            bed_target: if bed_target.positive() { bed_target } else { old.bed_target },
            remaining_time: if remaining > 0 { remaining } else { old.remaining_time },
            ..old
        }
    }
}

/// The colours that the first `budget` units of an AMS list would have read
/// can be read.
pub open spec fn ams_colors_sliceable(list: Seq<JsonValue>, budget: nat) -> bool
    decreases list.len(),
{
    if list.len() == 0 || budget == 0 {
        true
    } else {
        match list[0] {
            JsonValue::Object(slot) => slot_color_sliceable(slot@) && ams_colors_sliceable(list.drop_first(), (budget - 1) as nat),
            _ => ams_colors_sliceable(list.drop_first(), budget),
        }
    }
}

pub open spec fn slot_color_sliceable(slot: Entries) -> bool {
    match array_of(entries_get(slot, "tray"@)) {
        Some(trays) => trays.len() > 0 ==> match trays[0] {
            JsonValue::Object(tray) => match str_of(entries_get(tray@, "tray_color"@)) {
                Some(c) => hex_color_sliceable(c),
                None => true,
            },
            _ => true,
        },
        None => true,
    }
}

/// The payloads whose report can be read: every AMS tray colour that is read
/// can be cut in byte pairs.
pub open spec fn report_readable(obj: JsonValue) -> bool {
    match print_section(obj) {
        Some(pd) => match ams_section(pd) {
            Some(ad) => match array_of(entries_get(ad, "ams"@)) {
                Some(list) => ams_colors_sliceable(list, 4),
                None => true,
            },
            None => true,
        },
        None => true,
    }
}

// ── Laws ─────────────────────────────────────────────────────────────────────

/// A report applied twice (at the same time) leaves the same state as the
/// report applied once.
pub proof fn law_report_idempotent(pd: Entries, s: PrinterStateView, now: Seq<char>)
    ensures
        updated_state(pd, updated_state(pd, s, now), now) == updated_state(pd, s, now),
{
}

/// Every report marks the printer online and stamps the time it arrived.
pub proof fn law_report_marks_online(pd: Entries, s: PrinterStateView, now: Seq<char>)
    ensures
        updated_state(pd, s, now).online,
        updated_state(pd, s, now).last_update == now,
{
}

/// A full report gives the whole picture: what the state was before does
/// not matter.
pub proof fn law_full_report_replaces(pd: Entries, s1: PrinterStateView, s2: PrinterStateView, now: Seq<char>)
    requires
        is_full_report(pd),
    ensures
        updated_state(pd, s1, now) == updated_state(pd, s2, now),
{
}

/// A partial report leaves the job as it was, and only replaces a
/// temperature reading or the remaining time with a value above zero.
pub proof fn law_partial_report_keeps_job(pd: Entries, s: PrinterStateView, now: Seq<char>)
    requires
        !is_full_report(pd),
    ensures
        ({
            let r = updated_state(pd, s, now);
            &&& r.gcode_state == s.gcode_state && r.mode == s.mode && r.action == s.action
            &&& r.progress == s.progress && r.layer_current == s.layer_current && r.layer_total == s.layer_total
            &&& r.speed == s.speed && r.filament_type == s.filament_type && r.ams == s.ams
            &&& r.job_name == s.job_name && r.live_speed == s.live_speed && r.light == s.light
            &&& (r.nozzle_temp == s.nozzle_temp || r.nozzle_temp.positive())
            &&& (r.bed_temp == s.bed_temp || r.bed_temp.positive())
            &&& (r.nozzle_target == s.nozzle_target || r.nozzle_target.positive())
            &&& (r.bed_target == s.bed_target || r.bed_target.positive())
            &&& (r.remaining_time == s.remaining_time || r.remaining_time > 0)
        }),
{
}

/// A report whose `gcode_state` is missing, not a text, empty or `UNKNOWN`
/// refreshes only the readings: each of the nozzle and bed temperatures and
/// their targets takes the reported number where that number is above zero
/// and keeps its value otherwise; the remaining time takes the reported
/// whole number where it is above zero. Everything else stays, but the
/// printer is online and the report's time is stamped.
pub proof fn law_partial_report_refreshes(pd: Entries, s: PrinterStateView, now: Seq<char>)
    requires
        match str_of(entries_get(pd, "gcode_state"@)) {
            Some(g) => g.len() == 0 || g == "UNKNOWN"@,
            None => true,
        },
    ensures
        ({
            let r = updated_state(pd, s, now);
            &&& r.nozzle_temp == (match number_of(entries_get(pd, "nozzle_temper"@)) {
                Some(n) => if n.positive() { n } else { s.nozzle_temp },
                None => s.nozzle_temp,
            })
            &&& r.nozzle_target == (match number_of(entries_get(pd, "nozzle_target_temper"@)) {
                Some(n) => if n.positive() { n } else { s.nozzle_target },
                None => s.nozzle_target,
            })
            &&& r.bed_temp == (match number_of(entries_get(pd, "bed_temper"@)) {
                Some(n) => if n.positive() { n } else { s.bed_temp },
                None => s.bed_temp,
            })
            &&& r.bed_target == (match number_of(entries_get(pd, "bed_target_temper"@)) {
                Some(n) => if n.positive() { n } else { s.bed_target },
                None => s.bed_target,
            })
            &&& r.remaining_time == (match u64_of(entries_get(pd, "mc_remaining_time"@)) {
                Some(t) => if t > 0 { t } else { s.remaining_time },
                None => s.remaining_time,
            })
            &&& r == PrinterStateView {
                online: true,
                last_update: now,
                nozzle_temp: r.nozzle_temp,
                nozzle_target: r.nozzle_target,
                bed_temp: r.bed_temp,
                bed_target: r.bed_target,
                remaining_time: r.remaining_time,
                ..s
            }
        }),
{
}

/// A report that names a G-code state other than `UNKNOWN` replaces the
/// readings with the reported ones, zero where a number is missing: the
/// state, the progress, the remaining time, the temperatures and their
/// targets.
pub proof fn law_full_report_reads(pd: Entries, s: PrinterStateView, now: Seq<char>)
    requires
        str_of(entries_get(pd, "gcode_state"@)) matches Some(g) && g.len() > 0 && g != "UNKNOWN"@,
    ensures
        ({
            let r = updated_state(pd, s, now);
            let zero = JsonNumber::PosInt(0);
            &&& r.gcode_state == str_of(entries_get(pd, "gcode_state"@))->Some_0
            &&& r.mode == "printer"@
            &&& r.progress == (match number_of(entries_get(pd, "mc_percent"@)) { Some(n) => n, None => zero })
            &&& r.nozzle_temp == (match number_of(entries_get(pd, "nozzle_temper"@)) { Some(n) => n, None => zero })
            &&& r.nozzle_target == (match number_of(entries_get(pd, "nozzle_target_temper"@)) {
                Some(n) => n,
                None => zero,
            })
            &&& r.bed_temp == (match number_of(entries_get(pd, "bed_temper"@)) { Some(n) => n, None => zero })
            &&& r.bed_target == (match number_of(entries_get(pd, "bed_target_temper"@)) { Some(n) => n, None => zero })
            &&& r.remaining_time == (match u64_of(entries_get(pd, "mc_remaining_time"@)) { Some(t) => t, None => 0 })
            &&& r.online
            &&& r.last_update == now
        }),
{
}

/// No character of the text is a dot.
pub open spec fn has_no_dot(s: Seq<char>) -> bool {
    forall|i: int| 0 <= i < s.len() ==> s[i] != '.'
}

/// Taking `.3mf` out of a name without dots leaves it; taking it out of such
/// a name followed by `.3mf` leaves the name.
proof fn lemma_without_3mf(n: Seq<char>)
    requires
        has_no_dot(n),
    ensures
        without(n, ".3mf"@) == n,
        without(n + ".3mf"@, ".3mf"@) == n,
    decreases n.len(),
{
    reveal_strlit(".3mf");
    let pat = ".3mf"@;
    assert(pat.len() == 4 && pat[0] == '.');
    if n.len() == 0 {
        assert(n + pat =~= pat);
        assert((n + pat).subrange(0, 4) =~= pat);
        assert((n + pat).skip(4) =~= Seq::<char>::empty());
        assert(without(Seq::<char>::empty(), pat) == Seq::<char>::empty());
    } else {
        let t = n.skip(1);
        assert(has_no_dot(t)) by {
            assert forall|i: int| 0 <= i < t.len() implies t[i] != '.' by {
                assert(t[i] == n[i + 1]);
            }
        }
        lemma_without_3mf(t);
        if n.len() >= 4 {
            assert(n.subrange(0, 4)[0] == n[0]);
        }
        assert(n =~= seq![n[0]] + t);
        let m = n + pat;
        assert(m.subrange(0, 4)[0] == n[0]);
        assert(m.skip(1) =~= t + pat);
        assert(m =~= seq![n[0]] + (t + pat));
    }
}

/// The first element of `items` is an object whose `key` holds `value`.
pub open spec fn first_is_object_with(items: Seq<JsonValue>, key: Seq<char>, value: Seq<char>) -> bool {
    items.len() > 0 && (items[0] matches JsonValue::Object(e) && str_of(entries_get(e@, key)) == Some(value))
}

/// No element of `items` is an object whose `key` holds `value`.
pub open spec fn none_object_with(items: Seq<JsonValue>, key: Seq<char>, value: Seq<char>) -> bool {
    forall|i: int| 0 <= i < items.len() ==> !(#[trigger] items[i] matches JsonValue::Object(e) && str_of(entries_get(e@, key)) == Some(value))
}

proof fn lemma_first_object_with(items: Seq<JsonValue>, key: Seq<char>, value: Seq<char>)
    ensures
        first_is_object_with(items, key, value) ==> first_object_with(items, key, value) == Some(items[0]->Object_0@),
        none_object_with(items, key, value) ==> first_object_with(items, key, value) is None,
    decreases items.len(),
{
    if items.len() > 0 {
        let t = items.drop_first();
        if none_object_with(items, key, value) {
            assert(none_object_with(t, key, value)) by {
                assert forall|i: int| 0 <= i < t.len() implies !(#[trigger] t[i] matches JsonValue::Object(e) && str_of(entries_get(e@, key)) == Some(value)) by {
                    assert(t[i] == items[i + 1]);
                }
            }
            assert(!(items[0] matches JsonValue::Object(e) && str_of(entries_get(e@, key)) == Some(value)));
        }
        lemma_first_object_with(t, key, value);
    }
}

/// What a report that names a G-code state other than `UNKNOWN` sets beside
/// the readings:
/// - the speed level is `spd_lvl` in decimal, `100` where it is missing;
/// - the light is the mode of the `chamber_light` entry of `lights_report`
///   (`off` where it has none), and `off` where no entry is that light;
/// - the job name is `subtask_name` (or, where that key is missing,
///   `gcode_file`) with `.3mf` taken out, so a name without dots, followed
///   by `.3mf` or not, is the name itself; it is empty where the value is
///   not a text;
/// - the AMS table of a report with one unit whose first tray is an object
///   has the one slot `slot<id>` with that tray's colour, material and
///   remaining amount, and it is empty where there is no AMS section;
/// - the filament is the material of tray `tray_tar` of unit `tray_now`
///   where these are the first unit and its first tray, and empty where
///   there is no AMS section.
pub proof fn law_full_report_details(pd: Entries, s: PrinterStateView, now: Seq<char>)
    requires
        str_of(entries_get(pd, "gcode_state"@)) matches Some(g) && g.len() > 0 && g != "UNKNOWN"@,
    ensures
        ({
            let r = updated_state(pd, s, now);
            let lights = array_of(entries_get(pd, "lights_report"@));
            let items = lights->Some_0;
            let subtask = entries_get(pd, "subtask_name"@);
            let name = str_of(subtask)->Some_0;
            let file = str_of(entries_get(pd, "gcode_file"@));
            let ams = object_of(entries_get(pd, "ams"@));
            let ad = ams->Some_0;
            let list = array_of(entries_get(ad, "ams"@));
            let units = list->Some_0;
            let unit = units[0].object_entries()->Some_0;
            let trays = array_of(entries_get(unit, "tray"@));
            let tray = trays->Some_0[0].object_entries()->Some_0;
            let unit_id = str_of(entries_get(ad, "tray_now"@));
            let tray_id = str_of(entries_get(ad, "tray_tar"@));
            &&& r.speed == (match i64_of(entries_get(pd, "spd_lvl"@)) {
                Some(n) => signed_decimal(n as int),
                None => "100"@,
            })
            &&& lights is None ==> r.light == "off"@
            &&& (lights is Some && first_is_object_with(items, "node"@, "chamber_light"@) ==> r.light == str_or(
                str_of(entries_get(items[0]->Object_0@, "mode"@)),
                "off"@,
            ))
            &&& (lights is Some && none_object_with(items, "node"@, "chamber_light"@) ==> r.light == "off"@)
            &&& (str_of(subtask) is Some && has_no_dot(name) ==> r.job_name == name)
            &&& (forall|n: Seq<char>| #![trigger n + ".3mf"@]
                str_of(subtask) == Some(n + ".3mf"@) && has_no_dot(n) ==> r.job_name == n)
            &&& (subtask is None && file is Some && has_no_dot(file->Some_0) ==> r.job_name == file->Some_0)
            &&& (subtask is Some && str_of(subtask) is None ==> r.job_name.len() == 0)
            &&& (ams is None ==> r.ams == Map::<Seq<char>, AmsSlotView>::empty() && r.filament_type.len() == 0)
            &&& (ams is Some && list is Some && units.len() == 1 && units[0].object_entries() is Some && trays is Some
                && trays->Some_0.len() > 0 && trays->Some_0[0].object_entries() is Some ==> r.ams == Map::<
                Seq<char>,
                AmsSlotView,
            >::empty().insert(
                "slot"@ + str_or(str_of(entries_get(unit, "id"@)), "?"@),
                AmsSlotView {
                    color: match str_of(entries_get(tray, "tray_color"@)) {
                        Some(c) => hex_color(c),
                        None => "N/A"@,
                    },
                    material: str_or(str_of(entries_get(tray, "tray_type"@)), "N/A"@),
                    remaining: u64_or_zero(u64_of(entries_get(tray, "remain"@))) as u32,
                },
            ))
            &&& (ams is Some && unit_id is Some && tray_id is Some && list is Some && first_is_object_with(
                units,
                "id"@,
                unit_id->Some_0,
            ) && array_of(entries_get(units[0]->Object_0@, "tray"@)) is Some && first_is_object_with(
                array_of(entries_get(units[0]->Object_0@, "tray"@))->Some_0,
                "id"@,
                tray_id->Some_0,
            ) ==> r.filament_type == str_or(
                str_of(entries_get(array_of(entries_get(units[0]->Object_0@, "tray"@))->Some_0[0]->Object_0@, "tray_type"@)),
                Seq::empty(),
            ))
        }),
{
    let lights = array_of(entries_get(pd, "lights_report"@));
    if let Some(items) = lights {
        lemma_first_object_with(items, "node"@, "chamber_light"@);
    }
    let subtask = entries_get(pd, "subtask_name"@);
    if let Some(n) = str_of(subtask) {
        if has_no_dot(n) {
            lemma_without_3mf(n);
        }
    }
    assert forall|n: Seq<char>| str_of(subtask) == Some(n + ".3mf"@) && has_no_dot(n) implies updated_state(
        pd,
        s,
        now,
    ).job_name == n by {
        lemma_without_3mf(n);
    }
    if subtask is None {
        if let Some(f) = str_of(entries_get(pd, "gcode_file"@)) {
            if has_no_dot(f) {
                lemma_without_3mf(f);
            }
        }
    }
    let ams = object_of(entries_get(pd, "ams"@));
    if let Some(ad) = ams {
        if let Some(list) = array_of(entries_get(ad, "ams"@)) {
            if list.len() == 1 {
                assert(list.drop_first() =~= Seq::<JsonValue>::empty());
                if let JsonValue::Object(unit) = list[0] {
                    let acc = match ams_slot_from(unit@) {
                        Some(p) => Map::<Seq<char>, AmsSlotView>::empty().insert(p.0, p.1),
                        None => Map::<Seq<char>, AmsSlotView>::empty(),
                    };
                    assert(ams_scan(list, 4, Map::empty()) == ams_scan(list.drop_first(), 3, acc));
                    assert(ams_scan(list.drop_first(), 3, acc) == acc);
                }
            }
            if let Some(unit_id) = str_of(entries_get(ad, "tray_now"@)) {
                lemma_first_object_with(list, "id"@, unit_id);
                if first_is_object_with(list, "id"@, unit_id) {
                    if let Some(trays) = array_of(entries_get(list[0]->Object_0@, "tray"@)) {
                        if let Some(tray_id) = str_of(entries_get(ad, "tray_tar"@)) {
                            lemma_first_object_with(trays, "id"@, tray_id);
                        }
                    }
                }
            }
        }
    }
}

proof fn lemma_ams_scan_size(list: Seq<JsonValue>, budget: nat, acc: Map<Seq<char>, AmsSlotView>)
    requires
        acc.dom().finite(),
    ensures
        ams_scan(list, budget, acc).dom().finite(),
        ams_scan(list, budget, acc).dom().len() <= acc.dom().len() + budget,
    decreases list.len(),
{
    if list.len() > 0 && budget > 0 {
        match list[0] {
            JsonValue::Object(slot) => {
                let next = match ams_slot_from(slot@) {
                    Some(p) => acc.insert(p.0, p.1),
                    None => acc,
                };
                assert(next.dom().len() <= acc.dom().len() + 1);
                lemma_ams_scan_size(list.drop_first(), (budget - 1) as nat, next);
            },
            _ => {
                lemma_ams_scan_size(list.drop_first(), budget, acc);
            },
        }
    }
}

/// A report names at most four AMS units.
pub proof fn law_ams_at_most_four(pd: Entries)
    ensures
        report_ams(pd).dom().finite(),
        report_ams(pd).dom().len() <= 4,
{
    if let Some(ad) = ams_section(pd) {
        if let Some(list) = array_of(entries_get(ad, "ams"@)) {
            lemma_ams_scan_size(list, 4, Map::empty());
        }
    }
}

// ── Reading ───────────────────────────────────────────────────────────────────

fn lookup_str<'a>(e: &'a Vec<(String, JsonValue)>, key: &str) -> (r: Option<&'a str>)
    ensures
        match r {
            Some(s) => str_of(entries_get(e@, key@)) == Some(s@),
            None => str_of(entries_get(e@, key@)) is None,
        },
{
    match lookup(e, key) {
        Some(v) => v.as_str(),
        None => None,
    }
}

fn lookup_u64(e: &Vec<(String, JsonValue)>, key: &str) -> (r: u64)
    ensures
        r == u64_or_zero(u64_of(entries_get(e@, key@))),
{
    match lookup(e, key) {
        Some(v) => match v.as_u64() {
            Some(n) => n,
            None => 0,
        },
        None => 0,
    }
}

fn lookup_number(e: &Vec<(String, JsonValue)>, key: &str) -> (r: JsonNumber)
    ensures
        r == number_or_zero(number_of(entries_get(e@, key@))),
{
    match lookup(e, key) {
        Some(v) => match v.as_number() {
            Some(n) => n,
            None => JsonNumber::PosInt(0),
        },
        None => JsonNumber::PosInt(0),
    }
}

fn lookup_array<'a>(e: &'a Vec<(String, JsonValue)>, key: &str) -> (r: Option<&'a Vec<JsonValue>>)
    ensures
        match r {
            Some(a) => array_of(entries_get(e@, key@)) == Some(a@),
            None => array_of(entries_get(e@, key@)) is None,
        },
{
    match lookup(e, key) {
        Some(v) => v.as_array(),
        None => None,
    }
}

fn lookup_object<'a>(e: &'a Vec<(String, JsonValue)>, key: &str) -> (r: Option<&'a Vec<(String, JsonValue)>>)
    ensures
        match r {
            Some(o) => object_of(entries_get(e@, key@)) == Some(o@),
            None => object_of(entries_get(e@, key@)) is None,
        },
{
    match lookup(e, key) {
        Some(v) => v.as_object(),
        None => None,
    }
}

fn str_or_owned(o: Option<&str>, d: &str) -> (r: String)
    ensures
        r@ == str_or(
            match o {
                Some(s) => Some(s@),
                None => None,
            },
            d@,
        ),
{
    match o {
        Some(s) => owned(s),
        None => owned(d),
    }
}

/// The first element of `items` that is an object whose `key` holds the
/// string `value`.
fn find_object_with<'a>(items: &'a Vec<JsonValue>, key: &str, value: &str) -> (r: Option<&'a Vec<(String, JsonValue)>>)
    ensures
        match r {
            Some(o) => first_object_with(items@, key@, value@) == Some(o@),
            None => first_object_with(items@, key@, value@) is None,
        },
{
    let n = items.len();
    let mut i: usize = 0;
    assert(items@.skip(0) =~= items@);
    while i < n
        invariant
            n == items@.len(),
            i <= n,
            first_object_with(items@, key@, value@) == first_object_with(items@.skip(i as int), key@, value@),
        decreases n - i,
    {
        assert(items@.skip(i as int).drop_first() =~= items@.skip(i + 1));
        assert(items@.skip(i as int)[0] == items@[i as int]);
        if let JsonValue::Object(e) = &items[i] {
            if let Some(s) = lookup_str(e, key) {
                if str_eq(s, value) {
                    return Some(e);
                }
            }
        }
        i = i + 1;
    }
    None
}

/// The AMS entry a unit gives, where its tray list starts with an object.
fn slot_entry(slot: &Vec<(String, JsonValue)>) -> (r: Option<(String, AmsSlot)>)
    requires
        slot_color_sliceable(slot@),
    ensures
        match r {
            Some(p) => ams_slot_from(slot@) == Some((p.0@, p.1@)),
            None => ams_slot_from(slot@) is None,
        },
{
    proof {
        reveal_strlit("slot");
        reveal_strlit("?");
    }
    let trays = match lookup_array(slot, "tray") {
        Some(t) => t,
        None => return None,
    };
    if trays.len() == 0 {
        return None;
    }
    let tray = match &trays[0] {
        JsonValue::Object(t) => t,
        _ => return None,
    };
    let color = match lookup_str(tray, "tray_color") {
        Some(c) => parse_hex_color(c),
        None => owned("N/A"),
    };
    let material = str_or_owned(lookup_str(tray, "tray_type"), "N/A");
    let remaining = lookup_u64(tray, "remain") as u32;
    let mut name = owned("slot");
    let id = str_or_owned(lookup_str(slot, "id"), "?");
    name.append(id.as_str());
    Some((name, AmsSlot { color, material, remaining }))
}

/// The AMS table from a list of units: the entries of its first four objects.
fn scan_ams(list: &Vec<JsonValue>) -> (r: Vec<(String, AmsSlot)>)
    requires
        ams_colors_sliceable(list@, 4),
    ensures
        ams_map(r@) == ams_scan(list@, 4, Map::empty()),
{
    let n = list.len();
    let mut table: Vec<(String, AmsSlot)> = Vec::new();
    let mut budget: usize = 4;
    let mut i: usize = 0;
    assert(list@.skip(0) =~= list@);
    assert(ams_map(table@) =~= Map::<Seq<char>, AmsSlotView>::empty());
    while i < n && budget > 0
        invariant
            n == list@.len(),
            i <= n,
            budget <= 4,
            ams_scan(list@, 4, Map::empty()) == ams_scan(list@.skip(i as int), budget as nat, ams_map(table@)),
            ams_colors_sliceable(list@.skip(i as int), budget as nat),
        decreases n - i,
    {
        let ghost rest = list@.skip(i as int);
        assert(rest.drop_first() =~= list@.skip(i + 1));
        assert(rest[0] == list@[i as int]);
        if let JsonValue::Object(slot) = &list[i] {
            match slot_entry(slot) {
                Some(p) => {
                    let ghost before = table@;
                    table.push(p);
                    assert(table@.drop_last() =~= before);
                },
                None => {},
            }
            budget = budget - 1;
        }
        i = i + 1;
    }
    table
}

/// The material of the tray in use, as `report_filament` describes it.
fn find_filament(ad: &Vec<(String, JsonValue)>) -> (r: String)
    ensures
        ({
            let now = str_of(entries_get(ad@, "tray_now"@));
            let tar = str_of(entries_get(ad@, "tray_tar"@));
            r@ == match (now, tar) {
                (Some(now), Some(tar)) => match array_of(entries_get(ad@, "ams"@)) {
                    Some(list) => match first_object_with(list, "id"@, now) {
                        Some(slot) => match array_of(entries_get(slot, "tray"@)) {
                            Some(trays) => match first_object_with(trays, "id"@, tar) {
                                Some(t) => str_or(str_of(entries_get(t, "tray_type"@)), Seq::empty()),
                                None => Seq::empty(),
                            },
                            None => Seq::empty(),
                        },
                        None => Seq::empty(),
                    },
                    None => Seq::empty(),
                },
                _ => Seq::empty(),
            }
        }),
{
    proof {
        reveal_strlit("");
    }
    let now = match lookup_str(ad, "tray_now") {
        Some(s) => s,
        None => return String::new(),
    };
    let tar = match lookup_str(ad, "tray_tar") {
        Some(s) => s,
        None => return String::new(),
    };
    let list = match lookup_array(ad, "ams") {
        Some(l) => l,
        None => return String::new(),
    };
    let slot = match find_object_with(list, "id", now) {
        Some(s) => s,
        None => return String::new(),
    };
    let trays = match lookup_array(slot, "tray") {
        Some(t) => t,
        None => return String::new(),
    };
    match find_object_with(trays, "id", tar) {
        Some(t) => str_or_owned(lookup_str(t, "tray_type"), ""),
        None => String::new(),
    }
}

// ── Applying a report ─────────────────────────────────────────────────────────

/// Applies the `print` section `pd` of a report that arrived at time `now`.
pub fn apply_report(pd: &Vec<(String, JsonValue)>, state: &mut PrinterState, now: String)
    requires
        match ams_section(pd@) {
            Some(ad) => match array_of(entries_get(ad, "ams"@)) {
                Some(list) => ams_colors_sliceable(list, 4),
                None => true,
            },
            None => true,
        },
    ensures
        final(state)@ == updated_state(pd@, old(state)@, now@),
{
    proof {
        reveal_strlit("UNKNOWN");
        reveal_strlit("printer");
        reveal_strlit("100");
        reveal_strlit("off");
        reveal_strlit("");
    }
    let gcode_state = str_or_owned(lookup_str(pd, "gcode_state"), "UNKNOWN");
    let is_full = !gcode_state.as_str().is_empty() && !str_eq(gcode_state.as_str(), "UNKNOWN");
    let remaining_time = lookup_u64(pd, "mc_remaining_time");
    let nozzle_temp = lookup_number(pd, "nozzle_temper");
    let nozzle_target = lookup_number(pd, "nozzle_target_temper");
    let bed_temp = lookup_number(pd, "bed_temper");
    let bed_target = lookup_number(pd, "bed_target_temper");
    if is_full {
        let progress = lookup_number(pd, "mc_percent");
        let layer_current = lookup_u64(pd, "layer_num") as u32;
        let layer_total = lookup_u64(pd, "total_layer_num") as u32;
        let job_source = match lookup(pd, "subtask_name") {
            Some(v) => Some(v),
            None => lookup(pd, "gcode_file"),
        };
        let job_name = match job_source {
            Some(v) => match v.as_str() {
                Some(s) => remove_all(s, ".3mf"),
                None => String::new(),
            },
            None => String::new(),
        };
        let live_speed = lookup_u64(pd, "fan_gear") as u32;
        let speed = match lookup(pd, "spd_lvl") {
            Some(v) => match v.as_i64() {
                Some(n) => {
                    let mut t = String::new();
                    push_signed_decimal(&mut t, n);
                    t
                },
                None => owned("100"),
            },
            None => owned("100"),
        };
        let light = match lookup_array(pd, "lights_report") {
            Some(items) => match find_object_with(items, "node", "chamber_light") {
                Some(l) => str_or_owned(lookup_str(l, "mode"), "off"),
                None => owned("off"),
            },
            None => owned("off"),
        };
        let ams_data = lookup_object(pd, "ams");
        let ams = match ams_data {
            Some(ad) => match lookup_array(ad, "ams") {
                Some(list) => scan_ams(list),
                None => Vec::new(),
            },
            None => Vec::new(),
        };
        let filament_type = match ams_data {
            Some(ad) => find_filament(ad),
            None => String::new(),
        };
        let action = str_or_owned(lookup_str(pd, "command"), "");
        state.mode = owned("printer");
        state.action = action;
        state.gcode_state = gcode_state;
        state.progress = progress;
        state.remaining_time = remaining_time;
        state.layer_current = layer_current;
        state.layer_total = layer_total;
        state.nozzle_temp = nozzle_temp;
        state.bed_temp = bed_temp;
        state.nozzle_target = nozzle_target;
        state.bed_target = bed_target;
        state.live_speed = live_speed;
        state.speed = speed;
        state.filament_type = filament_type;
        state.ams = ams;
        state.job_name = job_name;
        state.light = light;
        state.online = true;
        state.last_update = now;
    } else {
        state.online = true;
        state.last_update = now;
        if nozzle_temp.is_positive() {
            state.nozzle_temp = nozzle_temp;
        }
        if bed_temp.is_positive() {
            state.bed_temp = bed_temp;
        }
        if nozzle_target.is_positive() {
            state.nozzle_target = nozzle_target;
        }
        if bed_target.is_positive() {
            state.bed_target = bed_target;
        }
        if remaining_time > 0 {
            state.remaining_time = remaining_time;
        }
    }
}

fn slot_color_ok(slot: &Vec<(String, JsonValue)>) -> (r: bool)
    ensures
        r == slot_color_sliceable(slot@),
{
    match lookup_array(slot, "tray") {
        Some(trays) => {
            if trays.len() == 0 {
                true
            } else {
                match &trays[0] {
                    JsonValue::Object(tray) => match lookup_str(tray, "tray_color") {
                        Some(c) => is_hex_color_sliceable(c),
                        None => true,
                    },
                    _ => true,
                }
            }
        },
        None => true,
    }
}

fn ams_colors_ok(list: &Vec<JsonValue>) -> (r: bool)
    ensures
        r == ams_colors_sliceable(list@, 4),
{
    let n = list.len();
    let mut budget: usize = 4;
    let mut i: usize = 0;
    assert(list@.skip(0) =~= list@);
    while i < n && budget > 0
        invariant
            n == list@.len(),
            i <= n,
            budget <= 4,
            ams_colors_sliceable(list@, 4) == ams_colors_sliceable(list@.skip(i as int), budget as nat),
        decreases n - i,
    {
        let ghost rest = list@.skip(i as int);
        assert(rest.drop_first() =~= list@.skip(i + 1));
        assert(rest[0] == list@[i as int]);
        if let JsonValue::Object(slot) = &list[i] {
            if !slot_color_ok(slot) {
                return false;
            }
            budget = budget - 1;
        }
        i = i + 1;
    }
    true
}

/// Whether `apply_mqtt_payload` can read a payload: every AMS tray colour it
/// would read can be cut in byte pairs.
pub fn is_report_readable(obj: &JsonValue) -> (r: bool)
    ensures
        r == report_readable(*obj),
{
    let pd = match obj.get("print") {
        Some(v) => match v.as_object() {
            Some(pd) => pd,
            None => return true,
        },
        None => return true,
    };
    match lookup_object(pd, "ams") {
        Some(ad) => match lookup_array(ad, "ams") {
            Some(list) => ams_colors_ok(list),
            None => true,
        },
        None => true,
    }
}

/// Applies a payload that arrived at time `now`: its `print` section, where
/// it has one, updates the state; a payload without one changes nothing.
pub fn apply_mqtt_payload(obj: &JsonValue, state: &mut PrinterState, now: String)
    requires
        report_readable(*obj),
    ensures
        match print_section(*obj) {
            Some(pd) => final(state)@ == updated_state(pd, old(state)@, now@),
            None => final(state)@ == old(state)@,
        },
{
    let pd = match obj.get("print") {
        Some(v) => match v.as_object() {
            Some(pd) => pd,
            None => return,
        },
        None => return,
    };
    apply_report(pd, state, now);
}

/// Applies a payload received now: where it has a `print` section, the state
/// is updated as `updated_state` says, stamped with the local time of day.
pub fn process_mqtt_payload(obj: &JsonValue, state: &mut PrinterState)
    requires
        report_readable(*obj),
    ensures
        match print_section(*obj) {
            Some(pd) => {
                &&& final(state)@ == updated_state(pd, old(state)@, final(state)@.last_update)
                &&& is_clock_text(final(state)@.last_update)
            },
            None => final(state)@ == old(state)@,
        },
{
    let has_print = match obj.get("print") {
        Some(v) => match v.as_object() {
            Some(_) => true,
            None => false,
        },
        None => false,
    };
    if has_print {
        let now = local_clock_text();
        apply_mqtt_payload(obj, state, now);
    }
}

} // verus!
