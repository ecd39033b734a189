//! The printer's state as the monitor keeps it, and how a report from the
//! printer (the `print` section of an MQTT payload) updates it.

use vstd::prelude::*;
use vstd::string::StringSliceAdditionalSpecFns;
use vstd::utf8::{encode_utf8, is_char_boundary};
use crate::json::{JsonNumber, JsonValue, entries_get};
use crate::text::{hex2, hex_digit, push_hex2, owned};

verus! {

/// One AMS slot: the colour, material and remaining amount of its first tray.
#[derive(Debug)]
pub struct AmsSlot {
    pub color: String,
    pub material: String,
    pub remaining: u32,
}

#[verifier::ext_equal]
pub struct AmsSlotView {
    pub color: Seq<char>,
    pub material: Seq<char>,
    pub remaining: u32,
}

impl View for AmsSlot {
    type V = AmsSlotView;

    open spec fn view(&self) -> AmsSlotView {
        AmsSlotView { color: self.color@, material: self.material@, remaining: self.remaining }
    }
}

/// The AMS table as a map from slot name to slot: the entries are inserted in
/// order, a later entry for a name replacing an earlier one.
pub open spec fn ams_map(entries: Seq<(String, AmsSlot)>) -> Map<Seq<char>, AmsSlotView>
    decreases entries.len(),
{
    if entries.len() == 0 {
        Map::empty()
    } else {
        ams_map(entries.drop_last()).insert(entries.last().0@, entries.last().1@)
    }
}

/// What the monitor knows of the printer.
///
/// Temperatures and progress are kept as the printer reported them; the two
/// current temperatures are shown rounded to one decimal place.
#[derive(Debug)]
pub struct PrinterState {
    pub gcode_state: String,
    pub mode: String,
    pub action: String,
    pub progress: JsonNumber,
    pub remaining_time: u64,
    pub nozzle_temp: JsonNumber,
    pub nozzle_target: JsonNumber,
    pub bed_temp: JsonNumber,
    pub bed_target: JsonNumber,
    pub layer_current: u32,
    pub layer_total: u32,
    pub speed: String,
    pub filament_type: String,
    /// AMS slots by name, in insertion order.
    pub ams: Vec<(String, AmsSlot)>,
    pub job_name: String,
    pub live_speed: u32,
    pub light: String,
    pub online: bool,
    pub last_update: String,
}

#[verifier::ext_equal]
pub struct PrinterStateView {
    pub gcode_state: Seq<char>,
    pub mode: Seq<char>,
    pub action: Seq<char>,
    pub progress: JsonNumber,
    pub remaining_time: u64,
    pub nozzle_temp: JsonNumber,
    pub nozzle_target: JsonNumber,
    pub bed_temp: JsonNumber,
    pub bed_target: JsonNumber,
    pub layer_current: u32,
    pub layer_total: u32,
    pub speed: Seq<char>,
    pub filament_type: Seq<char>,
    pub ams: Map<Seq<char>, AmsSlotView>,
    pub job_name: Seq<char>,
    pub live_speed: u32,
    pub light: Seq<char>,
    pub online: bool,
    pub last_update: Seq<char>,
}

impl View for PrinterState {
    type V = PrinterStateView;

    open spec fn view(&self) -> PrinterStateView {
        PrinterStateView {
            gcode_state: self.gcode_state@,
            mode: self.mode@,
            action: self.action@,
            progress: self.progress,
            remaining_time: self.remaining_time,
            nozzle_temp: self.nozzle_temp,
            nozzle_target: self.nozzle_target,
            bed_temp: self.bed_temp,
            bed_target: self.bed_target,
            layer_current: self.layer_current,
            layer_total: self.layer_total,
            speed: self.speed@,
            filament_type: self.filament_type@,
            ams: ams_map(self.ams@),
            job_name: self.job_name@,
            live_speed: self.live_speed,
            light: self.light@,
            online: self.online,
            last_update: self.last_update@,
        }
    }
}

/// The state before the printer has reported anything.
pub open spec fn initial_state_view() -> PrinterStateView {
    PrinterStateView {
        gcode_state: "UNKNOWN"@,
        mode: "unknown"@,
        action: "unknown"@,
        progress: JsonNumber::PosInt(0),
        remaining_time: 0,
        nozzle_temp: JsonNumber::PosInt(0),
        nozzle_target: JsonNumber::PosInt(0),
        bed_temp: JsonNumber::PosInt(0),
        bed_target: JsonNumber::PosInt(0),
        layer_current: 0,
        layer_total: 0,
        speed: "100"@,
        filament_type: Seq::empty(),
        ams: Map::empty(),
        job_name: Seq::empty(),
        live_speed: 0,
        light: "off"@,
        online: false,
        last_update: Seq::empty(),
    }
}

/// The state before the printer has reported anything: unknown mode and
/// action, speed level "100", light "off", offline, everything else zero or
/// empty.
pub fn initial_state() -> (s: PrinterState)
    ensures
        s@ == initial_state_view(),
{
    proof {
        reveal_strlit("UNKNOWN");
        reveal_strlit("unknown");
        reveal_strlit("100");
        reveal_strlit("off");
    }
    let s = PrinterState {
        gcode_state: owned("UNKNOWN"),
        mode: owned("unknown"),
        action: owned("unknown"),
        progress: JsonNumber::PosInt(0),
        remaining_time: 0,
        nozzle_temp: JsonNumber::PosInt(0),
        nozzle_target: JsonNumber::PosInt(0),
        bed_temp: JsonNumber::PosInt(0),
        bed_target: JsonNumber::PosInt(0),
        layer_current: 0,
        layer_total: 0,
        speed: owned("100"),
        filament_type: String::new(),
        ams: Vec::new(),
        job_name: String::new(),
        live_speed: 0,
        light: owned("off"),
        online: false,
        last_update: String::new(),
    };
    assert(ams_map(s.ams@) =~= Map::<Seq<char>, AmsSlotView>::empty());
    s
}

impl AmsSlot {
    /// A copy with the same contents.
    pub fn copy(&self) -> (r: AmsSlot)
        ensures
            r == *self,
    {
        AmsSlot { color: self.color.clone(), material: self.material.clone(), remaining: self.remaining }
    }
}

impl PrinterState {
    /// A copy of the state, as it is broadcast to listeners.
    pub fn snapshot(&self) -> (r: PrinterState)
        ensures
            r@ == self@,
    {
        let n = self.ams.len();
        let mut ams: Vec<(String, AmsSlot)> = Vec::new();
        let mut i: usize = 0;
        while i < n
            invariant
                n == self.ams@.len(),
                i <= n,
                ams@ == self.ams@.take(i as int),
            decreases n - i,
        {
            ams.push((self.ams[i].0.clone(), self.ams[i].1.copy()));
            assert(self.ams@.take(i + 1) =~= self.ams@.take(i as int).push(self.ams@[i as int]));
            i = i + 1;
        }
        assert(self.ams@.take(n as int) =~= self.ams@);
        PrinterState {
            gcode_state: self.gcode_state.clone(),
            mode: self.mode.clone(),
            action: self.action.clone(),
            progress: self.progress,
            remaining_time: self.remaining_time,
            nozzle_temp: self.nozzle_temp,
            nozzle_target: self.nozzle_target,
            bed_temp: self.bed_temp,
            bed_target: self.bed_target,
            layer_current: self.layer_current,
            layer_total: self.layer_total,
            speed: self.speed.clone(),
            filament_type: self.filament_type.clone(),
            ams,
            job_name: self.job_name.clone(),
            live_speed: self.live_speed,
            light: self.light.clone(),
            online: self.online,
            last_update: self.last_update.clone(),
        }
    }
}

// ── Colours ──────────────────────────────────────────────────────────────────

/// The value of one hexadecimal digit byte, either case.
pub open spec fn hex_value(b: u8) -> Option<u8> {
    if 48 <= b <= 57 {
        Some((b - 48) as u8)
    } else if 65 <= b <= 70 {
        Some((b - 55) as u8)
    } else if 97 <= b <= 102 {
        Some((b - 87) as u8)
    } else {
        None
    }
}

/// Reading two bytes as a base-16 `u8`, the way `u8::from_str_radix` reads a
/// two-byte text: an optional leading `+`, then hexadecimal digits.
pub open spec fn radix16_pair(b0: u8, b1: u8) -> Option<u8> {
    if b0 == 43 {
        hex_value(b1)
    } else {
        match (hex_value(b0), hex_value(b1)) {
            (Some(h), Some(l)) => Some((16 * h + l) as u8),
            _ => None,
        }
    }
}

/// A colour channel: the byte pair read as base 16, or 255 where it is not
/// a number.
pub open spec fn channel(b0: u8, b1: u8) -> u8 {
    match radix16_pair(b0, b1) {
        Some(v) => v,
        None => 255,
    }
}

/// The display form of an AMS tray colour: from a text of at least six bytes,
/// `#` and the three channels its first six bytes give, in upper-case
/// hexadecimal; a shorter text is kept as it is.
pub open spec fn hex_color(s: Seq<char>) -> Seq<char> {
    let b = encode_utf8(s);
    if b.len() >= 6 {
        seq!['#'] + hex2(channel(b[0], b[1])) + hex2(channel(b[2], b[3])) + hex2(channel(b[4], b[5]))
    } else {
        s
    }
}

/// The texts whose first six bytes can be cut in pairs: cutting inside a
/// character is what the colour reading cannot do.
pub open spec fn hex_color_sliceable(s: Seq<char>) -> bool {
    let b = encode_utf8(s);
    b.len() >= 6 ==> is_char_boundary(b, 2) && is_char_boundary(b, 4) && is_char_boundary(b, 6)
}

/// A colour read from a text of six bytes or more is shown as `#` and six
/// upper-case hexadecimal digits.
pub proof fn law_hex_color_form(s: Seq<char>)
    requires
        encode_utf8(s).len() >= 6,
    ensures
        hex_color(s).len() == 7,
        hex_color(s)[0] == '#',
        forall|i: int| 1 <= i < 7 ==> {
            let c = #[trigger] hex_color(s)[i];
            ('0' <= c && c <= '9') || ('A' <= c && c <= 'F')
        },
{
    let b = encode_utf8(s);
    let r = hex_color(s);
    assert forall|i: int| 1 <= i < 7 implies {
        let c = #[trigger] r[i];
        ('0' <= c && c <= '9') || ('A' <= c && c <= 'F')
    } by {
        let ch = if i < 3 { channel(b[0], b[1]) } else if i < 5 { channel(b[2], b[3]) } else { channel(b[4], b[5]) };
        let d: int = if i % 2 == 1 { (ch / 16) as int } else { (ch % 16) as int };
        assert(r[i] == hex_digit(d));
        assert(0 <= d < 16);
    }
}

/// A hexadecimal digit character, in either case: `0`-`9`, `A`-`F` or
/// `a`-`f` (code points 48-57, 65-70, 97-102).
pub open spec fn is_hex_char(c: char) -> bool {
    let n = c as u32;
    (48 <= n <= 57) || (65 <= n <= 70) || (97 <= n <= 102)
}

/// A hexadecimal digit character in upper case.
pub open spec fn upper_hex_char(c: char) -> char {
    if 'a' <= c && c <= 'f' {
        ((c as u32) - 32) as char
    } else {
        c
    }
}

/// The first `k` characters of a text of ASCII characters are its first `k`
/// bytes.
proof fn lemma_ascii_prefix_bytes(s: Seq<char>, k: int)
    requires
        0 <= k <= s.len(),
        forall|i: int| 0 <= i < k ==> (#[trigger] s[i] as u32) < 128,
    ensures
        encode_utf8(s).len() >= k,
        forall|i: int| 0 <= i < k ==> #[trigger] encode_utf8(s)[i] == (s[i] as u32) as u8,
    decreases k,
{
    if k > 0 {
        let t = s.drop_first();
        assert forall|i: int| 0 <= i < k - 1 implies (#[trigger] t[i] as u32) < 128 by {
            assert(t[i] == s[i + 1]);
        }
        lemma_ascii_prefix_bytes(t, k - 1);
        let v = s[0] as u32;
        assert((v & 0x7F) as u8 == v as u8) by (bit_vector)
            requires
                v < 128,
        ;
        assert(encode_utf8(s) == seq![(v & 0x7F) as u8] + encode_utf8(t));
        assert forall|i: int| 0 <= i < k implies #[trigger] encode_utf8(s)[i] == (s[i] as u32) as u8 by {
            if i > 0 {
                assert(encode_utf8(s)[i] == encode_utf8(t)[i - 1]);
                assert(t[i - 1] == s[i]);
            }
        }
    }
}

/// The value of a hexadecimal digit character's byte, and the upper-case
/// digit of that value is the character in upper case.
proof fn lemma_hex_char(c: char)
    requires
        is_hex_char(c),
    ensures
        hex_value((c as u32) as u8) is Some,
        hex_value((c as u32) as u8)->Some_0 < 16,
        hex_digit(hex_value((c as u32) as u8)->Some_0 as int) == upper_hex_char(c),
{
}

/// A colour text whose first six characters are hexadecimal digits, in
/// either case, reads as `#` and those six digits in upper case: each pair
/// is read as its base-16 value and written back in upper case.
pub proof fn law_hex_color_reads_digits(s: Seq<char>)
    requires
        s.len() >= 6,
        forall|i: int| 0 <= i < 6 ==> is_hex_char(#[trigger] s[i]),
    ensures
        hex_color(s) == seq!['#'] + s.take(6).map_values(|c: char| upper_hex_char(c)),
{
    assert forall|i: int| 0 <= i < 6 implies (#[trigger] s[i] as u32) < 128 by {
        assert(is_hex_char(s[i]));
    }
    lemma_ascii_prefix_bytes(s, 6);
    let b = encode_utf8(s);
    let expected = seq!['#'] + s.take(6).map_values(|c: char| upper_hex_char(c));
    assert forall|j: int| 0 <= j < 3 implies {
        &&& #[trigger] hex2(channel(b[2 * j], b[2 * j + 1]))[0] == upper_hex_char(s[2 * j])
        &&& hex2(channel(b[2 * j], b[2 * j + 1]))[1] == upper_hex_char(s[2 * j + 1])
    } by {
        assert(is_hex_char(s[2 * j]));
        assert(is_hex_char(s[2 * j + 1]));
        lemma_hex_char(s[2 * j]);
        lemma_hex_char(s[2 * j + 1]);
        let h = hex_value(b[2 * j])->Some_0;
        let l = hex_value(b[2 * j + 1])->Some_0;
        assert(b[2 * j] != 43);
        assert(channel(b[2 * j], b[2 * j + 1]) == 16 * h + l);
        assert((16 * h + l) / 16 == h && (16 * h + l) % 16 == l) by (nonlinear_arith)
            requires
                h < 16,
                l < 16,
        ;
    }
    let r = hex_color(s);
    assert(r =~= seq!['#'] + hex2(channel(b[0], b[1])) + hex2(channel(b[2], b[3])) + hex2(channel(b[4], b[5])));
    assert(hex2(channel(b[0], b[1]))[0] == upper_hex_char(s[0]));
    assert(hex2(channel(b[2], b[3]))[0] == upper_hex_char(s[2]));
    assert(hex2(channel(b[4], b[5]))[0] == upper_hex_char(s[4]));
    assert(r =~= expected);
}

/// A colour text shorter than six bytes is kept as it is; in one of six
/// ASCII characters or more, a byte pair that is not a base-16 number (its
/// first character neither a hexadecimal digit nor `+`) reads as 255, `FF`.
pub proof fn law_hex_color_fallback(s: Seq<char>)
    ensures
        encode_utf8(s).len() < 6 ==> hex_color(s) == s,
        s.len() >= 6 && (forall|i: int| 0 <= i < 6 ==> (#[trigger] s[i] as u32) < 128) && !is_hex_char(s[0])
            && s[0] != '+' ==> hex_color(s).subrange(1, 3) == seq!['F', 'F'],
{
    if s.len() >= 6 && (forall|i: int| 0 <= i < 6 ==> (#[trigger] s[i] as u32) < 128) && !is_hex_char(s[0])
        && s[0] != '+' {
        lemma_ascii_prefix_bytes(s, 6);
        let b = encode_utf8(s);
        let v = s[0] as u32;
        assert((v as u8) as u32 == v) by (bit_vector)
            requires
                v < 128,
        ;
        assert(b[0] == v as u8);
        assert(hex_value(b[0]) is None);
        vstd::utf8::char_u32_cast(s[0], v);
        vstd::utf8::char_u32_cast('+', 43);
        assert(b[0] != 43);
        assert(channel(b[0], b[1]) == 255);
        assert(hex_color(s).subrange(1, 3) =~= hex2(255));
    }
}

fn hex_value_of(b: u8) -> (r: Option<u8>)
    ensures
        r == hex_value(b),
{
    if 48 <= b && b <= 57 {
        Some(b - 48)
    } else if 65 <= b && b <= 70 {
        Some(b - 55)
    } else if 97 <= b && b <= 102 {
        Some(b - 87)
    } else {
        None
    }
}

fn channel_of(b0: u8, b1: u8) -> (r: u8)
    ensures
        r == channel(b0, b1),
{
    if b0 == 43 {
        match hex_value_of(b1) {
            Some(v) => v,
            None => 255,
        }
    } else {
        match (hex_value_of(b0), hex_value_of(b1)) {
            (Some(h), Some(l)) => 16 * h + l,
            _ => 255,
        }
    }
}

/// Normalises an AMS tray colour such as `"FF8000FF"` to `"#FF8000"`.
pub fn parse_hex_color(hex: &str) -> (r: String)
    requires
        hex_color_sliceable(hex@),
    ensures
        r@ == hex_color(hex@),
{
    let b = hex.as_bytes();
    if b.len() >= 6 {
        let mut out = String::new();
        out.push('#');
        push_hex2(&mut out, channel_of(b[0], b[1]));
        push_hex2(&mut out, channel_of(b[2], b[3]));
        push_hex2(&mut out, channel_of(b[4], b[5]));
        out
    } else {
        owned(hex)
    }
}

/// Whether a text can be given to `parse_hex_color`.
pub fn is_hex_color_sliceable(hex: &str) -> (r: bool)
    ensures
        r == hex_color_sliceable(hex@),
{
    let b = hex.as_bytes();
    if b.len() >= 6 {
        hex.is_char_boundary(2) && hex.is_char_boundary(4) && hex.is_char_boundary(6)
    } else {
        true
    }
}

} // verus!
