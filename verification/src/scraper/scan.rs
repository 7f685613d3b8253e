//! Rows built from the live display devices and from the monitors stored in
//! the registry, and the EDID fields read from the latter.

use vstd::prelude::*;
use vstd::utf8::{decode_utf8, valid_utf8};
use crate::text::{
    chars_of, nat_decimal, push_chars, push_decimal, push_str, string_from_chars, trim_char,
    trim_char_spec, trim_chars, trim_spec,
};
use crate::scraper::DisplayRow;

verus! {

/// What `String::from_utf8_lossy` returns for a byte sequence.
pub uninterp spec fn utf8_lossy(bytes: Seq<u8>) -> Seq<char>;

/// The text of a byte sequence, with invalid UTF-8 replaced
/// (`String::from_utf8_lossy`); valid UTF-8 is decoded as it is.
#[verifier::external_body]
fn lossy_text(bytes: &[u8]) -> (r: String)
    ensures
        r@ == utf8_lossy(bytes@),
        valid_utf8(bytes@) ==> r@ == decode_utf8(bytes@),
{
    String::from_utf8_lossy(bytes).into_owned()
}

/// The offsets of the four 18-byte descriptor blocks of a base EDID block.
pub open spec fn descriptor_offset(k: int) -> int {
    54 + 18 * k
}

/// A descriptor block at `off` is the monitor serial number (`00 00 00 FF`).
pub open spec fn is_serial_block(bytes: Seq<u8>, off: int) -> bool {
    off + 18 <= bytes.len() && bytes[off] == 0 && bytes[off + 1] == 0 && bytes[off + 2] == 0
        && bytes[off + 3] == 0xff
}

/// The serial text of the first serial-number descriptor among blocks
/// `k..4`: its 14 data bytes as text, trimmed of whitespace and then of NULs.
pub open spec fn serial_from(bytes: Seq<u8>, k: int) -> Seq<char>
    decreases 4 - k,
{
    if k >= 4 || k < 0 {
        "N/A"@
    } else if is_serial_block(bytes, descriptor_offset(k)) {
        let off = descriptor_offset(k);
        trim_char_spec(trim_spec(utf8_lossy(bytes.subrange(off + 4, off + 18))), '\0')
    } else {
        serial_from(bytes, k + 1)
    }
}

/// Serial, physical size and resolution read from an EDID block: for fewer
/// than 128 bytes all are `N/A`; otherwise the serial descriptor's text (or
/// `N/A`), the size as `WxHmm` from bytes 21 and 22 (centimetres), and `N/A`.
pub open spec fn parse_edid_spec(bytes: Seq<u8>) -> (Seq<char>, Seq<char>, Seq<char>) {
    if bytes.len() < 128 {
        ("N/A"@, "N/A"@, "N/A"@)
    } else {
        (
            serial_from(bytes, 0),
            nat_decimal((bytes[21] as nat) * 10) + "x"@ + nat_decimal((bytes[22] as nat) * 10) + "mm"@,
            "N/A"@,
        )
    }
}

fn copy_range(bytes: &[u8], from: usize, to: usize) -> (r: Vec<u8>)
    requires
        from <= to <= bytes@.len(),
    ensures
        r@ == bytes@.subrange(from as int, to as int),
{
    let mut out: Vec<u8> = Vec::new();
    let mut i: usize = from;
    while i < to
        invariant
            from <= i <= to,
            to <= bytes@.len(),
            out@ == bytes@.subrange(from as int, i as int),
        decreases to - i,
    {
        out.push(bytes[i]);
        i = i + 1;
        assert(out@ =~= bytes@.subrange(from as int, i as int));
    }
    out
}

/// Serial, physical size and resolution read from an EDID block.
pub fn parse_edid(bytes: &[u8]) -> (r: (String, String, String))
    ensures
        (r.0@, r.1@, r.2@) == parse_edid_spec(bytes@),
{
    if bytes.len() < 128 {
        return (string_from_chars(&chars_of("N/A")), string_from_chars(&chars_of("N/A")), string_from_chars(&chars_of("N/A")));
    }
    let mut sn = chars_of("N/A");
    let mut k: usize = 0;
    let mut found = false;
    while k < 4 && !found
        invariant
            k <= 4,
            bytes@.len() >= 128,
            found ==> sn@ == serial_from(bytes@, 0),
            !found ==> serial_from(bytes@, 0) == serial_from(bytes@, k as int),
            !found ==> sn@ == "N/A"@,
        decreases 4 - k + (if found { 0int } else { 1int }),
    {
        let off: usize = 54 + 18 * k;
        if bytes[off] == 0 && bytes[off + 1] == 0 && bytes[off + 2] == 0 && bytes[off + 3] == 0xff {
            let data = copy_range(bytes, off + 4, off + 18);
            let text = lossy_text(data.as_slice());
            let chars = chars_of(text.as_str());
            let trimmed = trim_chars(&chars);
            sn = trim_char(&trimmed, '\0');
            found = true;
        } else {
            k = k + 1;
        }
    }
    let mut size: Vec<char> = Vec::new();
    push_decimal(&mut size, bytes[21] as u64 * 10);
    push_str(&mut size, "x");
    push_decimal(&mut size, bytes[22] as u64 * 10);
    push_str(&mut size, "mm");
    assert(size@ =~= nat_decimal((bytes@[21] as nat) * 10) + "x"@ + nat_decimal((bytes@[22] as nat) * 10) + "mm"@);
    (string_from_chars(&sn), string_from_chars(&size), string_from_chars(&chars_of("N/A")))
}

/// The current mode of an active display device.
#[derive(Debug, Clone, Copy, PartialEq, Eq)]
pub struct LiveSettings {
    pub width: u32,
    pub height: u32,
    pub frequency: u32,
    pub x: i32,
    pub y: i32,
}

/// A `YES`/`NO` text.
pub open spec fn yes_no(b: bool) -> Seq<char> {
    if b { "YES"@ } else { "NO"@ }
}

/// The row for a live display device. Its mode is shown only when the
/// device is on the desktop and its mode could be read.
pub open spec fn live_row_spec(
    r: DisplayRow,
    device_name: Seq<char>,
    hw_id_path: Seq<char>,
    is_active: bool,
    is_primary: bool,
    settings: Option<LiveSettings>,
) -> bool {
    &&& r.source@ == "GDI_LIVE"@
    &&& r.name_id@ == device_name
    &&& r.dpi@ == "100%"@
    &&& r.scale_percent == 100
    &&& r.position_instance@ == hw_id_path
    &&& r.active@ == yes_no(is_active)
    &&& r.primary@ == yes_no(is_primary)
    &&& r.serial@ == "N/A"@
    &&& r.size_mm@ == "N/A"@
    &&& r.persistent_id == 0
    &&& r.is_primary == is_primary
    &&& r.ddc is None
    &&& match (is_active, settings) {
        (true, Some(s)) => {
            &&& r.resolution@ == nat_decimal(s.width as nat) + "x"@ + nat_decimal(s.height as nat)
            &&& r.freq@ == nat_decimal(s.frequency as nat) + "Hz"@
            &&& r.x == s.x
            &&& r.y == s.y
        },
        _ => {
            &&& r.resolution@ == "N/A"@
            &&& r.freq@ == "N/A"@
            &&& r.x == 0
            &&& r.y == 0
        },
    }
}

fn text(s: &str) -> (r: String)
    ensures
        r@ == s@,
{
    string_from_chars(&chars_of(s))
}

/// The row for a live display device.
pub fn live_row(
    device_name: &str,
    hw_id_path: &str,
    is_active: bool,
    is_primary: bool,
    settings: Option<LiveSettings>,
) -> (r: DisplayRow)
    ensures
        live_row_spec(r, device_name@, hw_id_path@, is_active, is_primary, settings),
{
    let mut row = DisplayRow {
        source: text("GDI_LIVE"),
        name_id: text(device_name),
        resolution: text("N/A"),
        freq: text("N/A"),
        dpi: text("100%"),
        scale_percent: 100,
        position_instance: text(hw_id_path),
        active: if is_active { text("YES") } else { text("NO") },
        primary: if is_primary { text("YES") } else { text("NO") },
        serial: text("N/A"),
        size_mm: text("N/A"),
        persistent_id: 0,
        x: 0,
        y: 0,
        is_primary,
        ddc: None,
    };
    if is_active {
        match settings {
            Some(s) => {
                let mut res: Vec<char> = Vec::new();
                push_decimal(&mut res, s.width as u64);
                push_str(&mut res, "x");
                push_decimal(&mut res, s.height as u64);
                assert(res@ =~= nat_decimal(s.width as nat) + "x"@ + nat_decimal(s.height as nat));
                let mut freq: Vec<char> = Vec::new();
                push_decimal(&mut freq, s.frequency as u64);
                push_str(&mut freq, "Hz");
                assert(freq@ =~= nat_decimal(s.frequency as nat) + "Hz"@);
                row.resolution = string_from_chars(&res);
                row.freq = string_from_chars(&freq);
                row.x = s.x;
                row.y = s.y;
            },
            None => {},
        }
    }
    row
}

/// One display device as the system enumerates it.
#[derive(Debug, Clone)]
pub struct LiveDevice {
    pub name: String,
    pub hw_id_path: String,
    pub is_active: bool,
    pub is_primary: bool,
    pub settings: Option<LiveSettings>,
}

/// The most display devices a scan reads.
pub const MAX_DEVICES: usize = 64;

/// The live rows for the enumerated devices: one per device, in order, for
/// at most the first 64.
pub fn live_rows(devices: &Vec<LiveDevice>) -> (r: Vec<DisplayRow>)
    ensures
        r@.len() == (if devices@.len() < 64 { devices@.len() } else { 64 }),
        forall|i: int| 0 <= i < r@.len() ==> live_row_spec(
            #[trigger] r@[i],
            devices@[i].name@,
            devices@[i].hw_id_path@,
            devices@[i].is_active,
            devices@[i].is_primary,
            devices@[i].settings,
        ),
{
    let mut out: Vec<DisplayRow> = Vec::new();
    let mut i: usize = 0;
    while i < devices.len() && i < MAX_DEVICES
        invariant
            i <= devices.len(),
            i <= 64,
            out@.len() == i,
            forall|j: int| 0 <= j < i ==> live_row_spec(
                #[trigger] out@[j],
                devices@[j].name@,
                devices@[j].hw_id_path@,
                devices@[j].is_active,
                devices@[j].is_primary,
                devices@[j].settings,
            ),
        decreases devices.len() - i,
    {
        let d = &devices[i];
        out.push(live_row(d.name.as_str(), d.hw_id_path.as_str(), d.is_active, d.is_primary, d.settings));
        i = i + 1;
    }
    out
}

/// The row for a monitor stored in the registry, with the fields read from
/// its EDID.
pub fn registry_row(hw_id: &str, inst_id: &str, edid: &[u8]) -> (r: DisplayRow)
    ensures
        r.source@ == "Registry"@,
        r.name_id@ == hw_id@,
        r.resolution@ == parse_edid_spec(edid@).2,
        r.freq@ == "N/A"@,
        r.dpi@ == "N/A"@,
        r.scale_percent == 100,
        r.position_instance@ == inst_id@,
        r.active@ == "STORED"@,
        r.primary@ == "N/A"@,
        r.serial@ == parse_edid_spec(edid@).0,
        r.size_mm@ == parse_edid_spec(edid@).1,
        r.persistent_id == 0,
        r.x == 0,
        r.y == 0,
        !r.is_primary,
        r.ddc is None,
{
    let (sn, size, res) = parse_edid(edid);
    DisplayRow {
        source: text("Registry"),
        name_id: text(hw_id),
        resolution: res,
        freq: text("N/A"),
        dpi: text("N/A"),
        scale_percent: 100,
        position_instance: text(inst_id),
        active: text("STORED"),
        primary: text("N/A"),
        serial: sn,
        size_mm: size,
        persistent_id: 0,
        x: 0,
        y: 0,
        is_primary: false,
        ddc: None,
    }
}

} // verus!
