//! Opt-in usage reports: the anonymous device hash, the per-monitor
//! statistics, the report record, and when the local log is old enough to
//! be removed.

use vstd::prelude::*;
use vstd::utf8::encode_utf8;
use vstd::string::StringSliceAdditionalSpecFns;
use crate::text::{
    chars_of, nat_decimal, nth_field, push_decimal, push_str, split_chars, string_from_chars,
};
use crate::scraper::DisplayRow;

verus! {

/// What SHA-256 gives for a byte sequence.
pub uninterp spec fn sha256_spec(data: Seq<u8>) -> Seq<u8>;

/// The SHA-256 digest of `data` (`sha2::Sha256::digest`): 32 bytes.
#[verifier::external_body]
fn sha256_digest(data: &[u8]) -> (r: Vec<u8>)
    ensures
        r@ == sha256_spec(data@),
        r@.len() == 32,
{
    <sha2::Sha256 as sha2::Digest>::digest(data).to_vec()
}

/// The lower-case hexadecimal digit for `d < 16`.
pub open spec fn hex_digit(d: int) -> char {
    if d < 10 {
        crate::text::digit_char(d)
    } else if d == 10 {
        'a'
    } else if d == 11 {
        'b'
    } else if d == 12 {
        'c'
    } else if d == 13 {
        'd'
    } else if d == 14 {
        'e'
    } else {
        'f'
    }
}

/// Bytes as lower-case hexadecimal, two digits per byte (`{:x}`).
pub open spec fn hex_lower(bytes: Seq<u8>) -> Seq<char>
    decreases bytes.len(),
{
    if bytes.len() == 0 {
        Seq::empty()
    } else {
        hex_lower(bytes.drop_last()) + seq![hex_digit((bytes.last() / 16) as int), hex_digit((bytes.last() % 16) as int)]
    }
}

/// The device hash: the SHA-256 of the CPU brand followed by the total
/// memory in decimal, as lower-case hexadecimal.
pub open spec fn device_hash_spec(cpu_brand: Seq<char>, total_memory: u64) -> Seq<char> {
    hex_lower(sha256_spec(encode_utf8(cpu_brand) + encode_utf8(nat_decimal(total_memory as nat))))
}

fn hex_char(d: u8) -> (c: char)
    requires
        d < 16,
    ensures
        c == hex_digit(d as int),
{
    if d == 0 { '0' }
    else if d == 1 { '1' }
    else if d == 2 { '2' }
    else if d == 3 { '3' }
    else if d == 4 { '4' }
    else if d == 5 { '5' }
    else if d == 6 { '6' }
    else if d == 7 { '7' }
    else if d == 8 { '8' }
    else if d == 9 { '9' }
    else if d == 10 { 'a' }
    else if d == 11 { 'b' }
    else if d == 12 { 'c' }
    else if d == 13 { 'd' }
    else if d == 14 { 'e' }
    else { 'f' }
}

/// Bytes as lower-case hexadecimal.
pub fn to_hex_lower(bytes: &Vec<u8>) -> (r: String)
    ensures
        r@ == hex_lower(bytes@),
{
    let mut out: Vec<char> = Vec::new();
    let mut i: usize = 0;
    while i < bytes.len()
        invariant
            i <= bytes.len(),
            out@ == hex_lower(bytes@.take(i as int)),
        decreases bytes.len() - i,
    {
        let b = bytes[i];
        out.push(hex_char(b / 16));
        out.push(hex_char(b % 16));
        proof {
            let t = bytes@.take(i + 1);
            assert(t.drop_last() =~= bytes@.take(i as int));
            assert(t.last() == b);
        }
        i = i + 1;
        assert(out@ =~= hex_lower(bytes@.take(i as int)));
    }
    assert(bytes@.take(i as int) =~= bytes@);
    string_from_chars(&out)
}

fn append_bytes(out: &mut Vec<u8>, s: &str)
    ensures
        final(out)@ == old(out)@ + encode_utf8(s@),
{
    let b = s.as_bytes();
    let ghost start = out@;
    let mut i: usize = 0;
    while i < b.len()
        invariant
            i <= b@.len(),
            b@ == s.spec_bytes(),
            out@ == start + b@.take(i as int),
        decreases b.len() - i,
    {
        out.push(b[i]);
        i = i + 1;
        assert(out@ =~= start + b@.take(i as int));
    }
    assert(b@.take(i as int) =~= b@);
}

/// The anonymous device hash for a CPU brand and a total memory size.
pub fn device_hash(cpu_brand: &str, total_memory: u64) -> (r: String)
    ensures
        r@ == device_hash_spec(cpu_brand@, total_memory),
{
    let mut data: Vec<u8> = Vec::new();
    append_bytes(&mut data, cpu_brand);
    let mut mem: Vec<char> = Vec::new();
    push_decimal(&mut mem, total_memory);
    assert(mem@ =~= nat_decimal(total_memory as nat));
    let mem_text = string_from_chars(&mem);
    append_bytes(&mut data, mem_text.as_str());
    assert(data@ =~= encode_utf8(cpu_brand@) + encode_utf8(nat_decimal(total_memory as nat)));
    let digest = sha256_digest(data.as_slice());
    to_hex_lower(&digest)
}

/// Statistics reported for one monitor.
#[derive(Debug, Clone)]
pub struct MonitorStats {
    pub res: String,
    pub hw_id: String,
    pub is_primary: bool,
}

/// One usage report.
#[derive(Debug, Clone)]
pub struct TelemetryPayload {
    pub timestamp: String,
    pub device_hash: String,
    pub action: String,
    pub success: bool,
    pub detected_monitors: Vec<MonitorStats>,
    pub tasks_executed: usize,
}

/// Sends usage reports, when enabled, and keeps a local log of them.
pub struct TelemetryManager {
    pub enabled: bool,
    pub storage_path: String,
}

/// The statistics of a monitor: its resolution, the second component of its
/// hardware path (`Unknown` when there is none), and whether it is primary.
pub open spec fn monitor_stats_spec(m: MonitorStats, row: DisplayRow) -> bool {
    &&& m.res@ == row.resolution@
    &&& m.hw_id@ == (match nth_field(row.position_instance@, '\\', 1) {
        Some(f) => f,
        None => "Unknown"@,
    })
    &&& m.is_primary == (row.primary@ == "YES"@)
}

/// The statistics of one monitor.
pub fn monitor_stats(row: &DisplayRow) -> (m: MonitorStats)
    ensures
        monitor_stats_spec(m, *row),
{
    let path = chars_of(row.position_instance.as_str());
    let parts = split_chars(&path, '\\');
    let hw_id = if parts.len() > 1 {
        assert(parts.deep_view()[1] =~= parts@[1]@);
        string_from_chars(&parts[1])
    } else {
        string_from_chars(&chars_of("Unknown"))
    };
    let primary = chars_of(row.primary.as_str());
    MonitorStats {
        res: row.resolution.clone(),
        hw_id,
        is_primary: crate::text::chars_eq_str(&primary, "YES"),
    }
}

/// Local log files older than this many seconds (30 days) are removed.
pub const LOG_MAX_AGE_SECS: u64 = 2592000;

impl TelemetryManager {
    /// A manager that logs to `telemetry_improvement.json`.
    pub fn new(enabled: bool) -> (r: Self)
        ensures
            r.enabled == enabled,
            r.storage_path@ == "telemetry_improvement.json"@,
    {
        TelemetryManager { enabled, storage_path: string_from_chars(&chars_of("telemetry_improvement.json")) }
    }

    /// The path of the local log.
    pub fn storage_path(&self) -> (r: &str)
        ensures
            r@ == self.storage_path@,
    {
        self.storage_path.as_str()
    }

    /// Whether a local log that was last written `elapsed_secs` ago is
    /// removed: when it is older than 30 days.
    pub fn is_expired(elapsed_secs: u64) -> (r: bool)
        ensures
            r == (elapsed_secs > 2592000),
    {
        elapsed_secs > LOG_MAX_AGE_SECS
    }

    /// The report for an action, when reports are enabled: the time, the
    /// device hash, the action and its outcome, the statistics of every
    /// monitor in order, and the number of tasks.
    pub fn payload(
        &self,
        timestamp: String,
        device_hash: String,
        action: &str,
        success: bool,
        rows: &Vec<DisplayRow>,
        tasks_executed: usize,
    ) -> (r: Option<TelemetryPayload>)
        ensures
            !self.enabled ==> r is None,
            self.enabled ==> (r matches Some(p) && p.timestamp@ == timestamp@ && p.device_hash@ == device_hash@
                && p.action@ == action@ && p.success == success && p.tasks_executed == tasks_executed
                && p.detected_monitors@.len() == rows@.len()
                && forall|i: int| 0 <= i < rows@.len() ==> #[trigger] monitor_stats_spec(p.detected_monitors@[i], rows@[i])),
    {
        if !self.enabled {
            return None;
        }
        let mut stats: Vec<MonitorStats> = Vec::new();
        let mut i: usize = 0;
        while i < rows.len()
            invariant
                i <= rows.len(),
                stats@.len() == i,
                forall|j: int| 0 <= j < i ==> #[trigger] monitor_stats_spec(stats@[j], rows@[j]),
            decreases rows.len() - i,
        {
            stats.push(monitor_stats(&rows[i]));
            i = i + 1;
        }
        Some(TelemetryPayload {
            timestamp,
            device_hash,
            action: string_from_chars(&chars_of(action)),
            success,
            detected_monitors: stats,
            tasks_executed,
        })
    }
}

/// The endpoint that reports are sent to.
pub open spec fn upload_url_spec() -> Seq<char> {
    "https://pbuloekdtjpuiehbfypz.supabase.co/rest/v1/telemetry"@
}

/// The endpoint that reports are sent to.
pub fn upload_url() -> (r: String)
    ensures
        r@ == upload_url_spec(),
{
    string_from_chars(&chars_of("https://pbuloekdtjpuiehbfypz.supabase.co/rest/v1/telemetry"))
}

/// The request headers of an upload with the given API key.
pub open spec fn upload_headers_spec(api_key: Seq<char>) -> Seq<(Seq<char>, Seq<char>)> {
    seq![
        ("apikey"@, api_key),
        ("Authorization"@, "Bearer "@ + api_key),
        ("Content-Type"@, "application/json"@),
        ("Prefer"@, "return=minimal"@),
    ]
}

/// The request headers of an upload with the given API key.
pub fn upload_headers(api_key: &str) -> (r: Vec<(String, String)>)
    ensures
        r@.len() == 4,
        forall|i: int| 0 <= i < 4 ==> (#[trigger] r@[i]).0@ == upload_headers_spec(api_key@)[i].0
            && r@[i].1@ == upload_headers_spec(api_key@)[i].1,
{
    let mut bearer = chars_of("Bearer ");
    push_str(&mut bearer, api_key);
    let mut out: Vec<(String, String)> = Vec::new();
    out.push((string_from_chars(&chars_of("apikey")), string_from_chars(&chars_of(api_key))));
    out.push((string_from_chars(&chars_of("Authorization")), string_from_chars(&bearer)));
    out.push((string_from_chars(&chars_of("Content-Type")), string_from_chars(&chars_of("application/json"))));
    out.push((string_from_chars(&chars_of("Prefer")), string_from_chars(&chars_of("return=minimal"))));
    out
}

} // verus!
