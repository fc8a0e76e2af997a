//! Host telemetry: configuration, and the parsers of `/proc/meminfo` and `df -k` output.
use vstd::prelude::*;

use crate::text::{
    chars_lines, chars_of, chars_split, chars_trim, chars_words, extend_chars, int_error_message,
    int_error_string, lines, parse_unsigned, parse_unsigned_chars, split_on, string_of, trim, views,
    words, IntErrorKind,
};

verus! {

/// Configuration for target file and command paths.
#[derive(Debug)]
pub struct TelemetryConfig {
    /// Path to CPU loadavg file (typically "/proc/loadavg").
    pub loadavg_path: String,
    /// Path to memory statistics file (typically "/proc/meminfo").
    pub meminfo_path: String,
    /// Path to NVMe temperature file (typically in sysfs).
    pub nvme_temp_path: String,
    /// Disk mount point to inspect.
    pub mount_point: String,
}

impl Clone for TelemetryConfig {
    fn clone(&self) -> (r: Self)
        ensures
            r == *self,
    {
        TelemetryConfig {
            loadavg_path: self.loadavg_path.clone(),
            meminfo_path: self.meminfo_path.clone(),
            nvme_temp_path: self.nvme_temp_path.clone(),
            mount_point: self.mount_point.clone(),
        }
    }
}

impl Default for TelemetryConfig {
    fn default() -> (c: Self)
        ensures
            c.loadavg_path@ == "/proc/loadavg"@,
            c.meminfo_path@ == "/proc/meminfo"@,
            c.nvme_temp_path@ == "/sys/class/nvme/nvme0/device/hwmon/hwmon1/temp1_input"@,
            c.mount_point@ == "/"@,
    {
        TelemetryConfig {
            loadavg_path: String::from_str("/proc/loadavg"),
            meminfo_path: String::from_str("/proc/meminfo"),
            nvme_temp_path: String::from_str("/sys/class/nvme/nvme0/device/hwmon/hwmon1/temp1_input"),
            mount_point: String::from_str("/"),
        }
    }
}

/// Helper struct for parsing Memory statistics.
#[derive(Clone, Copy, Debug, PartialEq, Eq, Structural)]
pub struct MemoryInfo {
    /// Total memory in bytes.
    pub total_bytes: u64,
    /// Available memory in bytes.
    pub available_bytes: u64,
}

/// Helper struct for parsing Disk space information.
#[derive(Clone, Copy, Debug, PartialEq, Eq, Structural)]
pub struct DiskInfo {
    /// Total disk capacity in bytes.
    pub total_bytes: u64,
    /// Available disk capacity in bytes.
    pub available_bytes: u64,
}

/// Collector to fetch metrics.
#[derive(Debug)]
pub struct TelemetryCollector {
    pub config: TelemetryConfig,
}

impl TelemetryCollector {
    /// Creates a new TelemetryCollector with the specified config.
    pub fn new(config: TelemetryConfig) -> (c: Self)
        ensures
            c.config == config,
    {
        TelemetryCollector { config }
    }
}

/// What one meminfo line contributes: nothing (not `key: value`), a refused number, or a
/// key with its number of kB.
pub open spec fn meminfo_line(line: Seq<char>) -> Option<Result<(Seq<char>, nat), IntErrorKind>> {
    let parts = split_on(line, ':');
    if parts.len() != 2 {
        None
    } else {
        let vals = words(trim(parts[1]));
        if vals.len() == 0 {
            None
        } else {
            match parse_unsigned(vals[0], u64::MAX as nat) {
                Err(k) => Some(Err(k)),
                Ok(v) => Some(Ok((trim(parts[0]), v))),
            }
        }
    }
}

/// The last values read for MemTotal, MemAvailable and MemFree (in bytes), or the first
/// refused number.
pub open spec fn meminfo_scan(ls: Seq<Seq<char>>) -> Result<(Option<nat>, Option<nat>, Option<nat>), IntErrorKind>
    decreases ls.len(),
{
    if ls.len() == 0 {
        Ok((None, None, None))
    } else {
        match meminfo_scan(ls.drop_last()) {
            Err(k) => Err(k),
            Ok(st) => match meminfo_line(ls.last()) {
                None => Ok(st),
                Some(Err(k)) => Err(k),
                Some(Ok((key, v))) => if key == "MemTotal"@ {
                    Ok((Some(v * 1024), st.1, st.2))
                } else if key == "MemAvailable"@ {
                    Ok((st.0, Some(v * 1024), st.2))
                } else if key == "MemFree"@ {
                    Ok((st.0, st.1, Some(v * 1024)))
                } else {
                    Ok(st)
                },
            },
        }
    }
}

/// Every number read before the first refused one fits in `u64` once converted to bytes.
pub open spec fn meminfo_fits(ls: Seq<Seq<char>>) -> bool
    decreases ls.len(),
{
    if ls.len() == 0 {
        true
    } else {
        meminfo_fits(ls.drop_last()) && (meminfo_scan(ls.drop_last()) is Ok ==> match meminfo_line(
            ls.last(),
        ) {
            Some(Ok((_, v))) => v * 1024 <= u64::MAX,
            _ => true,
        })
    }
}

/// What parsing meminfo content gives.
pub open spec fn spec_parse_meminfo(content: Seq<char>) -> Result<(nat, nat), Seq<char>> {
    match meminfo_scan(lines(content)) {
        Err(k) => Err(int_error_message(k)),
        Ok(st) => match st.0 {
            None => Err("MemTotal not found"@),
            Some(total) => match (if st.1 is Some { st.1 } else { st.2 }) {
                None => Err("MemAvailable or MemFree not found"@),
                Some(avail) => Ok((total, avail)),
            },
        },
    }
}

fn meminfo_line_exec(line: &Vec<char>) -> (r: Option<Result<(Vec<char>, u64), IntErrorKind>>)
    ensures
        match (r, meminfo_line(line@)) {
            (None, None) => true,
            (Some(Err(a)), Some(Err(b))) => a == b,
            (Some(Ok((k, v))), Some(Ok((k2, v2)))) => k@ == k2 && v as nat == v2,
            _ => false,
        },
{
    let parts = chars_split(line, ':');
    proof {
        assert(views(parts@).len() == parts@.len());
    }
    if parts.len() != 2 {
        return None;
    }
    proof {
        assert(views(parts@)[0] == parts@[0]@);
        assert(views(parts@)[1] == parts@[1]@);
    }
    let val = chars_trim(&parts[1]);
    let vals = chars_words(&val);
    proof {
        assert(views(vals@).len() == vals@.len());
    }
    if vals.len() == 0 {
        return None;
    }
    proof {
        assert(views(vals@)[0] == vals@[0]@);
    }
    match parse_unsigned_chars(&vals[0], u64::MAX) {
        Err(k) => Some(Err(k)),
        Ok(v) => {
            let key = chars_trim(&parts[0]);
            Some(Ok((key, v)))
        },
    }
}

/// Parses the content of the system meminfo file: the last `MemTotal`, and the last
/// `MemAvailable` (or, without one, the last `MemFree`), converted from kB to bytes.
pub fn parse_meminfo_content(content: &str) -> (r: Result<MemoryInfo, String>)
    requires
        meminfo_fits(lines(content@)),
    ensures
        match (r, spec_parse_meminfo(content@)) {
            (Ok(m), Ok((t, a))) => m.total_bytes == t && m.available_bytes == a,
            (Err(e), Err(msg)) => e@ == msg,
            _ => false,
        },
{
    let text = chars_of(content);
    let ls = chars_lines(&text);
    let ghost lv = views(ls@);
    let total_key = chars_of("MemTotal");
    let avail_key = chars_of("MemAvailable");
    let free_key = chars_of("MemFree");
    let mut total: Option<u64> = None;
    let mut available: Option<u64> = None;
    let mut free: Option<u64> = None;
    let mut i: usize = 0;
    proof {
        assert(lv.take(0) =~= Seq::<Seq<char>>::empty());
    }
    while i < ls.len()
        invariant
            lv == views(ls@),
            lv == lines(content@),
            meminfo_fits(lv),
            total_key@ == "MemTotal"@,
            avail_key@ == "MemAvailable"@,
            free_key@ == "MemFree"@,
            i <= ls@.len(),
            meminfo_scan(lv.take(i as int)) == Ok::<(Option<nat>, Option<nat>, Option<nat>), IntErrorKind>(
                (
                    match total {
                        Some(t) => Some(t as nat),
                        None => None,
                    },
                    match available {
                        Some(t) => Some(t as nat),
                        None => None,
                    },
                    match free {
                        Some(t) => Some(t as nat),
                        None => None,
                    },
                ),
            ),
        decreases ls@.len() - i,
    {
        let ghost prefix = lv.take(i + 1);
        proof {
            assert(prefix.drop_last() =~= lv.take(i as int));
            assert(prefix.last() == ls@[i as int]@);
            lemma_fits_prefix(lv, i + 1);
        }
        match meminfo_line_exec(&ls[i]) {
            None => {},
            Some(Err(k)) => {
                proof {
                    lemma_scan_error_stays(lv, i + 1);
                }
                return Err(int_error_string(k));
            },
            Some(Ok((key, v))) => {
                proof {
                    assert(meminfo_fits(prefix));
                }
                let bytes = v * 1024;
                if crate::text::chars_eq(&key, &total_key) {
                    total = Some(bytes);
                } else if crate::text::chars_eq(&key, &avail_key) {
                    available = Some(bytes);
                } else if crate::text::chars_eq(&key, &free_key) {
                    free = Some(bytes);
                }
            },
        }
        i = i + 1;
    }
    proof {
        assert(lv.take(ls@.len() as int) =~= lv);
    }
    let total_bytes = match total {
        Some(t) => t,
        None => {
            return Err(String::from_str("MemTotal not found"));
        },
    };
    let available_bytes = match available {
        Some(a) => a,
        None => match free {
            Some(f) => f,
            None => {
                return Err(String::from_str("MemAvailable or MemFree not found"));
            },
        },
    };
    Ok(MemoryInfo { total_bytes, available_bytes })
}

proof fn lemma_fits_prefix(ls: Seq<Seq<char>>, i: int)
    requires
        0 <= i <= ls.len(),
        meminfo_fits(ls),
    ensures
        meminfo_fits(ls.take(i)),
    decreases ls.len() - i,
{
    if i < ls.len() {
        assert(ls.take(ls.len() as int) =~= ls);
        lemma_fits_prefix(ls.drop_last(), i);
        assert(ls.drop_last().take(i) =~= ls.take(i));
    } else {
        assert(ls.take(i) =~= ls);
    }
}

proof fn lemma_scan_error_stays(ls: Seq<Seq<char>>, i: int)
    requires
        0 < i <= ls.len(),
        meminfo_scan(ls.take(i)) is Err,
    ensures
        meminfo_scan(ls) == meminfo_scan(ls.take(i)),
    decreases ls.len() - i,
{
    if i < ls.len() {
        assert(ls.take(i + 1).drop_last() =~= ls.take(i));
        lemma_scan_error_stays(ls, i + 1);
    } else {
        assert(ls.take(i) =~= ls);
    }
}

proof fn lemma_fits_after_error(ls: Seq<Seq<char>>, i: int)
    requires
        0 < i <= ls.len(),
        meminfo_scan(ls.take(i)) is Err,
        meminfo_fits(ls.take(i)),
    ensures
        meminfo_fits(ls),
    decreases ls.len() - i,
{
    if i < ls.len() {
        let p = ls.take(i + 1);
        assert(p.drop_last() =~= ls.take(i));
        assert(meminfo_fits(p));
        lemma_scan_error_stays(p, i);
        assert(p.take(i) =~= ls.take(i));
        assert(meminfo_scan(p) is Err);
        lemma_fits_after_error(ls, i + 1);
    } else {
        assert(ls.take(i) =~= ls);
    }
}

/// Whether the byte counts of a meminfo text fit in `u64`, so that it can be parsed.
pub fn meminfo_in_range(content: &str) -> (r: bool)
    ensures
        r == meminfo_fits(lines(content@)),
{
    let text = chars_of(content);
    let ls = chars_lines(&text);
    let ghost lv = views(ls@);
    let mut i: usize = 0;
    proof {
        assert(lv.take(0) =~= Seq::<Seq<char>>::empty());
    }
    while i < ls.len()
        invariant
            lv == views(ls@),
            lv == lines(content@),
            i <= ls@.len(),
            meminfo_fits(lv.take(i as int)),
            meminfo_scan(lv.take(i as int)) is Ok,
        decreases ls@.len() - i,
    {
        let ghost prefix = lv.take(i + 1);
        proof {
            assert(prefix.drop_last() =~= lv.take(i as int));
            assert(prefix.last() == ls@[i as int]@);
        }
        match meminfo_line_exec(&ls[i]) {
            None => {},
            Some(Err(_)) => {
                proof {
                    lemma_fits_after_error(lv, i + 1);
                }
                return true;
            },
            Some(Ok((_, v))) => {
                if v > u64::MAX / 1024 {
                    proof {
                        lemma_unfits_extend(lv, i + 1);
                    }
                    return false;
                }
            },
        }
        i = i + 1;
    }
    proof {
        assert(lv.take(ls@.len() as int) =~= lv);
    }
    true
}

proof fn lemma_unfits_extend(ls: Seq<Seq<char>>, i: int)
    requires
        0 < i <= ls.len(),
        !meminfo_fits(ls.take(i)),
    ensures
        !meminfo_fits(ls),
    decreases ls.len() - i,
{
    if i < ls.len() {
        let p = ls.take(i + 1);
        assert(p.drop_last() =~= ls.take(i));
        lemma_unfits_extend(ls, i + 1);
    } else {
        assert(ls.take(i) =~= ls);
    }
}

/// What parsing `df -k <mount>` output gives: the second line's 1024-blocks and
/// Available fields, converted to bytes.
pub open spec fn spec_parse_df(out: Seq<char>) -> Result<(nat, nat), Seq<char>> {
    let ls = lines(out);
    if ls.len() == 0 {
        Err("Empty df output"@)
    } else if ls.len() < 2 {
        Err("Missing data line in df output"@)
    } else {
        let parts = words(ls[1]);
        if parts.len() < 4 {
            Err("Malformed df output line: "@ + ls[1])
        } else {
            match parse_unsigned(parts[1], u64::MAX as nat) {
                Err(k) => Err(int_error_message(k)),
                Ok(total) => match parse_unsigned(parts[3], u64::MAX as nat) {
                    Err(k) => Err(int_error_message(k)),
                    Ok(avail) => Ok((total * 1024, avail * 1024)),
                },
            }
        }
    }
}

/// The byte counts of a successful parse fit in `u64`.
pub open spec fn df_fits(out: Seq<char>) -> bool {
    let ls = lines(out);
    ls.len() >= 2 && words(ls[1]).len() >= 4 ==> match (
        parse_unsigned(words(ls[1])[1], u64::MAX as nat),
        parse_unsigned(words(ls[1])[3], u64::MAX as nat),
    ) {
        (Ok(t), Ok(a)) => t * 1024 <= u64::MAX && a * 1024 <= u64::MAX,
        _ => true,
    }
}

/// Parses the standard output of `df -k <mount_point>`.
pub fn parse_df_output(output: &str) -> (r: Result<DiskInfo, String>)
    requires
        df_fits(output@),
    ensures
        match (r, spec_parse_df(output@)) {
            (Ok(d), Ok((t, a))) => d.total_bytes == t && d.available_bytes == a,
            (Err(e), Err(msg)) => e@ == msg,
            _ => false,
        },
{
    let text = chars_of(output);
    let ls = chars_lines(&text);
    proof {
        assert(views(ls@).len() == ls@.len());
    }
    if ls.len() == 0 {
        return Err(String::from_str("Empty df output"));
    }
    if ls.len() < 2 {
        return Err(String::from_str("Missing data line in df output"));
    }
    proof {
        assert(views(ls@)[1] == ls@[1]@);
    }
    let parts = chars_words(&ls[1]);
    proof {
        assert(views(parts@).len() == parts@.len());
    }
    if parts.len() < 4 {
        let mut msg = chars_of("Malformed df output line: ");
        extend_chars(&mut msg, &ls[1]);
        return Err(string_of(&msg));
    }
    proof {
        assert(views(parts@)[1] == parts@[1]@);
        assert(views(parts@)[3] == parts@[3]@);
    }
    let total_kb = match parse_unsigned_chars(&parts[1], u64::MAX) {
        Ok(v) => v,
        Err(k) => {
            return Err(int_error_string(k));
        },
    };
    let available_kb = match parse_unsigned_chars(&parts[3], u64::MAX) {
        Ok(v) => v,
        Err(k) => {
            return Err(int_error_string(k));
        },
    };
    Ok(DiskInfo { total_bytes: total_kb * 1024, available_bytes: available_kb * 1024 })
}

/// Whether the byte counts of `df -k` output fit in `u64`, so that it can be parsed.
pub fn df_in_range(output: &str) -> (r: bool)
    ensures
        r == df_fits(output@),
{
    let text = chars_of(output);
    let ls = chars_lines(&text);
    proof {
        assert(views(ls@).len() == ls@.len());
    }
    if ls.len() < 2 {
        return true;
    }
    proof {
        assert(views(ls@)[1] == ls@[1]@);
    }
    let parts = chars_words(&ls[1]);
    proof {
        assert(views(parts@).len() == parts@.len());
    }
    if parts.len() < 4 {
        return true;
    }
    proof {
        assert(views(parts@)[1] == parts@[1]@);
        assert(views(parts@)[3] == parts@[3]@);
    }
    match (parse_unsigned_chars(&parts[1], u64::MAX), parse_unsigned_chars(&parts[3], u64::MAX)) {
        (Ok(t), Ok(a)) => t <= u64::MAX / 1024 && a <= u64::MAX / 1024,
        _ => true,
    }
}

} // verus!
