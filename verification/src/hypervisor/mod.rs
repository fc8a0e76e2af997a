//! Hypervisor process management: launch commands, PID files, and QMP.
use vstd::prelude::*;

use crate::text::{
    chars_of, chars_replace, chars_trim, extend_str, int_error_message, int_error_string,
    parse_unsigned, parse_unsigned_chars, replace_all, string_of, trim,
};

pub mod firecracker;
pub mod qemu;

verus! {

/// The path with every occurrence of `from` replaced by `to` (`str::replace`).
pub fn replace_in(path: &str, from: &str, to: &str) -> (r: String)
    requires
        from@.len() > 0,
    ensures
        r@ == replace_all(path@, from@, to@),
{
    let p = chars_of(path);
    let f = chars_of(from);
    let t = chars_of(to);
    let out = chars_replace(&p, &f, &t);
    string_of(&out)
}

/// What reading the PID file tells `query_status`: no file or a blank file means
/// stopped (`None`), else the PID, or why it does not parse.
pub open spec fn spec_status_pid(content: Option<Seq<char>>) -> Result<Option<u32>, Seq<char>> {
    match content {
        None => Ok(None),
        Some(c) => if trim(c).len() == 0 {
            Ok(None)
        } else {
            match parse_unsigned(trim(c), u32::MAX as nat) {
                Err(k) => Err("Failed to parse PID: "@ + int_error_message(k)),
                Ok(v) => Ok(Some(v as u32)),
            }
        },
    }
}

/// Interprets the PID file content (`None` when there is no file) for a status query.
pub fn pid_for_status(content: Option<&str>) -> (r: Result<Option<u32>, String>)
    ensures
        match (r, spec_status_pid(match content {
            Some(c) => Some(c@),
            None => None,
        })) {
            (Ok(a), Ok(b)) => a == b,
            (Err(e), Err(msg)) => e@ == msg,
            _ => false,
        },
{
    match content {
        None => Ok(None),
        Some(c) => {
            let cv = chars_of(c);
            let t = chars_trim(&cv);
            if t.len() == 0 {
                return Ok(None);
            }
            match parse_unsigned_chars(&t, 4294967295u64) {
                Ok(v) => Ok(Some(v as u32)),
                Err(k) => {
                    let mut msg = chars_of("Failed to parse PID: ");
                    let ks = int_error_string(k);
                    extend_str(&mut msg, ks.as_str());
                    Err(string_of(&msg))
                },
            }
        },
    }
}

/// What reading the PID file tells `stop`: the PID, or why it does not parse.
pub open spec fn spec_stop_pid(content: Seq<char>) -> Result<u32, Seq<char>> {
    match parse_unsigned(trim(content), u32::MAX as nat) {
        Err(k) => Err("Failed to parse PID '"@ + content + "': "@ + int_error_message(k)),
        Ok(v) => Ok(v as u32),
    }
}

/// Interprets the PID file content for stopping the process.
pub fn pid_for_stop(content: &str) -> (r: Result<u32, String>)
    ensures
        match (r, spec_stop_pid(content@)) {
            (Ok(a), Ok(b)) => a == b,
            (Err(e), Err(msg)) => e@ == msg,
            _ => false,
        },
{
    let cv = chars_of(content);
    let t = chars_trim(&cv);
    match parse_unsigned_chars(&t, 4294967295u64) {
        Ok(v) => Ok(v as u32),
        Err(k) => {
            let mut msg = chars_of("Failed to parse PID '");
            extend_str(&mut msg, content);
            extend_str(&mut msg, "': ");
            let ks = int_error_string(k);
            extend_str(&mut msg, ks.as_str());
            Err(string_of(&msg))
        },
    }
}

} // verus!
