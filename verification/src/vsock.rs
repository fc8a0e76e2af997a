//! The host side of the Firecracker vsock multiplexer: the `CONNECT` handshake.
use vstd::prelude::*;

use crate::text::{chars_of, chars_starts_with, chars_trim, decimal, extend_chars, push_decimal, starts_with, string_of, trim};

verus! {

/// A connector that reaches guest ports through the multiplexer's Unix socket.
pub struct VsockConnector {
    /// Hostpath to the multiplexer Unix domain socket.
    pub socket_path: String,
}

impl VsockConnector {
    /// Creates a new instance of `VsockConnector`.
    pub fn new(socket_path: String) -> (c: Self)
        ensures
            c.socket_path == socket_path,
    {
        VsockConnector { socket_path }
    }

    /// The handshake line that asks for a guest port: `CONNECT <port>\n`.
    pub fn connect_request(&self, port: u32) -> (s: String)
        ensures
            s@ == "CONNECT "@ + decimal(port as nat) + seq!['\n'],
    {
        let mut v = chars_of("CONNECT ");
        push_decimal(&mut v, port as u64);
        v.push('\n');
        string_of(&v)
    }

    /// What the multiplexer's answer means: a line starting with `OK` opens the stream;
    /// any other is a rejection, reported with the line trimmed.
    pub fn handshake_outcome(&self, response: &str) -> (r: Result<(), String>)
        ensures
            starts_with(response@, "OK"@) ==> r is Ok,
            !starts_with(response@, "OK"@) ==> (r matches Err(e) && e@
                == "Handshake rejected by Firecracker multiplexer: "@ + trim(response@)),
    {
        let rv = chars_of(response);
        let ok = chars_of("OK");
        if chars_starts_with(&rv, &ok) {
            Ok(())
        } else {
            let mut m = chars_of("Handshake rejected by Firecracker multiplexer: ");
            let t = chars_trim(&rv);
            extend_chars(&mut m, &t);
            Err(string_of(&m))
        }
    }
}

} // verus!
