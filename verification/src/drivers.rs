use vstd::prelude::*;

use crate::text::str_matches;

verus! {

/// The driver that the network loop starts for a registered interface.
#[derive(Debug, PartialEq, Eq)]
pub enum DriverKind {
    /// Queue-backed Bluetooth LE driver.
    Ble,
    /// Queue-backed LoRa driver.
    LoRa,
    /// UDP multicast discovery driver.
    Auto,
    /// TCP client connecting to the given address.
    TcpClient(String),
    /// TCP server bound to the given address.
    TcpServer(String),
}

pub open spec fn ble_name() -> Seq<char> {
    seq!['b', 'l', 'e']
}

pub open spec fn lora_name() -> Seq<char> {
    seq!['l', 'o', 'r', 'a']
}

pub open spec fn auto_name() -> Seq<char> {
    seq!['a', 'u', 't', 'o']
}

pub open spec fn tcp_client_name() -> Seq<char> {
    seq!['t', 'c', 'p', '_', 'c', 'l', 'i', 'e', 'n', 't']
}

pub open spec fn tcp_server_name() -> Seq<char> {
    seq!['t', 'c', 'p', '_', 's', 'e', 'r', 'v', 'e', 'r']
}

/// The interface names that can be registered.
pub open spec fn known_interface(name: Seq<char>) -> bool {
    name == ble_name() || name == lora_name() || name == auto_name() || name == tcp_client_name()
        || name == tcp_server_name()
}

/// Whether an interface name is one that can be registered.
pub fn accepted_interface_name(name: &str) -> (b: bool)
    ensures
        b == known_interface(name@),
{
    str_matches(name, &['b', 'l', 'e']) || str_matches(name, &['l', 'o', 'r', 'a'])
        || str_matches(name, &['a', 'u', 't', 'o']) || str_matches(
        name,
        &['t', 'c', 'p', '_', 'c', 'l', 'i', 'e', 'n', 't'],
    ) || str_matches(name, &['t', 'c', 'p', '_', 's', 'e', 'r', 'v', 'e', 'r'])
}

/// The driver for an interface: by name; the TCP drivers only with an argument.
pub fn driver_for(name: &str, arg: &Option<String>) -> (k: Option<DriverKind>)
    ensures
        name@ == ble_name() ==> k == Some(DriverKind::Ble),
        name@ == lora_name() ==> k == Some(DriverKind::LoRa),
        name@ == auto_name() ==> k == Some(DriverKind::Auto),
        name@ == tcp_client_name() ==> match arg {
            Some(a) => k matches Some(DriverKind::TcpClient(t)) && t@ == a@,
            None => k is None,
        },
        name@ == tcp_server_name() ==> match arg {
            Some(a) => k matches Some(DriverKind::TcpServer(t)) && t@ == a@,
            None => k is None,
        },
        !known_interface(name@) ==> k is None,
{
    if str_matches(name, &['b', 'l', 'e']) {
        Some(DriverKind::Ble)
    } else if str_matches(name, &['l', 'o', 'r', 'a']) {
        Some(DriverKind::LoRa)
    } else if str_matches(name, &['a', 'u', 't', 'o']) {
        Some(DriverKind::Auto)
    } else if str_matches(name, &['t', 'c', 'p', '_', 'c', 'l', 'i', 'e', 'n', 't']) {
        match arg {
            Some(a) => Some(DriverKind::TcpClient(a.clone())),
            None => None,
        }
    } else if str_matches(name, &['t', 'c', 'p', '_', 's', 'e', 'r', 'v', 'e', 'r']) {
        match arg {
            Some(a) => Some(DriverKind::TcpServer(a.clone())),
            None => None,
        }
    } else {
        None
    }
}

/// What a caller's buffer receives of a frame taken from a queue.
pub enum CopyOut {
    /// The queue was empty: report length zero.
    Nothing,
    /// The frame fits: copy it and report its length.
    Copy(Vec<u8>),
    /// The frame does not fit the buffer.
    TooSmall,
}

/// Decides how a frame already taken from a queue is handed to a buffer of `buf_len` bytes;
/// a frame too large for it is not handed over.
pub fn copy_out(frame: Option<Vec<u8>>, buf_len: usize) -> (r: CopyOut)
    ensures
        frame is None ==> r is Nothing,
        frame matches Some(f) ==> {
            &&& f@.len() <= buf_len ==> (r matches CopyOut::Copy(c) && c@ == f@)
            &&& f@.len() > buf_len ==> r is TooSmall
        },
{
    match frame {
        None => CopyOut::Nothing,
        Some(bytes) => {
            if bytes.len() <= buf_len {
                CopyOut::Copy(bytes)
            } else {
                CopyOut::TooSmall
            }
        },
    }
}

} // verus!
