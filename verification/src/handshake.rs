//! The fixed response that every client is sent before the destination is
//! dialled.

use vstd::prelude::*;

verus! {

/// Length of the response in bytes.
pub const HANDSHAKE_LEN: usize = 67;

/// The response as text: a status line that announces a protocol switch
/// and a content length too large to ever be reached.
pub open spec fn handshake_text() -> Seq<char> {
    "HTTP/1.1 101 Switching Protocols\r\nContent-Length: 1048576000000\r\n\r\n"@
}

/// The response as it goes over the wire: one byte for each character.
pub open spec fn handshake_bytes() -> Seq<u8> {
    Seq::new(handshake_text().len(), |i: int| handshake_text()[i] as u8)
}

/// The bytes to write to a client right after it was admitted. They are
/// the same for every client, whatever it sent.
pub fn handshake_response() -> (bytes: Vec<u8>)
    ensures
        bytes@ == handshake_bytes(),
        bytes@.len() == HANDSHAKE_LEN,
        bytes@.subrange(0, 12) == seq![72u8, 84, 84, 80, 47, 49, 46, 49, 32, 49, 48, 49],
        bytes@.subrange(63, 67) == seq![13u8, 10, 13, 10],
{
    let text = "HTTP/1.1 101 Switching Protocols\r\nContent-Length: 1048576000000\r\n\r\n";
    proof {
        reveal_strlit("HTTP/1.1 101 Switching Protocols\r\nContent-Length: 1048576000000\r\n\r\n");
        assert(text.is_ascii());
        vstd::string::is_ascii_spec_bytes(text);
    }
    let bytes = text.as_bytes_vec();
    proof {
        assert(bytes@ =~= handshake_bytes());
        assert(bytes@.subrange(0, 12) =~= seq![72u8, 84, 84, 80, 47, 49, 46, 49, 32, 49, 48, 49]);
        assert(bytes@.subrange(63, 67) =~= seq![13u8, 10, 13, 10]);
    }
    bytes
}

} // verus!
