//! One unit of work: the text a request body carries, forwarded verbatim.

use vstd::prelude::*;
use crate::utf8::is_valid_utf8;
use crate::utf8::validate_utf8;

verus! {

/// One command for the child process: the raw bytes of an accepted request
/// body. The bytes are known to be valid UTF-8 and are written to the
/// child's input stream unmodified — no delimiter is appended, so a caller
/// that wants a trailing newline must include it in the body.
pub struct Command {
    text: Vec<u8>,
}

impl View for Command {
    type V = Seq<u8>;

    closed spec fn view(&self) -> Seq<u8> {
        self.text@
    }
}

impl Command {
    /// A command is well formed when its bytes are valid UTF-8 text.
    pub open spec fn wf(self) -> bool {
        is_valid_utf8(self@)
    }

    /// Decode a request body: a command exactly when the bytes are valid
    /// UTF-8, holding those bytes unchanged.
    pub fn from_bytes(bytes: Vec<u8>) -> (r: Option<Command>)
        ensures
            match r {
                Some(c) => is_valid_utf8(bytes@) && c@ == bytes@,
                None => !is_valid_utf8(bytes@),
            },
    {
        if validate_utf8(&bytes) {
            Some(Command { text: bytes })
        } else {
            None
        }
    }

    /// The bytes to write, unmodified, to the child's input stream.
    pub fn bytes(&self) -> (r: &Vec<u8>)
        ensures
            r@ == self@,
    {
        &self.text
    }
}

} // verus!
