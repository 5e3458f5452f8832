//! The input stabilizer: the raw puzzle input, taken over once before any
//! timing begins and handed to the hot loop as a read-only borrow.

use vstd::prelude::*;

verus! {

use vstd::string::StringSliceAdditionalSpecFns;

/// Every byte is ASCII.
pub open spec fn ascii_bytes(s: Seq<u8>) -> bool {
    forall|i: int| 0 <= i < s.len() ==> #[trigger] s[i] < 128
}

/// The input buffer, owned by the harness for the whole run; the hot loop
/// borrows it and never allocates.
pub struct StableInput {
    bytes: Vec<u8>,
}

impl View for StableInput {
    type V = Seq<u8>;

    closed spec fn view(&self) -> Seq<u8> {
        self.bytes@
    }
}

/// Take ownership of the raw input buffer, before any timing begins.
pub fn stabilize(bytes: Vec<u8>) -> (s: StableInput)
    ensures
        s@ == bytes@,
{
    StableInput { bytes }
}

/// Relies on std::str::from_utf8: ASCII bytes are valid UTF-8, and the
/// resulting text borrows exactly the given bytes.
#[verifier::external_body]
fn bytes_as_text(b: &[u8]) -> (r: Option<&str>)
    ensures
        ascii_bytes(b@) ==> r is Some,
        (match r {
            Some(t) => t.spec_bytes() == b@,
            None => true,
        }),
{
    std::str::from_utf8(b).ok()
}

impl StableInput {
    /// The raw bytes, borrowed for a call.
    pub fn as_bytes(&self) -> (b: &[u8])
        ensures
            b@ == self@,
    {
        self.bytes.as_slice()
    }

    /// Whether the input is plain ASCII text.
    #[verifier::loop_isolation(false)]
    pub fn is_ascii_text(&self) -> (r: bool)
        ensures
            r == ascii_bytes(self@),
    {
        let mut i: usize = 0;
        while i < self.bytes.len()
            invariant
                i <= self@.len(),
                forall|j: int| 0 <= j < i ==> #[trigger] self@[j] < 128,
            decreases self@.len() - i,
        {
            if self.bytes[i] >= 128 {
                return false;
            }
            i += 1;
        }
        true
    }

    /// The input viewed as text, owed whenever the bytes are ASCII; the
    /// check runs once at startup, never inside the timed loop.
    pub fn as_text(&self) -> (r: Option<&str>)
        ensures
            ascii_bytes(self@) ==> r is Some,
            (match r {
                Some(t) => t.spec_bytes() == self@,
                None => true,
            }),
    {
        bytes_as_text(self.bytes.as_slice())
    }
}

} // verus!
