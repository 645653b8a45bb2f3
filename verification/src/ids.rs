//! Identifiers that travel through the protocol.

use vstd::prelude::*;
use vstd::utf8::*;

verus! {

/// One logical byte-stream multiplexed on a control connection.
#[derive(Clone, Copy, Debug, PartialEq, Eq, Structural, Hash)]
pub struct StreamId(pub u64);

/// The identity that the server assigns to one tunnel session.
#[derive(Clone, Debug, PartialEq, Eq, Hash)]
pub struct ClientId(pub String);

impl View for ClientId {
    type V = Seq<char>;

    open spec fn view(&self) -> Seq<char> {
        self.0@
    }
}

/// An opaque, signed credential with which a client resumes its session.
#[derive(Clone, Debug, PartialEq, Eq)]
pub struct ReconnectToken(pub String);

impl View for ReconnectToken {
    type V = Seq<char>;

    open spec fn view(&self) -> Seq<char> {
        self.0@
    }
}

impl ClientId {
    /// Whether two identities are the same text.
    pub fn same(&self, other: &ClientId) -> (r: bool)
        ensures
            r == (self@ == other@),
    {
        self.0 == other.0
    }
}

/// The longest sub-domain, in bytes.
pub const MAX_SUB_DOMAIN_LEN: usize = 63;

/// Whether a byte may stand in a sub-domain: a lower-case letter, a digit or
/// a hyphen.
pub open spec fn label_byte(b: u8) -> bool {
    (0x61 <= b && b <= 0x7a) || (0x30 <= b && b <= 0x39) || b == 0x2d
}

/// Whether the bytes are one DNS label: 1 to 63 letters, digits and hyphens,
/// with no hyphen at either end.
pub open spec fn dns_label(bytes: Seq<u8>) -> bool {
    &&& 1 <= bytes.len() <= MAX_SUB_DOMAIN_LEN
    &&& forall|i: int| 0 <= i < bytes.len() ==> label_byte(#[trigger] bytes[i])
    &&& bytes[0] != 0x2d
    &&& bytes[bytes.len() - 1] != 0x2d
}

/// Whether a name can be a sub-domain: its UTF-8 bytes are one DNS label.
pub open spec fn valid_sub_domain(name: Seq<char>) -> bool {
    dns_label(encode_utf8(name))
}

/// Whether `name` can be a sub-domain.
pub fn is_valid_sub_domain(name: &str) -> (r: bool)
    ensures
        r == valid_sub_domain(name@),
{
    let bytes = name.as_bytes();
    let n = bytes.len();
    if n < 1 || n > MAX_SUB_DOMAIN_LEN {
        return false;
    }
    if bytes[0] == 0x2d || bytes[n - 1] == 0x2d {
        return false;
    }
    let mut i: usize = 0;
    while i < n
        invariant
            i <= n,
            n == bytes@.len(),
            bytes@ == encode_utf8(name@),
            bytes@[0] != 0x2d,
            bytes@[n - 1] != 0x2d,
            1 <= n <= MAX_SUB_DOMAIN_LEN,
            forall|j: int| 0 <= j < i ==> label_byte(#[trigger] bytes@[j]),
        decreases n - i,
    {
        let b: u8 = bytes[i];
        let ok = (0x61 <= b && b <= 0x7a) || (0x30 <= b && b <= 0x39) || b == 0x2d;
        if !ok {
            return false;
        }
        i += 1;
    }
    true
}

} // verus!
