//! What the build-driving glue computes, apart from its process I/O: the
//! artifact description and the JSON string unescaping applied to paths
//! in the build tool's message stream.

use vstd::prelude::*;
use vstd::string::StringSliceAdditionalSpecFns;
use vstd::utf8::{encode_utf8, valid_utf8};

use crate::utils::str_to_bytes;

verus! {

/// A freshly built benchmark executable and the library paths its run
/// needs.
#[derive(Debug)]
pub struct CompiledExecutable {
    /// Path of the executable.
    pub path: String,
    /// Native library search paths reported by the build.
    pub library_paths: Vec<String>,
}

/// One unescaped JSON string character, as bytes: what a backslash
/// followed by `b2` stands for, or `None` where `b2` closes no escape the
/// format knows (a unicode escape is not supported here).
pub open spec fn spec_json_escape(b2: u8) -> Option<u8> {
    if b2 == 0x5c {  // backslash
        Some(0x5cu8)
    } else if b2 == 0x22 {  // quote
        Some(0x22u8)
    } else if b2 == 0x2f {  // slash
        Some(0x2fu8)
    } else if b2 == 0x62 {  // b
        Some(0x08u8)
    } else if b2 == 0x66 {  // f
        Some(0x0cu8)
    } else if b2 == 0x6e {  // n
        Some(0x0au8)
    } else if b2 == 0x72 {  // r
        Some(0x0du8)
    } else if b2 == 0x74 {  // t
        Some(0x09u8)
    } else {
        None
    }
}

/// The bytes a JSON-escaped byte string stands for, or `None` where an
/// escape is incomplete or unrecognized.
pub open spec fn spec_json_unescape(s: Seq<u8>) -> Option<Seq<u8>>
    decreases s.len(),
{
    if s.len() == 0 {
        Some(Seq::empty())
    } else if s[0] == 0x5c {
        if s.len() == 1 {
            None
        } else {
            match spec_json_escape(s[1]) {
                Some(b) => {
                    match spec_json_unescape(s.skip(2)) {
                        Some(t) => Some(seq![b] + t),
                        None => None,
                    }
                },
                None => None,
            }
        }
    } else {
        match spec_json_unescape(s.drop_first()) {
            Some(t) => Some(seq![s[0]] + t),
            None => None,
        }
    }
}

/// Prefixes already-unescaped bytes, keeping a failure a failure.
spec fn spec_prepend_bytes(pre: Seq<u8>, o: Option<Seq<u8>>) -> Option<Seq<u8>> {
    match o {
        Some(t) => Some(pre + t),
        None => None,
    }
}

proof fn lemma_prepend_bytes_assoc(a: Seq<u8>, b: Seq<u8>, o: Option<Seq<u8>>)
    ensures
        spec_prepend_bytes(a, spec_prepend_bytes(b, o)) == spec_prepend_bytes(a + b, o),
{
    match o {
        Some(t) => {
            assert(a + (b + t) =~= (a + b) + t);
        },
        None => {},
    }
}

/// Relies on `String::from_utf8`: returns the string holding exactly the
/// given bytes when they are valid UTF-8, and an error otherwise.
#[verifier::external_body]
pub(crate) fn bytes_to_string(b: Vec<u8>) -> (r: Option<String>)
    ensures
        match r {
            Some(s) => encode_utf8(s@) == b@,
            None => !valid_utf8(b@),
        },
{
    String::from_utf8(b).ok()
}

/// Unescapes a JSON string fragment (the text between the quotes).
/// `None` exactly where an escape is incomplete or names no known
/// substitute — a unicode escape among them — or the unescaped bytes are
/// not a string.
pub fn json_unescape(x: &str) -> (r: Option<String>)
    ensures
        match spec_json_unescape(x.spec_bytes()) {
            Some(b) => {
                match r {
                    Some(s) => encode_utf8(s@) == b,
                    None => !valid_utf8(b),
                }
            },
            None => r is None,
        },
{
    let bytes = str_to_bytes(x);
    let mut out: Vec<u8> = Vec::new();
    let mut i: usize = 0;
    proof {
        assert(bytes@.skip(0) =~= bytes@);
        assert(Seq::<u8>::empty() + bytes@ =~= bytes@);
    }
    while i < bytes.len()
        invariant
            i <= bytes@.len(),
            bytes@ == x.spec_bytes(),
            spec_json_unescape(bytes@) == spec_prepend_bytes(
                out@,
                spec_json_unescape(bytes@.skip(i as int)),
            ),
        decreases bytes@.len() - i,
    {
        let ghost pre = bytes@.skip(i as int);
        let ghost out0 = out@;
        let b = bytes[i];
        assert(pre[0] == bytes@[i as int]);
        if b == 0x5c {
            if i + 1 >= bytes.len() {
                return None;
            }
            let b2 = bytes[i + 1];
            assert(pre.len() >= 2 && pre[1] == bytes@[i + 1]);
            let decoded: u8 = if b2 == 0x5c {
                0x5c
            } else if b2 == 0x22 {
                0x22
            } else if b2 == 0x2f {
                0x2f
            } else if b2 == 0x62 {
                0x08
            } else if b2 == 0x66 {
                0x0c
            } else if b2 == 0x6e {
                0x0a
            } else if b2 == 0x72 {
                0x0d
            } else if b2 == 0x74 {
                0x09
            } else {
                return None;
            };
            out.push(decoded);
            proof {
                assert(pre.skip(2) =~= bytes@.skip(i + 2));
                assert(spec_json_unescape(pre) == spec_prepend_bytes(
                    seq![decoded],
                    spec_json_unescape(bytes@.skip(i + 2)),
                ));
                lemma_prepend_bytes_assoc(
                    out0,
                    seq![decoded],
                    spec_json_unescape(bytes@.skip(i + 2)),
                );
                assert(out0 + seq![decoded] =~= out@);
            }
            i = i + 2;
        } else {
            out.push(b);
            proof {
                assert(pre.drop_first() =~= bytes@.skip(i + 1));
                assert(spec_json_unescape(pre) == spec_prepend_bytes(
                    seq![b],
                    spec_json_unescape(bytes@.skip(i + 1)),
                ));
                lemma_prepend_bytes_assoc(out0, seq![b], spec_json_unescape(bytes@.skip(i + 1)));
                assert(out0 + seq![b] =~= out@);
            }
            i = i + 1;
        }
    }
    proof {
        assert(bytes@.skip(bytes@.len() as int) =~= Seq::<u8>::empty());
        assert(out@ + Seq::<u8>::empty() =~= out@);
    }
    bytes_to_string(out)
}

} // verus!
