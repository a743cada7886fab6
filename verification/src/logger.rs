//! What the logger prints for a record.

use vstd::prelude::*;
use vstd::string::StringExecFns;
use vstd::utf8::encode_utf8;

verus! {

/// Whether `needle` stands in `hay` from the index `at` on.
pub open spec fn occurs_at(needle: Seq<u8>, hay: Seq<u8>, at: int) -> bool {
    0 <= at <= hay.len() - needle.len() && hay.subrange(at, at + needle.len()) == needle
}

/// Whether `needle` stands somewhere in `hay`.
pub open spec fn occurs_in(needle: Seq<u8>, hay: Seq<u8>) -> bool {
    exists|at: int| occurs_at(needle, hay, at)
}

/// Whether `needle` stands in `hay` from the index `at` on.
fn stands_at(needle: &[u8], hay: &[u8], at: usize) -> (found: bool)
    requires
        at + needle.len() <= hay.len(),
    ensures
        found == occurs_at(needle@, hay@, at as int),
{
    let mut i: usize = 0;
    while i < needle.len()
        invariant
            i <= needle.len(),
            at + needle.len() <= hay.len(),
            forall|k: int| 0 <= k < i ==> hay[at + k] == needle[k],
        decreases needle.len() - i,
    {
        if hay[at + i] != needle[i] {
            assert(hay@.subrange(at as int, at + needle.len())[i as int] != needle[i as int]);
            return false;
        }
        i += 1;
    }
    assert(hay@.subrange(at as int, at + needle.len()) =~= needle@);
    true
}

/// Whether `needle` stands somewhere in `hay`.
pub fn contains_bytes(needle: &[u8], hay: &[u8]) -> (found: bool)
    ensures
        found == occurs_in(needle@, hay@),
{
    if needle.len() > hay.len() {
        return false;
    }
    let last: usize = hay.len() - needle.len();
    let mut at: usize = 0;
    loop
        invariant
            at <= last,
            last == hay.len() - needle.len(),
            forall|k: int| 0 <= k < at ==> !occurs_at(needle@, hay@, k),
        decreases last - at,
    {
        if stands_at(needle, hay, at) {
            return true;
        }
        if at == last {
            return false;
        }
        at += 1;
    }
}

/// The logger: it lets every record through and prints each with the module
/// it came from, but for the modules of the web framework `warp`.
pub struct Logger;

impl Logger {
    /// Whether a record from `module` is printed: it has a module path, and
    /// the bytes of `warp` stand nowhere in the bytes of that path.
    pub open spec fn prints(module: Option<&str>) -> bool {
        match module {
            Some(path) => !occurs_in(encode_utf8("warp"@), encode_utf8(path@)),
            None => false,
        }
    }

    /// The line that is printed for a record.
    pub open spec fn line_of(module: Seq<char>, contents: Seq<char>) -> Seq<char> {
        "["@ + module + "] - "@ + contents
    }

    /// Whether records are taken at all: always.
    pub fn enabled(&self) -> (yes: bool)
        ensures
            yes,
    {
        true
    }

    /// The line to print for a record from `module` with the text
    /// `contents`, if it is to be printed.
    pub fn line(&self, module: Option<&str>, contents: &str) -> (printed: Option<String>)
        ensures
            printed is Some <==> Self::prints(module),
            printed matches Some(text) ==> module matches Some(path) && text@ == Self::line_of(
                path@,
                contents@,
            ),
    {
        match module {
            Some(module) => {
                if contains_bytes("warp".as_bytes(), module.as_bytes()) {
                    None
                } else {
                    let msg = "[".to_owned().concat(module).concat("] - ").concat(contents);
                    Some(msg)
                }
            },
            None => None,
        }
    }
}

} // verus!
