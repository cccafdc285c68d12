//! The inscription oracle: where to ask about an output, and how to read the
//! answer.

use vstd::prelude::*;
use vstd::string::StringExecFns;
use crate::ledger::OutPoint;
use crate::wire::{outpoint_from_text, outpoint_text, outpoint_of_text, outpoint_to_text};

verus! {

/// The ASCII bytes of the word `inscription`, which the oracle's page shows
/// for an output that holds one.
pub open spec fn marker() -> Seq<u8> {
    seq![0x69u8, 0x6eu8, 0x73u8, 0x63u8, 0x72u8, 0x69u8, 0x70u8, 0x74u8, 0x69u8, 0x6fu8, 0x6eu8]
}

/// `needle` occurs in `hay` at `at`.
pub open spec fn occurs_at(hay: Seq<u8>, needle: Seq<u8>, at: int) -> bool {
    &&& 0 <= at
    &&& at + needle.len() <= hay.len()
    &&& hay.subrange(at, at + needle.len()) == needle
}

/// `needle` occurs somewhere in `hay`.
pub open spec fn occurs(hay: Seq<u8>, needle: Seq<u8>) -> bool {
    exists|at: int| occurs_at(hay, needle, at)
}

/// Tells whether `needle` occurs in `hay` at `at`.
fn matches_at(hay: &[u8], needle: &[u8], at: usize) -> (found: bool)
    requires
        at + needle@.len() <= hay@.len(),
    ensures
        found == occurs_at(hay@, needle@, at as int),
{
    let size: usize = hay.len();
    let mut k: usize = 0;
    while k < needle.len()
        invariant
            k <= needle@.len(),
            size == hay@.len(),
            at + needle@.len() <= size,
            forall|j: int| 0 <= j < k ==> hay@[at + j] == needle@[j],
        decreases needle@.len() - k,
    {
        if hay[at + k] != needle[k] {
            proof {
                assert(hay@.subrange(at as int, at + needle@.len())[k as int] == hay@[at + k]);
            }
            return false;
        }
        k += 1;
    }
    proof {
        assert(hay@.subrange(at as int, at + needle@.len()) =~= needle@);
    }
    true
}

/// Tells whether `needle` occurs in `hay`.
pub fn contains_bytes(hay: &[u8], needle: &[u8]) -> (found: bool)
    ensures
        found == occurs(hay@, needle@),
{
    if needle.len() > hay.len() {
        return false;
    }
    let last: usize = hay.len() - needle.len();
    let mut at: usize = 0;
    loop
        invariant
            last == hay@.len() - needle@.len(),
            at <= last,
            forall|j: int| 0 <= j < at ==> !occurs_at(hay@, needle@, j),
        decreases last - at,
    {
        if matches_at(hay, needle, at) {
            return true;
        }
        if at == last {
            return false;
        }
        at += 1;
    }
}

/// The word `inscription` occurs in the UTF-8 bytes of `body`.
pub open spec fn holds_word(body: Seq<char>) -> bool {
    occurs(vstd::utf8::encode_utf8(body), marker())
}

/// Reads the oracle's answer: the output holds an inscription exactly when
/// the word `inscription` occurs in the body, byte for byte.
pub fn indicates_inscription(body: &str) -> (holds: bool)
    ensures
        holds == holds_word(body@),
{
    let word: Vec<u8> = vec![
        0x69u8,
        0x6eu8,
        0x73u8,
        0x63u8,
        0x72u8,
        0x69u8,
        0x70u8,
        0x74u8,
        0x69u8,
        0x6fu8,
        0x6eu8,
    ];
    proof {
        assert(word@ =~= marker());
    }
    contains_bytes(body.as_bytes(), word.as_slice())
}

/// The address under which the oracle answers for an output: the base
/// address, the path `output/`, and the output reference as text.
pub open spec fn oracle_url_spec(base: Seq<char>, outpoint: OutPoint) -> Seq<char> {
    base + "output/"@ + outpoint_text(outpoint.txid@, outpoint.vout)
}

/// Builds the address to ask the oracle about `outpoint`.
pub fn oracle_url(base: &str, outpoint: &OutPoint) -> (url: String)
    ensures
        url@ == oracle_url_spec(base@, *outpoint),
{
    let reference = outpoint_to_text(outpoint);
    base.to_owned().concat("output/").concat(reference.as_str())
}

/// Why a text is no output reference.
#[derive(Clone, Copy, Debug, PartialEq, Eq)]
pub enum ReferenceError {
    /// The text is not a transaction id, a colon and an output index.
    Malformed,
}

/// Reads an output reference written as transaction id, colon, output index.
pub fn parse_outpoint(text: &str) -> (parsed: Result<OutPoint, ReferenceError>)
    ensures
        match parsed {
            Ok(outpoint) => outpoint_of_text(text@) == Some((outpoint.txid@, outpoint.vout)),
            Err(_) => outpoint_of_text(text@) is None,
        },
{
    match outpoint_from_text(text) {
        Ok(outpoint) => Ok(outpoint),
        Err(_) => Err(ReferenceError::Malformed),
    }
}

} // verus!
