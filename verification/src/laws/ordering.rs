//! Names are ordered as bytes and characters are, symbol by symbol.
use crate::digest::{digest_of, hex_of, sha256};
use crate::sorting::{lemma_precedes_at, lemma_precedes_one_way, precedes};
use vstd::prelude::*;

verus! {

/// Of two byte strings that agree up to a place, the one with the lower byte there comes first, and
/// one that goes on comes after one that ends.
pub proof fn bytes_are_ordered_by_value(
    shared: Seq<u8>,
    a: u8,
    x: Seq<u8>,
    b: u8,
    y: Seq<u8>,
)
    requires
        a < b,
    ensures
        precedes(shared + seq![a] + x, shared + seq![b] + y),
        !precedes(shared + seq![b] + y, shared + seq![a] + x),
        precedes(shared, shared + seq![a] + x),
        !precedes(shared + seq![a] + x, shared),
{
    let p = shared + seq![a] + x;
    let q = shared + seq![b] + y;
    let n = shared.len() as int;
    lemma_precedes_at(p, q, n);
    lemma_precedes_at(shared, p, n);
    lemma_precedes_one_way(p, q);
    lemma_precedes_one_way(shared, p);
}

/// Of two texts that agree up to a place, the one with the lower code point there comes first, and
/// one that goes on comes after one that ends.
pub proof fn texts_are_ordered_by_code_point(
    shared: Seq<char>,
    a: char,
    x: Seq<char>,
    b: char,
    y: Seq<char>,
)
    requires
        a < b,
    ensures
        precedes(shared + seq![a] + x, shared + seq![b] + y),
        !precedes(shared + seq![b] + y, shared + seq![a] + x),
        precedes(shared, shared + seq![a] + x),
        !precedes(shared + seq![a] + x, shared),
{
    let p = shared + seq![a] + x;
    let q = shared + seq![b] + y;
    let n = shared.len() as int;
    lemma_precedes_at(p, q, n);
    lemma_precedes_at(shared, p, n);
    lemma_precedes_one_way(p, q);
    lemma_precedes_one_way(shared, p);
}

/// The number that a hexadecimal digit in lower case stands for.
pub open spec fn hex_worth(c: char) -> int {
    if '0' <= c <= '9' {
        c as int - 48
    } else if 'a' <= c <= 'f' {
        c as int - 87
    } else {
        -1
    }
}

/// Each byte stands in two digits in lower case that are worth the byte, in the order of the bytes.
pub proof fn hexadecimal_is_worth_its_bytes(bytes: Seq<u8>, i: int)
    ensures
        hex_of(bytes).len() == 2 * bytes.len(),
        0 <= i < bytes.len() ==> {
            let high = hex_worth(hex_of(bytes)[2 * i]);
            let low = hex_worth(hex_of(bytes)[2 * i + 1]);
            0 <= high < 16 && 0 <= low < 16 && 16 * high + low == bytes[i]
        },
{
    if 0 <= i < bytes.len() {
        let b = bytes[i];
        assert((2 * i) / 2 == i && (2 * i) % 2 == 0);
        assert((2 * i + 1) / 2 == i && (2 * i + 1) % 2 == 1);
    }
}

/// The recorded digest of a file is the SHA-256 digest of all its bytes, in hexadecimal.
pub proof fn recorded_digest_is_of_all_bytes(bytes: Seq<u8>)
    ensures
        digest_of(bytes) == hex_of(sha256(bytes)),
{
}

} // verus!
