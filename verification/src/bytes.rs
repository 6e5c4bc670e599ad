use vstd::prelude::*;
use vstd::utf8::*;

verus! {

/// Joins two byte strings into a new vector.
pub fn concat_bytes(head: &[u8], tail: &[u8]) -> (joined: Vec<u8>)
    ensures
        joined@ == head@ + tail@,
{
    let mut joined: Vec<u8> = Vec::new();
    let mut i: usize = 0;
    while i < head.len()
        invariant
            i <= head@.len(),
            joined@ == head@.subrange(0, i as int),
        decreases head@.len() - i,
    {
        joined.push(head[i]);
        i += 1;
        assert(joined@ =~= head@.subrange(0, i as int));
    }
    assert(joined@ =~= head@);
    let mut j: usize = 0;
    while j < tail.len()
        invariant
            j <= tail@.len(),
            joined@ == head@ + tail@.subrange(0, j as int),
        decreases tail@.len() - j,
    {
        joined.push(tail[j]);
        j += 1;
        assert(joined@ =~= head@ + tail@.subrange(0, j as int));
    }
    assert(joined@ =~= head@ + tail@);
    joined
}

/// Calls `String::from_utf8`.
///
/// Trusted: the call succeeds exactly on valid UTF-8 and then returns the
/// decoded text.
#[verifier::external_body]
pub(crate) fn string_from_utf8(bytes: Vec<u8>) -> (res: Result<String, std::string::FromUtf8Error>)
    ensures
        res is Ok <==> valid_utf8(bytes@),
        match res {
            Ok(text) => text@ == decode_utf8(bytes@),
            Err(_) => true,
        },
{
    String::from_utf8(bytes)
}

} // verus!
