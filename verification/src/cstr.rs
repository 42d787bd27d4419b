//! Text as the engine takes it: bytes that end at the first zero byte.

use vstd::prelude::*;

verus! {

/// Whether one of the bytes is zero.
pub open spec fn has_nul(bytes: Seq<u8>) -> bool {
    exists|i: int| 0 <= i < bytes.len() && #[trigger] bytes[i] == 0
}

/// The bytes with the closing zero byte that the engine reads up to. Text
/// with a zero byte inside cannot be handed over whole and gives `None`.
pub fn nul_terminated(bytes: &[u8]) -> (out: Option<Vec<u8>>)
    ensures
        match out {
            Some(terminated) => !has_nul(bytes@) && terminated@ == bytes@.push(0),
            None => has_nul(bytes@),
        },
{
    let mut terminated: Vec<u8> = Vec::new();
    let mut i: usize = 0;
    while i < bytes.len()
        invariant
            i <= bytes.len(),
            terminated@ == bytes@.take(i as int),
            !has_nul(bytes@.take(i as int)),
        decreases bytes.len() - i,
    {
        let byte: u8 = bytes[i];
        if byte == 0 {
            assert(bytes@[i as int] == 0);
            return None;
        }
        terminated.push(byte);
        proof {
            let longer = bytes@.take(i + 1);
            assert(terminated@ =~= longer);
            if has_nul(longer) {
                let j = choose|j: int| 0 <= j < longer.len() && #[trigger] longer[j] == 0;
                assert(bytes@.take(i as int)[j] == 0);
            }
        }
        i = i + 1;
    }
    assert(bytes@.take(bytes.len() as int) =~= bytes@);
    terminated.push(0);
    Some(terminated)
}

} // verus!
