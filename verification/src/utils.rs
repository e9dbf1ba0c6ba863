//! Small shared helpers.

use vstd::prelude::*;
use vstd::string::StrSliceExecFns;

verus! {

/// The pskey hash of a prefix of the text: start at 5381, and for each
/// character multiply by 33 and add the character's code, modulo 2^32.
pub open spec fn pskey_hash(s: Seq<char>) -> int
    decreases s.len(),
{
    if s.len() == 0 {
        5381
    } else {
        (pskey_hash(s.drop_last()) * 33 + s.last() as int) % 0x1_0000_0000
    }
}

/// The pskey of a string: its hash with the top bit cleared.
pub open spec fn pskey_spec(s: Seq<char>) -> int {
    pskey_hash(s) % 0x8000_0000
}

/// Computes the pskey of a string.
pub fn calculate_pskey(skey: &str) -> (r: u32)
    ensures
        r as int == pskey_spec(skey@),
{
    let n = skey.unicode_len();
    let mut hash: u64 = 5381;
    let mut i: usize = 0;
    proof {
        assert(skey@.take(0) =~= Seq::<char>::empty());
    }
    while i < n
        invariant
            i <= n,
            n == skey@.len(),
            hash < 0x1_0000_0000,
            hash as int == pskey_hash(skey@.take(i as int)),
        decreases n - i,
    {
        let c = skey.get_char(i);
        let code: u64 = c as u64;
        hash = (hash * 33 + code) % 0x1_0000_0000;
        proof {
            assert(skey@.take(i as int + 1).drop_last() =~= skey@.take(i as int));
            assert(skey@.take(i as int + 1).last() == skey@[i as int]);
        }
        i += 1;
    }
    proof {
        assert(skey@.take(n as int) =~= skey@);
    }
    (hash % 0x8000_0000) as u32
}

} // verus!
