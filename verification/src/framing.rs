//! The common framing of the exchange's on-chain accounts: every account
//! body sits between a 5-byte head mark and a 7-byte tail mark.

use vstd::prelude::*;

verus! {

/// The 5 bytes that open every account of the exchange program.
pub open spec fn head_padding() -> Seq<u8> {
    seq![115u8, 101u8, 114u8, 117u8, 109u8]
}

/// The 7 bytes that close every account of the exchange program.
pub open spec fn tail_padding() -> Seq<u8> {
    seq![112u8, 97u8, 100u8, 100u8, 105u8, 110u8, 103u8]
}

/// The buffer is long enough for both marks and carries them.
pub open spec fn padding_ok(data: Seq<u8>) -> bool {
    &&& data.len() >= 12
    &&& data.subrange(0, 5) == head_padding()
    &&& data.subrange(data.len() - 7, data.len() as int) == tail_padding()
}

/// Checks both padding marks of an account buffer.
pub fn check_padding(data: &Vec<u8>) -> (r: bool)
    ensures
        r == padding_ok(data@),
{
    let len: usize = data.len();
    if len < 12 {
        return false;
    }
    let head_ok: bool = data[0] == 115 && data[1] == 101 && data[2] == 114 && data[3] == 117
        && data[4] == 109;
    proof {
        if head_ok {
            assert(data@.subrange(0, 5) =~= head_padding());
        } else {
            assert(data@.subrange(0, 5) != head_padding()) by {
                let h = data@.subrange(0, 5);
                assert(h[0] == data@[0] && h[1] == data@[1] && h[2] == data@[2] && h[3] == data@[3]
                    && h[4] == data@[4]);
            }
        }
    }
    if !head_ok {
        return false;
    }
    let t: usize = len - 7;
    let tail_ok: bool = data[t] == 112 && data[t + 1] == 97 && data[t + 2] == 100 && data[t + 3]
        == 100 && data[t + 4] == 105 && data[t + 5] == 110 && data[t + 6] == 103;
    proof {
        let s = data@.subrange(data@.len() - 7, data@.len() as int);
        assert(s[0] == data@[t as int] && s[1] == data@[t + 1] && s[2] == data@[t + 2] && s[3]
            == data@[t + 3] && s[4] == data@[t + 4] && s[5] == data@[t + 5] && s[6] == data@[
            t + 6
        ]);
        if tail_ok {
            assert(s =~= tail_padding());
        }
    }
    tail_ok
}

} // verus!
