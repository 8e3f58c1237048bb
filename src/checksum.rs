use vstd::prelude::*;

verus! {

/// Fletcher-16 state after folding `bytes` into the two running sums,
/// both kept modulo 255.
pub open spec fn fletcher_sums(bytes: Seq<u8>) -> (nat, nat)
    decreases bytes.len(),
{
    if bytes.len() == 0 {
        (0, 0)
    } else {
        let (s1, s2) = fletcher_sums(bytes.drop_last());
        let n1 = (s1 + bytes.last() as nat) % 255;
        (n1, (s2 + n1) % 255)
    }
}

/// Fletcher-16 checksum of `bytes`: the second sum in the high byte, the first in the low byte.
pub open spec fn fletcher16_spec(bytes: Seq<u8>) -> u16 {
    let (s1, s2) = fletcher_sums(bytes);
    (s2 * 256 + s1) as u16
}

/// Order-sensitive 16-bit running-sum checksum of a serialized snapshot.
pub fn fletcher16(data: &[u8]) -> (r: u16)
    ensures
        r == fletcher16_spec(data@),
{
    let mut sum1: u16 = 0;
    let mut sum2: u16 = 0;
    let mut i: usize = 0;
    while i < data.len()
        invariant
            0 <= i <= data.len(),
            sum1 < 255,
            sum2 < 255,
            (sum1 as nat, sum2 as nat) == fletcher_sums(data@.subrange(0, i as int)),
        decreases data.len() - i,
    {
        proof {
            assert(data@.subrange(0, i + 1).drop_last() =~= data@.subrange(0, i as int));
        }
        sum1 = (sum1 + data[i] as u16) % 255;
        sum2 = (sum2 + sum1) % 255;
        i = i + 1;
    }
    proof {
        assert(data@.subrange(0, data.len() as int) =~= data@);
    }
    sum2 * 256 + sum1
}

} // verus!
