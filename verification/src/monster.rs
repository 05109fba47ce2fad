//! Decoder for fixed-layout monster records: 0x1F bytes each, of which only
//! the graphics-reference id at offset 0x16 is read.
use vstd::prelude::*;
use vstd::arithmetic::div_mod::lemma_fundamental_div_mod;
use crate::error::DecodeError;

verus! {

pub const MONSTER_RECORD_SIZE: usize = 0x1F;

pub const MONSTER_RECORD_GFX_ID_OFFSET: usize = 0x16;

/// A monster: a 1-based reference into the monster sprite atlas.
#[derive(Clone, Copy, Debug, PartialEq, Eq, Structural)]
pub struct Monster {
    pub gfx_id: u8,
}

/// `ms` is exactly the decode of `data`: one monster per 0x1F-byte record,
/// carrying the byte at offset 0x16 of its record.
pub open spec fn monsters_decoded(data: Seq<u8>, ms: Seq<Monster>) -> bool {
    &&& ms.len() == data.len() / 0x1F
    &&& forall|i: int| 0 <= i < ms.len() ==> (#[trigger] ms[i]).gfx_id == data[i * 0x1F + 0x16]
}

/// Split the buffer into consecutive 0x1F-byte records and decode one
/// monster from each. A buffer that is not a whole number of records is
/// malformed.
pub fn decode_monsters(data: &[u8]) -> (r: Result<Vec<Monster>, DecodeError>)
    ensures
        r is Ok <==> data@.len() % 0x1F == 0,
        match r {
            Ok(ms) => monsters_decoded(data@, ms@),
            Err(e) => e == DecodeError::MalformedInput,
        },
{
    if data.len() % 0x1F != 0 {
        return Err(DecodeError::MalformedInput);
    }
    let count = data.len() / 0x1F;
    proof {
        lemma_fundamental_div_mod(data@.len() as int, 0x1F);
    }
    let mut ms: Vec<Monster> = Vec::new();
    let mut i: usize = 0;
    while i < count
        invariant
            count == data@.len() / 0x1F,
            count * 0x1F == data@.len(),
            data@.len() <= usize::MAX,
            i <= count,
            ms@.len() == i,
            forall|k: int| 0 <= k < i ==> (#[trigger] ms@[k]).gfx_id == data@[k * 0x1F + 0x16],
        decreases count - i,
    {
        proof {
            assert(i * 0x1F + 0x1F <= count * 0x1F) by (nonlinear_arith)
                requires
                    i < count,
            ;
        }
        ms.push(Monster { gfx_id: data[i * 0x1F + 0x16] });
        i += 1;
    }
    Ok(ms)
}

} // verus!
