use vstd::prelude::*;

verus! {

/// One step of the name hash: folds character `c` into the running value `acc`
/// with wrapping 32-bit arithmetic.
pub open spec fn hash_step(acc: u32, c: char) -> u32 {
    acc ^ vstd::wrapping::u32_specs::wrapping_add(
        acc << 6u32,
        vstd::wrapping::u32_specs::wrapping_sub(acc >> 2u32, (0x61c88647u32 - c as u32) as u32),
    )
}

/// The numeric id of a name: the hash step folded over its characters from
/// the first to the last, starting from 0.
pub open spec fn name_hash(chars: Seq<char>) -> u32
    decreases chars.len(),
{
    if chars.len() == 0 {
        0
    } else {
        hash_step(name_hash(chars.drop_last()), chars.last())
    }
}

/// Converts an object or map name to its numeric id.
pub fn name_to_id(name: &str) -> (res: u32)
    ensures
        res == name_hash(name@),
{
    broadcast use vstd::string::group_string_axioms;

    let mut acc: u32 = 0;
    for c in iter: name.chars()
        invariant
            iter.seq() == name@,
            acc == name_hash(name@.take(iter.index() as int)),
    {
        proof {
            let k = iter.index() as int;
            assert(name@.take(k + 1).drop_last() =~= name@.take(k));
        }
        let code: u32 = c as u32;
        proof {
            vstd::utf8::char_is_scalar(c);
        }
        acc = acc ^ (acc << 6u32).wrapping_add((acc >> 2u32).wrapping_sub(0x61c88647u32 - code));
    }
    proof {
        assert(name@.take(name@.len() as int) =~= name@);
    }
    acc
}

} // verus!
