use vstd::prelude::*;

verus! {

/// Bit `index` of `byte` (0 or 1).
pub open spec fn bit_of(byte: u8, index: u8) -> u8 {
    (byte >> index) & 1
}

/// The flag `id` of a packed flag array: bit `id % 8` of byte `id / 8`,
/// and 0 beyond the end of the array.
pub open spec fn flag_at(bytes: Seq<u8>, id: int) -> u8 {
    if 0 <= id && id / 8 < bytes.len() {
        bit_of(bytes[id / 8], (id % 8) as u8)
    } else {
        0
    }
}

/// The parameter `id` of a parameter array, 0 beyond its end.
pub open spec fn param_at(params: Seq<u32>, id: int) -> u32 {
    if 0 <= id < params.len() {
        params[id]
    } else {
        0
    }
}

/// `bytes` grown with zero bytes to at least `len` entries.
pub open spec fn grown_bytes(bytes: Seq<u8>, len: nat) -> Seq<u8> {
    if bytes.len() < len {
        bytes + Seq::new((len - bytes.len()) as nat, |i: int| 0u8)
    } else {
        bytes
    }
}

/// `params` grown with zero words to at least `len` entries.
pub open spec fn grown_params(params: Seq<u32>, len: nat) -> Seq<u32> {
    if params.len() < len {
        params + Seq::new((len - params.len()) as nat, |i: int| 0u32)
    } else {
        params
    }
}

/// The byte `byte` with bit `index` replaced by the lowest bit of `val`.
pub open spec fn spec_set_bit(byte: u8, index: u8, val: u8) -> u8 {
    (byte & !(1u8 << index)) | ((val & 1) << index)
}

/// The flag bytes after flag `id` is set to `val`.
pub open spec fn bytes_after_set(bytes: Seq<u8>, id: nat, val: u8) -> Seq<u8> {
    let grown = grown_bytes(bytes, id / 8 + 1);
    grown.update((id / 8) as int, spec_set_bit(grown[(id / 8) as int], (id % 8) as u8, val))
}

/// The parameter words after parameter `id` is set to `val`.
pub open spec fn params_after_set(params: Seq<u32>, id: nat, val: u32) -> Seq<u32> {
    grown_params(params, id + 1).update(id as int, val)
}

/// A set of one-bit flags and 32-bit parameters, as stored per account and
/// per character. Unset flags and parameters read as 0.
#[derive(Debug, Clone, Default)]
pub struct Flags {
    flags: Vec<u8>,
    params: Vec<u32>,
}

/// The abstract contents of a [`Flags`]: the packed flag bytes and the
/// parameter words.
pub struct FlagsView {
    pub bytes: Seq<u8>,
    pub params: Seq<u32>,
}

impl View for Flags {
    type V = FlagsView;

    closed spec fn view(&self) -> FlagsView {
        FlagsView { bytes: self.flags@, params: self.params@ }
    }
}

impl Flags {
    /// The value of flag `id` (0 or 1).
    pub open spec fn flag(&self, id: int) -> u8 {
        flag_at(self@.bytes, id)
    }

    /// The value of parameter `id`.
    pub open spec fn param(&self, id: int) -> u32 {
        param_at(self@.params, id)
    }

    /// A set made of packed flag bytes and parameter words, as they are stored
    /// and sent.
    pub fn from_parts(flags: Vec<u8>, params: Vec<u32>) -> (res: Self)
        ensures
            res@.bytes == flags@,
            res@.params == params@,
    {
        Flags { flags, params }
    }

    /// The packed flag bytes: flag `id` is bit `id % 8` of byte `id / 8`.
    pub fn flag_bytes(&self) -> (r: &Vec<u8>)
        ensures
            r@ == self@.bytes,
    {
        &self.flags
    }

    /// The parameter words.
    pub fn param_words(&self) -> (r: &Vec<u32>)
        ensures
            r@ == self@.params,
    {
        &self.params
    }

    /// An empty set: every flag and every parameter reads as 0.
    pub fn new() -> (res: Self)
        ensures
            res@.bytes.len() == 0,
            res@.params.len() == 0,
            res@ == (FlagsView { bytes: Seq::empty(), params: Seq::empty() }),
            forall|id: int| #[trigger] res.flag(id) == 0,
            forall|id: int| #[trigger] res.param(id) == 0,
    {
        let res = Flags { flags: Vec::new(), params: Vec::new() };
        proof {
            assert(res@.bytes =~= Seq::<u8>::empty());
            assert(res@.params =~= Seq::<u32>::empty());
        }
        res
    }

    /// Sets flag `id` to the lowest bit of `val`; every other flag keeps its value.
    pub fn set(&mut self, id: usize, val: u8)
        ensures
            final(self)@.bytes == bytes_after_set(old(self)@.bytes, id as nat, val),
            final(self)@.params == old(self)@.params,
            final(self)@ == after_writes(old(self)@, seq![FlagWrite::Flag { id: id as nat, val }]),
            final(self).flag(id as int) == val & 1,
            forall|j: int| j != id ==> #[trigger] final(self).flag(j) == old(self).flag(j),
    {
        let index = id / 8;
        let bit_index = (id % 8) as u8;
        let ghost old_bytes = self.flags@;
        if self.flags.len() < index + 1 {
            self.flags.resize(index + 1, 0);
            proof {
                assert forall|k: int| old_bytes.len() <= k < self.flags@.len() implies self.flags@[k]
                    == 0u8 by {
                    assert(cloned::<u8>(0u8, self.flags@[k]));
                }
                assert forall|k: int| 0 <= k < old_bytes.len() implies self.flags@[k]
                    == old_bytes[k] by {
                    assert(self.flags@.subrange(0, old_bytes.len() as int)[k] == self.flags@[k]);
                }
            }
        }
        let ghost mid_bytes = self.flags@;
        let data = self.flags[index];
        let new_byte = set_bit(data, bit_index, val);
        self.flags.set(index, new_byte);
        proof {
            assert forall|j: int| j != id implies #[trigger] flag_at(self.flags@, j) == flag_at(
                old_bytes,
                j,
            ) by {
                if 0 <= j && j / 8 < self.flags@.len() {
                    let bj = (j % 8) as u8;
                    if j / 8 == index {
                        assert(bj != bit_index);
                        lemma_set_bit_other(data, bit_index, val, bj);
                    } else {
                        assert(self.flags@[j / 8] == mid_bytes[j / 8]);
                    }
                    if j / 8 >= old_bytes.len() {
                        let z = mid_bytes[j / 8];
                        assert(z == 0u8);
                        assert((z >> bj) & 1 == 0) by (bit_vector)
                            requires
                                z == 0u8,
                        ;
                    }
                }
            }
            lemma_set_bit_same(data, bit_index, val);
            assert(mid_bytes =~= grown_bytes(old_bytes, (id / 8 + 1) as nat));
            let ops = seq![FlagWrite::Flag { id: id as nat, val }];
            assert(ops.drop_last() =~= Seq::<FlagWrite>::empty());
            assert(after_writes(old(self)@, ops.drop_last()) == old(self)@);
            assert(self@.bytes == bytes_after_set(old(self)@.bytes, id as nat, val));
            assert(self@.params == old(self)@.params);
        }
    }

    /// The value of flag `id` (0 or 1); 0 when it was never set.
    pub fn get(&self, id: usize) -> (res: u8)
        ensures
            res == self.flag(id as int),
            res <= 1,
    {
        let index = id / 8;
        let bit_index = (id % 8) as u8;
        if self.flags.len() <= index {
            return 0;
        }
        let b = self.flags[index];
        assert((b >> bit_index) & 1 <= 1) by (bit_vector);
        (b >> bit_index) & 1
    }

    /// Sets parameter `id` to `val`; every other parameter keeps its value.
    pub fn set_param(&mut self, id: usize, val: u32)
        requires
            id < usize::MAX,
        ensures
            final(self)@.params == params_after_set(old(self)@.params, id as nat, val),
            final(self)@.bytes == old(self)@.bytes,
            final(self)@ == after_writes(old(self)@, seq![FlagWrite::Param { id: id as nat, val }]),
            final(self).param(id as int) == val,
            forall|j: int| j != id ==> #[trigger] final(self).param(j) == old(self).param(j),
    {
        let ghost old_params = self.params@;
        if self.params.len() < id + 1 {
            self.params.resize(id + 1, 0);
            proof {
                assert forall|k: int| old_params.len() <= k < self.params@.len() implies self.params@[k]
                    == 0u32 by {
                    assert(cloned::<u32>(0u32, self.params@[k]));
                }
                assert forall|k: int| 0 <= k < old_params.len() implies self.params@[k]
                    == old_params[k] by {
                    assert(self.params@.subrange(0, old_params.len() as int)[k] == self.params@[k]);
                }
            }
        }
        proof {
            assert(self.params@ =~= grown_params(old_params, (id + 1) as nat));
        }
        self.params.set(id, val);
        proof {
            let ops = seq![FlagWrite::Param { id: id as nat, val }];
            assert(ops.drop_last() =~= Seq::<FlagWrite>::empty());
            assert(after_writes(old(self)@, ops.drop_last()) == old(self)@);
            assert(self@.params == params_after_set(old(self)@.params, id as nat, val));
            assert(self@.bytes == old(self)@.bytes);
        }
    }

    /// The value of parameter `id`; 0 when it was never set.
    pub fn get_param(&self, id: usize) -> (res: u32)
        ensures
            res == self.param(id as int),
    {
        if self.params.len() <= id {
            0
        } else {
            self.params[id]
        }
    }
}

/// Clears bit `index` of `byte` and sets it to the lowest bit of `val`.
pub fn set_bit(byte: u8, index: u8, val: u8) -> (res: u8)
    requires
        index < 8,
    ensures
        res == (byte & !(1u8 << index)) | ((val & 1) << index),
{
    let byte = byte & !(1u8 << index);
    byte | ((val & 1) << index)
}

proof fn lemma_set_bit_same(byte: u8, index: u8, val: u8)
    requires
        index < 8,
    ensures
        bit_of((byte & !(1u8 << index)) | ((val & 1) << index), index) == val & 1,
{
    assert((((byte & !(1u8 << index)) | ((val & 1) << index)) >> index) & 1 == val & 1)
        by (bit_vector)
        requires
            index < 8,
    ;
}

proof fn lemma_set_bit_other(byte: u8, index: u8, val: u8, other: u8)
    requires
        index < 8,
        other < 8,
        other != index,
    ensures
        bit_of((byte & !(1u8 << index)) | ((val & 1) << index), other) == bit_of(byte, other),
{
    assert((((byte & !(1u8 << index)) | ((val & 1) << index)) >> other) & 1 == (byte >> other) & 1)
        by (bit_vector)
        requires
            index < 8,
            other < 8,
            other != index,
    ;
}

/// Reading a flag after writing it: flag `id` reads back the lowest bit of the
/// written value, and every other flag reads what it read before.
pub proof fn law_flag_read_after_write(bytes: Seq<u8>, id: nat, val: u8, j: int)
    ensures
        flag_at(bytes_after_set(bytes, id, val), j) == if j == id {
            val & 1
        } else {
            flag_at(bytes, j)
        },
{
    let grown = grown_bytes(bytes, id / 8 + 1);
    let idx = (id / 8) as int;
    let bi = (id % 8) as u8;
    let after = bytes_after_set(bytes, id, val);
    assert(grown.len() >= id / 8 + 1);
    if j == id {
        lemma_set_bit_same(grown[idx], bi, val);
    } else if 0 <= j && j / 8 < after.len() {
        let bj = (j % 8) as u8;
        if j / 8 == idx {
            lemma_set_bit_other(grown[idx], bi, val, bj);
        }
        if j / 8 >= bytes.len() {
            let z = grown[j / 8];
            assert(z == 0u8);
            assert((z >> bj) & 1 == 0) by (bit_vector)
                requires
                    z == 0u8,
            ;
        }
    }
}

/// Reading a parameter after writing it: parameter `id` reads back the written
/// value, and every other parameter reads what it read before.
pub proof fn law_param_read_after_write(params: Seq<u32>, id: nat, val: u32, j: int)
    ensures
        param_at(params_after_set(params, id, val), j) == if j == id {
            val
        } else {
            param_at(params, j)
        },
{
}

/// Writing the same value to the same flag twice is the same as writing it once.
pub proof fn law_flag_write_idempotent(bytes: Seq<u8>, id: nat, val: u8)
    ensures
        bytes_after_set(bytes_after_set(bytes, id, val), id, val) == bytes_after_set(bytes, id, val),
{
    let once = bytes_after_set(bytes, id, val);
    let idx = (id / 8) as int;
    let bi = (id % 8) as u8;
    let g = grown_bytes(bytes, id / 8 + 1);
    let b = g[idx];
    assert(grown_bytes(once, id / 8 + 1) == once);
    assert(spec_set_bit(spec_set_bit(b, bi, val), bi, val) == spec_set_bit(b, bi, val))
        by (bit_vector)
        requires
            bi < 8,
    ;
    assert(bytes_after_set(once, id, val) =~= once);
}

/// A write to a set of flags: [`Flags::set`] or [`Flags::set_param`].
pub enum FlagWrite {
    Flag { id: nat, val: u8 },
    Param { id: nat, val: u32 },
}

/// The contents after the writes `ops`, in order, starting from `v`.
pub open spec fn after_writes(v: FlagsView, ops: Seq<FlagWrite>) -> FlagsView
    decreases ops.len(),
{
    if ops.len() == 0 {
        v
    } else {
        let prev = after_writes(v, ops.drop_last());
        match ops.last() {
            FlagWrite::Flag { id, val } => FlagsView { bytes: bytes_after_set(prev.bytes, id, val), params: prev.params },
            FlagWrite::Param { id, val } => FlagsView { bytes: prev.bytes, params: params_after_set(prev.params, id, val) },
        }
    }
}

/// The lowest bit of the last value written to flag `id`, or 0 when none was.
pub open spec fn last_flag_write(ops: Seq<FlagWrite>, id: int) -> u8
    decreases ops.len(),
{
    if ops.len() == 0 {
        0
    } else {
        match ops.last() {
            FlagWrite::Flag { id: i, val } => if i == id {
                val & 1
            } else {
                last_flag_write(ops.drop_last(), id)
            },
            _ => last_flag_write(ops.drop_last(), id),
        }
    }
}

/// The last value written to parameter `id`, or 0 when none was.
pub open spec fn last_param_write(ops: Seq<FlagWrite>, id: int) -> u32
    decreases ops.len(),
{
    if ops.len() == 0 {
        0
    } else {
        match ops.last() {
            FlagWrite::Param { id: i, val } => if i == id {
                val
            } else {
                last_param_write(ops.drop_last(), id)
            },
            _ => last_param_write(ops.drop_last(), id),
        }
    }
}

/// Over any sequence of writes to a fresh set: every flag reads the lowest bit
/// of the last value written to it and every parameter the last value written
/// to it; one never written reads 0, however far beyond the others it lies.
pub proof fn law_flags_after_writes(ops: Seq<FlagWrite>, id: int)
    ensures
        flag_at(after_writes(FlagsView { bytes: Seq::empty(), params: Seq::empty() }, ops).bytes, id)
            == last_flag_write(ops, id),
        param_at(after_writes(FlagsView { bytes: Seq::empty(), params: Seq::empty() }, ops).params, id)
            == last_param_write(ops, id),
        last_flag_write(ops, id) <= 1,
    decreases ops.len(),
{
    if ops.len() > 0 {
        law_flags_after_writes(ops.drop_last(), id);
        let prev = after_writes(FlagsView { bytes: Seq::empty(), params: Seq::empty() }, ops.drop_last());
        match ops.last() {
            FlagWrite::Flag { id: i, val } => {
                law_flag_read_after_write(prev.bytes, i, val, id);
                assert(val & 1 <= 1) by (bit_vector);
            },
            FlagWrite::Param { id: i, val } => {
                law_param_read_after_write(prev.params, i, val, id);
            },
        }
    }
}

/// A flag that no write in `ops` touches reads 0 after them, from a fresh set:
/// after `Flags::new()` and any calls of `set` and `set_param` (each a write,
/// see their contracts) that never set flag `id`, `get(id)` gives 0, however
/// far `id` lies beyond every flag set.
pub proof fn law_unwritten_flag_reads_zero(ops: Seq<FlagWrite>, id: int)
    requires
        forall|k: int| 0 <= k < ops.len() ==> !(#[trigger] ops[k] matches FlagWrite::Flag { id: i, .. } && i == id),
    ensures
        flag_at(after_writes(FlagsView { bytes: Seq::empty(), params: Seq::empty() }, ops).bytes, id) == 0,
    decreases ops.len(),
{
    law_flags_after_writes(ops, id);
    lemma_last_flag_untouched(ops, id);
}

proof fn lemma_last_flag_untouched(ops: Seq<FlagWrite>, id: int)
    requires
        forall|k: int| 0 <= k < ops.len() ==> !(#[trigger] ops[k] matches FlagWrite::Flag { id: i, .. } && i == id),
    ensures
        last_flag_write(ops, id) == 0,
    decreases ops.len(),
{
    if ops.len() > 0 {
        let prev = ops.drop_last();
        assert forall|k: int| 0 <= k < prev.len() implies !(#[trigger] prev[k] matches FlagWrite::Flag { id: i, .. } && i == id) by {
            assert(prev[k] == ops[k]);
        }
        lemma_last_flag_untouched(prev, id);
        assert(!(ops[ops.len() - 1] matches FlagWrite::Flag { id: i, .. } && i == id));
    }
}

} // verus!
