use vstd::prelude::*;
use vstd::arithmetic::power2::pow2;
use vstd::bits::low_bits_mask;

verus! {

// ---------------------------------------------------------------------------
// Byte-level helpers
// ---------------------------------------------------------------------------

/// The little-endian encoding of a 32-bit word.
pub open spec fn le32(x: u32) -> Seq<u8> {
    seq![x as u8, (x >> 8u32) as u8, (x >> 16u32) as u8, (x >> 24u32) as u8]
}

/// `n` zero bytes.
pub open spec fn zeros(n: nat) -> Seq<u8> {
    Seq::new(n, |i: int| 0u8)
}

/// Appends the little-endian encoding of `x` to `out`.
pub fn push_u32_le(out: &mut Vec<u8>, x: u32)
    ensures
        final(out)@ == old(out)@ + le32(x),
{
    out.push(x as u8);
    out.push((x >> 8u32) as u8);
    out.push((x >> 16u32) as u8);
    out.push((x >> 24u32) as u8);
    proof {
        assert(final(out)@ =~= old(out)@ + le32(x));
    }
}

/// Appends `n` zero bytes to `out`.
pub fn push_zeros(out: &mut Vec<u8>, n: usize)
    ensures
        final(out)@ == old(out)@ + zeros(n as nat),
{
    let ghost start = out@;
    let mut i: usize = 0;
    while i < n
        invariant
            i <= n,
            out@ == start + zeros(i as nat),
        decreases n - i,
    {
        out.push(0u8);
        i = i + 1;
        proof {
            assert(out@ =~= start + zeros(i as nat));
        }
    }
}

/// Rounds `size` up with the mask of `align_to`: `(size + align_to - 1)` with
/// the bits below `align_to` cleared.
pub open spec fn spec_align(size: int, align_to: int) -> int {
    ((size + align_to - 1) as usize & !((align_to - 1) as usize)) as int
}

/// Rounds `size` up to a multiple of `align_to` (a power of two).
pub fn align(size: usize, align_to: usize) -> (r: usize)
    requires
        align_to >= 1,
        size + align_to - 1 <= usize::MAX,
    ensures
        r == spec_align(size as int, align_to as int),
{
    (size + (align_to - 1)) & !(align_to - 1)
}

/// Rounding up to a power of two gives the least multiple of it that is at
/// least `size`, and rounding a multiple again leaves it as it is.
pub proof fn law_align(size: usize, align_to: usize, k: nat)
    requires
        k < usize::BITS,
        align_to == pow2(k),
        size + align_to - 1 <= usize::MAX,
    ensures
        spec_align(size as int, align_to as int) % (align_to as int) == 0,
        size <= spec_align(size as int, align_to as int) < size + align_to,
        spec_align(spec_align(size as int, align_to as int), align_to as int) == spec_align(size as int, align_to as int),
{
    vstd::arithmetic::power2::lemma_pow2_pos(k);
    let a = align_to;
    let m = (a - 1) as usize;
    let s = (size + m) as usize;
    let r = s & !m;
    assert(r <= s && s - r <= m && r & m == 0) by (bit_vector)
        requires
            r == s & !m,
    ;
    assert(((r + m) as usize) & !m == r) by (bit_vector)
        requires
            r & m == 0,
    ;
    vstd::bits::lemma_usize_low_bits_mask_is_mod(r, k);
    assert(low_bits_mask(k) == m);
    assert(r % a == 0);
}

/// Rounding up to a multiple of 16 gives the least multiple of 16 that is at
/// least `size`.
pub proof fn law_align_16(size: usize)
    requires
        size + 15 <= usize::MAX,
    ensures
        spec_align(size as int, 16) % 16 == 0,
        size <= spec_align(size as int, 16) < size + 16,
{
    vstd::arithmetic::power2::lemma2_to64();
    law_align(size, 16, 4);
}

// ---------------------------------------------------------------------------
// Fixed-size ASCII fields
// ---------------------------------------------------------------------------

/// Whether a character is ASCII.
pub open spec fn is_ascii_char(c: char) -> bool {
    (c as u32) < 128
}

/// The ASCII characters of `s`, in order, as bytes.
pub open spec fn ascii_bytes(s: Seq<char>) -> Seq<u8>
    decreases s.len(),
{
    if s.len() == 0 {
        Seq::empty()
    } else if is_ascii_char(s.last()) {
        ascii_bytes(s.drop_last()).push((s.last() as u32) as u8)
    } else {
        ascii_bytes(s.drop_last())
    }
}

/// A field of exactly `len` bytes: the ASCII characters among the first `len`
/// characters of `s`, followed by zero bytes.
pub open spec fn fixed_ascii(s: Seq<char>, len: nat) -> Seq<u8> {
    let prefix = if s.len() <= len {
        s
    } else {
        s.take(len as int)
    };
    let b = ascii_bytes(prefix);
    b + zeros((len - b.len()) as nat)
}

proof fn lemma_ascii_bytes_len(s: Seq<char>)
    ensures
        ascii_bytes(s).len() <= s.len(),
    decreases s.len(),
{
    if s.len() > 0 {
        lemma_ascii_bytes_len(s.drop_last());
    }
}

/// The ASCII characters of `s` as bytes, with their count.
pub fn ascii_of(s: &str) -> (r: Vec<u8>)
    ensures
        r@ == ascii_bytes(s@),
{
    broadcast use vstd::string::group_string_axioms;

    let mut out: Vec<u8> = Vec::new();
    for c in iter: s.chars()
        invariant
            iter.seq() == s@,
            out@ == ascii_bytes(s@.take(iter.index() as int)),
    {
        proof {
            let k = iter.index() as int;
            assert(s@.take(k + 1).drop_last() =~= s@.take(k));
            assert(s@.take(k + 1).last() == c);
        }
        let code: u32 = c as u32;
        if code < 128 {
            out.push(code as u8);
        }
    }
    proof {
        assert(s@.take(s@.len() as int) =~= s@);
    }
    out
}

/// The first `len` characters of `s` (all of them when it is shorter), as a
/// fixed field of `len` bytes holding their ASCII characters and zero padding.
pub fn write_utf8(s: &str, len: usize) -> (r: Vec<u8>)
    ensures
        r@ == fixed_ascii(s@, len as nat),
        r@.len() == len,
{
    broadcast use vstd::string::group_string_axioms;

    let mut out: Vec<u8> = Vec::new();
    let mut taken: usize = 0;
    for c in iter: s.chars()
        invariant
            iter.seq() == s@,
            taken == if iter.index() <= len { iter.index() } else { len as int },
            out@ == ascii_bytes(s@.take(taken as int)),
    {
        if taken < len {
            proof {
                let k = taken as int;
                assert(s@.take(k + 1).drop_last() =~= s@.take(k));
                assert(s@.take(k + 1).last() == c);
            }
            let code: u32 = c as u32;
            if code < 128 {
                out.push(code as u8);
            }
            taken = taken + 1;
        }
    }
    proof {
        if s@.len() <= len {
            assert(s@.take(s@.len() as int) =~= s@);
        }
        lemma_ascii_bytes_len(s@.take(taken as int));
    }
    let n = out.len();
    push_zeros(&mut out, len - n);
    out
}

/// Whether `s` contains the text "dds".
pub open spec fn contains_dds(s: Seq<char>) -> bool {
    exists|i: int| 0 <= i && i + 3 <= s.len() && #[trigger] s[i] == 'd' && s[i + 1] == 'd' && s[i + 2] == 's'
}

/// Whether the extension `s` contains the text "dds".
pub fn has_dds(s: &str) -> (r: bool)
    ensures
        r == contains_dds(s@),
{
    broadcast use vstd::string::group_string_axioms;

    let mut prev2: Option<char> = None;
    let mut prev1: Option<char> = None;
    let mut found = false;
    for c in iter: s.chars()
        invariant
            iter.seq() == s@,
            iter.index() >= 1 ==> prev1 == Some(s@[iter.index() - 1]),
            iter.index() < 1 ==> prev1 is None,
            iter.index() >= 2 ==> prev2 == Some(s@[iter.index() - 2]),
            iter.index() < 2 ==> prev2 is None,
            found == exists|i: int|
                0 <= i && i + 3 <= iter.index() && #[trigger] s@[i] == 'd' && s@[i + 1] == 'd'
                    && s@[i + 2] == 's',
    {
        let ghost k = iter.index() as int;
        if prev2 == Some('d') && prev1 == Some('d') && c == 's' {
            found = true;
            proof {
                assert(s@[k - 2] == 'd');
            }
        }
        proof {
            if !found {
                assert forall|i: int|
                    0 <= i && i + 3 <= k + 1 && #[trigger] s@[i] == 'd' && s@[i + 1] == 'd' implies s@[i + 2]
                    != 's' by {
                    if i + 3 == k + 1 {
                        assert(s@[k] == c);
                    }
                }
            }
        }
        prev2 = prev1;
        prev1 = Some(c);
    }
    found
}

// ---------------------------------------------------------------------------
// File entries
// ---------------------------------------------------------------------------

/// The byte length of a name in UTF-8.
pub open spec fn utf8_len(s: Seq<char>) -> nat {
    vstd::utf8::encode_utf8(s).len()
}

/// What a file entry's header is made from.
pub struct HeaderView {
    pub ext: Seq<char>,
    pub name: Seq<char>,
    pub data_size: u32,
}

/// The size of the name field: the name's UTF-8 length plus a terminator,
/// rounded up to 16.
pub open spec fn name_field_size(h: HeaderView) -> int {
    spec_align(utf8_len(h.name) + 1int, 16)
}

/// Offset of the file data from the start of the entry.
pub open spec fn data_offset(h: HeaderView) -> int {
    name_field_size(h) + 0x40
}

/// The entry size before padding; "dds" files count their data size modulo 16 twice.
pub open spec fn full_size(h: HeaderView) -> int {
    data_offset(h) + h.data_size + if contains_dds(h.ext) {
        (h.data_size % 16) as int
    } else {
        0
    }
}

/// The zero bytes that follow the file data to reach a multiple of 16.
pub open spec fn entry_padding(h: HeaderView) -> int {
    spec_align(full_size(h), 16) - full_size(h)
}

/// The entry is small enough for its sizes to be written as 32-bit words.
pub open spec fn header_fits(h: HeaderView) -> bool {
    &&& utf8_len(h.name) + 17 <= u32::MAX
    &&& full_size(h) + 16 <= u32::MAX
    &&& spec_align(full_size(h), 16) <= u32::MAX
    &&& ascii_bytes(h.name).len() + 1 <= u32::MAX
}

/// The header of a file entry: extension field, sizes, offsets, name length,
/// 44 zero bytes and the name field.
#[verifier::opaque]
pub open spec fn header_bytes(h: HeaderView) -> Seq<u8> {
    fixed_ascii(h.ext, 4) + le32(spec_align(full_size(h), 16) as u32) + le32(h.data_size) + le32(
        data_offset(h) as u32,
    ) + le32((ascii_bytes(h.name).len() + 1) as u32) + le32(0) + zeros(40) + fixed_ascii(
        h.name,
        name_field_size(h) as nat,
    )
}

/// A file entry's header as kept by the writer.
struct IceFileHeader {
    file_ext: String,
    data_size: u32,
    filename: String,
}

impl IceFileHeader {
    closed spec fn hview(&self) -> HeaderView {
        HeaderView { ext: self.file_ext@, name: self.filename@, data_size: self.data_size }
    }

    /// Appends the entry header to `out`; returns the padding that must follow
    /// the file data.
    fn write(&self, out: &mut Vec<u8>) -> (padding: u32)
        requires
            header_fits(self.hview()),
        ensures
            final(out)@ == old(out)@ + header_bytes(self.hview()),
            padding == entry_padding(self.hview()),
    {
        let ghost h = self.hview();
        let ascii = ascii_of(self.filename.as_str());
        let filename_size = ascii.len();
        let ext_field = write_utf8(self.file_ext.as_str(), 4);
        let mut i: usize = 0;
        let ghost start = out@;
        while i < 4
            invariant
                i <= 4,
                ext_field@.len() == 4,
                out@ == start + ext_field@.take(i as int),
            decreases 4 - i,
        {
            out.push(ext_field[i]);
            i = i + 1;
            proof {
                assert(out@ =~= start + ext_field@.take(i as int));
            }
        }
        proof {
            assert(ext_field@.take(4) =~= ext_field@);
        }
        let name_len = self.filename.as_str().len();
        let aligned = align(name_len + 1, 0x10);
        let data_offset = aligned + 0x40;
        let mut full_size = data_offset + self.data_size as usize;
        if has_dds(self.file_ext.as_str()) {
            full_size = full_size + (self.data_size as usize) % 0x10;
        }
        let rounded = align(full_size, 0x10);
        proof {
            law_align_16(full_size);
        }
        let padding = (rounded - full_size) as u32;
        push_u32_le(out, full_size as u32 + padding);
        push_u32_le(out, self.data_size);
        push_u32_le(out, data_offset as u32);
        push_u32_le(out, filename_size as u32 + 1);
        push_u32_le(out, 0);
        push_zeros(out, 40);
        let name_field = write_utf8(self.filename.as_str(), aligned);
        let mut j: usize = 0;
        let ghost before_name = out@;
        while j < aligned
            invariant
                j <= aligned,
                name_field@.len() == aligned,
                out@ == before_name + name_field@.take(j as int),
            decreases aligned - j,
        {
            out.push(name_field[j]);
            j = j + 1;
            proof {
                assert(out@ =~= before_name + name_field@.take(j as int));
            }
        }
        proof {
            assert(name_field@.take(aligned as int) =~= name_field@);
            assert(zeros(40) =~= zeros(4) + zeros(4) + zeros(4) + zeros(4) + zeros(4) + zeros(4)
                + zeros(4) + zeros(4) + zeros(4) + zeros(4));
            reveal(header_bytes);
            assert(out@ =~= old(out)@ + header_bytes(h));
        }
        padding
    }
}

/// Appends `data` to `out`.
pub fn append_bytes(out: &mut Vec<u8>, data: &[u8])
    ensures
        final(out)@ == old(out)@ + data@,
{
    let ghost start = out@;
    let mut i: usize = 0;
    while i < data.len()
        invariant
            i <= data@.len(),
            out@ == start + data@.take(i as int),
        decreases data@.len() - i,
    {
        out.push(data[i]);
        i = i + 1;
        proof {
            assert(out@ =~= start + data@.take(i as int));
        }
    }
    proof {
        assert(data@.take(data@.len() as int) =~= data@);
    }
}

// ---------------------------------------------------------------------------
// Archive writer
// ---------------------------------------------------------------------------

/// The two groups of an ICE archive.
#[derive(Clone, Copy, Debug, PartialEq, Eq, Structural)]
pub enum Group {
    Group1,
    Group2,
}

/// A file stored in an archive.
#[derive(Debug)]
pub struct IceFile {
    pub filename: String,
    pub file_ext: Option<String>,
    pub data: Vec<u8>,
}

/// Archive flags.
#[derive(Debug, Default)]
pub struct IceFlags {
    pub encrypted: bool,
    pub compressed: bool,
    pub oodle: bool,
    pub vita: bool,
}

/// Summary of a group.
#[derive(Debug, Default)]
pub struct IceGroupInfo {
    pub fullsize: u32,
    pub filecount: u32,
}

/// A file to add to an archive.
#[derive(Debug, Default)]
pub struct IceFileInfo {
    pub filename: String,
    pub file_extension: String,
    pub file_size: u32,
    pub data: Vec<u8>,
}

/// The state of one group while files are written: the headers of its files,
/// the bytes written so far, and the bytes written since the last file began.
pub struct GroupView {
    pub headers: Seq<HeaderView>,
    pub buffer: Seq<u8>,
    pub file_size: nat,
}

/// The state of a writer.
pub struct IceWriterView {
    pub group1: GroupView,
    pub group2: GroupView,
    pub current: Group,
}

/// The headers of a group once the size of its last file is recorded.
pub open spec fn sealed_headers(g: GroupView) -> Seq<HeaderView> {
    if g.headers.len() == 0 {
        g.headers
    } else {
        let last = g.headers.last();
        g.headers.update(
            g.headers.len() - 1,
            HeaderView { ext: last.ext, name: last.name, data_size: g.file_size as u32 },
        )
    }
}

/// A group after a new file named `name` with extension `ext` begins and its
/// first bytes `data` are written.
pub open spec fn group_after_new_file(g: GroupView, ext: Seq<char>, name: Seq<char>, data: Seq<u8>) -> GroupView {
    GroupView {
        headers: sealed_headers(g).push(HeaderView { ext, name, data_size: 0 }),
        buffer: g.buffer + data,
        file_size: data.len(),
    }
}

/// A group after `data` is written to its current file.
pub open spec fn group_after_write(g: GroupView, data: Seq<u8>) -> GroupView {
    GroupView { headers: g.headers, buffer: g.buffer + data, file_size: g.file_size + data.len() }
}

struct GroupWrite {
    buffer: Vec<u8>,
    file_size: usize,
    header: Vec<IceFileHeader>,
}

impl GroupWrite {
    closed spec fn gview(&self) -> GroupView {
        GroupView {
            headers: self.header@.map_values(|h: IceFileHeader| h.hview()),
            buffer: self.buffer@,
            file_size: self.file_size as nat,
        }
    }

    closed spec fn wf(&self) -> bool {
        self.file_size <= self.buffer@.len()
    }

    fn new() -> (r: Self)
        ensures
            r.wf(),
            r.gview().headers.len() == 0,
            r.gview().buffer.len() == 0,
            r.gview().file_size == 0,
    {
        GroupWrite { buffer: Vec::new(), file_size: 0, header: Vec::new() }
    }

    fn write(&mut self, data: &[u8]) -> (wrote: usize)
        requires
            old(self).wf(),
        ensures
            final(self).wf(),
            final(self).gview() == group_after_write(old(self).gview(), data@),
            wrote == data@.len(),
    {
        append_bytes(&mut self.buffer, data);
        let total = self.buffer.len();
        assert(self.file_size + data@.len() <= total);
        self.file_size = self.file_size + data.len();
        proof {
            assert(self.gview().headers =~= old(self).gview().headers);
        }
        data.len()
    }

    fn seal(&mut self)
        requires
            old(self).wf(),
        ensures
            final(self).wf(),
            final(self).gview().headers == sealed_headers(old(self).gview()),
            final(self).gview().buffer == old(self).gview().buffer,
            final(self).gview().file_size == old(self).gview().file_size,
    {
        let size = self.file_size as u32;
        match self.header.pop() {
            Some(mut last) => {
                last.data_size = size;
                self.header.push(last);
                proof {
                    assert(self.gview().headers =~= sealed_headers(old(self).gview()));
                }
            },
            None => {
                proof {
                    assert(self.gview().headers =~= sealed_headers(old(self).gview()));
                }
            },
        }
    }

    fn new_file(&mut self, file: IceFileInfo)
        requires
            old(self).wf(),
        ensures
            final(self).wf(),
            final(self).gview() == group_after_new_file(
                old(self).gview(),
                file.file_extension@,
                file.filename@,
                file.data@,
            ),
    {
        self.seal();
        self.file_size = 0;
        let ghost before = self.gview();
        let IceFileInfo { filename, file_extension, file_size: _, data } = file;
        self.header.push(IceFileHeader { file_ext: file_extension, data_size: 0, filename });
        proof {
            assert(self.gview().headers =~= before.headers.push(
                HeaderView { ext: file.file_extension@, name: file.filename@, data_size: 0 },
            ));
        }
        if data.len() != 0 {
            self.write(data.as_slice());
        } else {
            proof {
                assert(self.buffer@ =~= self.buffer@ + data@);
            }
        }
    }
}

/// `n` bit steps of the CRC-32 register `c` (reflected, polynomial 0xEDB88320).
pub open spec fn crc32_shift(c: u32, n: nat) -> u32
    decreases n,
{
    if n == 0 {
        c
    } else {
        let c1 = crc32_shift(c, (n - 1) as nat);
        if c1 & 1 == 1 {
            (c1 >> 1u32) ^ 0xEDB8_8320u32
        } else {
            c1 >> 1u32
        }
    }
}

/// The CRC-32 register after byte `b`.
pub open spec fn crc32_update(c: u32, b: u8) -> u32 {
    crc32_shift(c ^ (b as u32), 8)
}

/// The CRC-32 register after `data`, starting from all ones.
pub open spec fn crc32_register(data: Seq<u8>) -> u32
    decreases data.len(),
{
    if data.len() == 0 {
        0xFFFF_FFFFu32
    } else {
        crc32_update(crc32_register(data.drop_last()), data.last())
    }
}

/// The CRC-32 (IEEE) checksum of `data`: the final register, inverted.
pub open spec fn crc32_of(data: Seq<u8>) -> u32 {
    crc32_register(data) ^ 0xFFFF_FFFFu32
}

/// The CRC-32 checksum of an empty sequence is 0.
pub proof fn law_crc32_empty()
    ensures
        crc32_of(Seq::empty()) == 0,
{
    assert(0xFFFF_FFFFu32 ^ 0xFFFF_FFFFu32 == 0u32) by (bit_vector);
}

/// The CRC-32 (IEEE) checksum of `data`, computed by `crc32fast::hash`, whose
/// documentation names this checksum (the one defined by [`crc32_of`]).
#[verifier::external_body]
fn crc32(data: &[u8]) -> (r: u32)
    ensures
        r == crc32_of(data@),
{
    crc32fast::hash(data)
}

/// The entries of a group: for each header in order, the header bytes, the
/// next `data_size` bytes of the group's data (fewer when the data runs out)
/// and the padding.
pub open spec fn group_body(headers: Seq<HeaderView>, buffer: Seq<u8>) -> Seq<u8>
    decreases headers.len(),
{
    if headers.len() == 0 {
        Seq::empty()
    } else {
        let h = headers[0];
        let t = if h.data_size <= buffer.len() {
            h.data_size as int
        } else {
            buffer.len() as int
        };
        header_bytes(h) + buffer.take(t) + zeros(entry_padding(h) as nat) + group_body(
            headers.drop_first(),
            buffer.skip(t),
        )
    }
}

/// Every header of `headers` fits in 32-bit sizes.
pub open spec fn all_fit(headers: Seq<HeaderView>) -> bool {
    forall|i: int| 0 <= i < headers.len() ==> header_fits(#[trigger] headers[i])
}

/// The body of a group once its last file's size is recorded.
pub open spec fn sealed_body(g: GroupView) -> Seq<u8> {
    group_body(sealed_headers(g), g.buffer)
}

/// The archive's sizes fit in 32-bit words.
pub open spec fn archive_fits(v: IceWriterView) -> bool {
    &&& all_fit(sealed_headers(v.group1))
    &&& all_fit(sealed_headers(v.group2))
    &&& 0x150 + sealed_body(v.group1).len() + sealed_body(v.group2).len() <= u32::MAX
    &&& sealed_headers(v.group1).len() <= u32::MAX
    &&& sealed_headers(v.group2).len() <= u32::MAX
}

/// The magic and version block that starts an archive.
pub open spec fn ice_magic() -> Seq<u8> {
    seq![0x49u8, 0x43u8, 0x45u8, 0u8] + le32(0) + le32(4) + le32(0x80)
}

/// The complete archive: magic, info block (checksum of both groups and total
/// size), 256 zero bytes, the group table and the two group bodies.
pub open spec fn archive_bytes(v: IceWriterView) -> Seq<u8> {
    let b1 = sealed_body(v.group1);
    let b2 = sealed_body(v.group2);
    let total = b1 + b2;
    ice_magic() + le32(0xFF) + le32(crc32_of(total)) + le32(0) + le32(
        (0x150 + b1.len() + b2.len()) as u32,
    ) + zeros(0x100) + le32(b1.len() as u32) + le32(0) + le32(
        sealed_headers(v.group1).len() as u32,
    ) + le32(crc32_of(Seq::empty())) + le32(b2.len() as u32) + le32(0) + le32(
        sealed_headers(v.group2).len() as u32,
    ) + le32(crc32_of(total)) + le32(0) + le32(0) + le32(0) + le32(0) + total
}

/// Appends `buf[from..to]` to `out`.
fn append_range(out: &mut Vec<u8>, buf: &Vec<u8>, from: usize, to: usize)
    requires
        from <= to <= buf@.len(),
    ensures
        final(out)@ == old(out)@ + buf@.subrange(from as int, to as int),
{
    let ghost start = out@;
    let mut i = from;
    while i < to
        invariant
            from <= i <= to,
            to <= buf@.len(),
            out@ == start + buf@.subrange(from as int, i as int),
        decreases to - i,
    {
        out.push(buf[i]);
        i = i + 1;
        proof {
            assert(out@ =~= start + buf@.subrange(from as int, i as int));
        }
    }
}

proof fn lemma_group_body_step(hv: Seq<HeaderView>, buffer: Seq<u8>, i: int, cursor: int)
    requires
        0 <= i < hv.len(),
        0 <= cursor <= buffer.len(),
    ensures
        ({
            let h = hv[i];
            let t = if h.data_size <= buffer.len() - cursor {
                h.data_size as int
            } else {
                buffer.len() - cursor
            };
            group_body(hv.skip(i), buffer.skip(cursor)) == header_bytes(h) + buffer.subrange(
                cursor,
                cursor + t,
            ) + zeros(entry_padding(h) as nat) + group_body(hv.skip(i + 1), buffer.skip(cursor + t))
        }),
{
    let h = hv[i];
    let rest = hv.skip(i);
    let rbuf = buffer.skip(cursor);
    let t = if h.data_size <= buffer.len() - cursor {
        h.data_size as int
    } else {
        buffer.len() - cursor
    };
    assert(rest[0] == h);
    assert(rest.drop_first() =~= hv.skip(i + 1));
    assert(rbuf.take(t) =~= buffer.subrange(cursor, cursor + t));
    assert(rbuf.skip(t) =~= buffer.skip(cursor + t));
}

/// The length of the entries of a group.
pub open spec fn body_len(headers: Seq<HeaderView>, buffer: Seq<u8>) -> nat
    decreases headers.len(),
{
    if headers.len() == 0 {
        0
    } else {
        let h = headers[0];
        let t = if h.data_size <= buffer.len() {
            h.data_size as int
        } else {
            buffer.len() as int
        };
        (64 + name_field_size(h) + t + entry_padding(h) + body_len(headers.drop_first(), buffer.skip(t))) as nat
    }
}

proof fn lemma_header_bytes_len(h: HeaderView)
    requires
        name_field_size(h) >= 0,
    ensures
        header_bytes(h).len() == 64 + name_field_size(h),
{
    reveal(header_bytes);
    lemma_ascii_bytes_len(h.ext);
    if h.ext.len() > 4 {
        lemma_ascii_bytes_len(h.ext.take(4));
    }
    lemma_ascii_bytes_len(h.name);
    let nf = name_field_size(h) as nat;
    if h.name.len() > nf {
        lemma_ascii_bytes_len(h.name.take(nf as int));
    }
}

proof fn lemma_name_field_nonneg(h: HeaderView)
    requires
        utf8_len(h.name) + 17 <= usize::MAX,
    ensures
        name_field_size(h) >= utf8_len(h.name) + 1,
        name_field_size(h) < utf8_len(h.name) + 17,
{
    law_align_16((utf8_len(h.name) + 1) as usize);
}

proof fn lemma_body_len(headers: Seq<HeaderView>, buffer: Seq<u8>)
    requires
        all_fit(headers),
    ensures
        group_body(headers, buffer).len() == body_len(headers, buffer),
    decreases headers.len(),
{
    if headers.len() > 0 {
        let h = headers[0];
        assert(header_fits(headers[0]));
        lemma_name_field_nonneg(h);
        lemma_header_bytes_len(h);
        law_align_16(full_size(h) as usize);
        let t = if h.data_size <= buffer.len() {
            h.data_size as int
        } else {
            buffer.len() as int
        };
        assert forall|i: int| 0 <= i < headers.drop_first().len() implies header_fits(
            #[trigger] headers.drop_first()[i],
        ) by {
            assert(headers.drop_first()[i] == headers[i + 1]);
        }
        lemma_body_len(headers.drop_first(), buffer.skip(t));
    }
}

/// The length of entry `h` (header, data and padding) when `remaining` data
/// bytes are left, and how many data bytes it takes; `None` when its sizes do
/// not fit in 32-bit words.
fn entry_len(ext: &str, name: &str, data_size: u32, remaining: usize) -> (r: Option<(u64, usize)>)
    ensures
        ({
            let h = HeaderView { ext: ext@, name: name@, data_size };
            let t = if data_size <= remaining {
                data_size as int
            } else {
                remaining as int
            };
            &&& r is Some <==> header_fits(h)
            &&& r matches Some((l, tt)) ==> tt == t && l == 64 + name_field_size(h) + t
                + entry_padding(h)
        }),
{
    let ghost h = HeaderView { ext: ext@, name: name@, data_size };
    let name_len = name.as_bytes().len();
    if name_len > 0xFFFF_FFEEusize {
        return None;
    }
    let aligned = align(name_len + 1, 0x10);
    proof {
        law_align_16((name_len + 1) as usize);
    }
    let data_offset: u64 = aligned as u64 + 0x40;
    let mut full: u64 = data_offset + data_size as u64;
    if has_dds(ext) {
        full = full + (data_size as u64) % 0x10;
    }
    if full + 16 > 0xFFFF_FFFFu64 {
        return None;
    }
    let rounded = align(full as usize, 0x10);
    proof {
        law_align_16(full as usize);
    }
    if rounded as u64 > 0xFFFF_FFFFu64 {
        return None;
    }
    let ascii = ascii_of(name);
    if ascii.len() > 0xFFFF_FFFEusize {
        return None;
    }
    let t: usize = if (data_size as usize) <= remaining {
        data_size as usize
    } else {
        remaining
    };
    let len: u64 = 64 + aligned as u64 + t as u64 + (rounded as u64 - full);
    Some((len, t))
}

/// The length of the sealed body of a group when its headers fit and the
/// body's length fits in 32 bits; `None` otherwise.
fn sealed_body_len(g: &GroupWrite) -> (r: Option<u64>)
    requires
        g.wf(),
    ensures
        r is Some <==> (all_fit(sealed_headers(g.gview())) && sealed_body(g.gview()).len() <= u32::MAX),
        r matches Some(l) ==> l == sealed_body(g.gview()).len(),
{
    let ghost hv = sealed_headers(g.gview());
    let ghost buf = g.buffer@;
    let n = g.header.len();
    let mut i: usize = 0;
    let mut cursor: usize = 0;
    let mut acc: u64 = 0;
    proof {
        assert(hv.skip(0) =~= hv);
        assert(buf.skip(0) =~= buf);
    }
    while i < n
        invariant
            n == g.header@.len(),
            hv == sealed_headers(g.gview()),
            hv.len() == n,
            buf == g.buffer@,
            i <= n,
            cursor <= buf.len(),
            acc <= u32::MAX,
            forall|k: int| 0 <= k < i ==> header_fits(#[trigger] hv[k]),
            acc + body_len(hv.skip(i as int), buf.skip(cursor as int)) == body_len(hv, buf),
        decreases n - i,
    {
        let h = &g.header[i];
        let ds: u32 = if i + 1 == n {
            g.file_size as u32
        } else {
            h.data_size
        };
        proof {
            assert(hv[i as int] == HeaderView { ext: h.file_ext@, name: h.filename@, data_size: ds });
        }
        let remaining = g.buffer.len() - cursor;
        match entry_len(h.file_ext.as_str(), h.filename.as_str(), ds, remaining) {
            None => {
                return None;
            },
            Some((l, t)) => {
                proof {
                    let rest = hv.skip(i as int);
                    assert(rest[0] == hv[i as int]);
                    assert(rest.drop_first() =~= hv.skip(i + 1));
                    assert(buf.skip(cursor as int).skip(t as int) =~= buf.skip(cursor + t));
                }
                if acc + l > 0xFFFF_FFFFu64 {
                    proof {
                        assert(body_len(hv, buf) > u32::MAX);
                        if all_fit(hv) {
                            lemma_body_len(hv, g.buffer@);
                        }
                    }
                    return None;
                }
                acc = acc + l;
                i = i + 1;
                cursor = cursor + t;
            },
        }
    }
    proof {
        assert(hv.skip(n as int).len() == 0);
        lemma_body_len(hv, g.buffer@);
    }
    Some(acc)
}

/// Appends the entries of a group to `out`.
fn write_group(headers: &Vec<IceFileHeader>, buffer: &Vec<u8>, out: &mut Vec<u8>)
    requires
        all_fit(headers@.map_values(|h: IceFileHeader| h.hview())),
    ensures
        final(out)@ == old(out)@ + group_body(headers@.map_values(|h: IceFileHeader| h.hview()), buffer@),
{
    let ghost hv = headers@.map_values(|h: IceFileHeader| h.hview());
    let ghost start = out@;
    let ghost mut done: Seq<u8> = Seq::empty();
    let n = headers.len();
    let mut i: usize = 0;
    let mut cursor: usize = 0;
    proof {
        assert(hv.skip(0) =~= hv);
        assert(buffer@.skip(0) =~= buffer@);
    }
    while i < n
        invariant
            n == headers@.len(),
            hv == headers@.map_values(|h: IceFileHeader| h.hview()),
            all_fit(hv),
            i <= n,
            cursor <= buffer@.len(),
            out@ == start + done,
            done + group_body(hv.skip(i as int), buffer@.skip(cursor as int)) == group_body(hv, buffer@),
        decreases n - i,
    {
        let ghost rest = hv.skip(i as int);
        let ghost rbuf = buffer@.skip(cursor as int);
        assert(rest[0] == hv[i as int]);
        assert(hv[i as int] == headers@[i as int].hview());
        assert(header_fits(hv[i as int]));
        let h = &headers[i];
        let padding = h.write(out);
        let remaining = buffer.len() - cursor;
        let t: usize = if (h.data_size as usize) <= remaining {
            h.data_size as usize
        } else {
            remaining
        };
        append_range(out, buffer, cursor, cursor + t);
        push_zeros(out, padding as usize);
        proof {
            lemma_group_body_step(hv, buffer@, i as int, cursor as int);
            let piece = header_bytes(hv[i as int]) + buffer@.subrange(cursor as int, cursor + t) + zeros(padding as nat);
            let old_done = done;
            done = done + piece;
            assert(out@ =~= start + done);
            assert(done + group_body(hv.skip(i + 1), buffer@.skip(cursor + t)) =~= old_done + (piece + group_body(hv.skip(i + 1), buffer@.skip(cursor + t))));
        }
        i = i + 1;
        cursor = cursor + t;
    }
    proof {
        assert(hv.skip(n as int).len() == 0);
        assert(done =~= group_body(hv, buffer@));
    }
}

/// Writes an ICE archive: files are added to one of two groups, and the
/// finished archive holds both groups after a header that records their sizes,
/// file counts and checksums.
pub struct IceWriter {
    group1: GroupWrite,
    group2: GroupWrite,
    current_group: Group,
}

impl View for IceWriter {
    type V = IceWriterView;

    closed spec fn view(&self) -> IceWriterView {
        IceWriterView {
            group1: self.group1.gview(),
            group2: self.group2.gview(),
            current: self.current_group,
        }
    }
}

/// The writer's state with group `g` replaced by `new_g` in the current group.
pub open spec fn with_current(v: IceWriterView, new_g: GroupView) -> IceWriterView {
    match v.current {
        Group::Group1 => IceWriterView { group1: new_g, group2: v.group2, current: v.current },
        Group::Group2 => IceWriterView { group1: v.group1, group2: new_g, current: v.current },
    }
}

/// The current group of the writer's state.
pub open spec fn current_group(v: IceWriterView) -> GroupView {
    match v.current {
        Group::Group1 => v.group1,
        Group::Group2 => v.group2,
    }
}

impl IceWriter {
    /// Whether the writer's internal sizes are consistent.
    pub closed spec fn wf(&self) -> bool {
        self.group1.wf() && self.group2.wf()
    }

    /// A writer with two empty groups that adds files to the first group.
    pub fn new() -> (r: Self)
        ensures
            r.wf(),
            r@.current == Group::Group1,
            r@.group1.headers.len() == 0 && r@.group1.buffer.len() == 0 && r@.group1.file_size == 0,
            r@.group2.headers.len() == 0 && r@.group2.buffer.len() == 0 && r@.group2.file_size == 0,
            r@ == fresh_writer(),
    {
        let r = IceWriter { group1: GroupWrite::new(), group2: GroupWrite::new(), current_group: Group::Group1 };
        proof {
            assert(r@.group1.headers =~= empty_group().headers);
            assert(r@.group1.buffer =~= empty_group().buffer);
            assert(r@.group2.headers =~= empty_group().headers);
            assert(r@.group2.buffer =~= empty_group().buffer);
        }
        r
    }

    /// Selects the group that the following files go to.
    pub fn load_group(&mut self, group: Group)
        requires
            old(self).wf(),
        ensures
            final(self).wf(),
            final(self)@ == (IceWriterView { group1: old(self)@.group1, group2: old(self)@.group2, current: group }),
    {
        self.current_group = group;
    }

    /// Begins a new file in the current group: the previous file's size is
    /// recorded, and the file's data is written.
    pub fn new_file(&mut self, file: IceFileInfo)
        requires
            old(self).wf(),
        ensures
            final(self).wf(),
            final(self)@ == with_current(
                old(self)@,
                group_after_new_file(
                    current_group(old(self)@),
                    file.file_extension@,
                    file.filename@,
                    file.data@,
                ),
            ),
    {
        match self.current_group {
            Group::Group1 => self.group1.new_file(file),
            Group::Group2 => self.group2.new_file(file),
        }
    }

    /// Whether the archive's sizes fit in 32-bit words, which finishing it needs.
    pub fn fits(&self) -> (r: bool)
        requires
            self.wf(),
        ensures
            r == archive_fits(self@),
    {
        let l1 = sealed_body_len(&self.group1);
        let l2 = sealed_body_len(&self.group2);
        let n1 = self.group1.header.len();
        let n2 = self.group2.header.len();
        proof {
            assert(sealed_headers(self.group1.gview()).len() == n1);
            assert(sealed_headers(self.group2.gview()).len() == n2);
        }
        match (l1, l2) {
            (Some(a), Some(b)) => {
                0x150 + a + b <= 0xFFFF_FFFFu64 && n1 as u64 <= 0xFFFF_FFFFu64 && n2 as u64 <= 0xFFFF_FFFFu64
            },
            _ => false,
        }
    }

    /// Finishes the archive and returns its bytes.
    pub fn into_inner(self) -> (r: Vec<u8>)
        requires
            self.wf(),
            archive_fits(self@),
        ensures
            r@ == archive_bytes(self@),
    {
        let ghost v = self@;
        let mut this = self;
        this.group1.seal();
        this.group2.seal();
        let mut b1: Vec<u8> = Vec::new();
        write_group(&this.group1.header, &this.group1.buffer, &mut b1);
        let mut b2: Vec<u8> = Vec::new();
        write_group(&this.group2.header, &this.group2.buffer, &mut b2);
        let n1 = this.group1.header.len();
        let n2 = this.group2.header.len();
        let mut total: Vec<u8> = Vec::new();
        append_bytes(&mut total, b1.as_slice());
        append_bytes(&mut total, b2.as_slice());
        let empty: Vec<u8> = Vec::new();
        let crc_group1 = crc32(empty.as_slice());
        let crc_total = crc32(total.as_slice());
        let len1 = b1.len() as u32;
        let len2 = b2.len() as u32;
        let mut out: Vec<u8> = Vec::new();
        out.push(0x49u8);
        out.push(0x43u8);
        out.push(0x45u8);
        out.push(0u8);
        push_u32_le(&mut out, 0);
        push_u32_le(&mut out, 4);
        push_u32_le(&mut out, 0x80);
        push_u32_le(&mut out, 0xFF);
        push_u32_le(&mut out, crc_total);
        push_u32_le(&mut out, 0);
        push_u32_le(&mut out, 0x10 + 0x10 + 0x100 + 0x30 + len1 + len2);
        push_zeros(&mut out, 0x100);
        push_u32_le(&mut out, len1);
        push_u32_le(&mut out, 0);
        push_u32_le(&mut out, n1 as u32);
        push_u32_le(&mut out, crc_group1);
        push_u32_le(&mut out, len2);
        push_u32_le(&mut out, 0);
        push_u32_le(&mut out, n2 as u32);
        push_u32_le(&mut out, crc_total);
        push_u32_le(&mut out, 0);
        push_u32_le(&mut out, 0);
        push_u32_le(&mut out, 0);
        push_u32_le(&mut out, 0);
        append_bytes(&mut out, total.as_slice());
        proof {
            assert(empty@ =~= Seq::<u8>::empty());
            assert(total@ =~= sealed_body(v.group1) + sealed_body(v.group2));
            assert(out@ =~= archive_bytes(v));
        }
        out
    }

    /// Writes more data to the current file of the current group.
    pub fn write(&mut self, buf: &[u8]) -> (wrote: usize)
        requires
            old(self).wf(),
        ensures
            final(self).wf(),
            wrote == buf@.len(),
            final(self)@ == with_current(old(self)@, group_after_write(current_group(old(self)@), buf@)),
    {
        match self.current_group {
            Group::Group1 => self.group1.write(buf),
            Group::Group2 => self.group2.write(buf),
        }
    }
}

// ---------------------------------------------------------------------------
// What a group holds
// ---------------------------------------------------------------------------

/// A file as it is handed to `new_file`: extension, name and data.
pub struct FileSpec {
    pub ext: Seq<char>,
    pub name: Seq<char>,
    pub data: Seq<u8>,
}

/// An empty group.
pub open spec fn empty_group() -> GroupView {
    GroupView { headers: Seq::empty(), buffer: Seq::empty(), file_size: 0 }
}

/// A fresh group after `new_file` is called with each of `files` in order.
pub open spec fn group_of(files: Seq<FileSpec>) -> GroupView
    decreases files.len(),
{
    if files.len() == 0 {
        empty_group()
    } else {
        let f = files.last();
        group_after_new_file(group_of(files.drop_last()), f.ext, f.name, f.data)
    }
}

/// The header of file `f`, with its data size.
pub open spec fn file_header(f: FileSpec) -> HeaderView {
    HeaderView { ext: f.ext, name: f.name, data_size: f.data.len() as u32 }
}

/// The entry of file `f` in a group's body: its header, its data and the
/// padding after it.
pub open spec fn file_entry(f: FileSpec) -> Seq<u8> {
    header_bytes(file_header(f)) + f.data + zeros(entry_padding(file_header(f)) as nat)
}

/// The entries of `files`, in order.
pub open spec fn entries_of(files: Seq<FileSpec>) -> Seq<u8>
    decreases files.len(),
{
    if files.len() == 0 {
        Seq::empty()
    } else {
        file_entry(files[0]) + entries_of(files.drop_first())
    }
}

/// The data of `files`, one after the other.
pub open spec fn data_of(files: Seq<FileSpec>) -> Seq<u8>
    decreases files.len(),
{
    if files.len() == 0 {
        Seq::empty()
    } else {
        data_of(files.drop_last()) + files.last().data
    }
}

/// Every file's data fits a 32-bit size.
pub open spec fn sizes_fit(files: Seq<FileSpec>) -> bool {
    forall|i: int| 0 <= i < files.len() ==> (#[trigger] files[i]).data.len() <= u32::MAX
}

proof fn lemma_group_of(files: Seq<FileSpec>)
    requires
        sizes_fit(files),
    ensures
        sealed_headers(group_of(files)) == files.map_values(|f: FileSpec| file_header(f)),
        group_of(files).buffer == data_of(files),
        group_of(files).headers.len() == files.len(),
        files.len() > 0 ==> group_of(files).file_size == files.last().data.len(),
    decreases files.len(),
{
    if files.len() > 0 {
        let prev = files.drop_last();
        assert(sizes_fit(prev)) by {
            assert forall|i: int| 0 <= i < prev.len() implies (#[trigger] prev[i]).data.len() <= u32::MAX by {
                assert(prev[i] == files[i]);
            }
        }
        lemma_group_of(prev);
        let g = group_of(prev);
        let f = files.last();
        let h = HeaderView { ext: f.ext, name: f.name, data_size: 0 };
        let g2 = group_of(files);
        assert(g2.headers == sealed_headers(g).push(h));
        assert(files[files.len() - 1].data.len() <= u32::MAX);
        assert(sealed_headers(g2) =~= files.map_values(|f: FileSpec| file_header(f))) by {
            assert(prev.map_values(|f: FileSpec| file_header(f)).push(file_header(f)) =~= files.map_values(
                |f: FileSpec| file_header(f),
            ));
        }
    }
}

proof fn lemma_data_of_front(files: Seq<FileSpec>)
    requires
        files.len() > 0,
    ensures
        data_of(files) == files[0].data + data_of(files.drop_first()),
    decreases files.len(),
{
    if files.len() > 1 {
        lemma_data_of_front(files.drop_last());
        assert(files.drop_last().drop_first() =~= files.drop_first().drop_last());
        assert(data_of(files.drop_first()) == data_of(files.drop_first().drop_last()) + files.drop_first().last().data);
        assert(data_of(files) =~= files[0].data + data_of(files.drop_first()));
    } else {
        assert(files.drop_last().len() == 0);
        assert(files.drop_first().len() == 0);
        assert(data_of(files.drop_last()) == Seq::<u8>::empty());
        assert(data_of(files.drop_first()) == Seq::<u8>::empty());
        assert(files.last() == files[0]);
        assert(data_of(files) == data_of(files.drop_last()) + files.last().data);
        assert(data_of(files) =~= files[0].data + data_of(files.drop_first()));
    }
}

proof fn lemma_body_of_files(files: Seq<FileSpec>)
    requires
        sizes_fit(files),
    ensures
        group_body(files.map_values(|f: FileSpec| file_header(f)), data_of(files)) == entries_of(files),
    decreases files.len(),
{
    let hs = files.map_values(|f: FileSpec| file_header(f));
    if files.len() == 0 {
        assert(hs.len() == 0);
    } else {
        let rest = files.drop_first();
        assert(sizes_fit(rest)) by {
            assert forall|i: int| 0 <= i < rest.len() implies (#[trigger] rest[i]).data.len() <= u32::MAX by {
                assert(rest[i] == files[i + 1]);
            }
        }
        lemma_body_of_files(rest);
        lemma_data_of_front(files);
        let d0 = files[0].data;
        let buf = data_of(files);
        assert(files[0].data.len() <= u32::MAX);
        assert(hs[0] == file_header(files[0]));
        assert(hs[0].data_size == d0.len());
        assert(buf.take(d0.len() as int) =~= d0);
        assert(buf.skip(d0.len() as int) =~= data_of(rest));
        assert(hs.drop_first() =~= rest.map_values(|f: FileSpec| file_header(f)));
        assert(group_body(hs, buf) == header_bytes(hs[0]) + buf.take(d0.len() as int) + zeros(
            entry_padding(hs[0]) as nat,
        ) + group_body(hs.drop_first(), buf.skip(d0.len() as int)));
        assert(group_body(hs, buf) =~= entries_of(files));
    }
}

/// What an archive group holds: when files are added to a fresh group one
/// after another, the group's body is, for each file in order, its header
/// (recording the file's size), the file's data, and the padding to 16 bytes.
pub proof fn law_group_holds_files(files: Seq<FileSpec>)
    requires
        sizes_fit(files),
    ensures
        sealed_body(group_of(files)) == entries_of(files),
{
    lemma_group_of(files);
    lemma_body_of_files(files);
}

/// A call on an [`IceWriter`]: `load_group`, `new_file` or `write`.
pub enum WriterCall {
    LoadGroup(Group),
    NewFile(FileSpec),
    Write(Seq<u8>),
}

/// The writer's state after `calls`, in order, starting from `v`.
pub open spec fn writer_after(v: IceWriterView, calls: Seq<WriterCall>) -> IceWriterView
    decreases calls.len(),
{
    if calls.len() == 0 {
        v
    } else {
        let prev = writer_after(v, calls.drop_last());
        match calls.last() {
            WriterCall::LoadGroup(g) => IceWriterView { group1: prev.group1, group2: prev.group2, current: g },
            WriterCall::NewFile(f) => with_current(prev, group_after_new_file(current_group(prev), f.ext, f.name, f.data)),
            WriterCall::Write(d) => with_current(prev, group_after_write(current_group(prev), d)),
        }
    }
}

/// The file `f` with `d` written after its data.
pub open spec fn extended(f: FileSpec, d: Seq<u8>) -> FileSpec {
    FileSpec { ext: f.ext, name: f.name, data: f.data + d }
}

/// The files `files` with `d` written after the data of the last one.
pub open spec fn extend_last(files: Seq<FileSpec>, d: Seq<u8>) -> Seq<FileSpec> {
    files.update(files.len() - 1, extended(files.last(), d))
}

/// What `calls` put into a fresh writer: the group that ends current, the
/// files of each group (each with all the data written to it), and whether
/// every write went to a group that had a file begun.
pub open spec fn files_of_calls(calls: Seq<WriterCall>) -> (Group, Seq<FileSpec>, Seq<FileSpec>, bool)
    decreases calls.len(),
{
    if calls.len() == 0 {
        (Group::Group1, Seq::empty(), Seq::empty(), true)
    } else {
        let (cur, f1, f2, ok) = files_of_calls(calls.drop_last());
        match calls.last() {
            WriterCall::LoadGroup(g) => (g, f1, f2, ok),
            WriterCall::NewFile(f) => match cur {
                Group::Group1 => (cur, f1.push(f), f2, ok),
                Group::Group2 => (cur, f1, f2.push(f), ok),
            },
            WriterCall::Write(d) => match cur {
                Group::Group1 => (cur, if f1.len() > 0 { extend_last(f1, d) } else { f1 }, f2, ok && f1.len() > 0),
                Group::Group2 => (cur, f1, if f2.len() > 0 { extend_last(f2, d) } else { f2 }, ok && f2.len() > 0),
            },
        }
    }
}

proof fn lemma_write_extends(files: Seq<FileSpec>, d: Seq<u8>)
    requires
        files.len() > 0,
    ensures
        group_after_write(group_of(files), d) == group_of(extend_last(files, d)),
{
    let ext = extend_last(files, d);
    assert(ext.drop_last() =~= files.drop_last());
    assert(ext.last() == extended(files.last(), d));
    let g = group_of(files.drop_last());
    let f = files.last();
    assert(group_of(files).buffer + d =~= g.buffer + (f.data + d));
}

/// The state of a fresh writer.
pub open spec fn fresh_writer() -> IceWriterView {
    IceWriterView { group1: empty_group(), group2: empty_group(), current: Group::Group1 }
}

proof fn lemma_writer_groups(calls: Seq<WriterCall>)
    requires
        files_of_calls(calls).3,
    ensures
        ({
            let (cur, f1, f2, ok) = files_of_calls(calls);
            writer_after(fresh_writer(), calls) == IceWriterView { group1: group_of(f1), group2: group_of(f2), current: cur }
        }),
    decreases calls.len(),
{
    if calls.len() > 0 {
        let prev = calls.drop_last();
        let (cur, f1, f2, ok) = files_of_calls(prev);
        assert(ok);
        lemma_writer_groups(prev);
        match calls.last() {
            WriterCall::LoadGroup(g) => {},
            WriterCall::NewFile(f) => {
                match cur {
                    Group::Group1 => {
                        assert(f1.push(f).drop_last() =~= f1);
                    },
                    Group::Group2 => {
                        assert(f2.push(f).drop_last() =~= f2);
                    },
                }
            },
            WriterCall::Write(d) => {
                match cur {
                    Group::Group1 => {
                        lemma_write_extends(f1, d);
                    },
                    Group::Group2 => {
                        lemma_write_extends(f2, d);
                    },
                }
            },
        }
    }
}

/// What an archive holds after any sequence of writer calls: when every
/// write goes to a group with a file begun, each group's body is, for each
/// file added to it in order, its header, all the data written to it, and the
/// padding to 16 bytes, and each group records as many files as were begun
/// in it; so the finished archive is the archive of those files.
pub proof fn law_archive_after_calls(calls: Seq<WriterCall>)
    requires
        files_of_calls(calls).3,
        sizes_fit(files_of_calls(calls).1),
        sizes_fit(files_of_calls(calls).2),
    ensures
        sealed_body(writer_after(fresh_writer(), calls).group1) == entries_of(files_of_calls(calls).1),
        sealed_body(writer_after(fresh_writer(), calls).group2) == entries_of(files_of_calls(calls).2),
        sealed_headers(writer_after(fresh_writer(), calls).group1).len() == files_of_calls(calls).1.len(),
        sealed_headers(writer_after(fresh_writer(), calls).group2).len() == files_of_calls(calls).2.len(),
{
    lemma_writer_groups(calls);
    lemma_group_of(files_of_calls(calls).1);
    lemma_group_of(files_of_calls(calls).2);
    law_group_holds_files(files_of_calls(calls).1);
    law_group_holds_files(files_of_calls(calls).2);
}

/// The header of a finished archive: its size field (bytes 28 to 32) is the
/// archive's length, 0x150 plus the two group bodies; its checksum (bytes 20
/// to 24) is the CRC-32 of everything after the 0x150-byte header, which is
/// the two bodies; and the group table records each group's file count
/// (bytes 0x128 and 0x138).
pub proof fn law_archive_header(v: IceWriterView)
    requires
        archive_fits(v),
    ensures
        ({
            let a = archive_bytes(v);
            &&& a.len() == 0x150 + sealed_body(v.group1).len() + sealed_body(v.group2).len()
            &&& a.subrange(28, 32) == le32(a.len() as u32)
            &&& a.skip(0x150) == sealed_body(v.group1) + sealed_body(v.group2)
            &&& a.subrange(20, 24) == le32(crc32_of(a.skip(0x150)))
            &&& a.subrange(0x128, 0x12C) == le32(sealed_headers(v.group1).len() as u32)
            &&& a.subrange(0x138, 0x13C) == le32(sealed_headers(v.group2).len() as u32)
        }),
{
    let b1 = sealed_body(v.group1);
    let b2 = sealed_body(v.group2);
    let total = b1 + b2;
    let a = archive_bytes(v);
    let p20 = ice_magic() + le32(0xFF);
    assert(p20.len() == 20);
    let p28 = p20 + le32(crc32_of(total)) + le32(0);
    let p32 = p28 + le32((0x150 + b1.len() + b2.len()) as u32);
    let p0x120 = p32 + zeros(0x100);
    let p0x128 = p0x120 + le32(b1.len() as u32) + le32(0);
    let p0x12c = p0x128 + le32(sealed_headers(v.group1).len() as u32);
    let p0x138 = p0x12c + le32(crc32_of(Seq::empty())) + le32(b2.len() as u32) + le32(0);
    let p0x13c = p0x138 + le32(sealed_headers(v.group2).len() as u32);
    let p0x150 = p0x13c + le32(crc32_of(total)) + le32(0) + le32(0) + le32(0) + le32(0);
    assert(p0x150.len() == 0x150);
    assert(a == p0x150 + total);
    assert(a.skip(0x150) =~= total);
    assert(a.subrange(20, 24) =~= le32(crc32_of(total)));
    assert(a.subrange(28, 32) =~= le32((0x150 + b1.len() + b2.len()) as u32));
    assert(a.subrange(0x128, 0x12C) =~= le32(sealed_headers(v.group1).len() as u32));
    assert(a.subrange(0x138, 0x13C) =~= le32(sealed_headers(v.group2).len() as u32));
}

/// A file added to a group adds one record after the group's earlier ones:
/// its header (see [`header_bytes`]: extension, record size, data size, data
/// offset, name length, zeros, padded name), its data, and the padding to 16.
pub proof fn law_new_file_appends_record(files: Seq<FileSpec>, f: FileSpec)
    ensures
        entries_of(files.push(f)) == entries_of(files) + file_entry(f),
    decreases files.len(),
{
    if files.len() == 0 {
        let one = files.push(f);
        assert(one.drop_first() =~= Seq::<FileSpec>::empty());
        assert(entries_of(one.drop_first()) == Seq::<u8>::empty());
        assert(one[0] == f);
        assert(entries_of(one) == file_entry(f) + entries_of(one.drop_first()));
        assert(entries_of(one) =~= file_entry(f));
        assert(entries_of(files) == Seq::<u8>::empty());
    } else {
        assert(files.push(f).drop_first() =~= files.drop_first().push(f));
        law_new_file_appends_record(files.drop_first(), f);
        assert(entries_of(files.push(f)) =~= entries_of(files) + file_entry(f));
    }
}

} // verus!
