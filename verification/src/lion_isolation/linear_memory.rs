//! Reads and writes in a plugin's linear memory, seen as its bytes, with bounds checks.

use vstd::prelude::*;

verus! {

/// The bytes of a memory at `offset..offset + len`.
pub open spec fn region(memory: Seq<u8>, offset: int, len: int) -> Seq<u8> {
    memory.subrange(offset, offset + len)
}

/// A memory with `data` written at `offset`.
pub open spec fn written(memory: Seq<u8>, offset: int, data: Seq<u8>) -> Seq<u8> {
    memory.subrange(0, offset) + data + memory.subrange(offset + data.len(), memory.len() as int)
}

/// A read of the region just written gives back what was written, and a write leaves every
/// byte outside its region, and the memory's size, as they were.
pub proof fn lemma_read_after_write(memory: Seq<u8>, offset: int, data: Seq<u8>)
    requires
        0 <= offset,
        offset + data.len() <= memory.len(),
    ensures
        region(written(memory, offset, data), offset, data.len() as int) == data,
        written(memory, offset, data).len() == memory.len(),
        forall|i: int|
            0 <= i < memory.len() && !(offset <= i < offset + data.len()) ==> written(
                memory,
                offset,
                data,
            )[i] == memory[i],
{
    assert(region(written(memory, offset, data), offset, data.len() as int) =~= data);
}

/// The bytes at `offset..offset + len` of a memory, or `None` where they run past its end.
pub fn read_region(memory: &[u8], offset: usize, len: usize) -> (r: Option<Vec<u8>>)
    ensures
        match r {
            None => offset + len > memory@.len(),
            Some(v) => offset + len <= memory@.len() && v@ == region(
                memory@,
                offset as int,
                len as int,
            ),
        },
{
    if len > memory.len() || offset > memory.len() - len {
        return None;
    }
    let mut v: Vec<u8> = Vec::new();
    let mut i: usize = 0;
    while i < len
        invariant
            i <= len,
            offset + len <= memory@.len(),
            memory@.len() == memory.len(),
            v@ == memory@.subrange(offset as int, offset + i),
        decreases len - i,
    {
        v.push(memory[offset + i]);
        i = i + 1;
        assert(v@ =~= memory@.subrange(offset as int, offset + i));
    }
    Some(v)
}

/// Write `data` into a memory at `offset`. Nothing is written, and `false` is returned,
/// where the data would run past the memory's end.
pub fn write_region(memory: &mut [u8], offset: usize, data: &[u8]) -> (r: bool)
    ensures
        r == (offset + data@.len() <= old(memory)@.len()),
        r ==> final(memory)@ == written(old(memory)@, offset as int, data@),
        !r ==> final(memory)@ == old(memory)@,
{
    let len = data.len();
    if len > memory.len() || offset > memory.len() - len {
        return false;
    }
    let ghost before = memory@;
    let mut i: usize = 0;
    while i < len
        invariant
            i <= len,
            len == data@.len(),
            offset + len <= before.len(),
            memory@.len() == before.len(),
            memory@.len() == memory.len(),
            memory@ == before.subrange(0, offset as int) + data@.subrange(0, i as int)
                + before.subrange(offset + i, before.len() as int),
        decreases len - i,
    {
        memory[offset + i] = data[i];
        i = i + 1;
        assert(memory@ =~= before.subrange(0, offset as int) + data@.subrange(0, i as int)
            + before.subrange(offset + i, before.len() as int));
    }
    assert(data@.subrange(0, len as int) =~= data@);
    true
}

/// How many bytes from `offset` precede the first zero byte, or the memory's end.
pub fn null_terminated_len(memory: &[u8], offset: usize) -> (r: usize)
    ensures
        offset <= memory@.len() ==> offset + r <= memory@.len(),
        offset > memory@.len() ==> r == 0,
        forall|i: int| offset <= i < offset + r ==> memory@[i] != 0,
        offset + r < memory@.len() ==> memory@[offset + r] == 0,
{
    if offset >= memory.len() {
        return 0;
    }
    let mut len: usize = 0;
    while offset + len < memory.len() && memory[offset + len] != 0
        invariant
            offset < memory@.len(),
            offset + len <= memory@.len(),
            memory@.len() == memory.len(),
            forall|i: int| offset <= i < offset + len ==> memory@[i] != 0,
        decreases memory@.len() - offset - len,
    {
        len = len + 1;
    }
    len
}

} // verus!
