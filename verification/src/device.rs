//! The storage handle: a byte-addressable device read and written in blocks,
//! and an in-memory device that behaves like a regular file of bounded size.

use vstd::prelude::*;

verus! {

/// Why a device refused a read or a write.
#[derive(Clone, Copy, Debug, PartialEq, Eq, Structural)]
pub enum DeviceError {
    /// The bytes asked for lie beyond the end of the device, or the block's
    /// offset cannot be represented.
    OutOfRange,
    /// The write would grow the device beyond its limit.
    NoSpace,
    /// The host reported a failure of its own.
    Failed,
}

/// Byte offset at which block `block_id` starts.
pub open spec fn block_offset(block_id: u64, block_len: nat) -> int {
    block_id as int * block_len as int
}

/// The byte at `i`, where everything past the end of the device reads as zero.
pub open spec fn byte_at(bytes: Seq<u8>, i: int) -> u8 {
    if 0 <= i < bytes.len() {
        bytes[i]
    } else {
        0u8
    }
}

/// `len` bytes starting at `off`, zero past the end.
pub open spec fn span(bytes: Seq<u8>, off: int, len: nat) -> Seq<u8> {
    Seq::new(len, |i: int| byte_at(bytes, off + i))
}

/// The device after `data` has been written at `off`: a write past the end
/// grows the device, and the gap reads as zero.
pub open spec fn written(bytes: Seq<u8>, off: int, data: Seq<u8>) -> Seq<u8> {
    let end = off + data.len();
    let len = if end > bytes.len() { end } else { bytes.len() as int };
    Seq::new(
        len as nat,
        |i: int| if off <= i < end { data[i - off] } else { byte_at(bytes, i) },
    )
}

/// What was written is what is read back at the same place.
pub proof fn lemma_written_same(bytes: Seq<u8>, off: int, data: Seq<u8>)
    requires
        0 <= off,
    ensures
        span(written(bytes, off, data), off, data.len()) == data,
{
    assert(span(written(bytes, off, data), off, data.len()) =~= data);
}

/// A write leaves every span that it does not touch as it was.
pub proof fn lemma_written_apart(bytes: Seq<u8>, off: int, data: Seq<u8>, at: int, len: nat)
    requires
        0 <= off,
        0 <= at,
        at + len <= off || off + data.len() <= at,
    ensures
        span(written(bytes, off, data), at, len) == span(bytes, at, len),
{
    assert(span(written(bytes, off, data), at, len) =~= span(bytes, at, len));
}

/// Two different blocks do not overlap.
pub proof fn lemma_blocks_apart(a: int, b: int, block_len: nat)
    requires
        0 <= a < b,
    ensures
        0 <= a * block_len,
        a * block_len + block_len <= b * block_len,
{
    assert(a * block_len + block_len <= b * block_len) by (nonlinear_arith)
        requires
            0 <= a < b,
            0 <= block_len,
    ;
    assert(0 <= a * block_len) by (nonlinear_arith)
        requires
            0 <= a,
            0 <= block_len,
    ;
}

/// A device addressed by block number. Reads and writes start at the first
/// byte of a block and cover as many bytes as the buffer holds.
///
/// A device can fail whenever it likes. One that does not is reliable: it
/// refuses a read exactly when the bytes asked for lie beyond its end, and a
/// write exactly when it would grow the device beyond its limit, and a
/// refused write leaves it as it was.
///
/// The five spec functions describe a device to the verifier. They have
/// bodies only so that code outside the verifier can implement the trait
/// without them; every verified implementation states its own.
pub trait BlockDevice {
    /// Everything the device holds, byte by byte.
    open spec fn contents(&self) -> Seq<u8> {
        arbitrary()
    }

    /// Bytes per block.
    open spec fn block_len(&self) -> nat {
        arbitrary()
    }

    /// The size in bytes beyond which the device does not grow.
    open spec fn limit(&self) -> nat {
        arbitrary()
    }

    /// Whether the device fails only for want of range or space.
    open spec fn reliable(&self) -> bool {
        false
    }

    /// What every usable device satisfies.
    open spec fn inv(&self) -> bool {
        arbitrary()
    }

    fn block_size(&self) -> (n: usize)
        requires
            self.inv(),
        ensures
            n == self.block_len(),
    ;

    /// Fills `buf` from the start of block `block_id`. The device itself is
    /// left as it was; on failure nothing is known of `buf` but its length.
    /// No device says that bytes are out of range unless they are.
    fn read_block(&mut self, block_id: u64, buf: &mut Vec<u8>) -> (r: Result<(), DeviceError>)
        requires
            old(self).inv(),
        ensures
            final(self).inv(),
            final(self).contents() == old(self).contents(),
            final(self).block_len() == old(self).block_len(),
            final(self).limit() == old(self).limit(),
            final(self).reliable() == old(self).reliable(),
            final(buf)@.len() == old(buf)@.len(),
            r is Ok ==> {
                let off = block_offset(block_id, old(self).block_len());
                &&& off + old(buf)@.len() <= old(self).contents().len()
                &&& final(buf)@ == span(old(self).contents(), off, old(buf)@.len())
            },
            r == Err::<(), DeviceError>(DeviceError::OutOfRange) ==> block_offset(
                block_id,
                old(self).block_len(),
            ) + old(buf)@.len() > old(self).contents().len(),
            old(self).reliable() ==> r == read_outcome(
                old(self).contents(),
                block_offset(block_id, old(self).block_len()),
                old(buf)@.len(),
            ),
    ;

    /// Writes `buf` at the start of block `block_id`. Where an unreliable
    /// device fails, nothing is known of its contents.
    fn write_block(&mut self, block_id: u64, buf: &[u8]) -> (r: Result<(), DeviceError>)
        requires
            old(self).inv(),
        ensures
            final(self).inv(),
            final(self).block_len() == old(self).block_len(),
            final(self).limit() == old(self).limit(),
            final(self).reliable() == old(self).reliable(),
            r is Ok ==> {
                let off = block_offset(block_id, old(self).block_len());
                &&& off + buf@.len() <= old(self).limit()
                &&& final(self).contents() == written(old(self).contents(), off, buf@)
            },
            old(self).reliable() ==> {
                let off = block_offset(block_id, old(self).block_len());
                &&& r == write_outcome(old(self).limit(), off, buf@.len())
                &&& r is Err ==> final(self).contents() == old(self).contents()
            },
    ;
}

/// What a reliable device answers to a read of `len` bytes at `off`.
pub open spec fn read_outcome(contents: Seq<u8>, off: int, len: nat) -> Result<(), DeviceError> {
    if off + len <= contents.len() {
        Ok(())
    } else {
        Err(DeviceError::OutOfRange)
    }
}

/// What a reliable device with the limit `limit` answers to a write of
/// `len` bytes at `off`.
pub open spec fn write_outcome(limit: nat, off: int, len: nat) -> Result<(), DeviceError> {
    if off + len <= limit {
        Ok(())
    } else {
        Err(DeviceError::NoSpace)
    }
}

/// Writes `buf` into `data` at `start`, growing `data` with zeros where it
/// is too short. The result must not be longer than a vector can be.
pub fn write_at(data: &mut Vec<u8>, start: usize, buf: &[u8])
    requires
        start + buf@.len() <= isize::MAX,
    ensures
        final(data)@ == written(old(data)@, start as int, buf@),
{
    let len = buf.len();
    let end: usize = start + len;
    let ghost before = data@;
    if data.len() < end {
        data.resize(end, 0u8);
    }
    let ghost grown = data@;
    assert forall|j: int| 0 <= j < grown.len() implies grown[j] == byte_at(before, j) by {
        if j < before.len() {
            assert(grown.subrange(0, before.len() as int)[j] == before[j]);
        }
    }
    let mut i: usize = 0;
    while i < len
        invariant
            i <= len,
            len == buf@.len(),
            end == start + len,
            data@.len() == grown.len(),
            end <= grown.len(),
            forall|j: int| 0 <= j < i ==> data@[start + j] == buf@[j],
            forall|j: int| 0 <= j < grown.len() && !(start <= j < start + i) ==> data@[j] == grown[j],
        decreases len - i,
    {
        data[start + i] = buf[i];
        i = i + 1;
    }
    assert(data@ =~= written(before, start as int, buf@));
}

/// Cuts `data` to `len` bytes, or fills it up to `len` bytes with zeros.
/// The result must not be longer than a vector can be.
pub fn resize_to(data: &mut Vec<u8>, len: usize)
    requires
        len <= isize::MAX,
    ensures
        final(data)@ == span(old(data)@, 0, len as nat),
{
    let ghost before = data@;
    data.resize(len, 0u8);
    assert forall|j: int| 0 <= j < len implies data@[j] == byte_at(before, j) by {
        if j < before.len() && len > before.len() {
            assert(data@.subrange(0, before.len() as int)[j] == before[j]);
        }
    }
    assert(data@ =~= span(before, 0, len as nat));
}

/// A device held in memory. It behaves like a regular file: it starts
/// empty, a write past its end grows it (the gap reads as zero), and a write
/// past `limit` bytes is refused for want of space. It is reliable: it
/// fails for no other reason.
pub struct MemDevice {
    data: Vec<u8>,
    block_size: usize,
    limit: usize,
}

impl MemDevice {
    /// An empty device with blocks of `block_size` bytes that can grow to
    /// `limit` bytes, or to the length that a vector can have if that is
    /// less.
    pub fn new(block_size: usize, limit: usize) -> (d: MemDevice)
        ensures
            d.inv(),
            d.contents() == Seq::<u8>::empty(),
            d.block_len() == block_size,
            d.limit() == if limit <= isize::MAX {
                limit as int
            } else {
                isize::MAX as int
            },
    {
        let limit = if limit <= isize::MAX as usize {
            limit
        } else {
            isize::MAX as usize
        };
        MemDevice { data: Vec::new(), block_size, limit }
    }

    /// A device that holds `blocks` blocks of zeros and can hold no more;
    /// none where that is more than a vector can hold.
    pub fn zeroed(block_size: usize, blocks: usize) -> (d: Option<MemDevice>)
        ensures
            block_size * blocks > isize::MAX <==> d is None,
            d matches Some(d) ==> {
                &&& d.inv()
                &&& d.contents() == Seq::new((block_size * blocks) as nat, |i: int| 0u8)
                &&& d.block_len() == block_size
                &&& d.limit() == block_size * blocks
            },
    {
        match block_size.checked_mul(blocks) {
            None => None,
            Some(len) => {
                if len > isize::MAX as usize {
                    return None;
                }
                let data = vec![0u8; len];
                assert(data@ =~= Seq::new(len as nat, |i: int| 0u8));
                Some(MemDevice { data, block_size, limit: len })
            },
        }
    }

    /// The bytes the device holds.
    pub fn as_bytes(&self) -> (b: &Vec<u8>)
        ensures
            b@ == self.contents(),
    {
        &self.data
    }
}

impl BlockDevice for MemDevice {
    closed spec fn contents(&self) -> Seq<u8> {
        self.data@
    }

    closed spec fn block_len(&self) -> nat {
        self.block_size as nat
    }

    closed spec fn limit(&self) -> nat {
        self.limit as nat
    }

    open spec fn reliable(&self) -> bool {
        true
    }

    closed spec fn inv(&self) -> bool {
        self.data@.len() <= self.limit <= isize::MAX
    }

    fn block_size(&self) -> (n: usize) {
        self.block_size
    }

    fn read_block(&mut self, block_id: u64, buf: &mut Vec<u8>) -> (r: Result<(), DeviceError>)
        ensures
            r is Err ==> final(buf)@ == old(buf)@,
    {
        let len = buf.len();
        let bs = self.block_size;
        assert(block_id as u128 * bs as u128 <= u64::MAX as u128 * usize::MAX as u128)
            by (nonlinear_arith)
            requires
                block_id <= u64::MAX,
                bs <= usize::MAX,
        ;
        let off: u128 = block_id as u128 * bs as u128;
        if off + len as u128 > self.data.len() as u128 {
            return Err(DeviceError::OutOfRange);
        }
        let start: usize = off as usize;
        let mut i: usize = 0;
        while i < len
            invariant
                i <= len,
                len == buf@.len(),
                start + len <= self.data@.len() <= usize::MAX,
                forall|j: int| 0 <= j < i ==> buf@[j] == self.data@[start + j],
            decreases len - i,
        {
            buf[i] = self.data[start + i];
            i = i + 1;
        }
        assert(buf@ =~= span(self.data@, start as int, len as nat));
        Ok(())
    }

    fn write_block(&mut self, block_id: u64, buf: &[u8]) -> (r: Result<(), DeviceError>) {
        let len = buf.len();
        let bs = self.block_size;
        assert(block_id as u128 * bs as u128 <= u64::MAX as u128 * usize::MAX as u128)
            by (nonlinear_arith)
            requires
                block_id <= u64::MAX,
                bs <= usize::MAX,
        ;
        let off: u128 = block_id as u128 * bs as u128;
        if off + len as u128 > self.limit as u128 {
            return Err(DeviceError::NoSpace);
        }
        let start: usize = off as usize;
        write_at(&mut self.data, start, buf);
        Ok(())
    }
}

} // verus!
