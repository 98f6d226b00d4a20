//! What one inode block holds: the attributes, content and path of an inode,
//! framed by a length and padded with zeros to the size of a block; and the
//! directory entry list that is the content of a directory.

use crate::codec::{
    bincode_entries, bincode_parse_entries, bincode_parse_record, bincode_record, entries_layout,
    entry_fields_view, le_bytes, le_value, lemma_attr_unique, lemma_entries_unique,
    lemma_record_unique, lemma_starts_extension, lemma_u32_unique, record_layout, u32_le,
    AttrFields, EntryFields, ATTR_LEN,
};
use crate::error::FsError;
use vstd::prelude::*;
use vstd::slice::slice_subrange;

verus! {

/// Number of bytes of the length that starts an inode block.
pub const LEN_PREFIX: usize = 4;

/// The largest block size a device may have: a block must fit a vector.
pub const MAX_BLOCK_SIZE: usize = isize::MAX as usize;

/// The kind of a filesystem object.
#[derive(Clone, Copy, Debug, PartialEq, Eq, Structural)]
pub enum SerializableFileType {
    RegularFile,
    Directory,
    Symlink,
    CharDevice,
    BlockDevice,
    NamedPipe,
    Socket,
}

/// A point in time: seconds and nanoseconds since the epoch.
#[derive(Clone, Copy, Debug, PartialEq, Eq, Structural)]
pub struct Timestamp {
    pub secs: u64,
    pub nanos: u32,
}

/// The attributes of an inode.
#[derive(Clone, Copy, Debug, PartialEq, Eq, Structural)]
pub struct SerializableFileAttr {
    pub ino: u64,
    pub size: u64,
    pub blocks: u64,
    pub atime: Timestamp,
    pub mtime: Timestamp,
    pub ctime: Timestamp,
    pub crtime: Timestamp,
    pub kind: SerializableFileType,
    pub perm: u16,
    pub nlink: u32,
    pub uid: u32,
    pub gid: u32,
    pub rdev: u32,
    pub flags: u32,
    pub blksize: u32,
}

/// One inode as it is persisted: attributes, raw content (for a directory,
/// its stored entry list) and the absolute path.
#[derive(Debug)]
pub struct PersistedInode {
    pub attr: SerializableFileAttr,
    pub data: Vec<u8>,
    pub path: String,
}

/// What a persisted inode holds.
pub struct InodeView {
    pub attr: SerializableFileAttr,
    pub data: Seq<u8>,
    pub path: Seq<char>,
}

/// One name in a directory and the inode it stands for.
#[derive(Debug)]
pub struct DirectoryEntry {
    pub name: String,
    pub ino: u64,
}

impl SerializableFileType {
    /// The number under which the kind is stored.
    pub open spec fn spec_index(self) -> u32 {
        match self {
            SerializableFileType::RegularFile => 0,
            SerializableFileType::Directory => 1,
            SerializableFileType::Symlink => 2,
            SerializableFileType::CharDevice => 3,
            SerializableFileType::BlockDevice => 4,
            SerializableFileType::NamedPipe => 5,
            SerializableFileType::Socket => 6,
        }
    }

    /// The kind stored under `index`, if there is one.
    pub open spec fn spec_from_index(index: u32) -> Option<SerializableFileType> {
        if index == 0 {
            Some(SerializableFileType::RegularFile)
        } else if index == 1 {
            Some(SerializableFileType::Directory)
        } else if index == 2 {
            Some(SerializableFileType::Symlink)
        } else if index == 3 {
            Some(SerializableFileType::CharDevice)
        } else if index == 4 {
            Some(SerializableFileType::BlockDevice)
        } else if index == 5 {
            Some(SerializableFileType::NamedPipe)
        } else if index == 6 {
            Some(SerializableFileType::Socket)
        } else {
            None
        }
    }

    /// The number under which the kind is stored.
    #[verifier::when_used_as_spec(spec_index)]
    pub fn index(self) -> (i: u32)
        ensures
            i == self.spec_index(),
            SerializableFileType::spec_from_index(i) == Some(self),
    {
        match self {
            SerializableFileType::RegularFile => 0,
            SerializableFileType::Directory => 1,
            SerializableFileType::Symlink => 2,
            SerializableFileType::CharDevice => 3,
            SerializableFileType::BlockDevice => 4,
            SerializableFileType::NamedPipe => 5,
            SerializableFileType::Socket => 6,
        }
    }

    /// The kind stored under `index`, if there is one.
    #[verifier::when_used_as_spec(spec_from_index)]
    pub fn from_index(index: u32) -> (k: Option<SerializableFileType>)
        ensures
            k == SerializableFileType::spec_from_index(index),
            k matches Some(kind) ==> kind.spec_index() == index,
    {
        if index == 0 {
            Some(SerializableFileType::RegularFile)
        } else if index == 1 {
            Some(SerializableFileType::Directory)
        } else if index == 2 {
            Some(SerializableFileType::Symlink)
        } else if index == 3 {
            Some(SerializableFileType::CharDevice)
        } else if index == 4 {
            Some(SerializableFileType::BlockDevice)
        } else if index == 5 {
            Some(SerializableFileType::NamedPipe)
        } else if index == 6 {
            Some(SerializableFileType::Socket)
        } else {
            None
        }
    }
}

/// The attributes of a newly created regular file: the given size, one
/// block, all four times now, permissions `rw-r--r--`, one link, owner and
/// group 1000.
pub open spec fn file_attr(ino: u64, size: u64, now: Timestamp) -> SerializableFileAttr {
    SerializableFileAttr {
        ino,
        size,
        blocks: 1,
        atime: now,
        mtime: now,
        ctime: now,
        crtime: now,
        kind: SerializableFileType::RegularFile,
        perm: 0o644,
        nlink: 1,
        uid: 1000,
        gid: 1000,
        rdev: 0,
        flags: 0,
        blksize: 512,
    }
}

/// The attributes of a newly created directory: empty, all four times now,
/// permissions `rwxr-xr-x`, two links, the given owner and group.
pub open spec fn directory_attr(ino: u64, uid: u32, gid: u32, now: Timestamp) -> SerializableFileAttr {
    SerializableFileAttr {
        ino,
        size: 0,
        blocks: 0,
        atime: now,
        mtime: now,
        ctime: now,
        crtime: now,
        kind: SerializableFileType::Directory,
        perm: 0o755,
        nlink: 2,
        uid,
        gid,
        rdev: 0,
        flags: 0,
        blksize: 512,
    }
}

impl SerializableFileAttr {
    /// The attributes of a newly created regular file.
    pub fn new_file(ino: u64, size: u64, now: Timestamp) -> (attr: SerializableFileAttr)
        ensures
            attr == file_attr(ino, size, now),
    {
        SerializableFileAttr {
            ino,
            size,
            blocks: 1,
            atime: now,
            mtime: now,
            ctime: now,
            crtime: now,
            kind: SerializableFileType::RegularFile,
            perm: 0o644,
            nlink: 1,
            uid: 1000,
            gid: 1000,
            rdev: 0,
            flags: 0,
            blksize: 512,
        }
    }

    /// The attributes of a newly created directory.
    pub fn new_directory(ino: u64, uid: u32, gid: u32, now: Timestamp) -> (attr:
        SerializableFileAttr)
        ensures
            attr == directory_attr(ino, uid, gid, now),
    {
        SerializableFileAttr {
            ino,
            size: 0,
            blocks: 0,
            atime: now,
            mtime: now,
            ctime: now,
            crtime: now,
            kind: SerializableFileType::Directory,
            perm: 0o755,
            nlink: 2,
            uid,
            gid,
            rdev: 0,
            flags: 0,
            blksize: 512,
        }
    }

    /// The attributes as they are stored, field by field.
    pub open spec fn spec_fields(self) -> AttrFields {
        (
            (self.ino, self.size, self.blocks),
            (
                (self.atime.secs, self.atime.nanos),
                (self.mtime.secs, self.mtime.nanos),
                (self.ctime.secs, self.ctime.nanos),
                (self.crtime.secs, self.crtime.nanos),
            ),
            (
                self.kind.spec_index(),
                self.perm,
                self.nlink,
                self.uid,
                self.gid,
                self.rdev,
                self.flags,
                self.blksize,
            ),
        )
    }

    /// The attributes that `f` stores, unless its kind is none of the known.
    pub open spec fn spec_from_fields(f: AttrFields) -> Option<SerializableFileAttr> {
        match SerializableFileType::spec_from_index(f.2.0) {
            None => None,
            Some(kind) => Some(
                SerializableFileAttr {
                    ino: f.0.0,
                    size: f.0.1,
                    blocks: f.0.2,
                    atime: Timestamp { secs: f.1.0.0, nanos: f.1.0.1 },
                    mtime: Timestamp { secs: f.1.1.0, nanos: f.1.1.1 },
                    ctime: Timestamp { secs: f.1.2.0, nanos: f.1.2.1 },
                    crtime: Timestamp { secs: f.1.3.0, nanos: f.1.3.1 },
                    kind,
                    perm: f.2.1,
                    nlink: f.2.2,
                    uid: f.2.3,
                    gid: f.2.4,
                    rdev: f.2.5,
                    flags: f.2.6,
                    blksize: f.2.7,
                },
            ),
        }
    }

    /// The attributes as they are stored, field by field.
    #[verifier::when_used_as_spec(spec_fields)]
    pub fn fields(self) -> (f: AttrFields)
        ensures
            f == self.spec_fields(),
            SerializableFileAttr::spec_from_fields(f) == Some(self),
    {
        (
            (self.ino, self.size, self.blocks),
            (
                (self.atime.secs, self.atime.nanos),
                (self.mtime.secs, self.mtime.nanos),
                (self.ctime.secs, self.ctime.nanos),
                (self.crtime.secs, self.crtime.nanos),
            ),
            (
                self.kind.index(),
                self.perm,
                self.nlink,
                self.uid,
                self.gid,
                self.rdev,
                self.flags,
                self.blksize,
            ),
        )
    }

    /// The attributes that `f` stores, unless its kind is none of the known.
    #[verifier::when_used_as_spec(spec_from_fields)]
    pub fn from_fields(f: AttrFields) -> (a: Option<SerializableFileAttr>)
        ensures
            a == SerializableFileAttr::spec_from_fields(f),
            a matches Some(attr) ==> attr.spec_fields() == f,
    {
        match SerializableFileType::from_index(f.2.0) {
            None => None,
            Some(kind) => Some(
                SerializableFileAttr {
                    ino: f.0.0,
                    size: f.0.1,
                    blocks: f.0.2,
                    atime: Timestamp { secs: f.1.0.0, nanos: f.1.0.1 },
                    mtime: Timestamp { secs: f.1.1.0, nanos: f.1.1.1 },
                    ctime: Timestamp { secs: f.1.2.0, nanos: f.1.2.1 },
                    crtime: Timestamp { secs: f.1.3.0, nanos: f.1.3.1 },
                    kind,
                    perm: f.2.1,
                    nlink: f.2.2,
                    uid: f.2.3,
                    gid: f.2.4,
                    rdev: f.2.5,
                    flags: f.2.6,
                    blksize: f.2.7,
                },
            ),
        }
    }
}

impl View for PersistedInode {
    type V = InodeView;

    open spec fn view(&self) -> InodeView {
        InodeView { attr: self.attr, data: self.data@, path: self.path@ }
    }
}

impl View for DirectoryEntry {
    type V = (Seq<char>, u64);

    open spec fn view(&self) -> (Seq<char>, u64) {
        (self.name@, self.ino)
    }
}

/// What a list of directory entries holds: each name by its characters.
pub open spec fn entries_view(es: Seq<DirectoryEntry>) -> Seq<(Seq<char>, u64)> {
    Seq::new(es.len(), |i: int| es[i]@)
}

impl InodeView {
    /// The stored form of the record, before it is framed.
    pub open spec fn layout(self) -> Seq<u8> {
        record_layout(self.attr.spec_fields(), self.data, self.path)
    }
}

/// Whether a payload of `payload_len` bytes fits into a block of `block_len`
/// bytes behind its length.
pub open spec fn fits(payload_len: nat, block_len: nat) -> bool {
    payload_len <= u32::MAX && LEN_PREFIX + payload_len <= block_len
}

/// The block that holds `payload`: its length in four bytes, little-endian,
/// the payload, and zeros up to the size of the block.
pub open spec fn frame(payload: Seq<u8>, block_len: nat) -> Seq<u8> {
    Seq::new(
        block_len,
        |i: int|
            if i < LEN_PREFIX {
                u32_le(payload.len() as u32)[i]
            } else if i < LEN_PREFIX + payload.len() {
                payload[i - LEN_PREFIX]
            } else {
                0u8
            },
    )
}

/// The payload that `block` holds, unless the stored length is zero or
/// reaches beyond the block.
pub open spec fn unframe(block: Seq<u8>) -> Option<Seq<u8>> {
    if block.len() < LEN_PREFIX {
        None
    } else {
        let len = le_value(block.subrange(0, LEN_PREFIX as int)) as int;
        if len == 0 || LEN_PREFIX + len > block.len() {
            None
        } else {
            Some(block.subrange(LEN_PREFIX as int, LEN_PREFIX + len))
        }
    }
}

/// Whether `payload` starts with the stored form of the record `t`.
pub open spec fn stores_record(payload: Seq<u8>, t: (AttrFields, Seq<u8>, Seq<char>)) -> bool {
    record_layout(t.0, t.1, t.2).is_prefix_of(payload)
}

/// The record that `payload` stores, if it stores one of a known kind.
pub open spec fn decode_record(payload: Seq<u8>) -> Option<InodeView> {
    if exists|t: (AttrFields, Seq<u8>, Seq<char>)| stores_record(payload, t) {
        let t = choose|t: (AttrFields, Seq<u8>, Seq<char>)| stores_record(payload, t);
        match SerializableFileAttr::spec_from_fields(t.0) {
            Some(attr) => Some(InodeView { attr, data: t.1, path: t.2 }),
            None => None,
        }
    } else {
        None
    }
}

/// The record that `block` holds, if it holds one.
pub open spec fn decode_block(block: Seq<u8>) -> Option<InodeView> {
    match unframe(block) {
        Some(payload) => decode_record(payload),
        None => None,
    }
}

/// Whether `bytes` start with the stored form of the entry list `es`.
pub open spec fn stores_entries(bytes: Seq<u8>, es: Seq<(Seq<char>, u64)>) -> bool {
    entries_layout(es).is_prefix_of(bytes)
}

/// The directory entry list that `bytes` store, if they store one.
pub open spec fn decode_entry_list(bytes: Seq<u8>) -> Option<Seq<(Seq<char>, u64)>> {
    if exists|es: Seq<(Seq<char>, u64)>| stores_entries(bytes, es) {
        Some(choose|es: Seq<(Seq<char>, u64)>| stores_entries(bytes, es))
    } else {
        None
    }
}

/// The stored form of a record is as long as its parts: the attributes,
/// the content and the path's bytes, each of the two behind eight bytes of
/// length.
pub proof fn lemma_layout_len(v: InodeView)
    ensures
        v.layout().len() == ATTR_LEN + 8 + v.data.len() + 8 + vstd::utf8::encode_utf8(v.path).len(),
{
    lemma_attr_unique(v.attr.spec_fields(), v.attr.spec_fields());
    crate::codec::lemma_u64_unique(v.data.len() as u64, 0);
    crate::codec::lemma_u64_unique(vstd::utf8::encode_utf8(v.path).len() as u64, 0);
}

/// Unframing a framed payload gives the payload back.
pub proof fn lemma_unframe_frame(payload: Seq<u8>, block_len: nat)
    requires
        fits(payload.len(), block_len),
        payload.len() > 0,
    ensures
        unframe(frame(payload, block_len)) == Some(payload),
{
    let block = frame(payload, block_len);
    let n = payload.len() as u32;
    lemma_u32_unique(n, n);
    assert(block.subrange(0, LEN_PREFIX as int) =~= u32_le(n));
    assert(block.subrange(LEN_PREFIX as int, LEN_PREFIX + payload.len()) =~= payload);
}

/// A payload that stores a record stores no other.
pub proof fn lemma_decode_record(payload: Seq<u8>, v: InodeView)
    requires
        v.layout().is_prefix_of(payload),
        payload.len() <= u64::MAX,
    ensures
        decode_record(payload) == Some(v),
{
    let t = (v.attr.spec_fields(), v.data, v.path);
    assert(stores_record(payload, t));
    let c = choose|c: (AttrFields, Seq<u8>, Seq<char>)| stores_record(payload, c);
    lemma_record_unique(t.0, t.1, t.2, c.0, c.1, c.2, payload);
}

/// Round trip: the block written for a record that fits decodes to that
/// record.
pub proof fn lemma_record_round_trip(v: InodeView, block_len: nat)
    requires
        fits(v.layout().len(), block_len),
        block_len <= u64::MAX,
    ensures
        decode_block(frame(v.layout(), block_len)) == Some(v),
{
    lemma_attr_unique(v.attr.spec_fields(), v.attr.spec_fields());
    lemma_unframe_frame(v.layout(), block_len);
    lemma_starts_extension(v.layout(), Seq::<u8>::empty());
    assert(v.layout() + Seq::<u8>::empty() =~= v.layout());
    lemma_decode_record(v.layout(), v);
}

/// Round trip: the stored form of an entry list decodes to that list,
/// whatever follows it.
pub proof fn lemma_entries_round_trip(es: Seq<(Seq<char>, u64)>, tail: Seq<u8>)
    requires
        entries_layout(es).len() + tail.len() <= u64::MAX,
    ensures
        decode_entry_list(entries_layout(es) + tail) == Some(es),
{
    let bytes = entries_layout(es) + tail;
    lemma_starts_extension(entries_layout(es), tail);
    assert(stores_entries(bytes, es));
    let c = choose|c: Seq<(Seq<char>, u64)>| stores_entries(bytes, c);
    lemma_entries_unique(es, c, bytes);
}

/// The four bytes that store the length `len`, least significant byte
/// first.
pub fn encode_len(len: u32) -> (bytes: Vec<u8>)
    ensures
        bytes@ == u32_le(len),
        bytes@.len() == LEN_PREFIX,
{
    let mut bytes: Vec<u8> = Vec::new();
    bytes.push((len % 256) as u8);
    bytes.push(((len / 256) % 256) as u8);
    bytes.push(((len / 65536) % 256) as u8);
    bytes.push((len / 16777216) as u8);
    proof {
        let x = len as nat;
        assert(le_bytes(x / 256 / 256 / 256 / 256, 0) =~= Seq::<u8>::empty());
        assert(le_bytes(x / 256 / 256 / 256, 1) =~= seq![((x / 256 / 256 / 256) % 256) as u8]);
        assert(le_bytes(x / 256 / 256, 2) =~= seq![
            ((x / 256 / 256) % 256) as u8,
            ((x / 256 / 256 / 256) % 256) as u8,
        ]);
        assert(le_bytes(x / 256, 3) =~= seq![
            ((x / 256) % 256) as u8,
            ((x / 256 / 256) % 256) as u8,
            ((x / 256 / 256 / 256) % 256) as u8,
        ]);
        assert(bytes@ =~= le_bytes(x, 4));
    }
    bytes
}

/// The length that four bytes store, least significant byte first.
pub fn decode_len(bytes: &[u8]) -> (len: u32)
    requires
        bytes@.len() == LEN_PREFIX,
    ensures
        len == le_value(bytes@),
{
    proof {
        let b = bytes@;
        let b1 = b.drop_first();
        let b2 = b1.drop_first();
        let b3 = b2.drop_first();
        assert(le_value(b3.drop_first()) == 0);
        assert(le_value(b3) == b[3] as nat);
        assert(le_value(b2) == b[2] as nat + 256 * le_value(b3));
        assert(le_value(b1) == b[1] as nat + 256 * le_value(b2));
        assert(le_value(b) == b[0] as nat + 256 * le_value(b1));
    }
    bytes[0] as u32 + 256 * (bytes[1] as u32) + 65536 * (bytes[2] as u32) + 16777216 * (
    bytes[3] as u32)
}

impl Clone for PersistedInode {
    fn clone(&self) -> (r: PersistedInode)
        ensures
            r@ == self@,
    {
        PersistedInode { attr: self.attr, data: self.data.clone(), path: self.path.clone() }
    }
}

impl Clone for DirectoryEntry {
    fn clone(&self) -> (r: DirectoryEntry)
        ensures
            r@ == self@,
    {
        DirectoryEntry { name: self.name.clone(), ino: self.ino }
    }
}

impl PersistedInode {
    /// The block that persists this inode on a device with blocks of
    /// `block_size` bytes. A record that does not fit is refused, never cut.
    pub fn encode(&self, block_size: usize) -> (r: Result<Vec<u8>, FsError>)
        requires
            block_size <= MAX_BLOCK_SIZE,
        ensures
            match r {
                Ok(block) => fits(self@.layout().len(), block_size as nat) && block@ == frame(
                    self@.layout(),
                    block_size as nat,
                ),
                Err(e) => e == FsError::TooLarge && !fits(self@.layout().len(), block_size as nat),
            },
    {
        let fields = self.attr.fields();
        let payload = match bincode_record(&fields, &self.data, &self.path) {
            Ok(payload) => payload,
            // Not reached: writing a record into a vector does not fail.
            Err(_) => { return Err(FsError::TooLarge); },
        };
        let len = payload.len();
        if block_size < LEN_PREFIX || len > block_size - LEN_PREFIX || len > u32::MAX as usize {
            return Err(FsError::TooLarge);
        }
        let prefix = encode_len(len as u32);
        let mut block = vec![0u8; block_size];
        let mut i: usize = 0;
        while i < LEN_PREFIX
            invariant
                i <= LEN_PREFIX,
                prefix@.len() == LEN_PREFIX,
                block@.len() == block_size,
                LEN_PREFIX <= block_size,
                forall|j: int| 0 <= j < i ==> block@[j] == prefix@[j],
                forall|j: int| i <= j < block_size ==> block@[j] == 0u8,
            decreases LEN_PREFIX - i,
        {
            block[i] = prefix[i];
            i = i + 1;
        }
        let mut k: usize = 0;
        while k < len
            invariant
                k <= len,
                len == payload@.len(),
                block@.len() == block_size,
                LEN_PREFIX + len <= block_size,
                forall|j: int| 0 <= j < LEN_PREFIX ==> block@[j] == prefix@[j],
                forall|j: int| 0 <= j < k ==> block@[LEN_PREFIX + j] == payload@[j],
                forall|j: int| LEN_PREFIX + k <= j < block_size ==> block@[j] == 0u8,
            decreases len - k,
        {
            block[LEN_PREFIX + k] = payload[k];
            k = k + 1;
        }
        assert(block@ =~= frame(self@.layout(), block_size as nat));
        Ok(block)
    }

    /// The inode that `block` persists.
    pub fn decode(block: &[u8]) -> (r: Result<PersistedInode, FsError>)
        ensures
            match r {
                Ok(inode) => decode_block(block@) == Some(inode@),
                Err(e) => e == FsError::Corrupt && decode_block(block@) is None,
            },
    {
        if block.len() < LEN_PREFIX {
            return Err(FsError::Corrupt);
        }
        let len = decode_len(slice_subrange(block, 0, LEN_PREFIX)) as usize;
        if len == 0 || len > block.len() - LEN_PREFIX {
            return Err(FsError::Corrupt);
        }
        let payload = slice_subrange(block, LEN_PREFIX, LEN_PREFIX + len);
        assert(unframe(block@) == Some(payload@));
        match bincode_parse_record(payload) {
            Err(_) => {
                assert(!exists|t: (AttrFields, Seq<u8>, Seq<char>)| stores_record(payload@, t));
                Err(FsError::Corrupt)
            },
            Ok(found) => {
                let (fields, data, path) = found;
                proof {
                    let t = (fields, data@, path@);
                    assert(stores_record(payload@, t));
                    let c = choose|c: (AttrFields, Seq<u8>, Seq<char>)| stores_record(payload@, c);
                    lemma_record_unique(t.0, t.1, t.2, c.0, c.1, c.2, payload@);
                }
                match SerializableFileAttr::from_fields(fields) {
                    None => Err(FsError::Corrupt),
                    Some(attr) => Ok(PersistedInode { attr, data, path }),
                }
            },
        }
    }
}

/// The stored form of a directory entry list.
pub fn encode_entries(entries: &Vec<DirectoryEntry>) -> (bytes: Vec<u8>)
    ensures
        bytes@ == entries_layout(entries_view(entries@)),
{
    let mut plain: Vec<EntryFields> = Vec::new();
    let mut i: usize = 0;
    while i < entries.len()
        invariant
            i <= entries@.len(),
            plain@.len() == i,
            forall|j: int| 0 <= j < i ==> plain@[j].0@ == entries@[j].name@ && plain@[j].1 == entries@[j].ino,
        decreases entries@.len() - i,
    {
        plain.push((entries[i].name.clone(), entries[i].ino));
        i = i + 1;
    }
    assert(entry_fields_view(plain@) =~= entries_view(entries@));
    match bincode_entries(&plain) {
        Ok(bytes) => bytes,
        // Not reached: writing a list into a vector does not fail.
        Err(_) => Vec::new(),
    }
}

/// The directory entry list that `bytes` store, if they store one.
pub fn decode_entries(bytes: &[u8]) -> (r: Option<Vec<DirectoryEntry>>)
    ensures
        match r {
            Some(entries) => decode_entry_list(bytes@) == Some(entries_view(entries@)),
            None => decode_entry_list(bytes@) is None,
        },
{
    match bincode_parse_entries(bytes) {
        Err(_) => {
            assert(!exists|es: Seq<(Seq<char>, u64)>| stores_entries(bytes@, es));
            None
        },
        Ok(plain) => {
            let mut entries: Vec<DirectoryEntry> = Vec::new();
            let mut i: usize = 0;
            while i < plain.len()
                invariant
                    i <= plain@.len(),
                    entries@.len() == i,
                    forall|j: int|
                        0 <= j < i ==> entries@[j].name@ == plain@[j].0@ && entries@[j].ino
                            == plain@[j].1,
                decreases plain@.len() - i,
            {
                entries.push(DirectoryEntry { name: plain[i].0.clone(), ino: plain[i].1 });
                i = i + 1;
            }
            proof {
                assert(entry_fields_view(plain@) =~= entries_view(entries@));
                let es = entries_view(entries@);
                assert(bytes@.len() == bytes.len());
                assert(stores_entries(bytes@, es));
                let c = choose|c: Seq<(Seq<char>, u64)>| stores_entries(bytes@, c);
                lemma_entries_unique(es, c, bytes@);
            }
            Some(entries)
        },
    }
}

} // verus!
