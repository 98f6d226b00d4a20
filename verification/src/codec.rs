//! The byte layout of what is stored, and the calls into `bincode` that
//! produce and read it.
//!
//! `bincode`'s fixed-width configuration writes every integer in its own
//! width, least significant byte first, a tuple as its fields one after
//! another, and a byte vector, a string or a list as its length in eight
//! bytes followed by its items. The spec functions here spell that layout out for the three records
//! this library stores. The wrappers at the end of the file are believed to
//! follow it; that no two values share a layout is proved.

use vstd::prelude::*;
use vstd::utf8::*;

verus! {

/// The fields of a superblock in stored order: magic, version, instance id,
/// block size, inode count, free inode count.
pub type HeaderFields = (u64, u32, [u8; 16], u32, u64, u64);

/// Seconds and nanoseconds since the epoch.
pub type TimeFields = (u64, u32);

/// The attributes of an inode in stored order, in three groups: inode number,
/// size and block count; access, modification, change and creation time;
/// kind, permissions, link count, owner, group, device, flags and preferred
/// block size.
pub type AttrFields = (
    (u64, u64, u64),
    (TimeFields, TimeFields, TimeFields, TimeFields),
    (u32, u16, u32, u32, u32, u32, u32, u32),
);

/// A directory entry as it is stored: name, then inode number.
pub type EntryFields = (String, u64);

/// Number of bytes a stored superblock takes.
pub const HEADER_LEN: usize = 48;

/// Number of bytes the stored attributes of an inode take.
pub const ATTR_LEN: usize = 102;

/// 256 to the power `n`.
pub open spec fn pow256(n: nat) -> nat
    decreases n,
{
    if n == 0 {
        1
    } else {
        256 * pow256((n - 1) as nat)
    }
}

/// The `width` bytes that store the number `x`, least significant byte
/// first.
pub open spec fn le_bytes(x: nat, width: nat) -> Seq<u8>
    decreases width,
{
    if width == 0 {
        Seq::empty()
    } else {
        seq![(x % 256) as u8] + le_bytes(x / 256, (width - 1) as nat)
    }
}

/// The number that `bytes` store, least significant byte first.
pub open spec fn le_value(bytes: Seq<u8>) -> nat
    decreases bytes.len(),
{
    if bytes.len() == 0 {
        0
    } else {
        bytes[0] as nat + 256 * le_value(bytes.drop_first())
    }
}

/// The eight bytes that store `x`, little-endian.
pub open spec fn u64_le(x: u64) -> Seq<u8> {
    le_bytes(x as nat, 8)
}

/// The four bytes that store `x`, little-endian.
pub open spec fn u32_le(x: u32) -> Seq<u8> {
    le_bytes(x as nat, 4)
}

/// The two bytes that store `x`, little-endian.
pub open spec fn u16_le(x: u16) -> Seq<u8> {
    le_bytes(x as nat, 2)
}

/// The powers of 256 that bound the integers of sixteen, thirty-two and
/// sixty-four bits.
pub proof fn lemma_pow256()
    ensures
        pow256(0) == 1,
        pow256(1) == 256,
        pow256(2) == 0x1_0000,
        pow256(4) == 0x1_0000_0000,
        pow256(8) == 0x1_0000_0000_0000_0000,
{
    assert(pow256(1) == 256 * pow256(0));
    assert(pow256(2) == 256 * pow256(1));
    assert(pow256(3) == 256 * pow256(2));
    assert(pow256(4) == 256 * pow256(3));
    assert(pow256(5) == 256 * pow256(4));
    assert(pow256(6) == 256 * pow256(5));
    assert(pow256(7) == 256 * pow256(6));
    assert(pow256(8) == 256 * pow256(7));
}

/// A number is stored in as many bytes as were asked for.
pub proof fn lemma_le_len(x: nat, width: nat)
    ensures
        le_bytes(x, width).len() == width,
    decreases width,
{
    if width > 0 {
        lemma_le_len(x / 256, (width - 1) as nat);
    }
}

/// A number that `width` bytes can hold is read back from its stored form.
pub proof fn lemma_le_round_trip(x: nat, width: nat)
    requires
        x < pow256(width),
    ensures
        le_value(le_bytes(x, width)) == x,
    decreases width,
{
    if width > 0 {
        let rest = le_bytes(x / 256, (width - 1) as nat);
        let all = le_bytes(x, width);
        lemma_le_round_trip(x / 256, (width - 1) as nat);
        assert(all.drop_first() =~= rest);
        assert(all[0] == (x % 256) as u8);
    }
}

/// Bytes are the stored form of the number that they store.
pub proof fn lemma_le_bytes_of_value(bytes: Seq<u8>)
    ensures
        le_value(bytes) < pow256(bytes.len()),
        le_bytes(le_value(bytes), bytes.len()) == bytes,
    decreases bytes.len(),
{
    if bytes.len() > 0 {
        let rest = bytes.drop_first();
        lemma_le_bytes_of_value(rest);
        let v = le_value(bytes);
        assert(v % 256 == bytes[0] as nat);
        assert(v / 256 == le_value(rest));
        assert(le_bytes(v, bytes.len()) =~= seq![bytes[0]] + rest);
        assert(seq![bytes[0]] + rest =~= bytes);
    }
}

/// The stored form of a superblock.
pub open spec fn header_layout(
    magic: u64,
    version: u32,
    uuid: Seq<u8>,
    block_size: u32,
    inode_count: u64,
    free_inode_count: u64,
) -> Seq<u8> {
    u64_le(magic) + u32_le(version) + uuid + u32_le(
        block_size,
    ) + u64_le(inode_count) + u64_le(free_inode_count)
}

/// The stored form of a point in time.
pub open spec fn time_layout(t: TimeFields) -> Seq<u8> {
    u64_le(t.0) + u32_le(t.1)
}

/// The stored form of the first group of attributes.
pub open spec fn ident_layout(g: (u64, u64, u64)) -> Seq<u8> {
    u64_le(g.0) + u64_le(g.1) + u64_le(g.2)
}

/// The stored form of the four timestamps.
pub open spec fn times_layout(g: (TimeFields, TimeFields, TimeFields, TimeFields)) -> Seq<u8> {
    time_layout(g.0) + time_layout(g.1) + time_layout(g.2) + time_layout(g.3)
}

/// The stored form of the last group of attributes.
pub open spec fn mode_layout(g: (u32, u16, u32, u32, u32, u32, u32, u32)) -> Seq<u8> {
    u32_le(g.0) + u16_le(g.1) + u32_le(g.2)
        + u32_le(g.3) + u32_le(g.4) + u32_le(g.5)
        + u32_le(g.6) + u32_le(g.7)
}

/// The stored form of an inode's attributes.
pub open spec fn attr_layout(a: AttrFields) -> Seq<u8> {
    ident_layout(a.0) + times_layout(a.1) + mode_layout(a.2)
}

/// The stored form of a run of bytes: its length, then the bytes.
pub open spec fn bytes_layout(data: Seq<u8>) -> Seq<u8> {
    u64_le(data.len() as u64) + data
}

/// The stored form of a string: its UTF-8 bytes as a run of bytes.
pub open spec fn text_layout(text: Seq<char>) -> Seq<u8> {
    bytes_layout(encode_utf8(text))
}

/// The stored form of an inode record: attributes, content, path.
pub open spec fn record_layout(attr: AttrFields, data: Seq<u8>, path: Seq<char>) -> Seq<u8> {
    attr_layout(attr) + bytes_layout(data) + text_layout(path)
}

/// The stored form of one directory entry.
pub open spec fn entry_layout(e: (Seq<char>, u64)) -> Seq<u8> {
    text_layout(e.0) + u64_le(e.1)
}

/// The stored forms of the entries, one after another.
pub open spec fn entries_body(es: Seq<(Seq<char>, u64)>) -> Seq<u8>
    decreases es.len(),
{
    if es.len() == 0 {
        Seq::<u8>::empty()
    } else {
        entry_layout(es[0]) + entries_body(es.drop_first())
    }
}

/// The stored form of a directory entry list: the number of entries, then
/// the entries.
pub open spec fn entries_layout(es: Seq<(Seq<char>, u64)>) -> Seq<u8> {
    u64_le(es.len() as u64) + entries_body(es)
}

/// What a decoded entry list holds: each name by its characters.
pub open spec fn entry_fields_view(v: Seq<EntryFields>) -> Seq<(Seq<char>, u64)> {
    Seq::new(v.len(), |i: int| (v[i].0@, v[i].1))
}

/// Zeros store the number zero.
pub proof fn lemma_le_value_of_zeros(bytes: Seq<u8>)
    requires
        forall|i: int| 0 <= i < bytes.len() ==> bytes[i] == 0u8,
    ensures
        le_value(bytes) == 0,
    decreases bytes.len(),
{
    if bytes.len() > 0 {
        lemma_le_value_of_zeros(bytes.drop_first());
    }
}

/// Two byte strings that start a common third one and have one length are
/// the same, and what follows each of them starts what is left.
pub proof fn lemma_same_start(
    x: Seq<u8>,
    xr: Seq<u8>,
    y: Seq<u8>,
    yr: Seq<u8>,
    b: Seq<u8>,
)
    requires
        (x + xr).is_prefix_of(b),
        (y + yr).is_prefix_of(b),
        x.len() == y.len(),
    ensures
        x == y,
        xr.is_prefix_of(b.skip(x.len() as int)),
        yr.is_prefix_of(b.skip(x.len() as int)),
{
    let n = x.len() as int;
    assert forall|i: int| 0 <= i < n implies x[i] == y[i] by {
        assert((x + xr)[i] == b.subrange(0, (x + xr).len() as int)[i]);
        assert((y + yr)[i] == b.subrange(0, (y + yr).len() as int)[i]);
    }
    assert(x =~= y);
    let rest = b.skip(n);
    assert forall|i: int| 0 <= i < xr.len() implies xr[i] == rest[i] by {
        assert((x + xr)[n + i] == b.subrange(0, (x + xr).len() as int)[n + i]);
    }
    assert(xr =~= rest.subrange(0, xr.len() as int));
    assert forall|i: int| 0 <= i < yr.len() implies yr[i] == rest[i] by {
        assert((y + yr)[n + i] == b.subrange(0, (y + yr).len() as int)[n + i]);
    }
    assert(yr =~= rest.subrange(0, yr.len() as int));
}

/// A byte string starts itself followed by anything.
pub proof fn lemma_starts_extension(x: Seq<u8>, tail: Seq<u8>)
    ensures
        x.is_prefix_of(x + tail),
{
    assert(x =~= (x + tail).subrange(0, x.len() as int));
}

/// Equal stored forms of two integers of sixty-four bits mean equal integers.
pub proof fn lemma_u64_unique(a: u64, b: u64)
    ensures
        u64_le(a).len() == 8,
        le_value(u64_le(a)) == a,
        u64_le(a) == u64_le(b) ==> a == b,
{
    lemma_pow256();
    lemma_le_len(a as nat, 8);
    lemma_le_round_trip(a as nat, 8);
    lemma_le_round_trip(b as nat, 8);
}

/// Equal stored forms of two integers of thirty-two bits mean equal integers.
pub proof fn lemma_u32_unique(a: u32, b: u32)
    ensures
        u32_le(a).len() == 4,
        le_value(u32_le(a)) == a,
        u32_le(a) == u32_le(b) ==> a == b,
{
    lemma_pow256();
    lemma_le_len(a as nat, 4);
    lemma_le_round_trip(a as nat, 4);
    lemma_le_round_trip(b as nat, 4);
}

/// Equal stored forms of two integers of sixteen bits mean equal integers.
pub proof fn lemma_u16_unique(a: u16, b: u16)
    ensures
        u16_le(a).len() == 2,
        le_value(u16_le(a)) == a,
        u16_le(a) == u16_le(b) ==> a == b,
{
    lemma_pow256();
    lemma_le_len(a as nat, 2);
    lemma_le_round_trip(a as nat, 2);
    lemma_le_round_trip(b as nat, 2);
}

/// If two concatenations are equal and their last parts have one length,
/// the first parts are equal and so are the last.
pub proof fn lemma_split_end(a: Seq<u8>, p: Seq<u8>, b: Seq<u8>, q: Seq<u8>)
    requires
        a + p == b + q,
        p.len() == q.len(),
    ensures
        a == b,
        p == q,
{
    assert((a + p).len() == a.len() + p.len());
    assert((b + q).len() == b.len() + q.len());
    assert(a.len() == b.len());
    let s = a + p;
    let t = b + q;
    assert forall|i: int| 0 <= i < a.len() implies a[i] == b[i] by {
        assert(s[i] == a[i]);
        assert(t[i] == b[i]);
    }
    assert(a =~= b);
    assert forall|i: int| 0 <= i < p.len() implies p[i] == q[i] by {
        assert(s[a.len() + i] == p[i]);
        assert(t[b.len() + i] == q[i]);
    }
    assert(p =~= q);
}

/// A stored superblock takes forty-eight bytes, and no two superblocks are
/// stored alike.
pub proof fn lemma_header_unique(
    a: (u64, u32, Seq<u8>, u32, u64, u64),
    b: (u64, u32, Seq<u8>, u32, u64, u64),
)
    requires
        a.2.len() == 16,
        b.2.len() == 16,
    ensures
        header_layout(a.0, a.1, a.2, a.3, a.4, a.5).len() == HEADER_LEN,
        header_layout(a.0, a.1, a.2, a.3, a.4, a.5) == header_layout(b.0, b.1, b.2, b.3, b.4, b.5)
            ==> a == b,
{
    lemma_u64_unique(a.0, b.0);
    lemma_u32_unique(a.1, b.1);
    lemma_u32_unique(a.3, b.3);
    lemma_u64_unique(a.4, b.4);
    lemma_u64_unique(a.5, b.5);
    lemma_u64_unique(b.0, a.0);
    lemma_u32_unique(b.1, a.1);
    lemma_u32_unique(b.3, a.3);
    lemma_u64_unique(b.4, a.4);
    lemma_u64_unique(b.5, a.5);
    if header_layout(a.0, a.1, a.2, a.3, a.4, a.5) == header_layout(b.0, b.1, b.2, b.3, b.4, b.5) {
        let a1 = u64_le(a.0) + u32_le(a.1);
        let b1 = u64_le(b.0) + u32_le(b.1);
        let a2 = a1 + a.2;
        let b2 = b1 + b.2;
        let a3 = a2 + u32_le(a.3);
        let b3 = b2 + u32_le(b.3);
        let a4 = a3 + u64_le(a.4);
        let b4 = b3 + u64_le(b.4);
        lemma_split_end(a4, u64_le(a.5), b4, u64_le(b.5));
        lemma_split_end(a3, u64_le(a.4), b3, u64_le(b.4));
        lemma_split_end(a2, u32_le(a.3), b2, u32_le(b.3));
        lemma_split_end(a1, a.2, b1, b.2);
        lemma_split_end(
            u64_le(a.0),
            u32_le(a.1),
            u64_le(b.0),
            u32_le(b.1),
        );
    }
}

/// A stored point in time takes twelve bytes, and no two are stored alike.
pub proof fn lemma_time_unique(a: TimeFields, b: TimeFields)
    ensures
        time_layout(a).len() == 12,
        time_layout(a) == time_layout(b) ==> a == b,
{
    lemma_u64_unique(a.0, b.0);
    lemma_u32_unique(a.1, b.1);
    lemma_u64_unique(b.0, a.0);
    lemma_u32_unique(b.1, a.1);
    if time_layout(a) == time_layout(b) {
        lemma_split_end(
            u64_le(a.0),
            u32_le(a.1),
            u64_le(b.0),
            u32_le(b.1),
        );
    }
}

/// The first group of attributes takes twenty-four bytes, and no two are
/// stored alike.
pub proof fn lemma_ident_unique(a: (u64, u64, u64), b: (u64, u64, u64))
    ensures
        ident_layout(a).len() == 24,
        ident_layout(a) == ident_layout(b) ==> a == b,
{
    lemma_u64_unique(a.0, b.0);
    lemma_u64_unique(a.1, b.1);
    lemma_u64_unique(a.2, b.2);
    lemma_u64_unique(b.0, a.0);
    lemma_u64_unique(b.1, a.1);
    lemma_u64_unique(b.2, a.2);
    if ident_layout(a) == ident_layout(b) {
        lemma_split_end(
            u64_le(a.0) + u64_le(a.1),
            u64_le(a.2),
            u64_le(b.0) + u64_le(b.1),
            u64_le(b.2),
        );
        lemma_split_end(
            u64_le(a.0),
            u64_le(a.1),
            u64_le(b.0),
            u64_le(b.1),
        );
    }
}

/// The four timestamps take forty-eight bytes, and no two groups are stored
/// alike.
pub proof fn lemma_times_unique(
    a: (TimeFields, TimeFields, TimeFields, TimeFields),
    b: (TimeFields, TimeFields, TimeFields, TimeFields),
)
    ensures
        times_layout(a).len() == 48,
        times_layout(a) == times_layout(b) ==> a == b,
{
    lemma_time_unique(a.0, b.0);
    lemma_time_unique(a.1, b.1);
    lemma_time_unique(a.2, b.2);
    lemma_time_unique(a.3, b.3);
    lemma_time_unique(b.0, a.0);
    lemma_time_unique(b.1, a.1);
    lemma_time_unique(b.2, a.2);
    lemma_time_unique(b.3, a.3);
    if times_layout(a) == times_layout(b) {
        let a1 = time_layout(a.0) + time_layout(a.1);
        let b1 = time_layout(b.0) + time_layout(b.1);
        lemma_split_end(a1 + time_layout(a.2), time_layout(a.3), b1 + time_layout(b.2), time_layout(b.3));
        lemma_split_end(a1, time_layout(a.2), b1, time_layout(b.2));
        lemma_split_end(time_layout(a.0), time_layout(a.1), time_layout(b.0), time_layout(b.1));
    }
}

/// The last group of attributes takes thirty bytes, and no two are stored
/// alike.
pub proof fn lemma_mode_unique(
    a: (u32, u16, u32, u32, u32, u32, u32, u32),
    b: (u32, u16, u32, u32, u32, u32, u32, u32),
)
    ensures
        mode_layout(a).len() == 30,
        mode_layout(a) == mode_layout(b) ==> a == b,
{
    lemma_u32_unique(a.0, b.0);
    lemma_u16_unique(a.1, b.1);
    lemma_u32_unique(a.2, b.2);
    lemma_u32_unique(a.3, b.3);
    lemma_u32_unique(a.4, b.4);
    lemma_u32_unique(a.5, b.5);
    lemma_u32_unique(a.6, b.6);
    lemma_u32_unique(a.7, b.7);
    lemma_u32_unique(b.0, a.0);
    lemma_u16_unique(b.1, a.1);
    lemma_u32_unique(b.2, a.2);
    lemma_u32_unique(b.3, a.3);
    lemma_u32_unique(b.4, a.4);
    lemma_u32_unique(b.5, a.5);
    lemma_u32_unique(b.6, a.6);
    lemma_u32_unique(b.7, a.7);
    if mode_layout(a) == mode_layout(b) {
        let a1 = u32_le(a.0) + u16_le(a.1);
        let b1 = u32_le(b.0) + u16_le(b.1);
        let a2 = a1 + u32_le(a.2);
        let b2 = b1 + u32_le(b.2);
        let a3 = a2 + u32_le(a.3);
        let b3 = b2 + u32_le(b.3);
        let a4 = a3 + u32_le(a.4);
        let b4 = b3 + u32_le(b.4);
        let a5 = a4 + u32_le(a.5);
        let b5 = b4 + u32_le(b.5);
        let a6 = a5 + u32_le(a.6);
        let b6 = b5 + u32_le(b.6);
        lemma_split_end(a6, u32_le(a.7), b6, u32_le(b.7));
        lemma_split_end(a5, u32_le(a.6), b5, u32_le(b.6));
        lemma_split_end(a4, u32_le(a.5), b4, u32_le(b.5));
        lemma_split_end(a3, u32_le(a.4), b3, u32_le(b.4));
        lemma_split_end(a2, u32_le(a.3), b2, u32_le(b.3));
        lemma_split_end(a1, u32_le(a.2), b1, u32_le(b.2));
        lemma_split_end(
            u32_le(a.0),
            u16_le(a.1),
            u32_le(b.0),
            u16_le(b.1),
        );
    }
}

/// Stored attributes take a hundred and two bytes, and no two are stored
/// alike.
pub proof fn lemma_attr_unique(a: AttrFields, b: AttrFields)
    ensures
        attr_layout(a).len() == ATTR_LEN,
        attr_layout(a) == attr_layout(b) ==> a == b,
{
    lemma_ident_unique(a.0, b.0);
    lemma_times_unique(a.1, b.1);
    lemma_mode_unique(a.2, b.2);
    lemma_ident_unique(b.0, a.0);
    lemma_times_unique(b.1, a.1);
    lemma_mode_unique(b.2, a.2);
    if attr_layout(a) == attr_layout(b) {
        lemma_split_end(
            ident_layout(a.0) + times_layout(a.1),
            mode_layout(a.2),
            ident_layout(b.0) + times_layout(b.1),
            mode_layout(b.2),
        );
        lemma_split_end(ident_layout(a.0), times_layout(a.1), ident_layout(b.0), times_layout(b.1));
    }
}

/// Two runs of bytes whose stored forms, each followed by anything, start a
/// common byte string are the same run, and what follows each starts what is
/// left.
pub proof fn lemma_bytes_unique(
    d1: Seq<u8>,
    r1: Seq<u8>,
    d2: Seq<u8>,
    r2: Seq<u8>,
    b: Seq<u8>,
)
    requires
        (bytes_layout(d1) + r1).is_prefix_of(b),
        (bytes_layout(d2) + r2).is_prefix_of(b),
        b.len() <= u64::MAX,
    ensures
        d1 == d2,
        bytes_layout(d1).len() == 8 + d1.len(),
        r1.is_prefix_of(b.skip(8 + d1.len() as int)),
        r2.is_prefix_of(b.skip(8 + d1.len() as int)),
{
    let n1 = u64_le(d1.len() as u64);
    let n2 = u64_le(d2.len() as u64);
    lemma_u64_unique(d1.len() as u64, d2.len() as u64);
    lemma_u64_unique(d2.len() as u64, d1.len() as u64);
    assert(bytes_layout(d1) + r1 =~= n1 + (d1 + r1));
    assert(bytes_layout(d2) + r2 =~= n2 + (d2 + r2));
    lemma_same_start(n1, d1 + r1, n2, d2 + r2, b);
    assert(d1.len() == d2.len());
    lemma_same_start(d1, r1, d2, r2, b.skip(8));
    assert(b.skip(8).skip(d1.len() as int) =~= b.skip(8 + d1.len() as int));
}

/// The same for two strings.
pub proof fn lemma_text_unique(
    t1: Seq<char>,
    r1: Seq<u8>,
    t2: Seq<char>,
    r2: Seq<u8>,
    b: Seq<u8>,
)
    requires
        (text_layout(t1) + r1).is_prefix_of(b),
        (text_layout(t2) + r2).is_prefix_of(b),
        b.len() <= u64::MAX,
    ensures
        t1 == t2,
        text_layout(t1).len() == 8 + encode_utf8(t1).len(),
        r1.is_prefix_of(b.skip(8 + encode_utf8(t1).len() as int)),
        r2.is_prefix_of(b.skip(8 + encode_utf8(t1).len() as int)),
{
    lemma_bytes_unique(encode_utf8(t1), r1, encode_utf8(t2), r2, b);
    encode_utf8_decode_utf8(t1);
    encode_utf8_decode_utf8(t2);
}

/// No two inode records are stored alike, nor does the stored form of one
/// start that of another.
pub proof fn lemma_record_unique(
    a1: AttrFields,
    d1: Seq<u8>,
    path_a: Seq<char>,
    a2: AttrFields,
    d2: Seq<u8>,
    path_b: Seq<char>,
    b: Seq<u8>,
)
    requires
        record_layout(a1, d1, path_a).is_prefix_of(b),
        record_layout(a2, d2, path_b).is_prefix_of(b),
        b.len() <= u64::MAX,
    ensures
        a1 == a2,
        d1 == d2,
        path_a == path_b,
{
    lemma_attr_unique(a1, a2);
    lemma_attr_unique(a2, a1);
    let e = Seq::<u8>::empty();
    assert(record_layout(a1, d1, path_a) =~= attr_layout(a1) + ((bytes_layout(d1) + text_layout(path_a))));
    assert(record_layout(a2, d2, path_b) =~= attr_layout(a2) + ((bytes_layout(d2) + text_layout(path_b))));
    lemma_same_start(
        attr_layout(a1),
        bytes_layout(d1) + text_layout(path_a),
        attr_layout(a2),
        bytes_layout(d2) + text_layout(path_b),
        b,
    );
    let b1 = b.skip(ATTR_LEN as int);
    lemma_bytes_unique(d1, text_layout(path_a), d2, text_layout(path_b), b1);
    let b2 = b1.skip(8 + d1.len() as int);
    assert(text_layout(path_a) + e =~= text_layout(path_a));
    assert(text_layout(path_b) + e =~= text_layout(path_b));
    lemma_text_unique(path_a, e, path_b, e, b2);
}

/// Every stored entry takes at least one byte.
pub proof fn lemma_entries_body_len(es: Seq<(Seq<char>, u64)>)
    ensures
        entries_body(es).len() >= es.len(),
    decreases es.len(),
{
    if es.len() > 0 {
        lemma_entries_body_len(es.drop_first());
        lemma_u64_unique(es[0].1, es[0].1);
    }
}

/// Two lists of equally many entries whose stored forms, each followed by
/// anything, start a common byte string are the same list.
pub proof fn lemma_entries_body_unique(
    es1: Seq<(Seq<char>, u64)>,
    r1: Seq<u8>,
    es2: Seq<(Seq<char>, u64)>,
    r2: Seq<u8>,
    b: Seq<u8>,
)
    requires
        (entries_body(es1) + r1).is_prefix_of(b),
        (entries_body(es2) + r2).is_prefix_of(b),
        es1.len() == es2.len(),
        b.len() <= u64::MAX,
    ensures
        es1 == es2,
    decreases es1.len(),
{
    if es1.len() == 0 {
        assert(es1 =~= es2);
    } else {
        let t1 = es1.drop_first();
        let t2 = es2.drop_first();
        let i1 = u64_le(es1[0].1);
        let i2 = u64_le(es2[0].1);
        let rest1 = i1 + (entries_body(t1) + r1);
        let rest2 = i2 + (entries_body(t2) + r2);
        assert(entries_body(es1) + r1 =~= text_layout(es1[0].0) + rest1);
        assert(entries_body(es2) + r2 =~= text_layout(es2[0].0) + rest2);
        lemma_text_unique(es1[0].0, rest1, es2[0].0, rest2, b);
        let b1 = b.skip(8 + encode_utf8(es1[0].0).len() as int);
        lemma_u64_unique(es1[0].1, es2[0].1);
        lemma_u64_unique(es2[0].1, es1[0].1);
        lemma_same_start(i1, entries_body(t1) + r1, i2, entries_body(t2) + r2, b1);
        lemma_entries_body_unique(t1, r1, t2, r2, b1.skip(8));
        assert(es1[0] == es2[0]);
        assert(es1 =~= seq![es1[0]] + t1);
        assert(es2 =~= seq![es2[0]] + t2);
    }
}

/// No two directory entry lists are stored alike, nor does the stored form
/// of one start that of another.
pub proof fn lemma_entries_unique(
    es1: Seq<(Seq<char>, u64)>,
    es2: Seq<(Seq<char>, u64)>,
    b: Seq<u8>,
)
    requires
        entries_layout(es1).is_prefix_of(b),
        entries_layout(es2).is_prefix_of(b),
        b.len() <= u64::MAX,
    ensures
        es1 == es2,
{
    lemma_entries_body_len(es1);
    lemma_entries_body_len(es2);
    let n1 = u64_le(es1.len() as u64);
    let n2 = u64_le(es2.len() as u64);
    lemma_u64_unique(es1.len() as u64, es2.len() as u64);
    lemma_u64_unique(es2.len() as u64, es1.len() as u64);
    lemma_same_start(n1, entries_body(es1), n2, entries_body(es2), b);
    let e = Seq::<u8>::empty();
    assert(entries_body(es1) + e =~= entries_body(es1));
    assert(entries_body(es2) + e =~= entries_body(es2));
    lemma_entries_body_unique(es1, e, es2, e, b.skip(8));
}

/// `bincode::ErrorKind`: why a call into `bincode` failed. It is handed on
/// and never looked into.
#[verifier::external_type_specification]
#[verifier::external_body]
pub struct ExBincodeErrorKind(bincode::ErrorKind);

/// `bincode::serialize` on the fields of a superblock. The call cannot fail:
/// no size limit is set and the bytes go to a vector. The result is the six
/// fields in order, integers little-endian, the instance id as its sixteen
/// bytes.
#[verifier::external_body]
pub(crate) fn bincode_header(fields: &HeaderFields) -> (r: Result<Vec<u8>, Box<bincode::ErrorKind>>)
    ensures
        r is Ok,
        r->Ok_0@ == header_layout(fields.0, fields.1, fields.2@, fields.3, fields.4, fields.5),
{
    bincode::serialize(fields)
}

/// `bincode::deserialize` for the fields of a superblock. It succeeds exactly
/// when at least forty-eight bytes are given, reads the fields from the front
/// and ignores the rest.
#[verifier::external_body]
pub(crate) fn bincode_parse_header(bytes: &[u8]) -> (r: Result<
    HeaderFields,
    Box<bincode::ErrorKind>,
>)
    ensures
        r is Ok <==> bytes@.len() >= HEADER_LEN,
        r matches Ok(f) ==> header_layout(f.0, f.1, f.2@, f.3, f.4, f.5) == bytes@.subrange(0, 48),
{
    bincode::deserialize(bytes)
}

/// `bincode::serialize` on an inode record: attributes, content, path. The
/// call cannot fail; the result is the attributes field by field, then the
/// content and the path's UTF-8 bytes, each behind its length.
#[verifier::external_body]
pub(crate) fn bincode_record(attr: &AttrFields, data: &Vec<u8>, path: &String) -> (r: Result<
    Vec<u8>,
    Box<bincode::ErrorKind>,
>)
    ensures
        r is Ok,
        r->Ok_0@ == record_layout(*attr, data@, path@),
{
    bincode::serialize(&(attr, data, path))
}

/// `bincode::deserialize` for an inode record. It succeeds exactly when the
/// bytes start with the stored form of some record, and returns that record;
/// bytes after it are ignored.
#[verifier::external_body]
pub(crate) fn bincode_parse_record(bytes: &[u8]) -> (r: Result<
    (AttrFields, Vec<u8>, String),
    Box<bincode::ErrorKind>,
>)
    ensures
        r matches Ok(f) ==> record_layout(f.0, f.1@, f.2@).is_prefix_of(bytes@),
        r is Err ==> forall|a: AttrFields, d: Seq<u8>, p: Seq<char>|
            !(#[trigger] record_layout(a, d, p)).is_prefix_of(bytes@),
{
    bincode::deserialize(bytes)
}

/// `bincode::serialize` on a directory entry list. The call cannot fail; the
/// result is the number of entries, then for each its name behind the name's
/// length and its inode number.
#[verifier::external_body]
pub(crate) fn bincode_entries(entries: &Vec<EntryFields>) -> (r: Result<
    Vec<u8>,
    Box<bincode::ErrorKind>,
>)
    ensures
        r is Ok,
        r->Ok_0@ == entries_layout(entry_fields_view(entries@)),
{
    bincode::serialize(entries)
}

/// `bincode::deserialize` for a directory entry list. It succeeds exactly
/// when the bytes start with the stored form of some list, and returns that
/// list; bytes after it are ignored.
#[verifier::external_body]
pub(crate) fn bincode_parse_entries(bytes: &[u8]) -> (r: Result<
    Vec<EntryFields>,
    Box<bincode::ErrorKind>,
>)
    ensures
        r matches Ok(v) ==> entries_layout(entry_fields_view(v@)).is_prefix_of(bytes@),
        r is Err ==> forall|es: Seq<(Seq<char>, u64)>|
            !(#[trigger] entries_layout(es)).is_prefix_of(bytes@),
{
    bincode::deserialize(bytes)
}

} // verus!
