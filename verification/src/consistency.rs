//! What holds between the operations of the store: which inode numbers are
//! handed out, what a created file leaves on the device, what the listing of
//! a directory holds, and what a scan of the device finds.

use crate::codec::{entries_body, entries_layout, lemma_le_value_of_zeros, lemma_u64_unique};
use crate::device::lemma_blocks_apart;
use crate::error::FsError;
use crate::layout::{
    decode_block, decode_entry_list, directory_attr, file_attr, fits, frame, lemma_entries_round_trip,
    lemma_layout_len, lemma_record_round_trip, InodeView, SerializableFileAttr, Timestamp,
};
use crate::names::{
    has_name, ino_of, lemma_entered_name_is_found, lemma_position_of, name_of, names_distinct,
    with_name,
};
use crate::store::{
    add_child_model, child_path, create_file_model, delete_inode_model, disk_block, disk_record,
    load_inode_model, read_model, read_range, record_written, write_range_model, zero_block,
    lemma_header_write, lemma_inode_write, mkdir_model, save_inode_model, save_superblock_model,
    root_record, scan_found, scanned, Projection, ScanSummary, StoreState, MIN_BLOCK_SIZE,
    ROOT_INO,
};
use crate::superblock::{disk_header, lemma_header_round_trip, Superblock};
use vstd::prelude::*;
use vstd::utf8::{is_ascii_chars, is_ascii_chars_encode_utf8};

verus! {

/// The inode count that the superblock on a device with these contents
/// holds.
pub open spec fn stored_count(disk: Seq<u8>) -> Option<u64> {
    match disk_header(disk) {
        Ok(sb) => Some(sb.inode_count),
        Err(_) => None,
    }
}

/// Whether the step from a device with the contents `before` to one with
/// the contents `after` handed out the inode number `id`: `id` is one more
/// than the inode count stored before, and is the inode count stored after.
pub open spec fn allocates(before: Seq<u8>, after: Seq<u8>, id: u64) -> bool {
    &&& stored_count(before) matches Some(count)
    &&& id == count + 1
    &&& stored_count(after) == Some(id)
}

/// What a record that was saved leaves on the device: the record is read
/// back from the block of its inode, every other record and the superblock
/// are as before.
pub proof fn lemma_saved_record(s: StoreState, ino: u64, v: InodeView)
    requires
        s.wf(),
        save_inode_model(s, ino, v).1 is Ok,
    ensures
        disk_record(save_inode_model(s, ino, v).0.disk, s.block_len, ino) == Some(v),
        forall|other: u64|
            other != ino ==> #[trigger] disk_record(
                save_inode_model(s, ino, v).0.disk,
                s.block_len,
                other,
            ) == disk_record(s.disk, s.block_len, other),
        disk_header(save_inode_model(s, ino, v).0.disk) == disk_header(s.disk),
        save_inode_model(s, ino, v).0.projection == s.projection,
        save_inode_model(s, ino, v).0.block_len == s.block_len,
{
    let block = frame(v.layout(), s.block_len);
    lemma_inode_write(s.disk, s.block_len, ino, block);
    lemma_record_round_trip(v, s.block_len);
    let after = save_inode_model(s, ino, v).0.disk;
    assert forall|other: u64| other != ino implies #[trigger] disk_record(
        after,
        s.block_len,
        other,
    ) == disk_record(s.disk, s.block_len, other) by {
        assert(disk_block(after, s.block_len, other) == disk_block(s.disk, s.block_len, other));
    }
}

/// What a removed record leaves on the device: the block of its inode
/// holds no record, so the inode loads as corrupt; every other record and
/// the superblock are as before.
pub proof fn lemma_deleted_record(s: StoreState, ino: u64)
    requires
        s.wf(),
        delete_inode_model(s, ino).1 is Ok,
    ensures
        disk_record(delete_inode_model(s, ino).0.disk, s.block_len, ino) is None,
        load_inode_model(delete_inode_model(s, ino).0, ino) == Err::<InodeView, FsError>(
            FsError::Corrupt,
        ),
        forall|other: u64|
            other != ino ==> #[trigger] disk_record(
                delete_inode_model(s, ino).0.disk,
                s.block_len,
                other,
            ) == disk_record(s.disk, s.block_len, other),
        disk_header(delete_inode_model(s, ino).0.disk) == disk_header(s.disk),
{
    let block = zero_block(s.block_len);
    let after = delete_inode_model(s, ino).0.disk;
    lemma_inode_write(s.disk, s.block_len, ino, block);
    lemma_zero_block_holds_no_record(s.block_len);
    lemma_blocks_apart(0, 1 + ino, s.block_len);
    assert forall|other: u64| other != ino implies #[trigger] disk_record(
        after,
        s.block_len,
        other,
    ) == disk_record(s.disk, s.block_len, other) by {
        assert(disk_block(after, s.block_len, other) == disk_block(s.disk, s.block_len, other));
    }
}

/// A block of zeros stores a length of zero and so holds no record: that
/// is how the end of the inode table shows on a device that was zeroed.
pub proof fn lemma_zero_block_holds_no_record(block_len: nat)
    ensures
        decode_block(zero_block(block_len)) is None,
{
    let block = zero_block(block_len);
    if block_len >= 4 {
        lemma_le_value_of_zeros(block.subrange(0, 4));
    }
}

/// What was written into an inode is read back: after a write has
/// succeeded, the record of the inode loads with the new content and size,
/// and a read of as many bytes at the same offset gives the bytes written.
pub proof fn lemma_written_bytes_are_read_back(s: StoreState, ino: u64, offset: u64, bytes: Seq<u8>)
    requires
        s.wf(),
        write_range_model(s, ino, offset, bytes).1 is Ok,
    ensures
        ({
            let done = write_range_model(s, ino, offset, bytes);
            let before = load_inode_model(s, ino)->Ok_0;
            &&& load_inode_model(done.0, ino) == Ok::<InodeView, FsError>(
                record_written(before, offset, bytes),
            )
            &&& read_model(done.0, ino, offset, bytes.len() as u32) == Ok::<Seq<u8>, FsError>(bytes)
            &&& done.0.projection == s.projection
        }),
{
    let before = load_inode_model(s, ino)->Ok_0;
    let after = record_written(before, offset, bytes);
    lemma_saved_record(s, ino, after);
    lemma_layout_len(after);
    assert(read_range(after.data, offset as int, bytes.len() as int) =~= bytes);
}

/// What a saved superblock leaves on the device: the stored superblock with
/// the counter as its inode count, and every record as before.
pub proof fn lemma_saved_superblock(s: StoreState)
    requires
        s.wf(),
        save_superblock_model(s).1 is Ok,
    ensures
        disk_header(s.disk) matches Ok(sb) && disk_header(save_superblock_model(s).0.disk) == Ok::<
            Superblock,
            FsError,
        >(Superblock { inode_count: s.projection.counter, ..sb }),
        forall|ino: u64| #[trigger]
            disk_record(save_superblock_model(s).0.disk, s.block_len, ino) == disk_record(
                s.disk,
                s.block_len,
                ino,
            ),
        save_superblock_model(s).0.projection == s.projection,
        save_superblock_model(s).0.block_len == s.block_len,
{
    let sb = disk_header(s.disk)->Ok_0;
    let next = Superblock { inode_count: s.projection.counter, ..sb };
    lemma_header_round_trip(next, s.disk);
    lemma_header_write(s.disk, s.block_len, next.region());
    let after = save_superblock_model(s).0.disk;
    assert forall|ino: u64| #[trigger]
        disk_record(after, s.block_len, ino) == disk_record(s.disk, s.block_len, ino) by {
        assert(disk_block(after, s.block_len, ino) == disk_block(s.disk, s.block_len, ino));
    }
}

/// What a successful addition of a child leaves behind.
///
/// The new inode number is one more than the inode count that was stored,
/// and is the inode count stored afterwards. The child is among the
/// children of the parent. On the device the parent's record holds the
/// parent's attributes and path as the projection knew them and the whole
/// list of its children as content, which decodes to that list; the child's
/// record holds its attributes, content and path, unless parent and child
/// share the inode number; every other record is as before.
pub proof fn lemma_added_child(
    s: StoreState,
    parent: u64,
    name: Seq<char>,
    template: SerializableFileAttr,
    disk_data: Seq<u8>,
    mem_data: Seq<u8>,
)
    requires
        s.wf(),
        add_child_model(s, parent, name, template, disk_data, mem_data).1 is Ok,
    ensures
        ({
            let done = add_child_model(s, parent, name, template, disk_data, mem_data);
            let id = done.1->Ok_0;
            let children = with_name(s.projection.children_of(parent), name, id);
            &&& parent == ROOT_INO
            &&& allocates(s.disk, done.0.disk, id)
            &&& done.0.block_len == s.block_len
            &&& done.0.projection == s.projection.with_counter(id).with_inode(
                id,
                SerializableFileAttr { ino: id, ..template },
                mem_data,
                child_path(name),
            ).with_child(parent, name, id)
            &&& done.0.projection.children_of(parent) == children
            &&& disk_record(done.0.disk, s.block_len, parent) == Some(
                InodeView {
                    attr: s.projection.attrs[parent],
                    data: entries_layout(children),
                    path: name_of(s.projection.paths, parent)->Some_0,
                },
            )
            &&& decode_entry_list(entries_layout(children)) == Some(children)
            &&& id != parent ==> disk_record(done.0.disk, s.block_len, id) == Some(
                InodeView {
                    attr: SerializableFileAttr { ino: id, ..template },
                    data: disk_data,
                    path: child_path(name),
                },
            )
            &&& forall|other: u64|
                other != id && other != parent ==> #[trigger] disk_record(
                    done.0.disk,
                    s.block_len,
                    other,
                ) == disk_record(s.disk, s.block_len, other)
        }),
{
    let done = add_child_model(s, parent, name, template, disk_data, mem_data);
    let sb = disk_header(s.disk)->Ok_0;
    let id = (sb.inode_count + 1) as u64;
    let attr = SerializableFileAttr { ino: id, ..template };
    let path = child_path(name);
    let entered = StoreState {
        projection: s.projection.with_counter(id).with_inode(id, attr, mem_data, path).with_child(
            parent,
            name,
            id,
        ),
        ..s
    };
    let children = with_name(s.projection.children_of(parent), name, id);
    assert(entered.projection.children_of(parent) == children);
    let child = InodeView { attr, data: disk_data, path };
    let listed = InodeView {
        attr: s.projection.attrs[parent],
        data: entries_layout(children),
        path: name_of(s.projection.paths, parent)->Some_0,
    };
    let first = save_inode_model(entered, id, child);
    lemma_saved_record(entered, id, child);
    let second = save_inode_model(first.0, parent, listed);
    lemma_saved_record(first.0, parent, listed);
    let third = save_superblock_model(second.0);
    lemma_saved_superblock(second.0);
    assert(done.0 == third.0);
    assert(done.1 == Ok::<u64, FsError>(id));
    lemma_layout_len(listed);
    lemma_entries_round_trip(children, Seq::empty());
    assert(entries_layout(children) + Seq::<u8>::empty() =~= entries_layout(children));
    assert forall|other: u64| other != id && other != parent implies #[trigger] disk_record(
        done.0.disk,
        s.block_len,
        other,
    ) == disk_record(s.disk, s.block_len, other) by {
        assert(disk_record(third.0.disk, s.block_len, other) == disk_record(
            second.0.disk,
            s.block_len,
            other,
        ));
        assert(disk_record(second.0.disk, s.block_len, other) == disk_record(
            first.0.disk,
            s.block_len,
            other,
        ));
    }
    if id != parent {
        assert(disk_record(third.0.disk, s.block_len, id) == disk_record(
            second.0.disk,
            s.block_len,
            id,
        ));
        assert(disk_record(second.0.disk, s.block_len, id) == disk_record(
            first.0.disk,
            s.block_len,
            id,
        ));
    }
    assert(disk_record(third.0.disk, s.block_len, parent) == disk_record(
        second.0.disk,
        s.block_len,
        parent,
    ));
}

/// The record of a newly made root directory takes a hundred and
/// twenty-seven bytes, so it fits the blocks of every store: making the
/// root fails only where the device does.
pub proof fn lemma_root_record_fits(now: Timestamp, block_len: nat)
    requires
        block_len >= MIN_BLOCK_SIZE,
    ensures
        root_record(now).layout().len() == 127,
        fits(root_record(now).layout().len(), block_len),
{
    let root = root_record(now);
    lemma_layout_len(root);
    lemma_u64_unique(0, 0);
    assert(entries_body(Seq::<(Seq<char>, u64)>::empty()).len() == 0);
    assert(is_ascii_chars(root.path)) by {
        assert(root.path[0] == '/');
        assert('/' as u32 == 47);
    }
    is_ascii_chars_encode_utf8(root.path);
}

/// Creating a file hands out the next inode number: one more than the
/// inode count that the superblock held, which then holds the new number.
pub proof fn lemma_create_allocates(
    s: StoreState,
    parent: u64,
    name: Seq<char>,
    data: Seq<u8>,
    now: Timestamp,
)
    requires
        s.wf(),
        create_file_model(s, parent, name, data, now).1 is Ok,
    ensures
        allocates(
            s.disk,
            create_file_model(s, parent, name, data, now).0.disk,
            create_file_model(s, parent, name, data, now).1->Ok_0,
        ),
{
    lemma_added_child(s, parent, name, file_attr(0, data.len() as u64, now), data, data);
}

/// Making a directory hands out the next inode number in the same way.
pub proof fn lemma_mkdir_allocates(
    s: StoreState,
    parent: u64,
    name: Seq<char>,
    uid: u32,
    gid: u32,
    now: Timestamp,
)
    requires
        s.wf(),
        mkdir_model(s, parent, name, uid, gid, now).1 is Ok,
    ensures
        allocates(
            s.disk,
            mkdir_model(s, parent, name, uid, gid, now).0.disk,
            mkdir_model(s, parent, name, uid, gid, now).1->Ok_0.ino,
        ),
{
    lemma_added_child(
        s,
        parent,
        name,
        directory_attr(0, uid, gid, now),
        entries_layout(Seq::empty()),
        Seq::empty(),
    );
}

/// Whether the device went through the contents `disks` one after another
/// and each step handed out the inode number at its place in `ids`.
pub open spec fn allocated_in_turn(disks: Seq<Seq<u8>>, ids: Seq<u64>) -> bool {
    &&& disks.len() == ids.len() + 1
    &&& forall|i: int| 0 <= i < ids.len() ==> allocates(disks[i], #[trigger] disks[i + 1], ids[i])
}

/// The inode numbers handed out by any sequence of creations on one device
/// are strictly increasing, each one more than the one before; so no number
/// is handed out twice.
pub proof fn lemma_ids_strictly_increase(disks: Seq<Seq<u8>>, ids: Seq<u64>, i: int, j: int)
    requires
        allocated_in_turn(disks, ids),
        0 <= i < j < ids.len(),
    ensures
        ids[j] == ids[i] + (j - i),
        ids[i] < ids[j],
    decreases j - i,
{
    assert(allocates(disks[j - 1], disks[j - 1 + 1], ids[j - 1]));
    assert(allocates(disks[j], disks[j + 1], ids[j]));
    if i < j - 1 {
        lemma_ids_strictly_increase(disks, ids, i, j - 1);
    }
}

/// The record of a file that was created is on the device under the file's
/// inode number, with the attributes of a new file of that size, the
/// content and the path; and a scan of the device that reaches the inode
/// enters those attributes and that content under that number, whatever
/// the projection held before. When the scan has reached the inode, the
/// file's path stands for it.
///
/// This is stated of a device whose stored inode count is at least one, so
/// that the new number is not the root's.
pub proof fn lemma_created_file_is_recovered(
    s: StoreState,
    name: Seq<char>,
    data: Seq<u8>,
    now: Timestamp,
    p: Projection,
    n: nat,
)
    requires
        s.wf(),
        create_file_model(s, ROOT_INO, name, data, now).1 is Ok,
        stored_count(s.disk) matches Some(count) && count >= 1,
        create_file_model(s, ROOT_INO, name, data, now).1->Ok_0 <= n <= u64::MAX,
    ensures
        ({
            let done = create_file_model(s, ROOT_INO, name, data, now);
            let id = done.1->Ok_0;
            let attr = file_attr(id, data.len() as u64, now);
            let found = scanned(p, done.0.disk, s.block_len, n);
            &&& disk_record(done.0.disk, s.block_len, id) == Some(
                InodeView { attr, data, path: child_path(name) },
            )
            &&& found.attrs.contains_key(id) && found.attrs[id] == attr
            &&& found.data.contains_key(id) && found.data[id] == data
            &&& ino_of(
                scanned(p, done.0.disk, s.block_len, id as nat).paths,
                child_path(name),
            ) == Some(id)
        }),
{
    lemma_added_child(s, ROOT_INO, name, file_attr(0, data.len() as u64, now), data, data);
    let done = create_file_model(s, ROOT_INO, name, data, now);
    let id = done.1->Ok_0;
    lemma_scanned_holds_record(p, done.0.disk, s.block_len, n, id);
    let before = scanned(p, done.0.disk, s.block_len, (id - 1) as nat);
    lemma_entered_name_is_found(before.paths, child_path(name), id);
}

/// A scan that reaches an inode with a record enters the record's
/// attributes and content under the inode's number.
pub proof fn lemma_scanned_holds_record(p: Projection, disk: Seq<u8>, block_len: nat, n: nat, ino: u64)
    requires
        1 <= ino <= n <= u64::MAX,
        disk_record(disk, block_len, ino) is Some,
    ensures
        scanned(p, disk, block_len, n).attrs.contains_key(ino),
        scanned(p, disk, block_len, n).attrs[ino] == disk_record(disk, block_len, ino)->Some_0.attr,
        scanned(p, disk, block_len, n).data.contains_key(ino),
        scanned(p, disk, block_len, n).data[ino] == disk_record(disk, block_len, ino)->Some_0.data,
    decreases n,
{
    if ino < n {
        lemma_scanned_holds_record(p, disk, block_len, (n - 1) as nat, ino);
    }
}

/// A scan that found the records of inodes 1 to `n` knows exactly the inodes
/// that the projection knew before and those from 1 to `n`.
pub proof fn lemma_scanned_inodes(p: Projection, disk: Seq<u8>, block_len: nat, n: nat, ino: u64)
    requires
        n <= u64::MAX,
        forall|i: u64| 1 <= i <= n ==> disk_record(disk, block_len, i) is Some,
    ensures
        scanned(p, disk, block_len, n).attrs.contains_key(ino) <==> p.attrs.contains_key(ino) || 1
            <= ino <= n,
        scanned(p, disk, block_len, n).data.contains_key(ino) <==> p.data.contains_key(ino) || 1
            <= ino <= n,
    decreases n,
{
    if n > 0 {
        lemma_scanned_inodes(p, disk, block_len, (n - 1) as nat, ino);
        assert(disk_record(disk, block_len, n as u64) is Some);
    }
}

/// Where the records of inodes 1 to `k` can be loaded and that of inode
/// `k + 1` cannot, a scan finds no more than those `k` records. It finds
/// exactly those if the device is reliable, or if what ended the scan was a
/// block without a record: such a block is the end of the table, not an
/// error. On a reliable device the scan names what kept inode `k + 1` from
/// being loaded.
pub proof fn lemma_scan_ends_at_first_gap(s: StoreState, summary: ScanSummary, k: u64)
    requires
        scan_found(s, summary),
        k < u64::MAX,
        forall|i: u64| 1 <= i <= k ==> load_inode_model(s, i) is Ok,
        load_inode_model(s, (k + 1) as u64) is Err,
    ensures
        summary.loaded <= k,
        s.reliable || (summary.stopped_by == FsError::Corrupt && load_inode_model(
            s,
            (k + 1) as u64,
        )->Err_0 == FsError::Corrupt) ==> summary.loaded == k,
        s.reliable ==> load_inode_model(s, (k + 1) as u64) == Err::<InodeView, FsError>(
            summary.stopped_by,
        ),
{
    if summary.loaded > k {
        assert(load_inode_model(s, (k + 1) as u64) is Ok);
    }
    if summary.loaded < k {
        assert(load_inode_model(s, (summary.loaded + 1) as u64) is Ok);
    }
}

/// The entries that pair the names with the inode numbers, in order.
pub open spec fn paired(names: Seq<Seq<char>>, ids: Seq<u64>) -> Seq<(Seq<char>, u64)> {
    Seq::new(names.len(), |i: int| (names[i], ids[i]))
}

/// Whether creating the file `name` with the content `data` at the time
/// `now` in the root directory took the store from `before` to `after` and
/// gave the inode number `id`.
#[verifier::opaque]
pub open spec fn creates(
    before: StoreState,
    name: Seq<char>,
    data: Seq<u8>,
    now: Timestamp,
    after: StoreState,
    id: u64,
) -> bool {
    create_file_model(before, ROOT_INO, name, data, now) == (after, Ok::<u64, FsError>(id))
}

/// Whether the store went through the states `states` by creating, one
/// after another, the files `names` with the contents `contents` at the
/// times `times` in the root directory, each creation giving the inode
/// number at its place in `ids`.
pub open spec fn created_in_turn(
    states: Seq<StoreState>,
    names: Seq<Seq<char>>,
    contents: Seq<Seq<u8>>,
    times: Seq<Timestamp>,
    ids: Seq<u64>,
) -> bool {
    &&& states.len() == names.len() + 1
    &&& contents.len() == names.len()
    &&& times.len() == names.len()
    &&& ids.len() == names.len()
    &&& forall|i: int|
        0 <= i < names.len() ==> creates(
            #[trigger] states[i],
            names[i],
            contents[i],
            times[i],
            states[i + 1],
            ids[i],
        )
}

/// What one creation does to the children of the root: the new name is
/// entered among them, in the projection and in the entry list that the
/// root's record stores.
pub proof fn lemma_creation_enters_name(
    before: StoreState,
    name: Seq<char>,
    data: Seq<u8>,
    now: Timestamp,
    after: StoreState,
    id: u64,
)
    requires
        before.wf(),
        creates(before, name, data, now, after, id),
    ensures
        after.wf(),
        after.block_len == before.block_len,
        after.projection.children_of(ROOT_INO) == with_name(
            before.projection.children_of(ROOT_INO),
            name,
            id,
        ),
        disk_record(after.disk, before.block_len, ROOT_INO) matches Some(root)
            && decode_entry_list(root.data) == Some(
            with_name(before.projection.children_of(ROOT_INO), name, id),
        ),
{
    reveal(creates);
    lemma_added_child(before, ROOT_INO, name, file_attr(0, data.len() as u64, now), data, data);
}

/// A sequence of creations without its last step is a sequence of
/// creations, and its last step is a creation.
pub proof fn lemma_created_before_last(
    states: Seq<StoreState>,
    names: Seq<Seq<char>>,
    contents: Seq<Seq<u8>>,
    times: Seq<Timestamp>,
    ids: Seq<u64>,
)
    requires
        created_in_turn(states, names, contents, times, ids),
        names.len() > 0,
    ensures
        created_in_turn(
            states.drop_last(),
            names.drop_last(),
            contents.drop_last(),
            times.drop_last(),
            ids.drop_last(),
        ),
        creates(
            states[names.len() - 1],
            names.last(),
            contents.last(),
            times.last(),
            states.last(),
            ids.last(),
        ),
{
    let last = names.len() - 1;
    let s1 = states.drop_last();
    let n1 = names.drop_last();
    let c1 = contents.drop_last();
    let t1 = times.drop_last();
    let i1 = ids.drop_last();
    assert forall|i: int| 0 <= i < n1.len() implies creates(
        #[trigger] s1[i],
        n1[i],
        c1[i],
        t1[i],
        s1[i + 1],
        i1[i],
    ) by {
        assert(creates(states[i], names[i], contents[i], times[i], states[i + 1], ids[i]));
    }
    assert(creates(states[last], names[last], contents[last], times[last], states[last + 1], ids[last]));
}

/// Entering the last of a list of different names, with its inode number,
/// into the list of those before it gives the whole list.
pub proof fn lemma_paired_grows(names: Seq<Seq<char>>, ids: Seq<u64>)
    requires
        names.len() == ids.len(),
        names.len() > 0,
        forall|i: int, j: int| 0 <= i < j < names.len() ==> names[i] != names[j],
    ensures
        with_name(paired(names.drop_last(), ids.drop_last()), names.last(), ids.last()) == paired(
            names,
            ids,
        ),
{
    let earlier = paired(names.drop_last(), ids.drop_last());
    lemma_position_of(earlier, names.last());
    if has_name(earlier, names.last()) {
        let k = choose|k: int| 0 <= k < earlier.len() && earlier[k].0 == names.last();
        assert(names[k] == names[names.len() - 1]);
    }
    assert(earlier.push((names.last(), ids.last())) =~= paired(names, ids));
}

/// After files with different names have been created one after another in
/// a root directory that had no children, the entry list stored in the
/// root's record decodes to exactly one entry for each file, in the order
/// of creation, each name with the inode number that its creation gave; and
/// the projection holds the same list.
///
/// This is stated of names that differ from each other: a name that is
/// created again replaces its entry.
pub proof fn lemma_listing_after_creations(
    states: Seq<StoreState>,
    names: Seq<Seq<char>>,
    contents: Seq<Seq<u8>>,
    times: Seq<Timestamp>,
    ids: Seq<u64>,
)
    requires
        created_in_turn(states, names, contents, times, ids),
        names.len() > 0,
        states[0].wf(),
        states[0].projection.children_of(ROOT_INO) == Seq::<(Seq<char>, u64)>::empty(),
        forall|i: int, j: int| 0 <= i < j < names.len() ==> names[i] != names[j],
    ensures
        states.last().wf(),
        states.last().block_len == states[0].block_len,
        states.last().projection.children_of(ROOT_INO) == paired(names, ids),
        disk_record(states.last().disk, states[0].block_len, ROOT_INO) matches Some(root)
            && decode_entry_list(root.data) == Some(paired(names, ids)),
        paired(names, ids).len() == names.len(),
        forall|i: int|
            0 <= i < names.len() ==> ino_of(paired(names, ids), #[trigger] names[i]) == Some(
                ids[i],
            ),
    decreases names.len(),
{
    let last = names.len() - 1;
    let before = states[last];
    let earlier = paired(names.drop_last(), ids.drop_last());
    lemma_created_before_last(states, names, contents, times, ids);
    if names.len() == 1 {
        assert(earlier =~= Seq::<(Seq<char>, u64)>::empty());
    } else {
        lemma_listing_after_creations(
            states.drop_last(),
            names.drop_last(),
            contents.drop_last(),
            times.drop_last(),
            ids.drop_last(),
        );
        assert(states.drop_last().last() == before);
        assert(states.drop_last()[0] == states[0]);
    }
    lemma_creation_enters_name(
        before,
        names.last(),
        contents.last(),
        times.last(),
        states.last(),
        ids.last(),
    );
    lemma_paired_grows(names, ids);
    lemma_paired_names(names, ids);
}

/// In a list that pairs different names with inode numbers, each name
/// stands for the number it is paired with.
pub proof fn lemma_paired_names(names: Seq<Seq<char>>, ids: Seq<u64>)
    requires
        names.len() == ids.len(),
        forall|i: int, j: int| 0 <= i < j < names.len() ==> names[i] != names[j],
    ensures
        names_distinct(paired(names, ids)),
        forall|i: int|
            0 <= i < names.len() ==> ino_of(paired(names, ids), #[trigger] names[i]) == Some(
                ids[i],
            ),
{
    let all = paired(names, ids);
    assert forall|i: int| 0 <= i < names.len() implies ino_of(all, #[trigger] names[i]) == Some(
        ids[i],
    ) by {
        lemma_position_of(all, names[i]);
        let p = crate::names::position_of(all, names[i]);
        assert(all[i].0 == names[i]);
        assert(has_name(all, names[i]));
        if p != i {
            assert(all[p].0 == names[p]);
        }
    }
}

} // verus!
