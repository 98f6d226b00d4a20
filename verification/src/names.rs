//! A table from names to inode numbers: the entries of one directory, or the
//! paths known to the store. A name is entered once; entering it again
//! replaces what it stands for, so a table that grew from the empty one
//! holds no name twice.

use crate::layout::{entries_view, DirectoryEntry};
use vstd::prelude::*;

verus! {

/// Whether no two entries carry the same name.
pub open spec fn names_distinct(s: Seq<(Seq<char>, u64)>) -> bool {
    forall|i: int, j: int| 0 <= i < j < s.len() ==> s[i].0 != s[j].0
}

/// Whether some entry carries `name`.
pub open spec fn has_name(s: Seq<(Seq<char>, u64)>, name: Seq<char>) -> bool {
    exists|i: int| 0 <= i < s.len() && s[i].0 == name
}

/// Position of the first entry that carries `name`; the number of entries
/// if none does.
pub open spec fn position_of(s: Seq<(Seq<char>, u64)>, name: Seq<char>) -> int
    decreases s.len(),
{
    if s.len() == 0 {
        0
    } else if s[0].0 == name {
        0
    } else {
        1 + position_of(s.drop_first(), name)
    }
}

/// The inode that `name` stands for.
pub open spec fn ino_of(s: Seq<(Seq<char>, u64)>, name: Seq<char>) -> Option<u64> {
    let i = position_of(s, name);
    if i < s.len() {
        Some(s[i].1)
    } else {
        None
    }
}

/// The table after `name` has been made to stand for `ino`: an entry with
/// that name is replaced where it stands, a new name is added at the end.
pub open spec fn with_name(s: Seq<(Seq<char>, u64)>, name: Seq<char>, ino: u64) -> Seq<
    (Seq<char>, u64),
> {
    let i = position_of(s, name);
    if i < s.len() {
        s.update(i, (name, ino))
    } else {
        s.push((name, ino))
    }
}

/// Position of the first entry that stands for `ino`; the number of entries
/// if none does.
pub open spec fn position_of_ino(s: Seq<(Seq<char>, u64)>, ino: u64) -> int
    decreases s.len(),
{
    if s.len() == 0 {
        0
    } else if s[0].1 == ino {
        0
    } else {
        1 + position_of_ino(s.drop_first(), ino)
    }
}

/// The first name that stands for `ino`.
pub open spec fn name_of(s: Seq<(Seq<char>, u64)>, ino: u64) -> Option<Seq<char>> {
    let i = position_of_ino(s, ino);
    if i < s.len() {
        Some(s[i].0)
    } else {
        None
    }
}

/// The table built by entering the entries of `es` one after another into
/// `s`: of two entries with one name the later wins.
pub open spec fn with_names(s: Seq<(Seq<char>, u64)>, es: Seq<(Seq<char>, u64)>) -> Seq<
    (Seq<char>, u64),
>
    decreases es.len(),
{
    if es.len() == 0 {
        s
    } else {
        with_name(with_names(s, es.drop_last()), es.last().0, es.last().1)
    }
}

/// What `position_of` finds: an entry with the name and none before it, or
/// no entry with the name at all.
pub proof fn lemma_position_of(s: Seq<(Seq<char>, u64)>, name: Seq<char>)
    ensures
        0 <= position_of(s, name) <= s.len(),
        position_of(s, name) < s.len() ==> s[position_of(s, name)].0 == name,
        forall|j: int| 0 <= j < position_of(s, name) ==> s[j].0 != name,
        position_of(s, name) < s.len() <==> has_name(s, name),
    decreases s.len(),
{
    if s.len() == 0 {
    } else if s[0].0 == name {
        assert(has_name(s, name));
    } else {
        let t = s.drop_first();
        lemma_position_of(t, name);
        let p = position_of(t, name);
        assert forall|j: int| 0 <= j < 1 + p implies s[j].0 != name by {
            if j > 0 {
                assert(t[j - 1] == s[j]);
            }
        }
        if p < t.len() {
            assert(t[p] == s[p + 1]);
            assert(has_name(s, name));
        } else {
            if has_name(s, name) {
                let i = choose|i: int| 0 <= i < s.len() && s[i].0 == name;
                assert(t[i - 1] == s[i]);
            }
        }
    }
}

/// What `position_of_ino` finds.
pub proof fn lemma_position_of_ino(s: Seq<(Seq<char>, u64)>, ino: u64)
    ensures
        0 <= position_of_ino(s, ino) <= s.len(),
        position_of_ino(s, ino) < s.len() ==> s[position_of_ino(s, ino)].1 == ino,
        forall|j: int| 0 <= j < position_of_ino(s, ino) ==> s[j].1 != ino,
    decreases s.len(),
{
    if s.len() == 0 {
    } else if s[0].1 == ino {
    } else {
        let t = s.drop_first();
        lemma_position_of_ino(t, ino);
        let p = position_of_ino(t, ino);
        assert forall|j: int| 0 <= j < 1 + p implies s[j].1 != ino by {
            if j > 0 {
                assert(t[j - 1] == s[j]);
            }
        }
        if p < t.len() {
            assert(t[p] == s[p + 1]);
        }
    }
}

/// A name that has been entered stands for the inode it was entered with,
/// whatever the table held before.
pub proof fn lemma_entered_name_is_found(s: Seq<(Seq<char>, u64)>, name: Seq<char>, ino: u64)
    ensures
        ino_of(with_name(s, name, ino), name) == Some(ino),
{
    let t = with_name(s, name, ino);
    let p = position_of(s, name);
    lemma_position_of(s, name);
    lemma_position_of(t, name);
    assert(t[p] == (name, ino));
    if position_of(t, name) < p {
        let q = position_of(t, name);
        assert(t[q].0 == s[q].0);
    }
}

/// What entering a name does: the name then stands for the inode, every
/// other name stands for what it stood for, and no name occurs twice.
pub proof fn lemma_with_name(s: Seq<(Seq<char>, u64)>, name: Seq<char>, ino: u64)
    requires
        names_distinct(s),
    ensures
        names_distinct(with_name(s, name, ino)),
        ino_of(with_name(s, name, ino), name) == Some(ino),
        forall|other: Seq<char>|
            other != name ==> ino_of(with_name(s, name, ino), other) == ino_of(s, other),
        with_name(s, name, ino).len() == if has_name(s, name) {
            s.len()
        } else {
            s.len() + 1
        },
{
    let t = with_name(s, name, ino);
    let p = position_of(s, name);
    lemma_position_of(s, name);
    lemma_position_of(t, name);
    assert(t[p] == (name, ino));
    assert forall|i: int, j: int| 0 <= i < j < t.len() implies t[i].0 != t[j].0 by {
        if p < s.len() {
            assert(t[i].0 == s[i].0 && t[j].0 == s[j].0);
        } else {
            if j == p {
                assert(t[i] == s[i]);
            } else {
                assert(t[i] == s[i] && t[j] == s[j]);
            }
        }
    }
    assert(position_of(t, name) == p) by {
        if position_of(t, name) < p {
            let q = position_of(t, name);
            assert(t[q].0 == s[q].0);
        }
    }
    assert forall|other: Seq<char>| other != name implies ino_of(t, other) == ino_of(
        s,
        other,
    ) by {
        lemma_position_of(s, other);
        lemma_position_of(t, other);
        let a = position_of(s, other);
        let b = position_of(t, other);
        if a < s.len() {
            assert(a != p);
            assert(t[a] == s[a]);
            if b < a {
                assert(t[b].0 == other);
                if b < s.len() && b != p {
                    assert(t[b] == s[b]);
                }
            }
            if a < b {
            }
            assert(a == b);
        } else {
            if b < t.len() {
                assert(t[b].0 == other);
                assert(b != p);
                assert(t[b] == s[b]);
            }
        }
    }
}

/// The names and inode numbers of one directory, or of the known paths.
pub struct NameTable {
    entries: Vec<DirectoryEntry>,
}

impl View for NameTable {
    type V = Seq<(Seq<char>, u64)>;

    closed spec fn view(&self) -> Seq<(Seq<char>, u64)> {
        entries_view(self.entries@)
    }
}

impl NameTable {
    /// The empty table.
    pub fn new() -> (t: NameTable)
        ensures
            t@ == Seq::<(Seq<char>, u64)>::empty(),
    {
        let t = NameTable { entries: Vec::new() };
        assert(t@ =~= Seq::<(Seq<char>, u64)>::empty());
        t
    }

    /// Number of entries.
    pub fn len(&self) -> (n: usize)
        ensures
            n == self@.len(),
    {
        self.entries.len()
    }

    /// The entries in the order in which their names were first entered.
    pub fn entries(&self) -> (es: &Vec<DirectoryEntry>)
        ensures
            entries_view(es@) == self@,
    {
        &self.entries
    }

    /// The inode that `name` stands for.
    pub fn get(&self, name: &str) -> (r: Option<u64>)
        ensures
            r == ino_of(self@, name@),
    {
        let wanted = name.to_owned();
        let mut i: usize = 0;
        while i < self.entries.len()
            invariant
                i <= self.entries@.len(),
                wanted@ == name@,
                forall|j: int| 0 <= j < i ==> entries_view(self.entries@)[j].0 != name@,
            decreases self.entries@.len() - i,
        {
            if self.entries[i].name == wanted {
                proof {
                    lemma_position_of(self@, name@);
                    assert(entries_view(self.entries@)[i as int].0 == name@);
                }
                return Some(self.entries[i].ino);
            }
            i = i + 1;
        }
        proof {
            lemma_position_of(self@, name@);
        }
        None
    }

    /// The first name that stands for `ino`.
    pub fn name_of(&self, ino: u64) -> (r: Option<String>)
        ensures
            match r {
                Some(name) => name_of(self@, ino) == Some(name@),
                None => name_of(self@, ino) is None,
            },
    {
        let mut i: usize = 0;
        while i < self.entries.len()
            invariant
                i <= self.entries@.len(),
                forall|j: int| 0 <= j < i ==> entries_view(self.entries@)[j].1 != ino,
            decreases self.entries@.len() - i,
        {
            if self.entries[i].ino == ino {
                proof {
                    lemma_position_of_ino(self@, ino);
                    assert(entries_view(self.entries@)[i as int].1 == ino);
                }
                return Some(self.entries[i].name.clone());
            }
            i = i + 1;
        }
        proof {
            lemma_position_of_ino(self@, ino);
        }
        None
    }

    /// Makes `name` stand for `ino`.
    pub fn put(&mut self, name: &str, ino: u64)
        ensures
            final(self)@ == with_name(old(self)@, name@, ino),
    {
        proof {
            lemma_position_of(self@, name@);
        }
        let wanted = name.to_owned();
        let mut i: usize = 0;
        let mut found = false;
        while !found && i < self.entries.len()
            invariant
                i <= self.entries@.len(),
                wanted@ == name@,
                forall|j: int| 0 <= j < i ==> entries_view(self.entries@)[j].0 != name@,
                found ==> i < self.entries@.len() && entries_view(self.entries@)[i as int].0
                    == name@,
            decreases self.entries@.len() - i + if found { 0int } else { 1int },
        {
            if self.entries[i].name == wanted {
                found = true;
            } else {
                i = i + 1;
            }
        }
        let ghost before = self@;
        if found {
            assert(before[i as int].0 == name@);
            self.entries[i] = DirectoryEntry { name: wanted, ino };
            assert(self@ =~= before.update(i as int, (name@, ino)));
        } else {
            self.entries.push(DirectoryEntry { name: wanted, ino });
            assert(self@ =~= before.push((name@, ino)));
        }
    }

    /// The table that holds the entries of `entries`, entered one after
    /// another.
    pub fn from_entries(entries: &Vec<DirectoryEntry>) -> (t: NameTable)
        ensures
            t@ == with_names(Seq::empty(), entries_view(entries@)),
    {
        let mut t = NameTable::new();
        let ghost all = entries_view(entries@);
        let mut i: usize = 0;
        while i < entries.len()
            invariant
                i <= entries@.len(),
                all == entries_view(entries@),
                t@ == with_names(Seq::empty(), all.take(i as int)),
            decreases entries@.len() - i,
        {
            t.put(entries[i].name.as_str(), entries[i].ino);
            proof {
                let next = all.take(i + 1);
                assert(next.drop_last() =~= all.take(i as int));
                assert(next.last() == all[i as int]);
            }
            i = i + 1;
        }
        assert(all.take(i as int) =~= all);
        t
    }
}

} // verus!
