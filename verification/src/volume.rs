//! The volumes of a device: named extents, each with a size and an offset.

use vstd::prelude::*;

verus! {

/// A named extent of the device.
#[derive(Debug)]
pub struct Volume {
    pub id: String,
    pub size: u64,
    pub offset: u64,
}

impl View for Volume {
    type V = (Seq<char>, u64, u64);

    open spec fn view(&self) -> (Seq<char>, u64, u64) {
        (self.id@, self.size, self.offset)
    }
}

/// How a list of volumes appears: each with its identifier by its
/// characters.
pub open spec fn volumes_view(vs: Seq<Volume>) -> Seq<(Seq<char>, u64, u64)> {
    Seq::new(vs.len(), |i: int| vs[i]@)
}

/// Position of the first volume called `id`; the number of volumes if there
/// is none.
pub open spec fn volume_position(vs: Seq<(Seq<char>, u64, u64)>, id: Seq<char>) -> int
    decreases vs.len(),
{
    if vs.len() == 0 {
        0
    } else if vs[0].0 == id {
        0
    } else {
        1 + volume_position(vs.drop_first(), id)
    }
}

/// The volume called `id`.
pub open spec fn volume_named(vs: Seq<(Seq<char>, u64, u64)>, id: Seq<char>) -> Option<
    (Seq<char>, u64, u64),
> {
    let i = volume_position(vs, id);
    if i < vs.len() {
        Some(vs[i])
    } else {
        None
    }
}

/// The volumes after one called `id` has been created: it replaces a volume
/// of that name, or is added.
pub open spec fn with_volume(vs: Seq<(Seq<char>, u64, u64)>, id: Seq<char>, size: u64, offset: u64) -> Seq<
    (Seq<char>, u64, u64),
> {
    let i = volume_position(vs, id);
    if i < vs.len() {
        vs.update(i, (id, size, offset))
    } else {
        vs.push((id, size, offset))
    }
}

/// What `volume_position` finds: a volume of that name and none before it,
/// or no volume of that name at all.
pub proof fn lemma_volume_position(vs: Seq<(Seq<char>, u64, u64)>, id: Seq<char>)
    ensures
        0 <= volume_position(vs, id) <= vs.len(),
        volume_position(vs, id) < vs.len() ==> vs[volume_position(vs, id)].0 == id,
        forall|j: int| 0 <= j < volume_position(vs, id) ==> vs[j].0 != id,
    decreases vs.len(),
{
    if vs.len() == 0 {
    } else if vs[0].0 == id {
    } else {
        let t = vs.drop_first();
        lemma_volume_position(t, id);
        let p = volume_position(t, id);
        assert forall|j: int| 0 <= j < 1 + p implies vs[j].0 != id by {
            if j > 0 {
                assert(t[j - 1] == vs[j]);
            }
        }
        if p < t.len() {
            assert(t[p] == vs[p + 1]);
        }
    }
}

/// Where no volume before position `i` is called `id` and the one at `i`
/// is, `i` is the position of `id`; where none is called `id`, its position
/// is the number of volumes.
pub proof fn lemma_volume_position_is(vs: Seq<(Seq<char>, u64, u64)>, id: Seq<char>, i: int)
    requires
        0 <= i <= vs.len(),
        forall|j: int| 0 <= j < i ==> vs[j].0 != id,
        i < vs.len() ==> vs[i].0 == id,
    ensures
        volume_position(vs, id) == i,
{
    lemma_volume_position(vs, id);
    let p = volume_position(vs, id);
    if p < i {
        assert(vs[p].0 == id);
    }
}

/// A created volume is found under its name, and every volume of another
/// name is found as before.
pub proof fn lemma_created_volume_is_found(
    vs: Seq<(Seq<char>, u64, u64)>,
    id: Seq<char>,
    size: u64,
    offset: u64,
    other: Seq<char>,
)
    ensures
        volume_named(with_volume(vs, id, size, offset), id) == Some((id, size, offset)),
        other != id ==> volume_named(with_volume(vs, id, size, offset), other) == volume_named(
            vs,
            other,
        ),
{
    let t = with_volume(vs, id, size, offset);
    let p = volume_position(vs, id);
    lemma_volume_position(vs, id);
    assert(t[p] == (id, size, offset));
    assert forall|j: int| 0 <= j < p implies t[j].0 != id by {
        assert(t[j] == vs[j]);
    }
    lemma_volume_position_is(t, id, p);
    if other != id {
        lemma_volume_position(vs, other);
        let a = volume_position(vs, other);
        assert forall|j: int| 0 <= j < a && j < t.len() implies t[j].0 != other by {
            if j != p {
                assert(t[j] == vs[j]);
            }
        }
        if a < vs.len() {
            assert(a != p);
            assert(t[a] == vs[a]);
            lemma_volume_position_is(t, other, a);
        } else {
            lemma_volume_position_is(t, other, t.len() as int);
        }
    }
}

/// The volumes known of a device, by name.
pub struct MetadataStore {
    volumes: Vec<Volume>,
}

impl View for MetadataStore {
    type V = Seq<(Seq<char>, u64, u64)>;

    closed spec fn view(&self) -> Seq<(Seq<char>, u64, u64)> {
        volumes_view(self.volumes@)
    }
}

impl MetadataStore {
    /// A store that knows no volume.
    pub fn new() -> (s: MetadataStore)
        ensures
            s@ == Seq::<(Seq<char>, u64, u64)>::empty(),
    {
        let s = MetadataStore { volumes: Vec::new() };
        assert(s@ =~= Seq::<(Seq<char>, u64, u64)>::empty());
        s
    }

    /// Position of the volume called `id`, or the number of volumes.
    fn find(&self, id: &String) -> (i: usize)
        ensures
            i == volume_position(self@, id@),
            i <= self.volumes@.len(),
    {
        let mut i: usize = 0;
        let mut found = false;
        while !found && i < self.volumes.len()
            invariant
                i <= self.volumes@.len(),
                forall|j: int| 0 <= j < i ==> volumes_view(self.volumes@)[j].0 != id@,
                found ==> i < self.volumes@.len() && volumes_view(self.volumes@)[i as int].0
                    == id@,
            decreases self.volumes@.len() - i + if found { 0int } else { 1int },
        {
            if self.volumes[i].id == *id {
                found = true;
            } else {
                i = i + 1;
            }
        }
        proof {
            lemma_volume_position_is(self@, id@, i as int);
        }
        i
    }

    /// Creates the volume `id`, in place of a volume of that name if there
    /// is one.
    pub fn create_volume(&mut self, id: String, size: u64, offset: u64)
        ensures
            final(self)@ == with_volume(old(self)@, id@, size, offset),
    {
        let i = self.find(&id);
        let ghost before = self@;
        if i < self.volumes.len() {
            self.volumes[i] = Volume { id, size, offset };
            assert(self@ =~= before.update(i as int, (id@, size, offset)));
        } else {
            self.volumes.push(Volume { id, size, offset });
            assert(self@ =~= before.push((id@, size, offset)));
        }
    }

    /// The volume called `id`.
    pub fn get_volume(&self, id: &str) -> (r: Option<&Volume>)
        ensures
            match r {
                Some(volume) => volume_named(self@, id@) == Some(volume@),
                None => volume_named(self@, id@) is None,
            },
    {
        let wanted = id.to_owned();
        let i = self.find(&wanted);
        if i < self.volumes.len() {
            Some(&self.volumes[i])
        } else {
            None
        }
    }
}

} // verus!
