//! The tag vocabulary: a registry of named tags (each in an archetype, with an
//! optional quality multiplier and an optional score threshold) and per-entity
//! tag sets indexed by tag id.
use vstd::prelude::*;
use crate::text::{chars_of, owned, same_chars, views};

verus! {

/// One registered tag. Its id is its position in the registry.
#[derive(Debug, Clone)]
pub struct TagDef {
    pub name: String,
    /// Name of the archetype the tag belongs to (e.g. "light", "quality").
    pub archetype: String,
    /// Quality multiplier, as a whole number.
    pub multiplier: Option<u32>,
    /// Inclusive score band `[low, high]` for environmental tags.
    pub threshold: Option<(u32, u32)>,
}

/// The registry of all tags; a tag's id is its index.
#[derive(Debug, Clone)]
pub struct TagRegistry {
    pub defs: Vec<TagDef>,
}

/// A tag id: an index into the registry.
pub type TagId = usize;

/// Position of the first name equal to `x`, if any.
pub open spec fn first_index(names: Seq<Seq<char>>, x: Seq<char>) -> Option<int>
    decreases names.len(),
{
    if names.len() == 0 {
        None
    } else {
        match first_index(names.drop_last(), x) {
            Some(i) => Some(i),
            None => if names.last() == x { Some(names.len() - 1) } else { None },
        }
    }
}

pub proof fn lemma_first_index(names: Seq<Seq<char>>, x: Seq<char>)
    ensures
        match first_index(names, x) {
            Some(i) => 0 <= i < names.len() && names[i] == x
                && forall|j: int| 0 <= j < i ==> names[j] != x,
            None => forall|j: int| 0 <= j < names.len() ==> names[j] != x,
        },
    decreases names.len(),
{
    if names.len() > 0 {
        let d = names.drop_last();
        lemma_first_index(d, x);
        assert forall|j: int| 0 <= j < d.len() implies d[j] == names[j] by {}
        match first_index(d, x) {
            Some(i) => {
                assert(first_index(names, x) == Some(i));
            },
            None => {
                assert forall|j: int| 0 <= j < d.len() implies names[j] != x by {
                    assert(d[j] != x);
                }
            },
        }
    }
}

impl TagRegistry {
    /// The names of the registered tags, by id.
    pub open spec fn names(&self) -> Seq<Seq<char>> {
        self.defs@.map_values(|d: TagDef| d.name@)
    }

    /// The id registered under `name`, as `tag_id` finds it.
    pub open spec fn id_of(&self, name: Seq<char>) -> Option<TagId> {
        match first_index(self.names(), name) {
            Some(i) => Some(i as usize),
            None => None,
        }
    }

    /// An empty registry.
    pub fn new() -> (r: Self)
        ensures
            r.defs@.len() == 0,
    {
        TagRegistry { defs: Vec::new() }
    }

    /// Registers a tag and returns its id.
    pub fn add_tag(
        &mut self,
        archetype: &str,
        name: &str,
        multiplier: Option<u32>,
        threshold: Option<(u32, u32)>,
    ) -> (id: TagId)
        ensures
            id == old(self).defs@.len(),
            final(self).defs@.len() == old(self).defs@.len() + 1,
            final(self).defs@.subrange(0, id as int) == old(self).defs@,
            final(self).defs@[id as int].name@ == name@,
            final(self).defs@[id as int].archetype@ == archetype@,
            final(self).defs@[id as int].multiplier == multiplier,
            final(self).defs@[id as int].threshold == threshold,
    {
        let id = self.defs.len();
        self.defs.push(TagDef { name: owned(name), archetype: owned(archetype), multiplier, threshold });
        assert(self.defs@.subrange(0, id as int) =~= old(self).defs@);
        id
    }

    /// Number of registered tags.
    pub fn tag_count(&self) -> (n: usize)
        ensures
            n == self.defs@.len(),
    {
        self.defs.len()
    }

    /// The id of the tag with this name, if registered (the first one, should a name repeat).
    pub fn tag_id(&self, name: &str) -> (r: Option<TagId>)
        ensures
            r == self.id_of(name@),
            r matches Some(i) ==> i < self.defs@.len() && self.defs@[i as int].name@ == name@,
            r is None ==> forall|j: int| 0 <= j < self.defs@.len() ==> self.defs@[j].name@ != name@,
    {
        let key = chars_of(name);
        let mut i: usize = 0;
        while i < self.defs.len()
            invariant
                i <= self.defs@.len(),
                key@ == name@,
                first_index(self.names().subrange(0, i as int), name@) is None,
            decreases self.defs.len() - i,
        {
            let ghost pre = self.names().subrange(0, i as int);
            let ghost cur = self.names().subrange(0, i + 1);
            assert(cur.drop_last() =~= pre);
            let n = chars_of(self.defs[i].name.as_str());
            if same_chars(&n, &key) {
                proof {
                    lemma_first_index(self.names(), name@);
                    lemma_first_index(pre, name@);
                    assert(first_index(cur, name@) == Some(i as int));
                    lemma_prefix_first(self.names(), name@, i as int + 1);
                }
                return Some(i);
            }
            i = i + 1;
        }
        proof {
            assert(self.names().subrange(0, self.defs@.len() as int) =~= self.names());
            lemma_first_index(self.names(), name@);
            assert forall|j: int| 0 <= j < self.defs@.len() implies self.defs@[j].name@ != name@ by {
                assert(self.names()[j] == self.defs@[j].name@);
            }
        }
        None
    }

    /// The definition of a registered tag.
    pub fn tag_by_id(&self, id: TagId) -> (r: &TagDef)
        requires
            id < self.defs@.len(),
        ensures
            *r == self.defs@[id as int],
    {
        &self.defs[id]
    }
}

/// The first occurrence found in a prefix is the first occurrence in the whole.
pub proof fn lemma_prefix_first(names: Seq<Seq<char>>, x: Seq<char>, k: int)
    requires
        0 <= k <= names.len(),
        first_index(names.subrange(0, k), x) is Some,
    ensures
        first_index(names, x) == first_index(names.subrange(0, k), x),
    decreases names.len() - k,
{
    if k < names.len() {
        assert(names.subrange(0, k + 1).drop_last() =~= names.subrange(0, k));
        lemma_prefix_first(names, x, k + 1);
    } else {
        assert(names.subrange(0, k) =~= names);
    }
}

/// The tags an entity carries: `present[id]` tells whether tag `id` is on it.
#[derive(Debug, Clone)]
pub struct Tags {
    pub present: Vec<bool>,
}

/// The ids present in a presence table, ascending.
pub open spec fn present_ids(p: Seq<bool>) -> Seq<TagId>
    decreases p.len(),
{
    if p.len() == 0 {
        seq![]
    } else if p.last() {
        present_ids(p.drop_last()).push((p.len() - 1) as usize)
    } else {
        present_ids(p.drop_last())
    }
}

impl Tags {
    /// Whether tag `id` is present.
    pub open spec fn contains(&self, id: int) -> bool {
        0 <= id < self.present@.len() && self.present@[id]
    }

    /// A tag set with room for `count` tags and none present.
    pub fn new(count: usize) -> (r: Self)
        ensures
            r.present@.len() == count,
            forall|i: int| !r.contains(i),
    {
        let mut present: Vec<bool> = Vec::new();
        let mut i: usize = 0;
        while i < count
            invariant
                i <= count,
                present@.len() == i,
                forall|j: int| 0 <= j < i ==> !present@[j],
            decreases count - i,
        {
            present.push(false);
            i = i + 1;
        }
        Tags { present }
    }

    /// Whether tag `id` is present.
    pub fn has(&self, id: TagId) -> (r: bool)
        ensures
            r == self.contains(id as int),
    {
        id < self.present.len() && self.present[id]
    }

    /// Marks tag `id` present; an id beyond the set's room is ignored.
    pub fn add_tag(&mut self, id: TagId)
        ensures
            final(self).present@.len() == old(self).present@.len(),
            forall|i: int| #[trigger] final(self).contains(i)
                == (old(self).contains(i) || (i == id && id < old(self).present@.len())),
    {
        if id < self.present.len() {
            self.present.set(id, true);
        }
    }

    /// The present ids, ascending.
    pub fn iter_present(&self) -> (r: Vec<TagId>)
        ensures
            r@ == present_ids(self.present@),
    {
        let mut r: Vec<TagId> = Vec::new();
        let mut i: usize = 0;
        while i < self.present.len()
            invariant
                i <= self.present@.len(),
                r@ == present_ids(self.present@.subrange(0, i as int)),
            decreases self.present.len() - i,
        {
            assert(self.present@.subrange(0, i + 1).drop_last() =~= self.present@.subrange(0, i as int));
            if self.present[i] {
                r.push(i);
            }
            i = i + 1;
        }
        assert(self.present@.subrange(0, self.present@.len() as int) =~= self.present@);
        r
    }
}

/// Every id listed by `present_ids` is present, and every present id is listed.
pub proof fn lemma_present_ids(p: Seq<bool>)
    requires
        p.len() <= usize::MAX,
    ensures
        forall|k: int| 0 <= k < present_ids(p).len() ==> {
            let id = #[trigger] present_ids(p)[k];
            id < p.len() && p[id as int]
        },
        forall|i: int| 0 <= i < p.len() && p[i] ==> present_ids(p).contains(i as usize),
    decreases p.len(),
{
    if p.len() > 0 {
        lemma_present_ids(p.drop_last());
        let q = present_ids(p.drop_last());
        assert forall|k: int| 0 <= k < present_ids(p).len() implies {
            let id = #[trigger] present_ids(p)[k];
            id < p.len() && p[id as int]
        } by {
            if p.last() {
                if k < q.len() {
                    assert(present_ids(p)[k] == q[k]);
                    assert(p.drop_last()[q[k] as int] == p[q[k] as int]);
                } else {
                    assert(present_ids(p)[k] == (p.len() - 1) as usize);
                }
            } else {
                assert(present_ids(p)[k] == q[k]);
                assert(p.drop_last()[q[k] as int] == p[q[k] as int]);
            }
        }
        assert forall|i: int| 0 <= i < p.len() && p[i] implies present_ids(p).contains(i as usize) by {
            if i < p.len() - 1 {
                assert(p.drop_last()[i]);
                let k = choose|k: int| 0 <= k < q.len() && q[k] == i as usize;
                if p.last() {
                    assert(present_ids(p)[k] == i as usize);
                }
            } else {
                assert(present_ids(p).last() == i as usize);
            }
        }
    }
}

/// Which registered ids the given tag names resolve to.
pub open spec fn presence_of(names: Seq<String>, reg: TagRegistry) -> Seq<bool> {
    Seq::new(reg.defs@.len(), |id: int| exists|k: int| 0 <= k < names.len() && reg.id_of(names[k]@) == Some(id as usize))
}

/// Builds a tag set for a registry from tag names; unknown names are skipped.
pub fn tags_from_names(names: &Vec<String>, registry: &TagRegistry) -> (t: Tags)
    ensures
        t.present@.len() == registry.defs@.len(),
        forall|id: TagId| #[trigger] t.contains(id as int) <==>
            exists|k: int| 0 <= k < names@.len() && registry.id_of(names@[k]@) == Some(id),
        t.present@ == presence_of(names@, *registry),
{
    let mut t = Tags::new(registry.tag_count());
    let mut k: usize = 0;
    while k < names.len()
        invariant
            k <= names@.len(),
            t.present@.len() == registry.defs@.len(),
            forall|id: TagId| #[trigger] t.contains(id as int) <==>
                exists|j: int| 0 <= j < k && registry.id_of(names@[j]@) == Some(id),
        decreases names.len() - k,
    {
        let found = registry.tag_id(names[k].as_str());
        if let Some(id) = found {
            t.add_tag(id);
        }
        proof {
            assert forall|id: TagId| #[trigger] t.contains(id as int) <==>
                exists|j: int| 0 <= j < k + 1 && registry.id_of(names@[j]@) == Some(id) by {
                if t.contains(id as int) {
                    if exists|j: int| 0 <= j < k && registry.id_of(names@[j]@) == Some(id) {
                        let j = choose|j: int| 0 <= j < k && registry.id_of(names@[j]@) == Some(id);
                        assert(0 <= j < k + 1);
                    } else {
                        assert(registry.id_of(names@[k as int]@) == Some(id));
                    }
                }
                if exists|j: int| 0 <= j < k + 1 && registry.id_of(names@[j]@) == Some(id) {
                    let j = choose|j: int| 0 <= j < k + 1 && registry.id_of(names@[j]@) == Some(id);
                    if j < k {
                        assert(exists|j2: int| 0 <= j2 < k && registry.id_of(names@[j2]@) == Some(id));
                    }
                }
            }
        }
        k = k + 1;
    }
    assert forall|id: int| 0 <= id < t.present@.len() implies t.present@[id] == presence_of(names@, *registry)[id] by {
        assert(t.contains(id as usize as int) == t.present@[id]);
    }
    assert(t.present@ =~= presence_of(names@, *registry));
    t
}

/// The registry ids of the tag names that are registered, in order.
pub open spec fn known_ids(names: Seq<Seq<char>>, reg: TagRegistry) -> Seq<TagId>
    decreases names.len(),
{
    if names.len() == 0 {
        seq![]
    } else {
        let prev = known_ids(names.drop_last(), reg);
        match reg.id_of(names.last()) {
            Some(id) => prev.push(id),
            None => prev,
        }
    }
}

/// The registry ids of the registered names among `names`, in order.
pub fn known_tag_ids(names: &Vec<String>, reg: &TagRegistry) -> (r: Vec<TagId>)
    ensures
        r@ == known_ids(views(names@), *reg),
{
    let mut r: Vec<TagId> = Vec::new();
    let mut i: usize = 0;
    while i < names.len()
        invariant
            i <= names@.len(),
            r@ == known_ids(views(names@.subrange(0, i as int)), *reg),
        decreases names.len() - i,
    {
        assert(views(names@.subrange(0, i + 1)).drop_last() =~= views(names@.subrange(0, i as int)));
        if let Some(id) = reg.tag_id(names[i].as_str()) {
            r.push(id);
        }
        i = i + 1;
    }
    assert(names@.subrange(0, names@.len() as int) =~= names@);
    r
}

} // verus!
