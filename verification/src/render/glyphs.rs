//! The glyph registry: named glyphs for terrain tiles and entities, and the default
//! color of every glyph character in use.
use vstd::prelude::*;
use crate::tags::{first_index, lemma_first_index};
use crate::text::{chars_of, owned, same_chars, str_eq, trim_text, trimmed};

verus! {

/// A glyph character and its color.
#[derive(Debug, Clone, Copy, PartialEq, Eq)]
pub struct GlyphDef {
    pub glyph: char,
    pub color: [u8; 3],
}

/// A glyph written in the configuration either as a character or as a string.
pub enum CharOrString {
    Char(char),
    String(String),
}

/// The first character that is not a double quote, if any.
pub open spec fn first_unquoted(s: Seq<char>) -> Option<char>
    decreases s.len(),
{
    if s.len() == 0 { None } else if s[0] != '"' { Some(s[0]) } else { first_unquoted(s.drop_first()) }
}

impl CharOrString {
    /// The glyph character: a string is trimmed, stripped of double quotes, and its first
    /// character taken; '?' when nothing is left.
    #[verifier::loop_isolation(false)]
    pub fn to_char(&self) -> (r: char)
        ensures
            r == (match self {
                CharOrString::Char(c) => *c,
                CharOrString::String(s) => match first_unquoted(trimmed(s@)) {
                    Some(c) => c,
                    None => '?',
                },
            }),
    {
        match self {
            CharOrString::Char(c) => *c,
            CharOrString::String(s) => {
                let t = trim_text(s.as_str());
                let cs = chars_of(t.as_str());
                let mut i: usize = 0;
                assert(cs@.subrange(0, cs@.len() as int) =~= cs@);
                while i < cs.len()
                    invariant
                        i <= cs@.len(),
                        cs@ == trimmed(s@),
                        first_unquoted(cs@) == first_unquoted(cs@.subrange(i as int, cs@.len() as int)),
                    decreases cs.len() - i,
                {
                    assert(cs@.subrange(i as int, cs@.len() as int).drop_first() =~= cs@.subrange(i + 1, cs@.len() as int));
                    assert(cs@.subrange(i as int, cs@.len() as int)[0] == cs@[i as int]);
                    if cs[i] != '"' {
                        assert(first_unquoted(cs@.subrange(i as int, cs@.len() as int)) == Some(cs@[i as int]));
                        assert(first_unquoted(trimmed(s@)) == Some(cs@[i as int]));
                        let r = cs[i];
                        assert(r == cs@[i as int]);
                        return r;
                    }
                    i = i + 1;
                }
                assert(cs@.subrange(i as int, cs@.len() as int) =~= Seq::<char>::empty());
                '?'
            },
        }
    }
}

/// One named glyph of the configuration, with its resolved character and color.
pub struct GlyphEntry {
    pub name: String,
    pub glyph: char,
    pub color: [u8; 3],
}

/// Names that denote terrain tiles; every other name denotes an entity.
pub open spec fn is_tile_name(name: Seq<char>) -> bool {
    name == "grass"@ || name == "dirt"@ || name == "stone"@ || name == "sand"@ || name == "water"@
        || name == "forest"@ || name == "swamp"@ || name == "snow"@ || name == "lava"@ || name == "tech_terminal"@
}

/// Whether a name denotes a terrain tile.
pub fn is_tile(name: &str) -> (r: bool)
    ensures
        r == is_tile_name(name@),
{
    str_eq(name, "grass") || str_eq(name, "dirt") || str_eq(name, "stone") || str_eq(name, "sand")
        || str_eq(name, "water") || str_eq(name, "forest") || str_eq(name, "swamp") || str_eq(name, "snow")
        || str_eq(name, "lava") || str_eq(name, "tech_terminal")
}

/// "tile" for terrain names, "entity" otherwise.
pub fn name_category(name: &str) -> (r: &'static str)
    ensures
        r@ == (if is_tile_name(name@) { "tile"@ } else { "entity"@ }),
{
    if is_tile(name) {
        "tile"
    } else {
        "entity"
    }
}

/// The glyph registry: the fallback glyph, the named tile and entity glyphs, and the color of
/// each registered character. Each name and each character appears at most once.
pub struct GlyphRegistry {
    fallback: GlyphDef,
    tiles: Vec<(String, GlyphDef)>,
    entities: Vec<(String, GlyphDef)>,
    glyph_index: Vec<(char, [u8; 3])>,
}

/// The names of named glyphs.
pub open spec fn glyph_names(v: Seq<(String, GlyphDef)>) -> Seq<Seq<char>> {
    v.map_values(|e: (String, GlyphDef)| e.0@)
}

/// The glyph registered under a name.
pub open spec fn named_glyph(v: Seq<(String, GlyphDef)>, name: Seq<char>) -> Option<GlyphDef> {
    match first_index(glyph_names(v), name) {
        Some(i) => Some(v[i].1),
        None => None,
    }
}

/// The color registered for a character.
pub open spec fn char_color(v: Seq<(char, [u8; 3])>, c: char) -> Option<[u8; 3]> {
    match first_char_index(v, c) {
        Some(i) => Some(v[i].1),
        None => None,
    }
}

/// The characters of the color index, in order.
pub open spec fn index_chars(v: Seq<(char, [u8; 3])>) -> Seq<char> {
    v.map_values(|e: (char, [u8; 3])| e.0)
}

/// The names of the entries that fall in a category (tiles when `tiles`, else entities).
#[verifier::opaque]
pub open spec fn entry_names(entries: Seq<GlyphEntry>, tiles: bool) -> Set<Seq<char>> {
    Set::new(|n: Seq<char>| exists|k: int| 0 <= k < entries.len() && #[trigger] entries[k].name@ == n
        && is_tile_name(n) == tiles)
}

/// The characters of the entries.
#[verifier::opaque]
pub open spec fn entry_chars(entries: Seq<GlyphEntry>) -> Set<char> {
    Set::new(|c: char| exists|k: int| 0 <= k < entries.len() && #[trigger] entries[k].glyph == c)
}

/// The names and characters of entries, one entry further.
proof fn lemma_entry_sets_push(pre: Seq<GlyphEntry>, e: GlyphEntry)
    ensures
        entry_chars(pre.push(e)) == entry_chars(pre).insert(e.glyph),
        entry_names(pre.push(e), true) == if is_tile_name(e.name@) { entry_names(pre, true).insert(e.name@) } else { entry_names(pre, true) },
        entry_names(pre.push(e), false) == if !is_tile_name(e.name@) { entry_names(pre, false).insert(e.name@) } else { entry_names(pre, false) },
{
    reveal(entry_chars);
    reveal(entry_names);
    let post = pre.push(e);
    assert forall|k: int| 0 <= k < pre.len() implies #[trigger] post[k] == pre[k] by {}
    assert(post[pre.len() as int] == e);
    assert forall|c: char| entry_chars(post).contains(c) == entry_chars(pre).insert(e.glyph).contains(c) by {
        if entry_chars(post).contains(c) {
            let k = choose|k: int| 0 <= k < post.len() && #[trigger] post[k].glyph == c;
            if k < pre.len() { assert(pre[k].glyph == c); }
        }
        if entry_chars(pre).contains(c) {
            let k = choose|k: int| 0 <= k < pre.len() && #[trigger] pre[k].glyph == c;
            assert(post[k].glyph == c);
        }
    }
    assert(entry_chars(post) =~= entry_chars(pre).insert(e.glyph));
    assert forall|t: bool, n: Seq<char>| #[trigger] entry_names(post, t).contains(n) == (if is_tile_name(e.name@) == t {
        entry_names(pre, t).insert(e.name@) } else { entry_names(pre, t) }).contains(n) by {
        if entry_names(post, t).contains(n) {
            let k = choose|k: int| 0 <= k < post.len() && #[trigger] post[k].name@ == n && is_tile_name(n) == t;
            if k < pre.len() { assert(pre[k].name@ == n); }
        }
        if entry_names(pre, t).contains(n) {
            let k = choose|k: int| 0 <= k < pre.len() && #[trigger] pre[k].name@ == n && is_tile_name(n) == t;
            assert(post[k].name@ == n);
        }
    }
    assert(entry_names(post, true) =~= if is_tile_name(e.name@) { entry_names(pre, true).insert(e.name@) } else { entry_names(pre, true) });
    assert(entry_names(post, false) =~= if !is_tile_name(e.name@) { entry_names(pre, false).insert(e.name@) } else { entry_names(pre, false) });
}

/// Position of the first entry for character `c`.
pub open spec fn first_char_index(v: Seq<(char, [u8; 3])>, c: char) -> Option<int>
    decreases v.len(),
{
    if v.len() == 0 {
        None
    } else {
        match first_char_index(v.drop_last(), c) {
            Some(i) => Some(i),
            None => if v.last().0 == c { Some(v.len() - 1) } else { None },
        }
    }
}

pub proof fn lemma_first_char_index(v: Seq<(char, [u8; 3])>, c: char)
    ensures
        match first_char_index(v, c) {
            Some(i) => 0 <= i < v.len() && v[i].0 == c && forall|j: int| 0 <= j < i ==> v[j].0 != c,
            None => forall|j: int| 0 <= j < v.len() ==> v[j].0 != c,
        },
    decreases v.len(),
{
    if v.len() > 0 {
        let d = v.drop_last();
        lemma_first_char_index(d, c);
        assert forall|j: int| 0 <= j < d.len() implies d[j] == v[j] by {}
    }
}

fn find_name(v: &Vec<(String, GlyphDef)>, name: &str) -> (r: Option<usize>)
    ensures
        r matches Some(i) ==> first_index(glyph_names(v@), name@) == Some(i as int) && i < v@.len(),
        r is None ==> first_index(glyph_names(v@), name@) is None,
{
    let key = chars_of(name);
    let mut i: usize = 0;
    while i < v.len()
        invariant
            i <= v@.len(),
            key@ == name@,
            forall|j: int| 0 <= j < i ==> glyph_names(v@)[j] != name@,
        decreases v.len() - i,
    {
        let n = chars_of(v[i].0.as_str());
        assert(glyph_names(v@)[i as int] == v@[i as int].0@);
        if same_chars(&n, &key) {
            proof { lemma_first_index(glyph_names(v@), name@); }
            return Some(i);
        }
        i = i + 1;
    }
    proof { lemma_first_index(glyph_names(v@), name@); }
    None
}

/// Records a named glyph, replacing an earlier one of the same name.
fn insert_named(v: &mut Vec<(String, GlyphDef)>, name: &str, def: GlyphDef)
    ensures
        named_glyph(final(v)@, name@) == Some(def),
        forall|n: Seq<char>| n != name@ ==> named_glyph(final(v)@, n) == named_glyph(old(v)@, n),
        glyph_names(old(v)@).no_duplicates() ==> glyph_names(final(v)@).no_duplicates(),
        glyph_names(final(v)@).to_set() == glyph_names(old(v)@).to_set().insert(name@),
{
    let ghost old_names = glyph_names(v@);
    proof { lemma_first_index(old_names, name@); }
    match find_name(v, name) {
        Some(i) => {
            v.set(i, (owned(name), def));
            assert(glyph_names(v@) =~= old_names);
            proof {
                assert(old_names.to_set().contains(name@)) by {
                    assert(old_names[i as int] == name@);
                }
                assert(old_names.to_set().insert(name@) =~= old_names.to_set());
                assert forall|n: Seq<char>| n != name@ implies named_glyph(v@, n) == named_glyph(old(v)@, n) by {
                    lemma_first_index(old_names, n);
                }
            }
        },
        None => {
            let ghost pre = v@;
            v.push((owned(name), def));
            proof {
                assert(glyph_names(v@) =~= old_names.push(name@));
                assert forall|j: int| 0 <= j < old_names.len() implies old_names[j] != name@ by {
                    lemma_first_index(old_names, name@);
                }
                assert(old_names.push(name@).to_set() =~= old_names.to_set().insert(name@)) by {
                    assert forall|x: Seq<char>| old_names.push(name@).contains(x) <==> old_names.contains(x) || x == name@ by {
                        if old_names.contains(x) {
                            let j = choose|j: int| 0 <= j < old_names.len() && old_names[j] == x;
                            assert(old_names.push(name@)[j] == x);
                        }
                        if x == name@ {
                            assert(old_names.push(name@)[old_names.len() as int] == x);
                        }
                    }
                }
                crate::reputation::lemma_first_index_push(old_names, name@, name@);
                assert forall|n: Seq<char>| n != name@ implies named_glyph(v@, n) == named_glyph(old(v)@, n) by {
                    crate::reputation::lemma_first_index_push(old_names, name@, n);
                    lemma_first_index(old_names, n);
                }
            }
        },
    }
}

/// Records a character's color, replacing an earlier one for the same character.
fn insert_char(v: &mut Vec<(char, [u8; 3])>, c: char, color: [u8; 3])
    ensures
        char_color(final(v)@, c) == Some(color),
        forall|d: char| d != c ==> char_color(final(v)@, d) == char_color(old(v)@, d),
        index_chars(old(v)@).no_duplicates() ==> index_chars(final(v)@).no_duplicates(),
        index_chars(final(v)@).to_set() == index_chars(old(v)@).to_set().insert(c),
{
    proof { lemma_first_char_index(v@, c); }
    let mut i: usize = 0;
    while i < v.len()
        invariant
            i <= v@.len(),
            v@ == old(v)@,
            forall|j: int| 0 <= j < i ==> v@[j].0 != c,
        decreases v.len() - i,
    {
        if v[i].0 == c {
            let ghost pre = v@;
            v.set(i, (c, color));
            proof {
                assert(index_chars(v@) =~= index_chars(pre));
                assert(index_chars(pre)[i as int] == c);
                assert(index_chars(pre).to_set().insert(c) =~= index_chars(pre).to_set());
                lemma_first_char_index(pre, c);
                assert(first_char_index(pre, c) == Some(i as int));
                assert forall|j: int| 0 <= j < pre.len() implies pre[j].0 == v@[j].0 by {}
                lemma_same_keys(pre, v@);
                assert forall|d: char| d != c implies char_color(v@, d) == char_color(pre, d) by {
                    lemma_first_char_index(pre, d);
                }
            }
            return;
        }
        i = i + 1;
    }
    let ghost pre = v@;
    v.push((c, color));
    proof {
        assert(v@.drop_last() =~= pre);
        let ks = index_chars(pre);
        assert(index_chars(v@) =~= ks.push(c));
        assert forall|x: char| #[trigger] ks.push(c).to_set().contains(x) == ks.to_set().insert(c).contains(x) by {
            if ks.contains(x) {
                let j = choose|j: int| 0 <= j < ks.len() && ks[j] == x;
                assert(ks.push(c)[j] == x);
            }
            if x == c {
                assert(ks.push(c)[ks.len() as int] == x);
            }
            if ks.push(c).contains(x) {
                let j = choose|j: int| 0 <= j < ks.push(c).len() && ks.push(c)[j] == x;
                if j < ks.len() {
                    assert(ks[j] == x);
                }
            }
        }
        assert(ks.push(c).to_set() =~= ks.to_set().insert(c));
        assert forall|d: char| d != c implies char_color(v@, d) == char_color(pre, d) by {
            lemma_first_char_index(pre, d);
        }
    }
}

/// Updating an entry's color keeps where each character is first found.
proof fn lemma_same_keys(a: Seq<(char, [u8; 3])>, b: Seq<(char, [u8; 3])>)
    requires
        a.len() == b.len(),
        forall|j: int| 0 <= j < a.len() ==> a[j].0 == b[j].0,
    ensures
        forall|c: char| first_char_index(a, c) == first_char_index(b, c),
    decreases a.len(),
{
    if a.len() > 0 {
        let da = a.drop_last();
        let db = b.drop_last();
        assert forall|j: int| 0 <= j < da.len() implies da[j].0 == db[j].0 by {
            assert(da[j] == a[j]);
            assert(db[j] == b[j]);
        }
        lemma_same_keys(da, db);
        assert(a.last().0 == b.last().0);
        assert forall|c: char| first_char_index(a, c) == first_char_index(b, c) by {
            assert(first_char_index(da, c) == first_char_index(db, c));
        }
    }
}

/// What the first `i` configured entries have built: the tiles, entities and color index
/// that `from_config` holds after reading them.
#[verifier::opaque]
pub open spec fn config_built(
    entries: Seq<GlyphEntry>,
    i: int,
    tiles: Seq<(String, GlyphDef)>,
    ents: Seq<(String, GlyphDef)>,
    index: Seq<(char, [u8; 3])>,
) -> bool {
    &&& forall|n: Seq<char>| #[trigger] named_glyph(tiles, n) is Some ==> is_tile_name(n)
    &&& forall|n: Seq<char>| #[trigger] named_glyph(ents, n) is Some ==> !is_tile_name(n)
    &&& forall|k: int| 0 <= k < i ==> {
        let e = #[trigger] entries[k];
        (forall|j: int| k < j < i ==> entries[j].name@ != e.name@) ==>
            named_glyph(if is_tile_name(e.name@) { tiles } else { ents }, e.name@)
                == Some(GlyphDef { glyph: e.glyph, color: e.color })
    }
    &&& forall|k: int| 0 <= k < i ==> {
        let e = #[trigger] entries[k];
        (forall|j: int| k < j < i ==> entries[j].glyph != e.glyph) ==>
            char_color(index, e.glyph) == Some(e.color)
    }
    &&& forall|c: char| #[trigger] char_color(index, c) is Some ==>
        exists|k: int| 0 <= k < i && entries[k].glyph == c
    &&& glyph_names(tiles).no_duplicates()
    &&& glyph_names(ents).no_duplicates()
    &&& index_chars(index).no_duplicates()
    &&& glyph_names(tiles).to_set() == entry_names(entries.subrange(0, i), true)
    &&& glyph_names(ents).to_set() == entry_names(entries.subrange(0, i), false)
    &&& index_chars(index).to_set() == entry_chars(entries.subrange(0, i))
}

/// What recording a named glyph does to the list (the contract of `insert_named`).
pub open spec fn named_inserted(
    old: Seq<(String, GlyphDef)>,
    new: Seq<(String, GlyphDef)>,
    name: Seq<char>,
    def: GlyphDef,
) -> bool {
    &&& named_glyph(new, name) == Some(def)
    &&& forall|n: Seq<char>| n != name ==> named_glyph(new, n) == named_glyph(old, n)
    &&& glyph_names(old).no_duplicates() ==> glyph_names(new).no_duplicates()
    &&& glyph_names(new).to_set() == glyph_names(old).to_set().insert(name)
}

/// What recording a character's color does to the index (the contract of `insert_char`).
pub open spec fn char_inserted(
    old: Seq<(char, [u8; 3])>,
    new: Seq<(char, [u8; 3])>,
    c: char,
    color: [u8; 3],
) -> bool {
    &&& char_color(new, c) == Some(color)
    &&& forall|d: char| d != c ==> char_color(new, d) == char_color(old, d)
    &&& index_chars(old).no_duplicates() ==> index_chars(new).no_duplicates()
    &&& index_chars(new).to_set() == index_chars(old).to_set().insert(c)
}

/// Reading one more configured entry keeps what the entries read so far have built.
#[verifier::spinoff_prover]
#[verifier::rlimit(30)]
proof fn lemma_config_step(
    entries: Seq<GlyphEntry>,
    i: int,
    ot: Seq<(String, GlyphDef)>,
    oe: Seq<(String, GlyphDef)>,
    oi: Seq<(char, [u8; 3])>,
    nt: Seq<(String, GlyphDef)>,
    ne: Seq<(String, GlyphDef)>,
    ni: Seq<(char, [u8; 3])>,
)
    requires
        0 <= i < entries.len(),
        config_built(entries, i, ot, oe, oi),
        char_inserted(oi, ni, entries[i].glyph, entries[i].color),
        is_tile_name(entries[i].name@) ==> named_inserted(ot, nt, entries[i].name@,
            GlyphDef { glyph: entries[i].glyph, color: entries[i].color }) && ne == oe,
        !is_tile_name(entries[i].name@) ==> named_inserted(oe, ne, entries[i].name@,
            GlyphDef { glyph: entries[i].glyph, color: entries[i].color }) && nt == ot,
    ensures
        config_built(entries, i + 1, nt, ne, ni),
{
    reveal(config_built);
    let e = entries[i];
    assert forall|n: Seq<char>| #[trigger] named_glyph(nt, n) is Some implies is_tile_name(n) by {
        if n != e.name@ {
            assert(named_glyph(nt, n) == named_glyph(ot, n));
        }
    }
    assert forall|n: Seq<char>| #[trigger] named_glyph(ne, n) is Some implies !is_tile_name(n) by {
        if n != e.name@ {
            assert(named_glyph(ne, n) == named_glyph(oe, n));
        }
    }
    assert forall|k: int| 0 <= k < i + 1 implies {
        let ek = #[trigger] entries[k];
        (forall|j: int| k < j < i + 1 ==> entries[j].name@ != ek.name@) ==>
            named_glyph(if is_tile_name(ek.name@) { nt } else { ne }, ek.name@)
                == Some(GlyphDef { glyph: ek.glyph, color: ek.color })
    } by {
        let ek = entries[k];
        if k < i && (forall|j: int| k < j < i + 1 ==> entries[j].name@ != ek.name@) {
            assert(entries[i].name@ != ek.name@);
            assert(forall|j: int| k < j < i ==> entries[j].name@ != ek.name@);
            assert(named_glyph(nt, ek.name@) == named_glyph(ot, ek.name@));
            assert(named_glyph(ne, ek.name@) == named_glyph(oe, ek.name@));
        }
    }
    assert forall|k: int| 0 <= k < i + 1 implies {
        let ek = #[trigger] entries[k];
        (forall|j: int| k < j < i + 1 ==> entries[j].glyph != ek.glyph) ==>
            char_color(ni, ek.glyph) == Some(ek.color)
    } by {
        let ek = entries[k];
        if k < i && (forall|j: int| k < j < i + 1 ==> entries[j].glyph != ek.glyph) {
            assert(entries[i].glyph != ek.glyph);
            assert(forall|j: int| k < j < i ==> entries[j].glyph != ek.glyph);
            assert(char_color(ni, ek.glyph) == char_color(oi, ek.glyph));
        }
    }
    assert forall|c: char| #[trigger] char_color(ni, c) is Some implies
        exists|k: int| 0 <= k < i + 1 && entries[k].glyph == c by {
        if c != e.glyph {
            assert(char_color(ni, c) == char_color(oi, c));
            let k = choose|k: int| 0 <= k < i && entries[k].glyph == c;
            assert(0 <= k < i + 1);
        } else {
            assert(entries[i].glyph == c);
        }
    }
    let pre = entries.subrange(0, i);
    assert(entries.subrange(0, i + 1) =~= pre.push(e));
    lemma_entry_sets_push(pre, e);
}

impl GlyphRegistry {
    /// No name and no character is registered twice.
    #[verifier::type_invariant]
    spec fn names_and_chars_distinct(self) -> bool {
        &&& glyph_names(self.tiles@).no_duplicates()
        &&& glyph_names(self.entities@).no_duplicates()
        &&& index_chars(self.glyph_index@).no_duplicates()
    }

    /// The glyph drawn for an unregistered character.
    pub closed spec fn fallback_def(&self) -> GlyphDef {
        self.fallback
    }

    /// The named tile glyphs.
    pub closed spec fn tile_list(&self) -> Seq<(String, GlyphDef)> {
        self.tiles@
    }

    /// The named entity glyphs.
    pub closed spec fn entity_list(&self) -> Seq<(String, GlyphDef)> {
        self.entities@
    }

    /// The registered characters and their colors.
    pub closed spec fn color_index(&self) -> Seq<(char, [u8; 3])> {
        self.glyph_index@
    }

    /// The glyph drawn for an unregistered character.
    pub fn fallback(&self) -> (r: &GlyphDef)
        ensures
            *r == self.fallback_def(),
    {
        &self.fallback
    }

    /// Number of named tile glyphs.
    pub fn tile_count(&self) -> (n: usize)
        ensures
            n == self.tile_list().len(),
    {
        self.tiles.len()
    }

    /// Number of named entity glyphs.
    pub fn entity_count(&self) -> (n: usize)
        ensures
            n == self.entity_list().len(),
    {
        self.entities.len()
    }

    /// A registry with no glyphs; unknown characters resolve to the magenta '?'.
    pub fn empty() -> (r: Self)
        ensures
            r.fallback_def() == (GlyphDef { glyph: '?', color: [255u8, 0u8, 255u8] }),
            r.tile_list().len() == 0,
            r.entity_list().len() == 0,
            r.color_index().len() == 0,
    {
        GlyphRegistry {
            fallback: GlyphDef { glyph: '?', color: [255, 0, 255] },
            tiles: Vec::new(),
            entities: Vec::new(),
            glyph_index: Vec::new(),
        }
    }

    /// Builds the registry from configured entries, in order: each entry goes to the tiles
    /// or the entities by its name, and its character's color is recorded (a later entry
    /// for the same name or character replaces an earlier one).
    pub fn from_config(entries: &Vec<GlyphEntry>) -> (r: Self)
        ensures
            r.fallback_def() == (GlyphDef { glyph: '?', color: [255u8, 0u8, 255u8] }),
            forall|n: Seq<char>| #[trigger] named_glyph(r.tile_list(), n) is Some ==> is_tile_name(n),
            forall|n: Seq<char>| #[trigger] named_glyph(r.entity_list(), n) is Some ==> !is_tile_name(n),
            forall|k: int| 0 <= k < entries@.len() ==> {
                let e = #[trigger] entries@[k];
                (forall|j: int| k < j < entries@.len() ==> entries@[j].name@ != e.name@) ==>
                    named_glyph(if is_tile_name(e.name@) { r.tile_list() } else { r.entity_list() }, e.name@)
                        == Some(GlyphDef { glyph: e.glyph, color: e.color })
            },
            forall|k: int| 0 <= k < entries@.len() ==> {
                let e = #[trigger] entries@[k];
                (forall|j: int| k < j < entries@.len() ==> entries@[j].glyph != e.glyph) ==>
                    char_color(r.color_index(), e.glyph) == Some(e.color)
            },
            forall|c: char| #[trigger] char_color(r.color_index(), c) is Some ==>
                exists|k: int| 0 <= k < entries@.len() && entries@[k].glyph == c,
            glyph_names(r.tile_list()).no_duplicates(),
            glyph_names(r.entity_list()).no_duplicates(),
            index_chars(r.color_index()).no_duplicates(),
            glyph_names(r.tile_list()).to_set() == entry_names(entries@, true),
            glyph_names(r.entity_list()).to_set() == entry_names(entries@, false),
            index_chars(r.color_index()).to_set() == entry_chars(entries@),
    {
        let mut tiles: Vec<(String, GlyphDef)> = Vec::new();
        let mut ents: Vec<(String, GlyphDef)> = Vec::new();
        let mut index: Vec<(char, [u8; 3])> = Vec::new();
        let mut i: usize = 0;
        proof {
            reveal(entry_chars);
            reveal(entry_names);
            let e0 = entries@.subrange(0, 0);
            assert(glyph_names(tiles@).to_set() =~= entry_names(e0, true));
            assert(glyph_names(ents@).to_set() =~= entry_names(e0, false));
            assert(index_chars(index@).to_set() =~= entry_chars(e0));
        }
        proof {
            reveal(config_built);
        }
        while i < entries.len()
            invariant
                i <= entries@.len(),
                config_built(entries@, i as int, tiles@, ents@, index@),
            decreases entries.len() - i,
        {
            let e = &entries[i];
            let def = GlyphDef { glyph: e.glyph, color: e.color };
            let ghost old_reg_tiles = tiles@;
            let ghost old_reg_entities = ents@;
            let ghost old_index = index@;
            insert_char(&mut index, e.glyph, e.color);
            let tile = is_tile(e.name.as_str());
            if tile {
                insert_named(&mut tiles, e.name.as_str(), def);
            } else {
                insert_named(&mut ents, e.name.as_str(), def);
            }
            proof {
                lemma_config_step(entries@, i as int, old_reg_tiles, old_reg_entities, old_index,
                    tiles@, ents@, index@);
            }
            i = i + 1;
        }
        proof {
            reveal(config_built);
        }
        assert(entries@.subrange(0, entries@.len() as int) =~= entries@);
        GlyphRegistry {
            fallback: GlyphDef { glyph: '?', color: [255, 0, 255] },
            tiles,
            entities: ents,
            glyph_index: index,
        }
    }

    /// The glyph of a terrain tile, if registered.
    pub fn tile_glyph(&self, name: &str) -> (r: Option<&GlyphDef>)
        ensures
            r matches Some(d) ==> named_glyph(self.tile_list(), name@) == Some(*d),
            r is None ==> named_glyph(self.tile_list(), name@) is None,
    {
        match find_name(&self.tiles, name) {
            Some(i) => Some(&self.tiles[i].1),
            None => None,
        }
    }

    /// The glyph of an entity archetype, if registered.
    pub fn entity_glyph(&self, name: &str) -> (r: Option<&GlyphDef>)
        ensures
            r matches Some(d) ==> named_glyph(self.entity_list(), name@) == Some(*d),
            r is None ==> named_glyph(self.entity_list(), name@) is None,
    {
        match find_name(&self.entities, name) {
            Some(i) => Some(&self.entities[i].1),
            None => None,
        }
    }

    /// The default color of a glyph character.
    pub fn color_for_char(&self, ch: char) -> (r: Option<[u8; 3]>)
        ensures
            r == char_color(self.color_index(), ch),
    {
        proof { lemma_first_char_index(self.glyph_index@, ch); }
        let mut i: usize = 0;
        while i < self.glyph_index.len()
            invariant
                i <= self.glyph_index@.len(),
                forall|j: int| 0 <= j < i ==> self.glyph_index@[j].0 != ch,
            decreases self.glyph_index.len() - i,
        {
            if self.glyph_index[i].0 == ch {
                proof {
                    lemma_first_char_index(self.glyph_index@, ch);
                    assert(first_char_index(self.glyph_index@, ch) == Some(i as int));
                }
                return Some(self.glyph_index[i].1);
            }
            i = i + 1;
        }
        None
    }

    /// Whether a character is registered.
    pub fn is_known(&self, ch: char) -> (r: bool)
        ensures
            r == (char_color(self.color_index(), ch) is Some),
    {
        self.color_for_char(ch).is_some()
    }

    /// The character itself when registered, else the fallback glyph.
    pub fn resolve_char(&self, ch: char) -> (r: char)
        ensures
            r == resolved_char(*self, ch),
    {
        if self.is_known(ch) { ch } else { self.fallback.glyph }
    }

    /// Number of registered characters: each is registered once, so this is how many distinct
    /// characters the registry knows.
    pub fn glyph_count(&self) -> (n: usize)
        ensures
            n == self.color_index().len(),
            forall|c: char| #[trigger] index_chars(self.color_index()).to_set().contains(c)
                == (char_color(self.color_index(), c) is Some),
            index_chars(self.color_index()).no_duplicates(),
            n == index_chars(self.color_index()).to_set().len(),
    {
        proof {
            use_type_invariant(self);
            lemma_known_chars_count(self.glyph_index@);
        }
        self.glyph_index.len()
    }
}


/// A character has a registered color exactly when it is in the color index; without
/// repeats the index holds as many characters as entries.
pub proof fn lemma_known_chars_count(v: Seq<(char, [u8; 3])>)
    ensures
        forall|c: char| #[trigger] index_chars(v).to_set().contains(c) == (char_color(v, c) is Some),
        index_chars(v).no_duplicates() ==> index_chars(v).to_set().len() == v.len(),
{
    assert forall|c: char| #[trigger] index_chars(v).to_set().contains(c) == (char_color(v, c) is Some) by {
        lemma_first_char_index(v, c);
        if index_chars(v).contains(c) {
            let k = choose|k: int| 0 <= k < index_chars(v).len() && index_chars(v)[k] == c;
            assert(v[k].0 == c);
        }
        match first_char_index(v, c) {
            Some(i) => {
                assert(index_chars(v)[i] == c);
            },
            None => {},
        }
    }
    if index_chars(v).no_duplicates() {
        index_chars(v).unique_seq_to_set();
    }
}

/// The character drawn for `c`: itself when registered, else the fallback glyph.
pub open spec fn resolved_char(reg: GlyphRegistry, c: char) -> char {
    if char_color(reg.color_index(), c) is Some { c } else { reg.fallback_def().glyph }
}

/// Resolving a character a second time changes nothing.
pub proof fn law_resolve_idempotent(reg: GlyphRegistry, c: char)
    ensures
        resolved_char(reg, resolved_char(reg, c)) == resolved_char(reg, c),
{
}

} // verus!
