//! The sprite atlas: glyph bitmaps (built in, configured, or a fallback) drawn scaled and
//! centred into one tile per glyph of an RGBA texture, and glyph-to-tile lookup.
use vstd::prelude::*;
use vstd::arithmetic::div_mod::lemma_fundamental_div_mod_converse;
use crate::tags::{first_index, lemma_first_index};
use crate::text::{chars_of, owned, same_chars};

verus! {

/// The default size and scale of glyph bitmaps.
#[derive(Debug, Clone, Copy, PartialEq, Eq, Structural)]
pub struct BitmapConfig {
    pub width: u32,
    pub height: u32,
    pub scale: u32,
}

impl Default for BitmapConfig {
    /// 5 by 7 bitmaps drawn three times over.
    fn default() -> (r: Self)
        ensures
            r == (BitmapConfig { width: 5, height: 7, scale: 3 }),
    {
        BitmapConfig { width: 5, height: 7, scale: 3 }
    }
}

/// A glyph bitmap: one byte per row, the leftmost pixel in bit `width - 1`.
#[derive(Debug)]
pub struct GlyphBitmap {
    pub width: u32,
    pub height: u32,
    pub data: Vec<u8>,
}

/// A configured glyph bitmap: rows only, or rows with their own size.
#[derive(Debug)]
pub enum GlyphBitmapDef {
    Legacy(Vec<u8>),
    Structured { width: Option<u32>, height: Option<u32>, data: Vec<u8> },
}

/// A bitmap as plain values.
pub struct BitmapView {
    pub width: u32,
    pub height: u32,
    pub data: Seq<u8>,
}

/// The bitmap a configured one gives with the default size.
pub open spec fn resolved(def: GlyphBitmapDef, dw: u32, dh: u32) -> BitmapView {
    match def {
        GlyphBitmapDef::Legacy(data) => BitmapView { width: dw, height: dh, data: data@ },
        GlyphBitmapDef::Structured { width, height, data } => BitmapView {
            width: match width { Some(w) => w, None => dw },
            height: match height { Some(h) => h, None => dh },
            data: data@,
        },
    }
}

impl GlyphBitmapDef {
    /// The bitmap with its own size where given, else the default size.
    pub fn resolve(&self, default_width: u32, default_height: u32) -> (r: GlyphBitmap)
        ensures
            r.width == resolved(*self, default_width, default_height).width,
            r.height == resolved(*self, default_width, default_height).height,
            r.data@ == resolved(*self, default_width, default_height).data,
    {
        match self {
            GlyphBitmapDef::Legacy(data) => {
                let d = data.clone();
                assert(d@ =~= data@);
                GlyphBitmap { width: default_width, height: default_height, data: d }
            },
            GlyphBitmapDef::Structured { width, height, data } => {
                let d = data.clone();
                assert(d@ =~= data@);
                GlyphBitmap {
                    width: match width { Some(w) => *w, None => default_width },
                    height: match height { Some(h) => *h, None => default_height },
                    data: d,
                }
            },
        }
    }
}

/// The rows of the built-in 5 by 7 glyphs: space . , " ~ # @.
pub open spec fn builtin_rows(c: char) -> Option<Seq<u8>> {
    if c == ' ' { Some(seq![0u8, 0, 0, 0, 0, 0, 0]) }
    else if c == '.' { Some(seq![0u8, 0, 0, 4, 4, 0, 0]) }
    else if c == ',' { Some(seq![0u8, 0, 0, 4, 4, 4, 8]) }
    else if c == '"' { Some(seq![10u8, 10, 0, 0, 0, 0, 0]) }
    else if c == '~' { Some(seq![0u8, 0, 17, 14, 0, 0, 0]) }
    else if c == '#' { Some(seq![10u8, 10, 31, 10, 31, 10, 10]) }
    else if c == '@' { Some(seq![14u8, 17, 21, 31, 21, 17, 14]) }
    else { None }
}

/// The rows of the fallback glyph, a question mark.
pub open spec fn fallback_rows() -> Seq<u8> {
    seq![14u8, 17, 17, 14, 4, 0, 4]
}

/// The built-in bitmap of a glyph, if there is one.
pub fn builtin_glyph(glyph: char) -> (r: Option<GlyphBitmap>)
    ensures
        match builtin_rows(glyph) {
            Some(rows) => r matches Some(b) && b.width == 5 && b.height == 7 && b.data@ == rows,
            None => r is None,
        },
{
    let rows: Vec<u8> = if glyph == ' ' { vec![0b00000, 0b00000, 0b00000, 0b00000, 0b00000, 0b00000, 0b00000] }
        else if glyph == '.' { vec![0b00000, 0b00000, 0b00000, 0b00100, 0b00100, 0b00000, 0b00000] }
        else if glyph == ',' { vec![0b00000, 0b00000, 0b00000, 0b00100, 0b00100, 0b00100, 0b01000] }
        else if glyph == '"' { vec![0b01010, 0b01010, 0b00000, 0b00000, 0b00000, 0b00000, 0b00000] }
        else if glyph == '~' { vec![0b00000, 0b00000, 0b10001, 0b01110, 0b00000, 0b00000, 0b00000] }
        else if glyph == '#' { vec![0b01010, 0b01010, 0b11111, 0b01010, 0b11111, 0b01010, 0b01010] }
        else if glyph == '@' { vec![0b01110, 0b10001, 0b10101, 0b11111, 0b10101, 0b10001, 0b01110] }
        else { return None; };
    assert(rows@ =~= builtin_rows(glyph).unwrap());
    Some(GlyphBitmap { width: 5, height: 7, data: rows })
}

/// The fallback bitmap, a 5 by 7 question mark.
pub fn fallback_bitmap() -> (r: GlyphBitmap)
    ensures
        r.width == 5 && r.height == 7 && r.data@ == fallback_rows(),
{
    let rows: Vec<u8> = vec![0b01110, 0b10001, 0b10001, 0b01110, 0b00100, 0b00000, 0b00100];
    assert(rows@ =~= fallback_rows());
    GlyphBitmap { width: 5, height: 7, data: rows }
}

/// The configured bitmap of a glyph: the first entry for it.
pub open spec fn custom_for(custom: Seq<(char, GlyphBitmapDef)>, glyph: char) -> Option<GlyphBitmapDef>
    decreases custom.len(),
{
    if custom.len() == 0 {
        None
    } else if custom[0].0 == glyph {
        Some(custom[0].1)
    } else {
        custom_for(custom.drop_first(), glyph)
    }
}

/// The bitmap a glyph is drawn with: its configured bitmap when that has at least as many rows
/// as its height, else its built-in one, else the fallback.
pub open spec fn bitmap_for(glyph: char, custom: Seq<(char, GlyphBitmapDef)>, cfg: BitmapConfig) -> BitmapView {
    let own = match custom_for(custom, glyph) {
        Some(d) => {
            let b = resolved(d, cfg.width, cfg.height);
            if (b.data.len() as u32) >= b.height { Some(b) } else { None }
        },
        None => None,
    };
    match own {
        Some(b) => b,
        None => match builtin_rows(glyph) {
            Some(rows) => BitmapView { width: 5, height: 7, data: rows },
            None => BitmapView { width: 5, height: 7, data: fallback_rows() },
        },
    }
}

fn custom_index(glyph: char, custom: &Vec<(char, GlyphBitmapDef)>) -> (r: Option<usize>)
    ensures
        match custom_for(custom@, glyph) {
            Some(d) => r matches Some(i) && i < custom@.len() && custom@[i as int].1 == d,
            None => r is None,
        },
{
    let mut i: usize = 0;
    assert(custom@.subrange(0, custom@.len() as int) =~= custom@);
    while i < custom.len()
        invariant
            i <= custom@.len(),
            custom_for(custom@, glyph) == custom_for(custom@.subrange(i as int, custom@.len() as int), glyph),
        decreases custom.len() - i,
    {
        let ghost rest = custom@.subrange(i as int, custom@.len() as int);
        assert(rest[0] == custom@[i as int]);
        if custom[i].0 == glyph {
            return Some(i);
        }
        assert(rest.drop_first() =~= custom@.subrange(i + 1, custom@.len() as int));
        i = i + 1;
    }
    None
}

/// The bitmap a glyph is drawn with (see `bitmap_for`).
pub fn resolve_bitmap(glyph: char, custom: &Vec<(char, GlyphBitmapDef)>, bitmap_config: &BitmapConfig) -> (r: GlyphBitmap)
    ensures
        r.width == bitmap_for(glyph, custom@, *bitmap_config).width,
        r.height == bitmap_for(glyph, custom@, *bitmap_config).height,
        r.data@ == bitmap_for(glyph, custom@, *bitmap_config).data,
{
    if let Some(i) = custom_index(glyph, custom) {
        let resolved = custom[i].1.resolve(bitmap_config.width, bitmap_config.height);
        if (resolved.data.len() as u32) >= resolved.height {
            return resolved;
        }
    }
    match builtin_glyph(glyph) {
        Some(b) => b,
        None => fallback_bitmap(),
    }
}


/// The glyphs of the atlas, one tile each: the fallback glyph first, then each sprite glyph
/// not seen before, in order.
pub open spec fn atlas_glyph_list(fallback: char, sprites: Seq<char>) -> Seq<char>
    decreases sprites.len(),
{
    if sprites.len() == 0 {
        seq![fallback]
    } else {
        let prev = atlas_glyph_list(fallback, sprites.drop_last());
        if prev.contains(sprites.last()) { prev } else { prev.push(sprites.last()) }
    }
}

fn contains_char(cs: &Vec<char>, c: char) -> (r: bool)
    ensures
        r == cs@.contains(c),
{
    let mut i: usize = 0;
    while i < cs.len()
        invariant
            i <= cs@.len(),
            forall|j: int| 0 <= j < i ==> cs@[j] != c,
        decreases cs.len() - i,
    {
        if cs[i] == c {
            assert(cs@[i as int] == c);
            return true;
        }
        i = i + 1;
    }
    false
}

/// The glyphs of the atlas (see `atlas_glyph_list`).
pub fn atlas_glyphs(fallback: char, sprites: &Vec<char>) -> (r: Vec<char>)
    ensures
        r@ == atlas_glyph_list(fallback, sprites@),
{
    let mut r: Vec<char> = vec![fallback];
    let mut i: usize = 0;
    assert(r@ =~= atlas_glyph_list(fallback, sprites@.subrange(0, 0)));
    while i < sprites.len()
        invariant
            i <= sprites@.len(),
            r@ == atlas_glyph_list(fallback, sprites@.subrange(0, i as int)),
        decreases sprites.len() - i,
    {
        assert(sprites@.subrange(0, i + 1).drop_last() =~= sprites@.subrange(0, i as int));
        if !contains_char(&r, sprites[i]) {
            r.push(sprites[i]);
        }
        i = i + 1;
    }
    assert(sprites@.subrange(0, sprites@.len() as int) =~= sprites@);
    r
}

/// The names of the configured sprites, in order.
pub open spec fn sprite_names(sprites: Seq<(String, char)>) -> Seq<Seq<char>> {
    sprites.map_values(|s: (String, char)| s.0@)
}

/// The glyph a sprite name resolves to: that of the first sprite of the name, else the
/// fallback glyph.
pub open spec fn sprite_glyph(sprites: Seq<(String, char)>, name: Seq<char>, fallback: char) -> char {
    match first_index(sprite_names(sprites), name) {
        Some(i) => sprites[i].1,
        None => fallback,
    }
}

/// The glyph a sprite name resolves to (see `sprite_glyph`).
pub fn sprite_glyph_of(sprites: &Vec<(String, char)>, name: &str, fallback: char) -> (r: char)
    ensures
        r == sprite_glyph(sprites@, name@, fallback),
{
    let key = chars_of(name);
    let mut i: usize = 0;
    while i < sprites.len()
        invariant
            i <= sprites@.len(),
            key@ == name@,
            forall|j: int| 0 <= j < i ==> sprite_names(sprites@)[j] != name@,
        decreases sprites.len() - i,
    {
        let n = chars_of(sprites[i].0.as_str());
        assert(sprite_names(sprites@)[i as int] == sprites@[i as int].0@);
        if same_chars(&n, &key) {
            proof {
                lemma_first_index(sprite_names(sprites@), name@);
            }
            return sprites[i].1;
        }
        i = i + 1;
    }
    proof {
        lemma_first_index(sprite_names(sprites@), name@);
    }
    fallback
}

/// The lookup of each configured key (a tile or an entity kind) in the atlas: the key, the
/// glyph its sprite name resolves to, and that glyph's tile among the atlas glyphs.
pub fn sprite_lookups(
    keys: &Vec<(String, String)>,
    sprites: &Vec<(String, char)>,
    fallback: char,
    glyphs: &Vec<char>,
) -> (r: Vec<(String, char, usize)>)
    ensures
        r@.len() == keys@.len(),
        forall|k: int| 0 <= k < keys@.len() ==> {
            let l = #[trigger] r@[k];
            &&& l.0@ == keys@[k].0@
            &&& l.1 == sprite_glyph(sprites@, keys@[k].1@, fallback)
            &&& l.2 == glyph_tile(glyphs@, l.1)
            &&& glyphs@.contains(l.1) ==> l.2 < glyphs@.len() && glyphs@[l.2 as int] == l.1
        },
{
    let mut r: Vec<(String, char, usize)> = Vec::new();
    let mut i: usize = 0;
    while i < keys.len()
        invariant
            i <= keys@.len(),
            r@.len() == i,
            forall|k: int| 0 <= k < i ==> {
                let l = #[trigger] r@[k];
                &&& l.0@ == keys@[k].0@
                &&& l.1 == sprite_glyph(sprites@, keys@[k].1@, fallback)
                &&& l.2 == glyph_tile(glyphs@, l.1)
                &&& glyphs@.contains(l.1) ==> l.2 < glyphs@.len() && glyphs@[l.2 as int] == l.1
            },
        decreases keys.len() - i,
    {
        let glyph = sprite_glyph_of(sprites, keys[i].1.as_str(), fallback);
        let index = glyph_index(glyph, glyphs);
        r.push((owned(keys[i].0.as_str()), glyph, index));
        i = i + 1;
    }
    r
}

/// The atlas holds the fallback glyph and every sprite glyph.
pub proof fn lemma_atlas_glyphs_cover(fallback: char, sprites: Seq<char>)
    ensures
        atlas_glyph_list(fallback, sprites).contains(fallback),
        forall|j: int| 0 <= j < sprites.len() ==> atlas_glyph_list(fallback, sprites).contains(#[trigger] sprites[j]),
    decreases sprites.len(),
{
    if sprites.len() == 0 {
        assert(seq![fallback][0] == fallback);
    } else {
        let d = sprites.drop_last();
        lemma_atlas_glyphs_cover(fallback, d);
        let prev = atlas_glyph_list(fallback, d);
        let cur = atlas_glyph_list(fallback, sprites);
        assert forall|x: char| prev.contains(x) implies cur.contains(x) by {
            if !prev.contains(sprites.last()) {
                let k = choose|k: int| 0 <= k < prev.len() && prev[k] == x;
                assert(cur[k] == x);
            }
        }
        if !prev.contains(sprites.last()) {
            assert(cur[prev.len() as int] == sprites.last());
        }
        assert forall|j: int| 0 <= j < sprites.len() implies cur.contains(#[trigger] sprites[j]) by {
            if j < d.len() {
                assert(d[j] == sprites[j]);
                assert(prev.contains(d[j]));
            }
        }
    }
}

/// Every configured key's atlas tile shows the glyph its sprite name resolves to, when the
/// atlas is built from the configured sprites' glyphs.
pub proof fn law_sprite_tile_shows_glyph(sprites: Seq<(String, char)>, name: Seq<char>, fallback: char)
    ensures ({
        let glyphs = atlas_glyph_list(fallback, sprites.map_values(|s: (String, char)| s.1));
        let g = sprite_glyph(sprites, name, fallback);
        glyph_tile(glyphs, g) < glyphs.len() && glyphs[glyph_tile(glyphs, g) as int] == g
    }),
{
    let gs = sprites.map_values(|s: (String, char)| s.1);
    let glyphs = atlas_glyph_list(fallback, gs);
    lemma_atlas_glyphs_cover(fallback, gs);
    lemma_first_index(sprite_names(sprites), name);
    let g = sprite_glyph(sprites, name, fallback);
    match first_index(sprite_names(sprites), name) {
        Some(i) => {
            assert(gs[i] == g);
        },
        None => {},
    }
    assert(glyphs.contains(g));
    lemma_glyph_tile_found(glyphs, g);
}

/// A glyph among the atlas glyphs sits on its tile.
proof fn lemma_glyph_tile_found(glyphs: Seq<char>, glyph: char)
    requires
        glyphs.contains(glyph),
    ensures
        glyph_tile(glyphs, glyph) < glyphs.len(),
        glyphs[glyph_tile(glyphs, glyph) as int] == glyph,
    decreases glyphs.len(),
{
    if glyphs[0] != glyph {
        let rest = glyphs.drop_first();
        let k = choose|k: int| 0 <= k < glyphs.len() && glyphs[k] == glyph;
        assert(rest[k - 1] == glyph);
        lemma_glyph_tile_found(rest, glyph);
    }
}

/// The tile of a glyph: its first position among the atlas glyphs, or 0.
pub open spec fn glyph_tile(glyphs: Seq<char>, glyph: char) -> nat
    decreases glyphs.len(),
{
    if glyphs.len() == 0 {
        0
    } else if glyphs[0] == glyph {
        0
    } else if glyphs.drop_first().contains(glyph) {
        1 + glyph_tile(glyphs.drop_first(), glyph)
    } else {
        0
    }
}

/// The tile of a glyph (see `glyph_tile`).
pub fn glyph_index(glyph: char, glyphs: &Vec<char>) -> (r: usize)
    ensures
        r == glyph_tile(glyphs@, glyph),
        glyphs@.contains(glyph) ==> r < glyphs@.len() && glyphs@[r as int] == glyph,
{
    let mut i: usize = 0;
    assert(glyphs@.subrange(0, glyphs@.len() as int) =~= glyphs@);
    while i < glyphs.len()
        invariant
            i <= glyphs@.len(),
            forall|j: int| 0 <= j < i ==> glyphs@[j] != glyph,
        decreases glyphs.len() - i,
    {
        if glyphs[i] == glyph {
            proof { lemma_glyph_tile_at(glyphs@, glyph, i as int); }
            return i;
        }
        i = i + 1;
    }
    proof { lemma_glyph_tile_absent(glyphs@, glyph); }
    0
}

proof fn lemma_glyph_tile_at(glyphs: Seq<char>, glyph: char, i: int)
    requires
        0 <= i < glyphs.len(),
        glyphs[i] == glyph,
        forall|j: int| 0 <= j < i ==> glyphs[j] != glyph,
    ensures
        glyph_tile(glyphs, glyph) == i,
    decreases i,
{
    if i > 0 {
        let rest = glyphs.drop_first();
        assert(rest[i - 1] == glyph);
        assert(rest.contains(glyph));
        lemma_glyph_tile_at(rest, glyph, i - 1);
    }
}

proof fn lemma_glyph_tile_absent(glyphs: Seq<char>, glyph: char)
    requires
        forall|j: int| 0 <= j < glyphs.len() ==> glyphs[j] != glyph,
    ensures
        glyph_tile(glyphs, glyph) == 0,
{
    if glyphs.len() > 0 {
        let rest = glyphs.drop_first();
        assert(!rest.contains(glyph)) by {
            if rest.contains(glyph) {
                let k = choose|k: int| 0 <= k < rest.len() && rest[k] == glyph;
                assert(glyphs[k + 1] == glyph);
            }
        }
    }
}

/// Whether bit `col` from the left of a `width`-pixel row is set.
pub open spec fn row_bit(row: u8, width: u32, col: int) -> bool {
    (row >> ((width - 1 - col) as u8)) & 1u8 == 1u8
}

/// Whether pixel `(lx, ly)` of a `ts`-pixel tile is lit: the bitmap, scaled `scale` times, is
/// centred in the tile, and the pixel falls in a set bitmap pixel of one of its rows.
pub open spec fn cell_lit(b: BitmapView, scale: nat, ts: nat, lx: nat, ly: nat) -> bool {
    let rw = b.width * scale;
    let rh = b.height * scale;
    let ox = (ts - rw) / 2;
    let oy = (ts - rh) / 2;
    &&& scale > 0
    &&& ox <= lx < ox + rw
    &&& oy <= ly < oy + rh
    &&& (ly - oy) / (scale as int) < b.data.len()
    &&& row_bit(b.data[(ly - oy) / (scale as int)], b.width, (lx - ox) / (scale as int))
}

/// Whether atlas pixel `(px, py)` is lit: tile `px / ts` shows glyph `px / ts`.
pub open spec fn atlas_lit(glyphs: Seq<char>, custom: Seq<(char, GlyphBitmapDef)>, cfg: BitmapConfig, ts: nat, px: nat, py: nat) -> bool {
    cell_lit(bitmap_for(glyphs[px as int / ts as int], custom, cfg), cfg.scale as nat, ts, px % ts, py)
}

/// Whether every glyph's bitmap fits its tile: at most 8 pixels wide, and no larger than the
/// tile once scaled.
pub open spec fn bitmaps_fit(glyphs: Seq<char>, custom: Seq<(char, GlyphBitmapDef)>, cfg: BitmapConfig, ts: nat) -> bool {
    forall|g: int| 0 <= g < glyphs.len() ==> {
        let b = #[trigger] bitmap_for(glyphs[g], custom, cfg);
        &&& b.width <= 8
        &&& b.width * cfg.scale <= ts
        &&& b.height * cfg.scale <= ts
    }
}

fn pixel_on(b: &GlyphBitmap, scale: u32, ts: u32, lx: u32, ly: u32) -> (r: bool)
    requires
        b.width <= 8,
        b.width * scale <= ts,
        b.height * scale <= ts,
    ensures
        r == cell_lit(BitmapView { width: b.width, height: b.height, data: b.data@ }, scale as nat, ts as nat, lx as nat, ly as nat),
{
    if scale == 0 {
        return false;
    }
    let rw = b.width * scale;
    let rh = b.height * scale;
    let ox = (ts - rw) / 2;
    let oy = (ts - rh) / 2;
    if lx < ox || lx - ox >= rw || ly < oy || ly - oy >= rh {
        return false;
    }
    let row = ((ly - oy) / scale) as usize;
    let col = (lx - ox) / scale;
    if row >= b.data.len() {
        return false;
    }
    let ghost d: int = (lx - ox) as int;
    assert(col < b.width) by (nonlinear_arith)
        requires col as int == d / (scale as int), d < b.width * scale, scale > 0, d >= 0;
    let shift = (b.width - 1 - col) as u8;
    (b.data[row] >> shift) & 1u8 == 1u8
}

/// Draws the atlas: a row of `ts`-pixel tiles, one per glyph, as RGBA bytes row by row; a lit
/// pixel is opaque white, every other one all zero.
pub fn rasterize_atlas(glyphs: &Vec<char>, custom: &Vec<(char, GlyphBitmapDef)>, bitmap_config: &BitmapConfig, ts: u32) -> (r: Vec<u8>)
    requires
        ts > 0,
        bitmaps_fit(glyphs@, custom@, *bitmap_config, ts as nat),
        ts * glyphs@.len() * ts * 4 <= u32::MAX,
    ensures
        r@.len() == ts * glyphs@.len() * ts * 4,
        forall|k: int| 0 <= k < r@.len() ==> #[trigger] r@[k] == if atlas_lit(glyphs@, custom@, *bitmap_config,
            ts as nat, ((k / 4) % (ts * glyphs@.len())) as nat, ((k / 4) / (ts * glyphs@.len())) as nat) { 255u8 } else { 0u8 },
{
    let n = glyphs.len();
    let mut bms: Vec<GlyphBitmap> = Vec::new();
    let mut g: usize = 0;
    while g < n
        invariant
            g <= n,
            n == glyphs@.len(),
            bms@.len() == g,
            forall|j: int| 0 <= j < g ==> {
                let b = #[trigger] bitmap_for(glyphs@[j], custom@, *bitmap_config);
                bms@[j].width == b.width && bms@[j].height == b.height && bms@[j].data@ == b.data
            },
        decreases n - g,
    {
        bms.push(resolve_bitmap(glyphs[g], custom, bitmap_config));
        g = g + 1;
    }
    assert(ts * n <= ts * n * ts * 4) by (nonlinear_arith) requires ts > 0;
    assert(n <= ts * n) by (nonlinear_arith) requires ts > 0;
    let w: u32 = ts * (n as u32);
    let h: u32 = ts;
    let mut data: Vec<u8> = Vec::new();
    let mut py: u32 = 0;
    while py < h
        invariant
            py <= h,
            h == ts,
            ts > 0,
            n == glyphs@.len(),
            w == ts * n,
            w * h * 4 <= u32::MAX,
            bms@.len() == n,
            bitmaps_fit(glyphs@, custom@, *bitmap_config, ts as nat),
            forall|j: int| 0 <= j < n ==> {
                let b = #[trigger] bitmap_for(glyphs@[j], custom@, *bitmap_config);
                bms@[j].width == b.width && bms@[j].height == b.height && bms@[j].data@ == b.data
            },
            data@.len() == py * w * 4,
            forall|k: int| 0 <= k < data@.len() ==> #[trigger] data@[k] == if atlas_lit(glyphs@, custom@, *bitmap_config,
                ts as nat, ((k / 4) % (w as int)) as nat, ((k / 4) / (w as int)) as nat) { 255u8 } else { 0u8 },
        decreases h - py,
    {
        let mut px: u32 = 0;
        while px < w
            invariant
                py < h,
                px <= w,
                h == ts,
                ts > 0,
                n == glyphs@.len(),
                w == ts * n,
                w * h * 4 <= u32::MAX,
                bms@.len() == n,
                bitmaps_fit(glyphs@, custom@, *bitmap_config, ts as nat),
                forall|j: int| 0 <= j < n ==> {
                    let b = #[trigger] bitmap_for(glyphs@[j], custom@, *bitmap_config);
                    bms@[j].width == b.width && bms@[j].height == b.height && bms@[j].data@ == b.data
                },
                data@.len() == (py * w + px) * 4,
                forall|k: int| 0 <= k < data@.len() ==> #[trigger] data@[k] == if atlas_lit(glyphs@, custom@, *bitmap_config,
                    ts as nat, ((k / 4) % (w as int)) as nat, ((k / 4) / (w as int)) as nat) { 255u8 } else { 0u8 },
            decreases w - px,
        {
            let gi = px / ts;
            let lx = px % ts;
            proof {
                assert(gi < n) by (nonlinear_arith) requires gi == px / ts, px < ts * n, ts > 0;
                let b = bitmap_for(glyphs@[gi as int], custom@, *bitmap_config);
                assert(b.width <= 8 && b.width * bitmap_config.scale <= ts && b.height * bitmap_config.scale <= ts);
            }
            let on = pixel_on(&bms[gi as usize], bitmap_config.scale, ts, lx, py);
            let v: u8 = if on { 255 } else { 0 };
            let ghost base = data@.len();
            proof {
                assert(py * w + px < w * h) by (nonlinear_arith) requires py < h, px < w;
                assert((py * w + px) * 4 + 4 <= w * h * 4) by (nonlinear_arith) requires py * w + px < w * h;
            }
            data.push(v);
            data.push(v);
            data.push(v);
            data.push(v);
            proof {
                let p = (py * w + px) as int;
                assert forall|k: int| 0 <= k < data@.len() implies #[trigger] data@[k] == if atlas_lit(glyphs@, custom@, *bitmap_config,
                    ts as nat, ((k / 4) % (w as int)) as nat, ((k / 4) / (w as int)) as nat) { 255u8 } else { 0u8 } by {
                    if k >= base {
                        lemma_fundamental_div_mod_converse(k, 4, p, k - base);
                        lemma_fundamental_div_mod_converse(p, w as int, py as int, px as int);
                        assert(data@[k] == v);
                    }
                }
                assert(data@.len() == (py * w + (px + 1)) * 4) by (nonlinear_arith)
                    requires data@.len() == base + 4, base == (py * w + px) * 4;
            }
            px = px + 1;
        }
        assert(data@.len() == (py + 1) * w * 4) by (nonlinear_arith)
            requires data@.len() == (py * w + w) * 4;
        py = py + 1;
    }
    assert(h * w * 4 == ts * n * ts * 4) by (nonlinear_arith) requires w == ts * n, h == ts;
    assert(data@.len() == h * w * 4);
    data
}

} // verus!
