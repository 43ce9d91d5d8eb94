//! The pixel-art pack: palette and sprites, the merge of a custom pack, the
//! grid validation, colour parsing, the spout search and the sprite lookup.

use vstd::prelude::*;
use vstd::string::StringSliceAdditionalSpecFns;
use vstd::utf8::{encode_utf8, encode_scalar, has_width_1_encoding, is_char_boundary};

use crate::json::Json;
use crate::keyed::{key_fn, upsert, upsert_key, views, Keyed, keys_unique, lemma_upsert_key};
use crate::strings::{dec, dec_string, owned, push_str, str_eq, to_chars};

verus! {

/// The canvas size a pack declares.
#[derive(Debug, Clone, Copy)]
pub struct CanvasMeta {
    pub width: usize,
    pub height: usize,
}

/// Where the water spout (the `R` pixels) sits in a sprite.
#[derive(Debug, Clone, Copy)]
pub struct Spout {
    pub x0: usize,
    pub x1: usize,
    pub y0: usize,
}

/// A palette entry: a one-character key and its colour.
#[derive(Debug, Clone)]
pub struct PaletteEntry {
    pub key: String,
    pub color: String,
}

impl View for PaletteEntry {
    type V = (Seq<char>, Seq<char>);

    open spec fn view(&self) -> (Seq<char>, Seq<char>) {
        (self.key@, self.color@)
    }
}

impl Keyed for PaletteEntry {
    open spec fn key_of(v: (Seq<char>, Seq<char>)) -> Seq<char> {
        v.0
    }

    fn key(&self) -> (r: &str) {
        self.key.as_str()
    }
}

/// A named sprite: rows of palette keys (`.` is transparent).
#[derive(Debug, Clone)]
pub struct Sprite {
    pub name: String,
    pub rows: Vec<String>,
}

/// A pixel-art pack. Palette keys and sprite names are each held once.
#[derive(Debug)]
pub struct SpritePack {
    pub canvas: Option<CanvasMeta>,
    pub palette: Vec<PaletteEntry>,
    pub sprites: Vec<Sprite>,
    pub source_derivation: Option<Json>,
}

/// The key of a palette entry.
pub open spec fn pk() -> spec_fn((Seq<char>, Seq<char>)) -> Seq<char> {
    key_fn::<PaletteEntry>()
}

impl SpritePack {
    /// Sprite width in cells.
    pub const W: usize = 80;

    /// Sprite height in cells.
    pub const H: usize = 58;

    /// Palette keys are distinct.
    pub open spec fn wf(&self) -> bool {
        keys_unique(views(self.palette@), pk())
    }
}

// ---- merging a custom pack --------------------------------------------------------------------

/// The palette after storing each entry of `custom`, first to last.
pub open spec fn merge_palette(base: Seq<(Seq<char>, Seq<char>)>, custom: Seq<(Seq<char>, Seq<char>)>) -> Seq<
    (Seq<char>, Seq<char>),
>
    decreases custom.len(),
{
    if custom.len() == 0 {
        base
    } else {
        upsert_key(merge_palette(base, custom.drop_last()), pk(), custom.last())
    }
}

impl SpritePack {
    /// Merges a custom pack into this one: each custom palette entry replaces
    /// or adds the entry with its key; the custom sprites replace all sprites
    /// when there is at least one.
    pub fn merge_custom(&mut self, custom: SpritePack)
        requires
            old(self).wf(),
        ensures
            final(self).wf(),
            views(final(self).palette@) == merge_palette(views(old(self).palette@), views(custom.palette@)),
            final(self).sprites@ == if custom.sprites@.len() > 0 {
                custom.sprites@
            } else {
                old(self).sprites@
            },
            final(self).canvas == old(self).canvas,
    {
        let ghost base = views(self.palette@);
        let ghost cp = views(custom.palette@);
        let SpritePack { canvas: _, palette, sprites, source_derivation: _ } = custom;
        let plen = palette.len();
        let mut k: usize = 0;
        assert(cp.take(0) =~= Seq::<(Seq<char>, Seq<char>)>::empty());
        for e in it: palette
            invariant
                it.seq() == custom.palette@,
                cp == views(custom.palette@),
                cp.len() == custom.palette@.len(),
                custom.palette@.len() == plen,
                k == it.index(),
                k <= cp.len(),
                keys_unique(views(self.palette@), pk()),
                views(self.palette@) == merge_palette(base, cp.take(k as int)),
                self.sprites@ == old(self).sprites@,
                self.canvas == old(self).canvas,
        {
            assert(cp.take(k + 1).drop_last() =~= cp.take(k as int));
            assert(cp.take(k + 1).last() == e@);
            proof {
                lemma_upsert_key(views(self.palette@), pk(), e@);
            }
            upsert(&mut self.palette, e);
            k = k + 1;
        }
        assert(cp.take(cp.len() as int) =~= cp);
        if sprites.len() > 0 {
            self.sprites = sprites;
        }
    }
}

// ---- validation -------------------------------------------------------------------------------

/// The message for a sprite with the wrong number of rows.
pub open spec fn rows_message(name: Seq<char>, n: nat) -> Seq<char> {
    "sprite '"@ + name + "' 有 "@ + dec(n) + " 行，期望 58"@
}

/// The message for a row with the wrong number of characters.
pub open spec fn row_message(name: Seq<char>, i: nat, n: nat) -> Seq<char> {
    "sprite '"@ + name + "' 第 "@ + dec(i) + " 行有 "@ + dec(n) + " 字符，期望 80"@
}

/// Index of the first row, from `i` on, whose length is not 80, or `rows.len()`.
pub open spec fn first_bad_row(rows: Seq<String>, i: int) -> int
    decreases rows.len() - i,
{
    if i < 0 || i >= rows.len() {
        rows.len() as int
    } else if rows[i]@.len() != 80 {
        i
    } else {
        first_bad_row(rows, i + 1)
    }
}

/// What is wrong with one sprite, if anything: the row count first, then the
/// first row of the wrong width.
pub open spec fn sprite_error(s: Sprite) -> Option<Seq<char>> {
    let rows = s.rows@;
    if rows.len() != 58 {
        Some(rows_message(s.name@, rows.len()))
    } else {
        let i = first_bad_row(rows, 0);
        if i < rows.len() {
            Some(row_message(s.name@, i as nat, rows[i]@.len()))
        } else {
            None
        }
    }
}

/// The error of the first faulty sprite, if any.
pub open spec fn pack_error(sprites: Seq<Sprite>) -> Option<Seq<char>>
    decreases sprites.len(),
{
    if sprites.len() == 0 {
        None
    } else {
        match sprite_error(sprites[0]) {
            Some(e) => Some(e),
            None => pack_error(sprites.drop_first()),
        }
    }
}

/// A sprite has 58 rows of 80 characters.
pub open spec fn sprite_ok(s: Sprite) -> bool {
    s.rows@.len() == 58 && forall|i: int| 0 <= i < 58 ==> (#[trigger] s.rows@[i])@.len() == 80
}

/// Every sprite has 58 rows of 80 characters.
pub open spec fn grid_ok(sprites: Seq<Sprite>) -> bool {
    forall|k: int| 0 <= k < sprites.len() ==> #[trigger] sprite_ok(sprites[k])
}

proof fn lemma_first_bad_row(rows: Seq<String>, i: int)
    requires
        0 <= i <= rows.len(),
    ensures
        i <= first_bad_row(rows, i) <= rows.len(),
        first_bad_row(rows, i) < rows.len() ==> rows[first_bad_row(rows, i)]@.len() != 80,
        forall|j: int| i <= j < first_bad_row(rows, i) ==> (#[trigger] rows[j])@.len() == 80,
    decreases rows.len() - i,
{
    if i < rows.len() && rows[i]@.len() == 80 {
        lemma_first_bad_row(rows, i + 1);
    }
}

proof fn lemma_sprite_error(s: Sprite)
    ensures
        (sprite_error(s) is None) == sprite_ok(s),
{
    lemma_first_bad_row(s.rows@, 0);
    if s.rows@.len() == 58 {
        let b = first_bad_row(s.rows@, 0);
        if b < 58 {
            assert(!((s.rows@[b])@.len() == 80));
        }
    }
}

/// The pack passes validation exactly when every sprite has 58 rows of 80
/// characters.
pub proof fn law_validation_is_grid_check(sprites: Seq<Sprite>)
    ensures
        (pack_error(sprites) is None) == grid_ok(sprites),
    decreases sprites.len(),
{
    if sprites.len() > 0 {
        let t = sprites.drop_first();
        law_validation_is_grid_check(t);
        lemma_sprite_error(sprites[0]);
        if grid_ok(sprites) {
            assert forall|k: int| 0 <= k < t.len() implies #[trigger] sprite_ok(t[k]) by {
                assert(t[k] == sprites[k + 1]);
                assert(sprite_ok(sprites[k + 1]));
            }
        }
        if pack_error(sprites) is None {
            assert forall|k: int| 0 <= k < sprites.len() implies #[trigger] sprite_ok(sprites[k]) by {
                if k > 0 {
                    assert(sprites[k] == t[k - 1]);
                    assert(sprite_ok(t[k - 1]));
                }
            }
        }
    }
}

/// The message for a sprite with `n` rows.
fn rows_message_exec(name: &str, n: usize) -> (r: String)
    ensures
        r@ == rows_message(name@, n as nat),
{
    let mut r = owned("sprite '");
    push_str(&mut r, name);
    push_str(&mut r, "' 有 ");
    let d = dec_string(n);
    push_str(&mut r, d.as_str());
    push_str(&mut r, " 行，期望 58");
    r
}

/// The message for row `i` with `n` characters.
fn row_message_exec(name: &str, i: usize, n: usize) -> (r: String)
    ensures
        r@ == row_message(name@, i as nat, n as nat),
{
    let mut r = owned("sprite '");
    push_str(&mut r, name);
    push_str(&mut r, "' 第 ");
    let d = dec_string(i);
    push_str(&mut r, d.as_str());
    push_str(&mut r, " 行有 ");
    let d2 = dec_string(n);
    push_str(&mut r, d2.as_str());
    push_str(&mut r, " 字符，期望 80");
    r
}

/// The number of characters of a string.
fn char_count(s: &str) -> (r: usize)
    ensures
        r == s@.len(),
{
    let cs = to_chars(s);
    cs.len()
}

/// Checks one sprite.
fn check_sprite(s: &Sprite) -> (r: Option<String>)
    ensures
        match r {
            Some(e) => sprite_error(*s) == Some(e@),
            None => sprite_error(*s) is None,
        },
{
    if s.rows.len() != 58 {
        return Some(rows_message_exec(s.name.as_str(), s.rows.len()));
    }
    let mut i: usize = 0;
    while i < s.rows.len()
        invariant
            i <= s.rows.len(),
            s.rows.len() == 58,
            first_bad_row(s.rows@, 0) == first_bad_row(s.rows@, i as int),
        decreases s.rows.len() - i,
    {
        let n = char_count(s.rows[i].as_str());
        if n != 80 {
            return Some(row_message_exec(s.name.as_str(), i, n));
        }
        i = i + 1;
    }
    None
}

impl SpritePack {
    /// Checks that every sprite has 58 rows of 80 characters; the error names
    /// the first faulty sprite and what is wrong with it.
    pub fn validate(&self) -> (r: Result<(), String>)
        ensures
            match r {
                Ok(_) => pack_error(self.sprites@) is None,
                Err(e) => pack_error(self.sprites@) == Some(e@),
            },
    {
        let mut k: usize = 0;
        assert(self.sprites@.skip(0) =~= self.sprites@);
        while k < self.sprites.len()
            invariant
                k <= self.sprites.len(),
                pack_error(self.sprites@) == pack_error(self.sprites@.skip(k as int)),
            decreases self.sprites.len() - k,
        {
            assert(self.sprites@.skip(k as int)[0] == self.sprites@[k as int]);
            assert(self.sprites@.skip(k as int).drop_first() =~= self.sprites@.skip(k + 1));
            match check_sprite(&self.sprites[k]) {
                Some(e) => {
                    return Err(e);
                },
                None => {},
            }
            k = k + 1;
        }
        Ok(())
    }
}

// ---- colours ----------------------------------------------------------------------------------

/// The value of a hexadecimal digit byte.
pub open spec fn hex_val(b: u8) -> Option<u8> {
    if 0x30 <= b <= 0x39 {
        Some((b - 0x30) as u8)
    } else if 0x61 <= b <= 0x66 {
        Some((b - 0x61 + 10) as u8)
    } else if 0x41 <= b <= 0x46 {
        Some((b - 0x41 + 10) as u8)
    } else {
        None
    }
}

/// Two hexadecimal digits, high digit first; anything else is no byte value.
pub open spec fn hex_pair(b0: u8, b1: u8) -> Option<u8> {
    match (hex_val(b0), hex_val(b1)) {
        (Some(h), Some(l)) => Some((h * 16 + l) as u8),
        _ => None,
    }
}

/// The value of the `k`-th two-byte group of `hb`.
pub open spec fn color_pair(hb: Seq<u8>, k: int) -> Option<u8> {
    hex_pair(hb[2 * k], hb[2 * k + 1])
}

/// The UTF-8 bytes after the leading `#`.
pub open spec fn color_bytes(s: Seq<char>) -> Seq<u8> {
    encode_utf8(s.drop_first())
}

/// `#RRGGBB` → `[R, G, B, 255]`, `#RRGGBBAA` → `[R, G, B, A]`; `None` for
/// anything else (lengths counted in bytes).
pub open spec fn parse_color_spec(s: Seq<char>) -> Option<Seq<u8>> {
    if s.len() == 0 || s[0] != '#' {
        None
    } else {
        let hb = color_bytes(s);
        if hb.len() == 6 {
            match (color_pair(hb, 0), color_pair(hb, 1), color_pair(hb, 2)) {
                (Some(r), Some(g), Some(b)) => Some(seq![r, g, b, 255u8]),
                _ => None,
            }
        } else if hb.len() == 8 {
            match (color_pair(hb, 0), color_pair(hb, 1), color_pair(hb, 2), color_pair(hb, 3)) {
                (Some(r), Some(g), Some(b), Some(a)) => Some(seq![r, g, b, a]),
                _ => None,
            }
        } else {
            None
        }
    }
}

/// The byte offset after the `k`-th group of `hb` is not a character boundary.
pub open spec fn cuts_after(hb: Seq<u8>, k: int) -> bool {
    !is_char_boundary(hb, 2 * k + 2)
}

/// Slicing the digits two bytes at a time would cut a character: the byte
/// offset after some group is not a character boundary, and every group
/// before it parsed.
pub open spec fn color_slicing_panics(s: Seq<char>) -> bool {
    &&& s.len() > 0
    &&& s[0] == '#'
    &&& (color_bytes(s).len() == 6 || color_bytes(s).len() == 8)
    &&& exists|k: int|
        0 <= k < color_bytes(s).len() / 2 && #[trigger] cuts_after(color_bytes(s), k) && forall|
            j: int,
        |
            0 <= j < k ==> #[trigger] color_pair(color_bytes(s), j) is Some
}

fn hex_val_exec(b: u8) -> (r: Option<u8>)
    ensures
        r == hex_val(b),
{
    if 0x30 <= b && b <= 0x39 {
        Some(b - 0x30)
    } else if 0x61 <= b && b <= 0x66 {
        Some(b - 0x61 + 10)
    } else if 0x41 <= b && b <= 0x46 {
        Some(b - 0x41 + 10)
    } else {
        None
    }
}

fn hex_pair_exec(b0: u8, b1: u8) -> (r: Option<u8>)
    ensures
        r == hex_pair(b0, b1),
{
    match (hex_val_exec(b0), hex_val_exec(b1)) {
        (Some(h), Some(l)) => Some(h * 16 + l),
        _ => None,
    }
}

impl SpritePack {
    /// Parses a palette colour: `#RRGGBB` → `[R, G, B, 255]`,
    /// `#RRGGBBAA` → `[R, G, B, A]` (so `#00000000` is transparent).
    pub fn parse_color(s: &str) -> (r: Option<[u8; 4]>)
        requires
            !color_slicing_panics(s@),
        ensures
            match r {
                Some(c) => parse_color_spec(s@) == Some(c@),
                None => parse_color_spec(s@) is None,
            },
    {
        let cs = to_chars(s);
        if cs.len() == 0 || cs[0] != '#' {
            return None;
        }
        let b = s.as_bytes();
        let ghost hb = color_bytes(s@);
        proof {
            assert(s.spec_bytes() == encode_utf8(s@));
            assert(encode_utf8(s@) == encode_scalar(s@[0] as u32) + encode_utf8(s@.drop_first()));
            assert(has_width_1_encoding(s@[0] as u32));
            assert(encode_scalar(s@[0] as u32).len() == 1);
            assert(b@.skip(1) =~= hb);
        }
        let n = b.len() - 1;
        if n == 6 {
            assert(b@[1] == hb[0] && b@[2] == hb[1] && b@[3] == hb[2] && b@[4] == hb[3]);
            assert(b@[5] == hb[4] && b@[6] == hb[5]);
            let r = match hex_pair_exec(b[1], b[2]) {
                Some(v) => v,
                None => return None,
            };
            let g = match hex_pair_exec(b[3], b[4]) {
                Some(v) => v,
                None => return None,
            };
            let bl = match hex_pair_exec(b[5], b[6]) {
                Some(v) => v,
                None => return None,
            };
            let c = [r, g, bl, 255u8];
            assert(c@ =~= seq![r, g, bl, 255u8]);
            Some(c)
        } else if n == 8 {
            assert(b@[1] == hb[0] && b@[2] == hb[1] && b@[3] == hb[2] && b@[4] == hb[3]);
            assert(b@[5] == hb[4] && b@[6] == hb[5] && b@[7] == hb[6] && b@[8] == hb[7]);
            let r = match hex_pair_exec(b[1], b[2]) {
                Some(v) => v,
                None => return None,
            };
            let g = match hex_pair_exec(b[3], b[4]) {
                Some(v) => v,
                None => return None,
            };
            let bl = match hex_pair_exec(b[5], b[6]) {
                Some(v) => v,
                None => return None,
            };
            let a = match hex_pair_exec(b[7], b[8]) {
                Some(v) => v,
                None => return None,
            };
            let c = [r, g, bl, a];
            assert(c@ =~= seq![r, g, bl, a]);
            Some(c)
        } else {
            None
        }
    }
}

// ---- spout and sprite lookup ----------------------------------------------------------------

/// The sprite has an `R` cell at column `x` of row `y`.
pub open spec fn r_at(sprite: Seq<String>, y: int, x: int) -> bool {
    0 <= y < sprite.len() && 0 <= x < sprite[y]@.len() && sprite[y]@[x] == 'R'
}

/// Some row has an `R` at column `x`.
pub open spec fn col_has_r(sprite: Seq<String>, x: int) -> bool {
    exists|y: int| #[trigger] r_at(sprite, y, x)
}

/// Row `y` has an `R` somewhere.
pub open spec fn row_has_r(sprite: Seq<String>, y: int) -> bool {
    exists|x: int| #[trigger] r_at(sprite, y, x)
}

/// The spout is the bounding box of the `R` cells: their smallest and
/// largest column and their topmost row; `None` when there is no `R`.
pub open spec fn is_spout_of(sprite: Seq<String>, r: Option<Spout>) -> bool {
    match r {
        None => forall|y: int, x: int| !#[trigger] r_at(sprite, y, x),
        Some(sp) => {
            &&& col_has_r(sprite, sp.x0 as int)
            &&& col_has_r(sprite, sp.x1 as int)
            &&& row_has_r(sprite, sp.y0 as int)
            &&& forall|y: int, x: int|
                #[trigger] r_at(sprite, y, x) ==> sp.x0 <= x <= sp.x1 && sp.y0 <= y
        },
    }
}

impl SpritePack {
    /// Locates the water spout (the `R` cells) of a sprite, where the water
    /// drops start.
    pub fn find_spout(sprite: &[String]) -> (r: Option<Spout>)
        ensures
            is_spout_of(sprite@, r),
    {
        let mut found = false;
        let mut x0: usize = 0;
        let mut x1: usize = 0;
        let mut y0: usize = 0;
        let mut y: usize = 0;
        while y < sprite.len()
            invariant
                y <= sprite@.len(),
                sprite@.len() == sprite.len(),
                !found ==> forall|yy: int, x: int| yy < y ==> !#[trigger] r_at(sprite@, yy, x),
                found ==> (exists|yy: int| #[trigger] r_at(sprite@, yy, x0 as int)),
                found ==> (exists|yy: int| #[trigger] r_at(sprite@, yy, x1 as int)),
                found ==> (exists|x: int| #[trigger] r_at(sprite@, y0 as int, x)),
                found ==> y0 < y,
                found ==> forall|yy: int, x: int|
                    yy < y && #[trigger] r_at(sprite@, yy, x) ==> x0 <= x <= x1 && y0 <= yy,
            decreases sprite.len() - y,
        {
            let row = to_chars(sprite[y].as_str());
            let mut x: usize = 0;
            while x < row.len()
                invariant
                    y < sprite@.len(),
                    sprite@.len() == sprite.len(),
                    row@ == sprite@[y as int]@,
                    x <= row.len(),
                    !found ==> forall|yy: int, xx: int|
                        (yy < y || (yy == y && xx < x)) ==> !#[trigger] r_at(sprite@, yy, xx),
                    found ==> (exists|yy: int| #[trigger] r_at(sprite@, yy, x0 as int)),
                    found ==> (exists|yy: int| #[trigger] r_at(sprite@, yy, x1 as int)),
                    found ==> (exists|xx: int| #[trigger] r_at(sprite@, y0 as int, xx)),
                    found ==> y0 <= y,
                    found ==> forall|yy: int, xx: int|
                        (yy < y || (yy == y && xx < x)) && #[trigger] r_at(sprite@, yy, xx) ==> x0
                            <= xx <= x1 && y0 <= yy,
                decreases row.len() - x,
            {
                if row[x] == 'R' {
                    assert(r_at(sprite@, y as int, x as int));
                    if !found {
                        found = true;
                        x0 = x;
                        x1 = x;
                        y0 = y;
                    } else {
                        if x < x0 {
                            x0 = x;
                        }
                        if x > x1 {
                            x1 = x;
                        }
                    }
                }
                x = x + 1;
            }
            y = y + 1;
        }
        if found {
            proof {
                let a = choose|yy: int| r_at(sprite@, yy, x0 as int);
                assert(r_at(sprite@, a, x0 as int));
                let b = choose|yy: int| r_at(sprite@, yy, x1 as int);
                assert(r_at(sprite@, b, x1 as int));
                let c = choose|xx: int| r_at(sprite@, y0 as int, xx);
                assert(r_at(sprite@, y0 as int, c));
                assert(col_has_r(sprite@, x0 as int));
                assert(col_has_r(sprite@, x1 as int));
                assert(row_has_r(sprite@, y0 as int));
            }
            Some(Spout { x0, x1, y0 })
        } else {
            None
        }
    }
}

/// The rows of the first sprite named `name`, if any.
pub open spec fn sprite_named(sprites: Seq<Sprite>, name: Seq<char>) -> Option<Seq<String>>
    decreases sprites.len(),
{
    if sprites.len() == 0 {
        None
    } else if sprites[0].name@ == name {
        Some(sprites[0].rows@)
    } else {
        sprite_named(sprites.drop_first(), name)
    }
}

/// The sprite for a mode: the one named after it, else `default`.
pub open spec fn sprite_for_spec(sprites: Seq<Sprite>, mode: Seq<char>) -> Option<Seq<String>> {
    match sprite_named(sprites, mode) {
        Some(r) => Some(r),
        None => sprite_named(sprites, "default"@),
    }
}

/// The first sprite named `name`.
fn find_sprite<'a>(sprites: &'a Vec<Sprite>, name: &str) -> (r: Option<&'a Vec<String>>)
    ensures
        match r {
            Some(rows) => sprite_named(sprites@, name@) == Some(rows@),
            None => sprite_named(sprites@, name@) is None,
        },
{
    let mut k: usize = 0;
    assert(sprites@.skip(0) =~= sprites@);
    while k < sprites.len()
        invariant
            k <= sprites.len(),
            sprite_named(sprites@, name@) == sprite_named(sprites@.skip(k as int), name@),
        decreases sprites.len() - k,
    {
        assert(sprites@.skip(k as int)[0] == sprites@[k as int]);
        assert(sprites@.skip(k as int).drop_first() =~= sprites@.skip(k + 1));
        if str_eq(sprites[k].name.as_str(), name) {
            return Some(&sprites[k].rows);
        }
        k = k + 1;
    }
    None
}

impl SpritePack {
    /// The sprite for a mode, falling back to `default` (so `starting`,
    /// which has none of its own, gets the default sprite).
    pub fn sprite_for(&self, mode: &str) -> (r: Option<&Vec<String>>)
        ensures
            match r {
                Some(rows) => sprite_for_spec(self.sprites@, mode@) == Some(rows@),
                None => sprite_for_spec(self.sprites@, mode@) is None,
            },
    {
        match find_sprite(&self.sprites, mode) {
            Some(rows) => Some(rows),
            None => find_sprite(&self.sprites, "default"),
        }
    }
}

} // verus!
