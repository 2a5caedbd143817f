//! Font assets: a family name with its font file bytes, the glyph atlas
//! layout, and finding loaded fonts by family.

use crate::store::{HandleName, Store, StoreType, StoreTypeFallback, StoreTypeName, H};
use crate::text::chars_of;
use vstd::prelude::*;

verus! {

/// A font: its family name, the bytes of its font file and the glyph size
/// of its atlas in pixels.
pub struct Font {
    pub family_name: String,
    pub font_bytes: Vec<u8>,
    pub atlas_em_px: u32,
}

/// The atlas glyph size, in pixels, used when none is given.
pub const DEFAULT_ATLAS_SIZE: u32 = 100;

/// The number of rows and columns of the glyph atlas.
pub const FONT_ATLAS_GRID_N: u32 = 10;

impl Font {
    /// A font of family `family_name` with the bytes of its font file; the
    /// atlas glyph size defaults to 100 pixels.
    pub fn new(family_name: String, atlas_em_px: Option<u32>, font_bytes: Vec<u8>) -> (r: Font)
        ensures
            r.family_name@ == family_name@,
            r.font_bytes@ == font_bytes@,
            r.atlas_em_px == match atlas_em_px {
                Some(px) => px,
                None => DEFAULT_ATLAS_SIZE,
            },
    {
        let atlas_em_px = match atlas_em_px {
            Some(px) => px,
            None => DEFAULT_ATLAS_SIZE,
        };
        Font { family_name, font_bytes, atlas_em_px }
    }
}

impl H<Font> {
    /// The default font.
    pub fn default_font() -> (r: H<Font>)
        ensures
            r@ == 0,
    {
        H::new(0)
    }
}

impl StoreType for Font {
    open spec fn builtin_spec(id: u32) -> bool {
        false
    }

    open spec fn ident_spec(id: u32) -> Option<Seq<char>> {
        None
    }

    open spec fn type_name_spec() -> Seq<char> {
        "Font"@
    }

    fn name() -> (r: &'static str) {
        "Font"
    }

    fn ident_fmt(handle: H<Self>) -> (r: HandleName<Self>) {
        HandleName::Id(handle)
    }

    fn is_builtin(handle: H<Self>) -> (r: bool) {
        false
    }
}

impl StoreTypeFallback for Font {
    open spec fn fallback_spec() -> u32 {
        0
    }

    fn fallback() -> (r: H<Self>) {
        H::default_font()
    }
}

impl StoreTypeName for Font {
    open spec fn name_spec(&self) -> Seq<char> {
        self.family_name@
    }

    fn name(&self) -> (r: &str) {
        self.family_name.as_str()
    }
}

impl Font {
    /// Adds the default font, Arial with the default atlas size, to an
    /// empty store; `arial_bytes` is its font file.
    pub fn populate(store: &mut Store<Font>, arial_bytes: Vec<u8>)
        requires
            old(store).wf(),
            old(store).next_id() == 0,
        ensures
            final(store).wf(),
            final(store).next_id() == 1,
            final(store).contains(0),
            final(store).value(0).family_name@ == "Arial"@,
            final(store).value(0).font_bytes@ == arial_bytes@,
            final(store).value(0).atlas_em_px == DEFAULT_ATLAS_SIZE,
            final(store).dirty_ids() == old(store).dirty_ids(),
    {
        store.add(Font::new("Arial".to_owned(), None, arial_bytes));
    }
}

/// Some font of `store` is of family `family`.
pub open spec fn has_family(store: Store<Font>, family: Seq<char>) -> bool {
    exists|id: u32| #[trigger] store.contains(id) && store.value(id).family_name@ == family
}

/// `after` is `before` after loading a font of family `family` whose handle
/// is `r`: `r` is the first font of that family in `after`, and `after` is
/// `before` where it held that family already, else `before` with the new
/// font added under the next identifier.
pub open spec fn loaded_family(before: Store<Font>, after: Store<Font>, family: Seq<char>, r: u32) -> bool {
    &&& after.contains(r)
    &&& after.value(r).family_name@ == family
    &&& forall|id: u32| #[trigger] after.contains(id) && after.value(id).family_name@ == family ==> r <= id
    &&& has_family(before, family) ==> after == before
    &&& !has_family(before, family) ==> {
        &&& r == before.next_id()
        &&& after.contents() == before.contents().push(Some(after.value(r)))
    }
}

/// Loading a family a second time gives the handle of the first load and
/// adds nothing.
pub proof fn law_load_sized_twice(s0: Store<Font>, s1: Store<Font>, s2: Store<Font>, family: Seq<char>, h1: u32, h2: u32)
    requires
        loaded_family(s0, s1, family, h1),
        loaded_family(s1, s2, family, h2),
    ensures
        h2 == h1,
        s2 == s1,
{
    assert(has_family(s1, family));
}

impl Store<Font> {
    /// The first font (by handle) of family `family_name`.
    pub fn find(&self, family_name: &str) -> (r: Option<H<Font>>)
        requires
            self.wf(),
        ensures
            r is None <==> !exists|id: u32| #[trigger] self.contains(id) && self.value(id).family_name@ == family_name@,
            r is Some ==> self.contains(r->Some_0@) && self.value(r->Some_0@).family_name@ == family_name@,
            r is Some ==> forall|id: u32| #[trigger] self.contains(id) && self.value(id).family_name@ == family_name@
                ==> r->Some_0@ <= id,
    {
        self.find_by_name(family_name)
    }

    /// The font of family `font_family`: the one loaded already, or else a
    /// new one made from `font_bytes` with the given atlas size.
    pub fn load_sized(&mut self, font_family: &str, atlas_em_px: Option<u32>, font_bytes: Vec<u8>) -> (r: H<Font>)
        requires
            old(self).wf(),
            old(self).next_id() < u32::MAX,
        ensures
            final(self).wf(),
            loaded_family(*old(self), *final(self), font_family@, r@),
            !has_family(*old(self), font_family@) ==> {
                &&& final(self).value(r@).font_bytes@ == font_bytes@
                &&& final(self).value(r@).atlas_em_px == match atlas_em_px {
                    Some(px) => px,
                    None => DEFAULT_ATLAS_SIZE,
                }
                &&& final(self).dirty_ids() == old(self).dirty_ids()
            },
    {
        match self.find(font_family) {
            Some(h) => h,
            None => {
                let ghost s0 = *self;
                let h = self.add(Font::new(font_family.to_owned(), atlas_em_px, font_bytes));
                assert forall|id: u32| #[trigger] self.contains(id) && self.value(id).family_name@ == font_family@
                    implies h@ <= id by {
                    if id < s0.next_id() {
                        assert(s0.contents()[id as int] == self.contents()[id as int]);
                        assert(s0.contains(id));
                    }
                }
                h
            },
        }
    }

    /// The font of family `font_family`; the same as [`Store::load_sized`].
    pub fn load(&mut self, font_family: &str, atlas_em_px: Option<u32>, font_bytes: Vec<u8>) -> (r: H<Font>)
        requires
            old(self).wf(),
            old(self).next_id() < u32::MAX,
        ensures
            final(self).wf(),
            loaded_family(*old(self), *final(self), font_family@, r@),
            !has_family(*old(self), font_family@) ==> {
                &&& final(self).value(r@).font_bytes@ == font_bytes@
                &&& final(self).value(r@).atlas_em_px == match atlas_em_px {
                    Some(px) => px,
                    None => DEFAULT_ATLAS_SIZE,
                }
                &&& final(self).dirty_ids() == old(self).dirty_ids()
            },
    {
        self.load_sized(font_family, atlas_em_px, font_bytes)
    }
}

/// Row `y` of the glyph atlas, left to right.
pub open spec fn atlas_row(y: int) -> Seq<char> {
    if y == 0 {
        "1234567890"@
    } else if y == 1 {
        "abcdefghij"@
    } else if y == 2 {
        "klmnopqrst"@
    } else if y == 3 {
        "uvwxyzABCD"@
    } else if y == 4 {
        "EFGHIJKLMN"@
    } else if y == 5 {
        "OPQRSTUVWX"@
    } else if y == 6 {
        "YZ!@#$%^&*"@
    } else if y == 7 {
        "()-_+=[]{}"@
    } else if y == 8 {
        "|\\:;\"'<>,."@
    } else {
        "/?`~      "@
    }
}

fn atlas_row_chars(y: usize) -> (r: Vec<char>)
    requires
        y < 10,
    ensures
        r@ == atlas_row(y as int),
{
    if y == 0 {
        chars_of("1234567890")
    } else if y == 1 {
        chars_of("abcdefghij")
    } else if y == 2 {
        chars_of("klmnopqrst")
    } else if y == 3 {
        chars_of("uvwxyzABCD")
    } else if y == 4 {
        chars_of("EFGHIJKLMN")
    } else if y == 5 {
        chars_of("OPQRSTUVWX")
    } else if y == 6 {
        chars_of("YZ!@#$%^&*")
    } else if y == 7 {
        chars_of("()-_+=[]{}")
    } else if y == 8 {
        chars_of("|\\:;\"'<>,.")
    } else {
        chars_of("/?`~      ")
    }
}

/// `c` sits in row `y` of the atlas at column `x`.
pub open spec fn atlas_has(c: char, x: int, y: int) -> bool {
    0 <= y < 10 && 0 <= x < atlas_row(y).len() && atlas_row(y)[x] == c
}

/// The position of an ASCII letter or digit in the atlas read row by row:
/// the digits 1 to 9 and then 0, the lower-case letters a to z, then the
/// upper-case letters A to Z; `None` for other characters.
pub open spec fn alnum_position(c: char) -> Option<int> {
    if '1' <= c <= '9' {
        Some(c as int - '1' as int)
    } else if c == '0' {
        Some(9)
    } else if 'a' <= c <= 'z' {
        Some(10 + (c as int - 'a' as int))
    } else if 'A' <= c <= 'Z' {
        Some(36 + (c as int - 'A' as int))
    } else {
        None
    }
}

/// Every ASCII letter and digit has exactly one cell in the atlas: position
/// `n` in the order 1..9, 0, a..z, A..Z lies at column `n % 10` of row
/// `n / 10`, and nowhere else.
pub proof fn law_atlas_alnum_cells(c: char)
    ensures
        alnum_position(c) matches Some(n) ==> {
            &&& atlas_has(c, n % 10, n / 10)
            &&& forall|x: int, y: int| #[trigger] atlas_has(c, x, y) ==> x == n % 10 && y == n / 10
        },
{
    reveal_strlit("1234567890");
    reveal_strlit("abcdefghij");
    reveal_strlit("klmnopqrst");
    reveal_strlit("uvwxyzABCD");
    reveal_strlit("EFGHIJKLMN");
    reveal_strlit("OPQRSTUVWX");
    reveal_strlit("YZ!@#$%^&*");
    reveal_strlit("()-_+=[]{}");
    reveal_strlit("|\\:;\"'<>,.");
    reveal_strlit("/?`~      ");
}

/// The atlas cell (column, row) of `c`: its first occurrence, scanning the
/// rows from the top and each row from the left; (0, 0) when the atlas
/// does not hold `c`.
pub fn id_from_atlas(c: char) -> (r: (u32, u32))
    ensures
        (exists|x: int, y: int| atlas_has(c, x, y)) ==> {
            &&& atlas_has(c, r.0 as int, r.1 as int)
            &&& forall|x: int, y: int| atlas_has(c, x, y) ==> r.1 < y || (r.1 == y && r.0 <= x)
        },
        !(exists|x: int, y: int| atlas_has(c, x, y)) ==> r == (0u32, 0u32),
        alnum_position(c) matches Some(n) ==> r.0 == n % 10 && r.1 == n / 10,
{
    proof {
        law_atlas_alnum_cells(c);
    }
    let mut y: usize = 0;
    while y < 10
        invariant
            0 <= y <= 10,
            forall|x: int, y2: int| 0 <= y2 < y ==> !atlas_has(c, x, y2),
        decreases 10 - y,
    {
        let row = atlas_row_chars(y);
        let mut x: usize = 0;
        while x < row.len()
            invariant
                0 <= y < 10,
                row@ == atlas_row(y as int),
                0 <= x <= row@.len(),
                forall|x2: int| 0 <= x2 < x ==> row@[x2] != c,
            decreases row@.len() - x,
        {
            if row[x] == c {
                proof {
                    reveal_strlit("1234567890");
                    reveal_strlit("abcdefghij");
                    reveal_strlit("klmnopqrst");
                    reveal_strlit("uvwxyzABCD");
                    reveal_strlit("EFGHIJKLMN");
                    reveal_strlit("OPQRSTUVWX");
                    reveal_strlit("YZ!@#$%^&*");
                    reveal_strlit("()-_+=[]{}");
                    reveal_strlit("|\\:;\"'<>,.");
                    reveal_strlit("/?`~      ");
                }
                assert(x < 10);
                assert(atlas_has(c, x as int, y as int));
                return (x as u32, y as u32);
            }
            x += 1;
        }
        y += 1;
    }
    (0, 0)
}

} // verus!
