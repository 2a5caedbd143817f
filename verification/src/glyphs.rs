//! Glyph lookup in a font file for the glyph atlas: which glyph a character
//! has, the box it occupies and the face's metrics, all in font units.

use vstd::prelude::*;

verus! {

/// Whether `ttf_parser::Face::parse` accepts the font file `face` (face 0).
pub uninterp spec fn face_parses_of(face: Seq<u8>) -> bool;

/// What `ttf_parser::Face::glyph_index` gives for `ch` in the font file
/// `face`, as the glyph number.
pub uninterp spec fn glyph_index_of(face: Seq<u8>, ch: char) -> Option<u16>;

/// What `ttf_parser::Face::glyph_bounding_box` gives for glyph `gid` of the
/// font file `face`, as (x_min, y_min, x_max, y_max).
pub uninterp spec fn glyph_bbox_of(face: Seq<u8>, gid: u16) -> Option<(i16, i16, i16, i16)>;

/// What `ttf_parser::Face::glyph_hor_advance` gives for glyph `gid`.
pub uninterp spec fn glyph_advance_of(face: Seq<u8>, gid: u16) -> Option<u16>;

/// What `ttf_parser::Face::units_per_em` gives for the font file `face`.
pub uninterp spec fn units_per_em_of(face: Seq<u8>) -> u16;

/// What `ttf_parser::Face::ascender` gives for the font file `face`.
pub uninterp spec fn ascender_of(face: Seq<u8>) -> i16;

/// What `ttf_parser::Face::descender` gives for the font file `face`.
pub uninterp spec fn descender_of(face: Seq<u8>) -> i16;

/// What `ttf_parser::Face::line_gap` gives for the font file `face`.
pub uninterp spec fn line_gap_of(face: Seq<u8>) -> i16;

/// Calls `ttf_parser::Face::parse` on face 0 of `face` and tells whether it
/// succeeded. Parsing reads the bytes alone.
#[verifier::external_body]
fn face_parses(face: &[u8]) -> (r: bool)
    ensures
        r == face_parses_of(face@),
{
    ttf_parser::Face::parse(face, 0).is_ok()
}

/// Calls `ttf_parser::Face::glyph_index` for `ch` on the parsed face and
/// gives the glyph number.
#[verifier::external_body]
fn glyph_index(face: &[u8], ch: char) -> (r: Option<u16>)
    requires
        face_parses_of(face@),
    ensures
        r == glyph_index_of(face@, ch),
{
    ttf_parser::Face::parse(face, 0).unwrap().glyph_index(ch).map(|g| g.0)
}

/// Calls `ttf_parser::Face::glyph_bounding_box` for glyph `gid` on the
/// parsed face and gives the box's four bounds.
#[verifier::external_body]
fn glyph_bbox(face: &[u8], gid: u16) -> (r: Option<(i16, i16, i16, i16)>)
    requires
        face_parses_of(face@),
    ensures
        r == glyph_bbox_of(face@, gid),
{
    ttf_parser::Face::parse(face, 0).unwrap().glyph_bounding_box(ttf_parser::GlyphId(gid)).map(|b| (b.x_min, b.y_min, b.x_max, b.y_max))
}

/// Calls `ttf_parser::Face::glyph_hor_advance` for glyph `gid` on the parsed face.
#[verifier::external_body]
fn glyph_advance(face: &[u8], gid: u16) -> (r: Option<u16>)
    requires
        face_parses_of(face@),
    ensures
        r == glyph_advance_of(face@, gid),
{
    ttf_parser::Face::parse(face, 0).unwrap().glyph_hor_advance(ttf_parser::GlyphId(gid))
}

/// Calls `ttf_parser::Face::units_per_em` on the parsed face.
#[verifier::external_body]
fn units_per_em(face: &[u8]) -> (r: u16)
    requires
        face_parses_of(face@),
    ensures
        r == units_per_em_of(face@),
{
    ttf_parser::Face::parse(face, 0).unwrap().units_per_em()
}

/// Calls `ttf_parser::Face::ascender` on the parsed face.
#[verifier::external_body]
fn ascender(face: &[u8]) -> (r: i16)
    requires
        face_parses_of(face@),
    ensures
        r == ascender_of(face@),
{
    ttf_parser::Face::parse(face, 0).unwrap().ascender()
}

/// Calls `ttf_parser::Face::descender` on the parsed face.
#[verifier::external_body]
fn descender(face: &[u8]) -> (r: i16)
    requires
        face_parses_of(face@),
    ensures
        r == descender_of(face@),
{
    ttf_parser::Face::parse(face, 0).unwrap().descender()
}

/// Calls `ttf_parser::Face::line_gap` on the parsed face.
#[verifier::external_body]
fn line_gap(face: &[u8]) -> (r: i16)
    requires
        face_parses_of(face@),
    ensures
        r == line_gap_of(face@),
{
    ttf_parser::Face::parse(face, 0).unwrap().line_gap()
}

/// The box, in font units, the atlas reserves for glyph `gid`: its bounding
/// box, or the unit box (0, 0, 1, 1) for a glyph without outline (such as a
/// space), so that it still gets its padding.
pub open spec fn glyph_box_spec(face: Seq<u8>, gid: u16) -> (i16, i16, i16, i16) {
    match glyph_bbox_of(face, gid) {
        Some(b) => b,
        None => (0, 0, 1, 1),
    }
}

/// Whether `face` is a font file the atlas can read.
pub fn font_face_parses(face: &[u8]) -> (r: bool)
    ensures
        r == face_parses_of(face@),
{
    face_parses(face)
}

/// The glyph of `ch` in the font file `face` and the box the atlas reserves
/// for it; `None` where the font has no glyph for `ch`, which then gets no
/// atlas entry.
pub fn glyph_box(face: &[u8], ch: char) -> (r: Option<(u16, (i16, i16, i16, i16))>)
    requires
        face_parses_of(face@),
    ensures
        r == match glyph_index_of(face@, ch) {
            None => None,
            Some(g) => Some((g, glyph_box_spec(face@, g))),
        },
{
    let gid = match glyph_index(face, ch) {
        Some(g) => g,
        None => {
            return None;
        },
    };
    let b = match glyph_bbox(face, gid) {
        Some(b) => b,
        None => (0, 0, 1, 1),
    };
    Some((gid, b))
}

/// The horizontal advance of glyph `gid` in font units; 0 where the font
/// gives none.
pub fn glyph_advance_units(face: &[u8], gid: u16) -> (r: u16)
    requires
        face_parses_of(face@),
    ensures
        r == match glyph_advance_of(face@, gid) {
            Some(a) => a,
            None => 0,
        },
{
    match glyph_advance(face, gid) {
        Some(a) => a,
        None => 0,
    }
}

/// The line metrics of the font file `face` in font units: units per em,
/// ascender, descender and line gap.
pub fn face_metrics(face: &[u8]) -> (r: (u16, i16, i16, i16))
    requires
        face_parses_of(face@),
    ensures
        r == (units_per_em_of(face@), ascender_of(face@), descender_of(face@), line_gap_of(face@)),
{
    (units_per_em(face), ascender(face), descender(face), line_gap(face))
}

/// The horizontal advance the atlas records for glyph `gid`: the font's, or
/// 0 where it gives none.
pub open spec fn advance_spec(face: Seq<u8>, gid: u16) -> u16 {
    match glyph_advance_of(face, gid) {
        Some(a) => a,
        None => 0,
    }
}

/// The atlas entries for `chars`, in order: for each character with a
/// glyph, the character, its glyph, its box and its advance; characters
/// without a glyph get none.
pub open spec fn glyph_entries(face: Seq<u8>, chars: Seq<char>) -> Seq<(char, u16, (i16, i16, i16, i16), u16)>
    decreases chars.len(),
{
    if chars.len() == 0 {
        Seq::empty()
    } else {
        let ch = chars.last();
        let before = glyph_entries(face, chars.drop_last());
        match glyph_index_of(face, ch) {
            None => before,
            Some(g) => before.push((ch, g, glyph_box_spec(face, g), advance_spec(face, g))),
        }
    }
}

/// The glyph entries of `chars` in the font file `face`, or `None` when the
/// file is no font the atlas can read.
pub fn atlas_glyphs(face: &[u8], chars: &[char]) -> (r: Option<Vec<(char, u16, (i16, i16, i16, i16), u16)>>)
    ensures
        r is None <==> !face_parses_of(face@),
        r matches Some(v) ==> v@ == glyph_entries(face@, chars@),
{
    if !font_face_parses(face) {
        return None;
    }
    let mut out: Vec<(char, u16, (i16, i16, i16, i16), u16)> = Vec::new();
    let mut i: usize = 0;
    while i < chars.len()
        invariant
            face_parses_of(face@),
            i <= chars@.len(),
            out@ == glyph_entries(face@, chars@.take(i as int)),
        decreases chars@.len() - i,
    {
        let ch = chars[i];
        assert(chars@.take(i as int + 1).drop_last() =~= chars@.take(i as int));
        assert(chars@.take(i as int + 1).last() == ch);
        match glyph_box(face, ch) {
            Some((g, b)) => {
                let adv = glyph_advance_units(face, g);
                out.push((ch, g, b, adv));
            },
            None => {},
        }
        i += 1;
    }
    assert(chars@.take(i as int) =~= chars@);
    Some(out)
}

/// The line metrics of the font file `face` (units per em, ascender,
/// descender, line gap), or `None` when it is no font the atlas can read.
pub fn face_line_metrics(face: &[u8]) -> (r: Option<(u16, i16, i16, i16)>)
    ensures
        r is None <==> !face_parses_of(face@),
        r matches Some(m) ==> m == (units_per_em_of(face@), ascender_of(face@), descender_of(face@), line_gap_of(face@)),
{
    if font_face_parses(face) {
        Some(face_metrics(face))
    } else {
        None
    }
}

} // verus!
