//! The screen edge the bar is anchored to.
use vstd::prelude::*;

use crate::digits::chars_of;

verus! {

/// The edge of the screen that the bar sits on.
#[derive(Clone, Copy, Debug, PartialEq, Eq, Structural)]
pub enum Anchor {
    Top,
    Bottom,
    Left,
    Right,
}

/// Without a setting, the bar sits at the top.
pub fn default_anchor() -> (a: Anchor)
    ensures
        a == Anchor::Top,
{
    Anchor::Top
}

/// What `str::to_lowercase` returns for a string: its Unicode lowercase form.
pub uninterp spec fn lowercase(s: Seq<char>) -> Seq<char>;

/// `str::to_lowercase`: the Unicode lowercase form of the string.
#[verifier::external_body]
fn to_lowercase(s: &str) -> (r: String)
    ensures
        r@ == lowercase(s@),
{
    s.to_lowercase()
}

/// `String::push`: the character is appended.
#[verifier::external_body]
fn push_char(s: &mut String, c: char)
    ensures
        final(s)@ == old(s)@.push(c),
{
    s.push(c);
}

/// Whether `c` is one of `a` to `z`.
pub open spec fn is_ascii_lower(c: char) -> bool {
    97 <= (c as u32) <= 122
}

/// The string with its first character made upper case where that
/// character is one of `a` to `z`; otherwise the string as it is.
pub open spec fn capitalized(s: Seq<char>) -> Seq<char> {
    if s.len() > 0 && is_ascii_lower(s[0]) {
        s.update(0, ((s[0] as u32) - 32) as char)
    } else {
        s
    }
}

/// The anchor setting as the flag names spell it: lower case throughout,
/// then the first letter upper case (`"TOP"` and `"top"` become `"Top"`).
pub fn capitalize_anchor_name(name: &str) -> (r: String)
    ensures
        r@ == capitalized(lowercase(name@)),
{
    let lower = to_lowercase(name);
    let cs = chars_of(lower.as_str());
    let mut out = String::new();
    let n = cs.len();
    for i in 0..n
        invariant
            n == cs@.len(),
            cs@ == lower@,
            out@ == capitalized(cs@).take(i as int),
    {
        let c = cs[i];
        if i == 0 && 97 <= (c as u32) && (c as u32) <= 122 {
            let code: u32 = (c as u32) - 32;
            let b: u8 = code as u8;
            let up: char = b as char;
            assert(up == ((c as u32) - 32) as char);
            push_char(&mut out, up);
        } else {
            push_char(&mut out, c);
        }
        assert(capitalized(cs@).take(i + 1) == capitalized(cs@).take(i as int).push(capitalized(cs@)[i as int]));
    }
    assert(capitalized(cs@).take(n as int) == capitalized(cs@));
    out
}

/// The edges a layer surface is anchored to.
#[derive(Clone, Copy, Debug, PartialEq, Eq, Structural)]
pub struct AnchorSet {
    pub top: bool,
    pub bottom: bool,
    pub left: bool,
    pub right: bool,
}

/// The bar spans the edge it sits on: it is anchored to that edge and to the
/// two edges across it.
pub open spec fn spec_layer_anchor(a: Anchor) -> AnchorSet {
    match a {
        Anchor::Top => AnchorSet { top: true, bottom: false, left: true, right: true },
        Anchor::Bottom => AnchorSet { top: false, bottom: true, left: true, right: true },
        Anchor::Left => AnchorSet { top: true, bottom: true, left: true, right: false },
        Anchor::Right => AnchorSet { top: true, bottom: true, left: false, right: true },
    }
}

/// The edges the bar's surface is anchored to when it sits on `a`.
pub fn layer_anchor(a: Anchor) -> (s: AnchorSet)
    ensures
        s == spec_layer_anchor(a),
{
    match a {
        Anchor::Top => AnchorSet { top: true, bottom: false, left: true, right: true },
        Anchor::Bottom => AnchorSet { top: false, bottom: true, left: true, right: true },
        Anchor::Left => AnchorSet { top: true, bottom: true, left: true, right: false },
        Anchor::Right => AnchorSet { top: true, bottom: true, left: false, right: true },
    }
}

/// The bar's surface is anchored to the edge the bar sits on and to the two
/// edges across it, never to the opposite edge.
pub proof fn lemma_layer_anchor_spans_edge(a: Anchor)
    ensures
        match a {
            Anchor::Top => spec_layer_anchor(a).top && !spec_layer_anchor(a).bottom,
            Anchor::Bottom => spec_layer_anchor(a).bottom && !spec_layer_anchor(a).top,
            Anchor::Left => spec_layer_anchor(a).left && !spec_layer_anchor(a).right,
            Anchor::Right => spec_layer_anchor(a).right && !spec_layer_anchor(a).left,
        },
        match a {
            Anchor::Top | Anchor::Bottom => spec_layer_anchor(a).left && spec_layer_anchor(a).right,
            Anchor::Left | Anchor::Right => spec_layer_anchor(a).top && spec_layer_anchor(a).bottom,
        },
{
}

/// Capitalising keeps the length and every character after the first.
pub proof fn lemma_capitalized_length(s: Seq<char>)
    ensures
        capitalized(s).len() == s.len(),
        forall|i: int| 0 < i < s.len() ==> #[trigger] capitalized(s)[i] == s[i],
{
}

} // verus!
