//! The declarations that horizontal and vertical list containers contribute:
//! direction, alignment, spacing and wrapping. Display belongs to the base renderer.
use vstd::prelude::*;
use crate::string_map::StringMap;

verus! {

/// Where content sits inside its container.
#[derive(Clone, Copy, Debug, PartialEq, Eq, Structural)]
pub enum Anchor {
    UpperLeft,
    UpperCenter,
    UpperRight,
    MiddleLeft,
    MiddleCenter,
    MiddleRight,
    LowerLeft,
    LowerCenter,
    LowerRight,
}

/// The settings of a horizontal or vertical list; `spacing` is the CSS number
/// of the gap between children, in pixels.
pub struct ListLayout {
    pub anchor: Anchor,
    pub spacing: String,
    pub wrapped: bool,
    pub stretch_children: bool,
}

/// `justify-content` of a vertical list, and `align-content`/`align-items`
/// where the anchor sets them.
pub open spec fn vertical_alignment(a: Anchor) -> (Seq<char>, Option<(Seq<char>, Seq<char>)>) {
    match a {
        Anchor::UpperLeft => ("safe start"@, Some(("start"@, "start"@))),
        Anchor::UpperCenter => ("safe start"@, Some(("center"@, "center"@))),
        Anchor::MiddleLeft => ("safe center"@, Some(("start"@, "start"@))),
        Anchor::MiddleCenter => ("safe center"@, Some(("center"@, "center"@))),
        Anchor::LowerCenter => ("safe end"@, Some(("center"@, "center"@))),
        Anchor::LowerRight => ("safe end"@, Some(("end"@, "end"@))),
        _ => ("center"@, None),
    }
}

/// `justify-content`, `align-content` and `align-items` of a horizontal list.
pub open spec fn horizontal_alignment(a: Anchor) -> (Seq<char>, Seq<char>, Seq<char>) {
    match a {
        Anchor::UpperLeft => ("start"@, "start"@, "start"@),
        Anchor::UpperCenter => ("center"@, "start"@, "start"@),
        Anchor::UpperRight => ("end"@, "start"@, "start"@),
        Anchor::MiddleLeft => ("end"@, "start"@, "start"@),
        Anchor::MiddleRight => ("end"@, "center"@, "center"@),
        Anchor::LowerLeft => ("start"@, "end"@, "end"@),
        Anchor::LowerCenter => ("center"@, "end"@, "end"@),
        _ => ("center"@, "center"@, "center"@),
    }
}

/// The declarations `m` gets from one list: its direction, the alignment of its
/// anchor, the gap, wrapping if asked for, and stretched children if asked for.
pub open spec fn with_list_layout(m: Map<Seq<char>, Seq<char>>, l: ListLayout, vertical: bool) -> Map<Seq<char>, Seq<char>> {
    let m1 = m.insert("flex-direction"@, if vertical { "column"@ } else { "row"@ });
    let justify = if vertical { vertical_alignment(l.anchor).0 } else { horizontal_alignment(l.anchor).0 };
    let cross = if vertical {
        vertical_alignment(l.anchor).1
    } else {
        Some((horizontal_alignment(l.anchor).1, horizontal_alignment(l.anchor).2))
    };
    let m2 = m1.insert("justify-content"@, justify);
    let m3 = match cross {
        Some(c) => m2.insert("align-content"@, c.0).insert("align-items"@, c.1),
        None => m2,
    };
    let m4 = m3.insert("gap"@, l.spacing@ + "px"@);
    let m5 = if l.wrapped { m4.insert("flex-wrap"@, "wrap"@) } else { m4 };
    if l.stretch_children { m5.insert("align-items"@, "stretch"@) } else { m5 }
}

/// The list declarations of a container: those of its vertical list, then those
/// of its horizontal list, which win where both set a property.
pub open spec fn list_styles(vlist: Option<ListLayout>, hlist: Option<ListLayout>) -> Map<Seq<char>, Seq<char>> {
    let m = match vlist {
        Some(v) => with_list_layout(Map::empty(), v, true),
        None => Map::empty(),
    };
    match hlist {
        Some(h) => with_list_layout(m, h, false),
        None => m,
    }
}

/// The properties that list layout owns.
pub open spec fn is_list_key(k: Seq<char>) -> bool {
    ||| k == "flex-direction"@
    ||| k == "justify-content"@
    ||| k == "align-content"@
    ||| k == "align-items"@
    ||| k == "gap"@
    ||| k == "flex-wrap"@
}

fn vertical_alignment_text(a: Anchor) -> (r: (&'static str, Option<(&'static str, &'static str)>))
    ensures
        r.0@ == vertical_alignment(a).0,
        match r.1 {
            Some(c) => vertical_alignment(a).1 == Some((c.0@, c.1@)),
            None => vertical_alignment(a).1.is_none(),
        },
{
    match a {
        Anchor::UpperLeft => ("safe start", Some(("start", "start"))),
        Anchor::UpperCenter => ("safe start", Some(("center", "center"))),
        Anchor::MiddleLeft => ("safe center", Some(("start", "start"))),
        Anchor::MiddleCenter => ("safe center", Some(("center", "center"))),
        Anchor::LowerCenter => ("safe end", Some(("center", "center"))),
        Anchor::LowerRight => ("safe end", Some(("end", "end"))),
        _ => ("center", None),
    }
}

fn horizontal_alignment_text(a: Anchor) -> (r: (&'static str, &'static str, &'static str))
    ensures
        (r.0@, r.1@, r.2@) == horizontal_alignment(a),
{
    match a {
        Anchor::UpperLeft => ("start", "start", "start"),
        Anchor::UpperCenter => ("center", "start", "start"),
        Anchor::UpperRight => ("end", "start", "start"),
        Anchor::MiddleLeft => ("end", "start", "start"),
        Anchor::MiddleRight => ("end", "center", "center"),
        Anchor::LowerLeft => ("start", "end", "end"),
        Anchor::LowerCenter => ("center", "end", "end"),
        _ => ("center", "center", "center"),
    }
}

fn add_list_layout(m: &mut StringMap, l: &ListLayout, vertical: bool)
    ensures
        final(m)@ == with_list_layout(old(m)@, *l, vertical),
{
    m.insert_str("flex-direction", if vertical { "column" } else { "row" });
    if vertical {
        let (justify, cross) = vertical_alignment_text(l.anchor);
        m.insert_str("justify-content", justify);
        if let Some((content, items)) = cross {
            m.insert_str("align-content", content);
            m.insert_str("align-items", items);
        }
    } else {
        let (justify, content, items) = horizontal_alignment_text(l.anchor);
        m.insert_str("justify-content", justify);
        m.insert_str("align-content", content);
        m.insert_str("align-items", items);
    }
    let gap = l.spacing.clone().concat("px");
    m.insert(String::from_str("gap"), gap);
    if l.wrapped {
        m.insert_str("flex-wrap", "wrap");
    }
    if l.stretch_children {
        m.insert_str("align-items", "stretch");
    }
}

/// The list declarations of a container with the given vertical and horizontal lists.
pub fn list_style(vlist: &Option<ListLayout>, hlist: &Option<ListLayout>) -> (m: StringMap)
    ensures
        m@ == list_styles(*vlist, *hlist),
{
    let mut m = StringMap::new();
    if let Some(v) = vlist {
        add_list_layout(&mut m, v, true);
    }
    if let Some(h) = hlist {
        add_list_layout(&mut m, h, false);
    }
    m
}

/// A list that asks for stretched children gets them, vertical or horizontal:
/// the horizontal list decides where there is one, the vertical list otherwise.
pub proof fn law_stretched_children(vlist: Option<ListLayout>, hlist: Option<ListLayout>)
    ensures
        (hlist matches Some(h) && h.stretch_children) ==> list_styles(vlist, hlist).contains_key("align-items"@)
            && list_styles(vlist, hlist)["align-items"@] == "stretch"@,
        (hlist is None && (vlist matches Some(v) && v.stretch_children)) ==> list_styles(vlist, hlist).contains_key(
            "align-items"@,
        ) && list_styles(vlist, hlist)["align-items"@] == "stretch"@,
{
}

/// List layout writes only direction, alignment, gap and wrapping: in particular
/// it never writes `display`, which the base renderer owns.
pub proof fn law_list_layout_owns_only_its_properties(
    vlist: Option<ListLayout>,
    hlist: Option<ListLayout>,
    key: Seq<char>,
)
    ensures
        list_styles(vlist, hlist).contains_key(key) ==> is_list_key(key),
        !list_styles(vlist, hlist).contains_key("display"@),
{
    lemma_display_is_not_a_list_key();
}

/// `display` is none of the list properties.
pub proof fn lemma_display_is_not_a_list_key()
    ensures
        !is_list_key("display"@),
{
    reveal_strlit("display");
    reveal_strlit("flex-direction");
    reveal_strlit("justify-content");
    reveal_strlit("align-content");
    reveal_strlit("align-items");
    reveal_strlit("gap");
    reveal_strlit("flex-wrap");
    assert("display"@.len() == 7);
    assert("flex-direction"@.len() == 14);
    assert("justify-content"@.len() == 15);
    assert("align-content"@.len() == 13);
    assert("align-items"@.len() == 11);
    assert("gap"@.len() == 3);
    assert("flex-wrap"@.len() == 9);
}

} // verus!
