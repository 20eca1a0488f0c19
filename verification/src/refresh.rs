//! How the base renderer and list rendering share an element's declarations.
//! Each writes its declarations over the element's current ones (see
//! `style_sheet::law_style_attribute_reads_back`); the two own disjoint
//! properties, so the order of their refreshes does not matter.
use vstd::prelude::*;
use crate::base_style::{base_styles, law_base_never_writes_list_properties, BaseInput};
use crate::layout::display_for;
use crate::list_style::{law_list_layout_owns_only_its_properties, list_styles, ListLayout};

verus! {

/// The declarations of an element after a renderer wrote `update` over `current`.
pub open spec fn refreshed(current: Map<Seq<char>, Seq<char>>, update: Map<Seq<char>, Seq<char>>) -> Map<Seq<char>, Seq<char>> {
    current.union_prefer_right(update)
}

/// Base and list refreshes commute: whichever runs first, the element ends with
/// the same declarations, and its display mode is the base renderer's.
pub proof fn law_base_and_list_refreshes_commute(
    current: Map<Seq<char>, Seq<char>>,
    i: BaseInput,
    vlist: Option<ListLayout>,
    hlist: Option<ListLayout>,
)
    ensures
        refreshed(refreshed(current, base_styles(i)), list_styles(vlist, hlist)) == refreshed(
            refreshed(current, list_styles(vlist, hlist)),
            base_styles(i),
        ),
        refreshed(refreshed(current, base_styles(i)), list_styles(vlist, hlist))["display"@] == display_for(
            i.control.is_visible,
            i.linear_list,
            i.label.is_some(),
        ),
{
    let b = base_styles(i);
    let l = list_styles(vlist, hlist);
    assert forall|k: Seq<char>| #[trigger] l.contains_key(k) implies !b.contains_key(k) by {
        law_list_layout_owns_only_its_properties(vlist, hlist, k);
        law_base_never_writes_list_properties(i, k);
    }
    law_list_layout_owns_only_its_properties(vlist, hlist, "display"@);
    assert(refreshed(refreshed(current, b), l) =~= refreshed(refreshed(current, l), b));
}

/// A base-only refresh leaves the list layout (direction, alignment, gap,
/// wrapping) as the last list refresh wrote it.
pub proof fn law_base_refresh_keeps_list_layout(current: Map<Seq<char>, Seq<char>>, i: BaseInput, key: Seq<char>)
    requires
        crate::list_style::is_list_key(key),
    ensures
        refreshed(current, base_styles(i)).contains_key(key) == current.contains_key(key),
        current.contains_key(key) ==> refreshed(current, base_styles(i))[key] == current[key],
{
    law_base_never_writes_list_properties(i, key);
}

/// A list refresh never changes the display mode.
pub proof fn law_list_refresh_keeps_display(
    current: Map<Seq<char>, Seq<char>>,
    vlist: Option<ListLayout>,
    hlist: Option<ListLayout>,
)
    ensures
        refreshed(current, list_styles(vlist, hlist)).contains_key("display"@) == current.contains_key("display"@),
        current.contains_key("display"@) ==> refreshed(current, list_styles(vlist, hlist))["display"@] == current["display"@],
{
    law_list_layout_owns_only_its_properties(vlist, hlist, "display"@);
}

} // verus!
