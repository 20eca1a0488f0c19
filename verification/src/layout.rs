//! CSS display ownership: the base renderer alone decides `display`, from
//! visibility, whether the element is a linear list, and whether it is a label.
use vstd::prelude::*;
use crate::string_map::StringMap;

verus! {

/// The display mode of an element: hidden elements are `none`; visible
/// horizontal or vertical lists are `flex`; visible labels are `block`;
/// everything else is `grid`.
pub open spec fn display_for(visible: bool, linear_list: bool, label: bool) -> Seq<char> {
    if !visible {
        "none"@
    } else if linear_list {
        "flex"@
    } else if label {
        "block"@
    } else {
        "grid"@
    }
}

/// The declarations after one display refresh.
pub open spec fn with_display(
    styles: Map<Seq<char>, Seq<char>>,
    visible: bool,
    linear_list: bool,
    label: bool,
) -> Map<Seq<char>, Seq<char>> {
    styles.insert("display"@, display_for(visible, linear_list, label))
}

/// Sets `display` on a declaration map, leaving every other declaration as it was.
pub fn apply_display(styles: &mut StringMap, visible: bool, linear_list: bool, label: bool)
    ensures
        final(styles)@ == with_display(old(styles)@, visible, linear_list, label),
{
    let display = if !visible {
        "none"
    } else if linear_list {
        "flex"
    } else if label {
        "block"
    } else {
        "grid"
    };
    styles.insert_str("display", display);
}

/// A display refresh changes no declaration other than `display`.
pub proof fn law_display_refresh_keeps_other_declarations(
    styles: Map<Seq<char>, Seq<char>>,
    visible: bool,
    linear_list: bool,
    label: bool,
    key: Seq<char>,
)
    requires
        key != "display"@,
    ensures
        with_display(styles, visible, linear_list, label).contains_key(key) == styles.contains_key(key),
        styles.contains_key(key) ==> with_display(styles, visible, linear_list, label)[key] == styles[key],
{
}

/// Refreshing twice with the same inputs is the same as refreshing once.
pub proof fn law_display_refresh_idempotent(
    styles: Map<Seq<char>, Seq<char>>,
    visible: bool,
    linear_list: bool,
    label: bool,
)
    ensures
        with_display(with_display(styles, visible, linear_list, label), visible, linear_list, label)
            == with_display(styles, visible, linear_list, label),
{
    assert(with_display(with_display(styles, visible, linear_list, label), visible, linear_list, label)
        =~= with_display(styles, visible, linear_list, label));
}

/// Only the latest refresh decides the display mode: earlier refreshes leave no trace.
pub proof fn law_latest_display_refresh_wins(
    styles: Map<Seq<char>, Seq<char>>,
    visible1: bool,
    linear_list1: bool,
    label1: bool,
    visible2: bool,
    linear_list2: bool,
    label2: bool,
)
    ensures
        with_display(with_display(styles, visible1, linear_list1, label1), visible2, linear_list2, label2)
            == with_display(styles, visible2, linear_list2, label2),
{
    assert(with_display(with_display(styles, visible1, linear_list1, label1), visible2, linear_list2, label2)
        =~= with_display(styles, visible2, linear_list2, label2));
}

/// A visible horizontal or vertical list is a flex container after every refresh,
/// whether or not it also carries a label; a hidden element is never displayed.
pub proof fn law_visible_lists_stay_flex(styles: Map<Seq<char>, Seq<char>>, label: bool)
    ensures
        with_display(styles, true, true, label)["display"@] == "flex"@,
        with_display(styles, false, true, label)["display"@] == "none"@,
        with_display(styles, false, false, label)["display"@] == "none"@,
{
}

} // verus!
