//! Decoding what the browser recorded on an element since the last frame into
//! what the application does about it, and the show transition of a control.
use vstd::prelude::*;

verus! {

/// Who handles a click.
#[derive(Clone, Copy, Debug, PartialEq, Eq, Structural)]
pub enum ClickHandler {
    Nobody,
    OnClick,
    Button,
}

/// The markers the browser left on an element, each the marker's text if present.
pub struct ElementMarkers {
    pub was_mouse_over: Option<String>,
    pub was_focused: Option<String>,
    pub width_change: Option<String>,
    pub height_change: Option<String>,
    pub was_input: Option<String>,
    pub was_submitted: Option<String>,
    pub was_clicked: Option<String>,
}

/// Which interaction components the entity carries.
pub struct Interactions {
    pub interact_state: bool,
    pub input_field: bool,
    pub on_click: bool,
    pub button: bool,
}

/// What to do for one element: markers to remove (in order), the new hover
/// state, whether focus is lost, whether bindings must refresh, whether the
/// control takes the measured size, whether the input's value is read, whether
/// a submit or a click happened, and who handles the click.
pub struct EventActions {
    pub removed: Vec<String>,
    pub hovering: Option<bool>,
    pub unfocus: bool,
    pub bindable_changed: bool,
    pub resize: bool,
    pub read_input: bool,
    pub submitted: bool,
    pub clicked: bool,
    pub click_handler: ClickHandler,
}

/// A marker text that reads as a boolean.
pub open spec fn is_bool_text(t: Seq<char>) -> bool {
    t == "true"@ || t == "false"@
}

/// The markers are well formed: a hover marker on an entity with interaction
/// state reads as a boolean, and a width change comes with a height change.
pub open spec fn markers_readable(m: ElementMarkers, c: Interactions) -> bool {
    &&& (c.interact_state && m.was_mouse_over.is_some()) ==> is_bool_text(m.was_mouse_over.unwrap()@)
    &&& m.width_change.is_some() ==> m.height_change.is_some()
}

/// The markers removed, in order.
pub open spec fn removed_markers(m: ElementMarkers, c: Interactions) -> Seq<Seq<char>> {
    let r1 = if c.interact_state && m.was_mouse_over.is_some() { seq!["was_mouse_over"@] } else { seq![] };
    let r2 = if c.interact_state && m.was_focused.is_some() {
        r1 + seq!["was_focused"@, "was_unfocused"@]
    } else {
        r1
    };
    let r3 = if m.width_change.is_some() { r2 + seq!["width_change"@, "height_change"@] } else { r2 };
    let r4 = if c.input_field && m.was_input.is_some() { r3.push("was_input"@) } else { r3 };
    let r5 = if c.input_field && m.was_submitted.is_some() { r4.push("was_submitted"@) } else { r4 };
    if (c.on_click || c.button) && m.was_clicked.is_some() { r5.push("was_clicked"@) } else { r5 }
}

fn push_text(v: &mut Vec<String>, t: &str)
    ensures
        final(v)@.map_values(|s: String| s@) == old(v)@.map_values(|s: String| s@).push(t@),
{
    let ghost before = v@;
    v.push(String::from_str(t));
    assert(v@.map_values(|s: String| s@) =~= before.map_values(|s: String| s@).push(t@));
}

/// The actions for an element with the given markers and components. A resize
/// is taken only when the browser measured a size that `measured_differs`
/// says is not the control's current one; the measurement markers go either way.
pub fn decode_events(m: &ElementMarkers, c: &Interactions, measured_differs: bool) -> (a: EventActions)
    requires
        markers_readable(*m, *c),
    ensures
        a.removed@.map_values(|s: String| s@) == removed_markers(*m, *c),
        a.hovering == (if c.interact_state && m.was_mouse_over.is_some() {
            Some(m.was_mouse_over.unwrap()@ == "true"@)
        } else {
            None
        }),
        a.unfocus == (c.interact_state && m.was_focused.is_some()),
        a.bindable_changed == (c.interact_state && (m.was_mouse_over.is_some() || m.was_focused.is_some())),
        a.resize == (m.width_change.is_some() && measured_differs),
        a.read_input == (c.input_field && m.was_input.is_some()),
        a.submitted == (c.input_field && m.was_submitted.is_some()),
        a.clicked == ((c.on_click || c.button) && m.was_clicked.is_some()),
        a.click_handler == (if !m.was_clicked.is_some() {
            ClickHandler::Nobody
        } else if c.on_click {
            ClickHandler::OnClick
        } else if c.button {
            ClickHandler::Button
        } else {
            ClickHandler::Nobody
        }),
{
    let mut removed: Vec<String> = Vec::new();
    let mut hovering: Option<bool> = None;
    let mut unfocus = false;
    let mut bindable_changed = false;
    proof {
        assert(removed@.map_values(|s: String| s@) =~= Seq::<Seq<char>>::empty());
    }
    if c.interact_state {
        if let Some(v) = &m.was_mouse_over {
            hovering = Some(*v == String::from_str("true"));
            push_text(&mut removed, "was_mouse_over");
            bindable_changed = true;
        }
        if m.was_focused.is_some() {
            push_text(&mut removed, "was_focused");
            unfocus = true;
            bindable_changed = true;
            push_text(&mut removed, "was_unfocused");
        }
    }
    let mut resize = false;
    if m.width_change.is_some() {
        resize = measured_differs;
        push_text(&mut removed, "width_change");
        push_text(&mut removed, "height_change");
    }
    let mut read_input = false;
    let mut submitted = false;
    if c.input_field {
        if m.was_input.is_some() {
            push_text(&mut removed, "was_input");
            read_input = true;
        }
        if m.was_submitted.is_some() {
            push_text(&mut removed, "was_submitted");
            submitted = true;
        }
    }
    let mut clicked = false;
    let mut click_handler = ClickHandler::Nobody;
    if (c.on_click || c.button) && m.was_clicked.is_some() {
        push_text(&mut removed, "was_clicked");
        clicked = true;
        click_handler = if c.on_click { ClickHandler::OnClick } else { ClickHandler::Button };
    }
    proof {
        assert(removed@.map_values(|s: String| s@) =~= removed_markers(*m, *c));
    }
    EventActions { removed, hovering, unfocus, bindable_changed, resize, read_input, submitted, clicked, click_handler }
}

/// Every marker the browser left is removed exactly when it is acted on: a
/// hover or focus marker when the entity tracks interaction, the size markers
/// whenever a width was measured, input and submit markers when the entity is
/// an input field, and a click marker when something handles the click. So
/// each event is reported once.
pub proof fn law_markers_removed_exactly_when_acted_on(m: ElementMarkers, c: Interactions)
    ensures
        removed_markers(m, c).contains("was_mouse_over"@) <==> (c.interact_state && m.was_mouse_over.is_some()),
        removed_markers(m, c).contains("was_focused"@) <==> (c.interact_state && m.was_focused.is_some()),
        removed_markers(m, c).contains("was_unfocused"@) <==> (c.interact_state && m.was_focused.is_some()),
        removed_markers(m, c).contains("width_change"@) <==> m.width_change.is_some(),
        removed_markers(m, c).contains("height_change"@) <==> m.width_change.is_some(),
        removed_markers(m, c).contains("was_input"@) <==> (c.input_field && m.was_input.is_some()),
        removed_markers(m, c).contains("was_submitted"@) <==> (c.input_field && m.was_submitted.is_some()),
        removed_markers(m, c).contains("was_clicked"@) <==> ((c.on_click || c.button) && m.was_clicked.is_some()),
{
    lemma_marker_names_differ();
    lemma_removed_contains(m, c, "was_mouse_over"@);
    lemma_removed_contains(m, c, "was_focused"@);
    lemma_removed_contains(m, c, "was_unfocused"@);
    lemma_removed_contains(m, c, "width_change"@);
    lemma_removed_contains(m, c, "height_change"@);
    lemma_removed_contains(m, c, "was_input"@);
    lemma_removed_contains(m, c, "was_submitted"@);
    lemma_removed_contains(m, c, "was_clicked"@);
}

proof fn lemma_marker_names_differ()
    ensures
        "was_mouse_over"@ != "was_focused"@,
        "was_mouse_over"@ != "was_unfocused"@,
        "was_mouse_over"@ != "width_change"@,
        "was_mouse_over"@ != "height_change"@,
        "was_mouse_over"@ != "was_input"@,
        "was_mouse_over"@ != "was_submitted"@,
        "was_mouse_over"@ != "was_clicked"@,
        "was_focused"@ != "was_unfocused"@,
        "was_focused"@ != "width_change"@,
        "was_focused"@ != "height_change"@,
        "was_focused"@ != "was_input"@,
        "was_focused"@ != "was_submitted"@,
        "was_focused"@ != "was_clicked"@,
        "was_unfocused"@ != "width_change"@,
        "was_unfocused"@ != "height_change"@,
        "was_unfocused"@ != "was_input"@,
        "was_unfocused"@ != "was_submitted"@,
        "was_unfocused"@ != "was_clicked"@,
        "width_change"@ != "height_change"@,
        "width_change"@ != "was_input"@,
        "width_change"@ != "was_submitted"@,
        "width_change"@ != "was_clicked"@,
        "height_change"@ != "was_input"@,
        "height_change"@ != "was_submitted"@,
        "height_change"@ != "was_clicked"@,
        "was_input"@ != "was_submitted"@,
        "was_input"@ != "was_clicked"@,
        "was_submitted"@ != "was_clicked"@,
{
    reveal_strlit("was_mouse_over");
    reveal_strlit("was_focused");
    reveal_strlit("was_unfocused");
    reveal_strlit("width_change");
    reveal_strlit("height_change");
    reveal_strlit("was_input");
    reveal_strlit("was_submitted");
    reveal_strlit("was_clicked");
    assert("was_mouse_over"@.len() == 14);
    assert("was_focused"@.len() == 11 && "was_focused"@[4] == 'f');
    assert("was_unfocused"@.len() == 13 && "was_unfocused"@[0] == 'w' && "was_unfocused"@[4] == 'u');
    assert("width_change"@.len() == 12);
    assert("height_change"@.len() == 13 && "height_change"@[0] == 'h');
    assert("was_input"@.len() == 9);
    assert("was_submitted"@.len() == 13 && "was_submitted"@[0] == 'w' && "was_submitted"@[4] == 's');
    assert("was_clicked"@.len() == 11 && "was_clicked"@[4] == 'c');
}

/// A name is among the removed markers exactly when its group is removed.
proof fn lemma_removed_contains(m: ElementMarkers, c: Interactions, x: Seq<char>)
    ensures
        removed_markers(m, c).contains(x) <==> {
            ||| c.interact_state && m.was_mouse_over.is_some() && x == "was_mouse_over"@
            ||| c.interact_state && m.was_focused.is_some() && (x == "was_focused"@ || x == "was_unfocused"@)
            ||| m.width_change.is_some() && (x == "width_change"@ || x == "height_change"@)
            ||| c.input_field && m.was_input.is_some() && x == "was_input"@
            ||| c.input_field && m.was_submitted.is_some() && x == "was_submitted"@
            ||| (c.on_click || c.button) && m.was_clicked.is_some() && x == "was_clicked"@
        },
{
    let e = Seq::<Seq<char>>::empty();
    let b1 = if c.interact_state && m.was_mouse_over.is_some() { seq!["was_mouse_over"@] } else { e };
    let b2 = if c.interact_state && m.was_focused.is_some() { seq!["was_focused"@, "was_unfocused"@] } else { e };
    let b3 = if m.width_change.is_some() { seq!["width_change"@, "height_change"@] } else { e };
    let b4 = if c.input_field && m.was_input.is_some() { seq!["was_input"@] } else { e };
    let b5 = if c.input_field && m.was_submitted.is_some() { seq!["was_submitted"@] } else { e };
    let b6 = if (c.on_click || c.button) && m.was_clicked.is_some() { seq!["was_clicked"@] } else { e };
    assert(removed_markers(m, c) =~= b1 + b2 + b3 + b4 + b5 + b6);
    lemma_contains_concat(b1, b2, x);
    lemma_contains_concat(b1 + b2, b3, x);
    lemma_contains_concat(b1 + b2 + b3, b4, x);
    lemma_contains_concat(b1 + b2 + b3 + b4, b5, x);
    lemma_contains_concat(b1 + b2 + b3 + b4 + b5, b6, x);
    if b1.contains(x) { let j: int = choose|j: int| 0 <= j < b1.len() && b1[j] == x; }
    if b2.contains(x) { let j: int = choose|j: int| 0 <= j < b2.len() && b2[j] == x; }
    if b3.contains(x) { let j: int = choose|j: int| 0 <= j < b3.len() && b3[j] == x; }
    if b4.contains(x) { let j: int = choose|j: int| 0 <= j < b4.len() && b4[j] == x; }
    if b5.contains(x) { let j: int = choose|j: int| 0 <= j < b5.len() && b5[j] == x; }
    if b6.contains(x) { let j: int = choose|j: int| 0 <= j < b6.len() && b6[j] == x; }
    if c.interact_state && m.was_mouse_over.is_some() { assert(b1[0] == "was_mouse_over"@); }
    if c.interact_state && m.was_focused.is_some() { assert(b2[0] == "was_focused"@ && b2[1] == "was_unfocused"@); }
    if m.width_change.is_some() { assert(b3[0] == "width_change"@ && b3[1] == "height_change"@); }
    if c.input_field && m.was_input.is_some() { assert(b4[0] == "was_input"@); }
    if c.input_field && m.was_submitted.is_some() { assert(b5[0] == "was_submitted"@); }
    if (c.on_click || c.button) && m.was_clicked.is_some() { assert(b6[0] == "was_clicked"@); }
}

proof fn lemma_contains_concat(a: Seq<Seq<char>>, b: Seq<Seq<char>>, x: Seq<char>)
    ensures
        (a + b).contains(x) <==> (a.contains(x) || b.contains(x)),
{
    if (a + b).contains(x) {
        let j: int = choose|j: int| 0 <= j < (a + b).len() && (a + b)[j] == x;
        if j < a.len() {
            assert(a[j] == x);
        } else {
            assert(b[j - a.len()] == x);
        }
    }
    if a.contains(x) {
        let j: int = choose|j: int| 0 <= j < a.len() && a[j] == x;
        assert((a + b)[j] == x);
    }
    if b.contains(x) {
        let j: int = choose|j: int| 0 <= j < b.len() && b[j] == x;
        assert((a + b)[a.len() + j] == x);
    }
}

/// The show transition of a control: the remembered visibility becomes the
/// current one, and the show callback fires when a hidden control became visible.
pub open spec fn show_transition(is_visible: bool, was_visible: bool) -> (bool, bool) {
    (is_visible, is_visible && !was_visible)
}

/// The new remembered visibility and whether to call the show callback.
pub fn on_show_transition(is_visible: bool, was_visible: bool) -> (r: (bool, bool))
    ensures
        r == show_transition(is_visible, was_visible),
{
    let mut remembered = was_visible;
    let mut fire = false;
    if is_visible && !was_visible || !is_visible && was_visible {
        remembered = is_visible;
        if is_visible {
            fire = true;
        }
    }
    (remembered, fire)
}

/// The show callback fires at most once per appearance: after a transition, the
/// same visibility again fires nothing, and the callback only ever fires for a
/// visible control.
pub proof fn law_show_fires_once_per_appearance(is_visible: bool, was_visible: bool)
    ensures
        show_transition(is_visible, show_transition(is_visible, was_visible).0).1 == false,
        show_transition(is_visible, was_visible).1 ==> is_visible,
        show_transition(is_visible, was_visible).0 == is_visible,
{
}

} // verus!
