use bevy_native::dom::{element_tag, entity_selector, font_face_source, is_extension_url, silk_id, silk_selector};
use bevy_native::events::{decode_events, on_show_transition, ClickHandler, ElementMarkers, Interactions};
use bevy_native::routing::{
    child_visibility, native_history_path, newest_route_change, route_path_list, split_path_to_list, to_url_params, update_route, RouteChange,
    RouteState,
};
use bevy_native::string_map::StringMap;

fn strings(v: &[&str]) -> Vec<String> {
    v.iter().map(|s| s.to_string()).collect()
}

fn empty_state() -> RouteState {
    RouteState { path: Vec::new(), params: StringMap::new() }
}

#[test]
fn route_state_is_written_as_a_url() {
    let mut params = StringMap::new();
    params.insert_str("id", "7");
    params.insert_str("tab", "info");
    let state = RouteState { path: strings(&["users", "profile"]), params };
    assert_eq!(state.to_string(), "users/profile?id=7&tab=info");
    let state = RouteState { path: strings(&["home"]), params: StringMap::new() };
    assert_eq!(state.to_string(), "home");
    assert_eq!(empty_state().to_string(), "");
    assert_eq!(to_url_params(&StringMap::new()), "");
}

#[test]
fn browser_paths_are_read_as_route_segments() {
    assert_eq!(route_path_list("/users/profile/"), strings(&["users", "profile"]));
    assert_eq!(route_path_list("///a//b//"), strings(&["a", "", "b"]));
    assert_eq!(route_path_list("/"), strings(&[""]));
    assert_eq!(split_path_to_list("a/b"), strings(&["a", "b"]));
    assert_eq!(split_path_to_list(""), strings(&[""]));
}

#[test]
fn written_route_reads_back() {
    let state = RouteState { path: strings(&["shop", "cart"]), params: StringMap::new() };
    let url = state.to_string();
    assert_eq!(route_path_list(&native_history_path(&url)), state.path);
}

#[test]
fn empty_history_path_becomes_root() {
    assert_eq!(native_history_path(""), "/");
    assert_eq!(native_history_path("a?b=c"), "a?b=c");
}

#[test]
fn route_change_updates_state_children_and_history() {
    let mut state = empty_state();
    let change = RouteChange::new("home".to_string(), StringMap::new());
    let routes = strings(&["home", "about", "home"]);
    let u = update_route(&mut state, Some(change), "/other", &StringMap::new(), false, false, &routes);
    assert_eq!(state.path, strings(&["home"]));
    assert_eq!(u.history, Some("home".to_string()));
    assert!(u.refreshed);
    assert_eq!(u.visible, vec![true, false, true]);
    assert_eq!(u.shown, Some(2));
}

#[test]
fn route_change_matching_the_browser_leaves_history_alone() {
    let mut state = empty_state();
    let change = RouteChange::with_id("item".to_string(), "42".to_string());
    let mut native = StringMap::new();
    native.insert_str("id", "42");
    let u = update_route(&mut state, Some(change), "/item", &native, false, false, &strings(&["list"]));
    assert_eq!(state.params.get("id").unwrap(), "42");
    assert_eq!(u.history, None);
    assert_eq!(u.visible, vec![false]);
    assert_eq!(u.shown, None);
    let change = RouteChange::new("item".to_string(), StringMap::new());
    let u = update_route(&mut state, Some(change), "/item", &native, false, false, &strings(&["item"]));
    assert_eq!(u.history, Some("item".to_string()));
}

#[test]
fn empty_route_pushes_the_root_path() {
    let mut state = RouteState { path: strings(&["old"]), params: StringMap::new() };
    let change = RouteChange { path: Vec::new(), params: StringMap::new() };
    let u = update_route(&mut state, Some(change), "/old", &StringMap::new(), false, false, &Vec::new());
    assert_eq!(u.history, Some("/".to_string()));
}

#[test]
fn no_change_refreshes_only_when_the_router_changed() {
    let mut state = RouteState { path: strings(&["a"]), params: StringMap::new() };
    let u = update_route(&mut state, None, "/zzz", &StringMap::new(), false, false, &strings(&["a"]));
    assert!(!u.refreshed);
    assert!(u.visible.is_empty());
    assert_eq!(u.history, None);
    let u = update_route(&mut state, None, "/zzz", &StringMap::new(), false, true, &strings(&["b", "a"]));
    assert!(u.refreshed);
    assert_eq!(u.visible, vec![false, true]);
    assert_eq!(u.shown, Some(1));
    assert_eq!(state.path, strings(&["a"]));
}

#[test]
fn children_without_routes_are_left_alone() {
    let path = strings(&["a", "b"]);
    assert_eq!(child_visibility(&path, None), None);
    assert_eq!(child_visibility(&path, Some(&"a".to_string())), Some(true));
    assert_eq!(child_visibility(&path, Some(&"b".to_string())), Some(false));
    assert_eq!(child_visibility(&Vec::new(), Some(&"a".to_string())), Some(false));
}

#[test]
fn same_parameters_in_another_order_leave_history_alone() {
    let mut state = empty_state();
    let mut params = StringMap::new();
    params.insert_str("b", "2");
    params.insert_str("a", "1");
    let mut native = StringMap::new();
    native.insert_str("a", "1");
    native.insert_str("b", "2");
    let change = RouteChange::new("page".to_string(), params);
    let u = update_route(&mut state, Some(change), "/page", &native, false, false, &Vec::new());
    assert_eq!(u.history, None);
    native.insert_str("b", "3");
    let mut params = StringMap::new();
    params.insert_str("b", "2");
    params.insert_str("a", "1");
    let change = RouteChange::new("page".to_string(), params);
    let u = update_route(&mut state, Some(change), "/page", &native, false, false, &Vec::new());
    assert_eq!(u.history, Some("page?b=2&a=1".to_string()));
}

#[test]
fn newest_route_change_is_the_last_received() {
    assert!(newest_route_change(Vec::new()).is_none());
    let changes = vec![
        RouteChange::new("first".to_string(), StringMap::new()),
        RouteChange::new("second".to_string(), StringMap::new()),
    ];
    assert_eq!(newest_route_change(changes).unwrap().path, strings(&["second"]));
}

#[test]
fn maps_with_the_same_entries_compare_equal() {
    let mut a = StringMap::new();
    a.insert_str("x", "1");
    a.insert_str("y", "2");
    let mut b = StringMap::new();
    b.insert_str("y", "2");
    b.insert_str("x", "1");
    assert!(a.same_entries(&b));
    b.insert_str("x", "3");
    assert!(!a.same_entries(&b));
    b.remove("x");
    assert!(!a.same_entries(&b));
    assert!(StringMap::new().same_entries(&StringMap::new()));
}

fn markers() -> ElementMarkers {
    ElementMarkers {
        was_mouse_over: None,
        was_focused: None,
        width_change: None,
        height_change: None,
        was_input: None,
        was_submitted: None,
        was_clicked: None,
    }
}

fn everything() -> Interactions {
    Interactions { interact_state: true, input_field: true, on_click: true, button: true }
}

#[test]
fn hover_focus_and_click_markers_are_decoded() {
    let mut m = markers();
    m.was_mouse_over = Some("false".to_string());
    m.was_focused = Some("true".to_string());
    m.was_clicked = Some("true".to_string());
    let a = decode_events(&m, &everything(), false);
    assert_eq!(a.hovering, Some(false));
    assert!(a.unfocus);
    assert!(a.bindable_changed);
    assert!(a.clicked);
    assert_eq!(a.click_handler, ClickHandler::OnClick);
    assert_eq!(a.removed, strings(&["was_mouse_over", "was_focused", "was_unfocused", "was_clicked"]));
    let c = Interactions { interact_state: false, input_field: false, on_click: false, button: true };
    let a = decode_events(&m, &c, false);
    assert_eq!(a.hovering, None);
    assert_eq!(a.click_handler, ClickHandler::Button);
    assert_eq!(a.removed, strings(&["was_clicked"]));
    let c = Interactions { interact_state: false, input_field: false, on_click: false, button: false };
    let a = decode_events(&m, &c, false);
    assert!(!a.clicked);
    assert_eq!(a.click_handler, ClickHandler::Nobody);
    assert!(a.removed.is_empty());
}

#[test]
fn measurements_resize_only_when_they_differ() {
    let mut m = markers();
    m.width_change = Some("100".to_string());
    m.height_change = Some("50".to_string());
    let a = decode_events(&m, &everything(), false);
    assert!(!a.resize);
    assert_eq!(a.removed, strings(&["width_change", "height_change"]));
    let a = decode_events(&m, &everything(), true);
    assert!(a.resize);
    let a = decode_events(&markers(), &everything(), true);
    assert!(!a.resize);
}

#[test]
fn input_and_submit_markers_are_decoded() {
    let mut m = markers();
    m.was_input = Some("true".to_string());
    m.was_submitted = Some("true".to_string());
    let a = decode_events(&m, &everything(), false);
    assert!(a.read_input && a.submitted);
    assert_eq!(a.removed, strings(&["was_input", "was_submitted"]));
    let c = Interactions { interact_state: true, input_field: false, on_click: false, button: false };
    let a = decode_events(&m, &c, false);
    assert!(!a.read_input && !a.submitted);
    assert!(!a.bindable_changed);
}

#[test]
fn show_callback_fires_on_appearance_only() {
    assert_eq!(on_show_transition(true, false), (true, true));
    assert_eq!(on_show_transition(true, true), (true, false));
    assert_eq!(on_show_transition(false, true), (false, false));
    assert_eq!(on_show_transition(false, false), (false, false));
    let (was, _) = on_show_transition(true, false);
    assert_eq!(on_show_transition(true, was), (true, false));
}

#[test]
fn elements_are_found_by_their_silk_id() {
    assert_eq!(silk_id(42), "42");
    assert_eq!(silk_selector("9"), "[silk-id=\"9\"]");
    assert_eq!(entity_selector(4294967297), "[silk-id=\"4294967297\"]");
    assert_eq!(element_tag(None), "div");
    assert_eq!(element_tag(Some("p".to_string())), "p");
    assert_eq!(font_face_source("fonts/a.ttf"), "url(fonts/a.ttf)");
}

#[test]
fn extension_pages_are_recognised() {
    assert!(is_extension_url("chrome-extension://abcdef/index.html"));
    assert!(!is_extension_url("https://example.com"));
    assert!(!is_extension_url("chrome-ext"));
}
