use bevy_native::base_style::{
    base_render, BaseInput, ControlStyle, Edges, ImageStyle, InputFieldStyle, InputType, LabelStyle, PivotOffsets,
};
use bevy_native::list_style::{list_style, Anchor, ListLayout};
use bevy_native::string_map::StringMap;
use bevy_native::style_sheet::{
    first_unreadable_piece, insert_style, merge_declarations, style_is_readable_text, style_text,
};
use bevy_native::text::decimal_text;

fn s(t: &str) -> String {
    t.to_string()
}

fn edges(x: &str, y: &str, z: &str, w: &str) -> Edges {
    Edges { x: s(x), y: s(y), z: s(z), w: s(w) }
}

fn control() -> ControlStyle {
    ControlStyle {
        is_visible: true,
        is_overflow: false,
        expand_width: false,
        expand_height: false,
        fit_width: false,
        fit_height: false,
        fixed_width: None,
        fixed_height: None,
        scale: s("1"),
        border_radius: edges("0", "0", "0", "0"),
        border_radius_is_zero: true,
        border_width: s("0"),
        padding: edges("1", "2", "3", "4"),
        use_background: false,
        stretch: false,
        pivot: PivotOffsets { translate_x: s("-50"), translate_y: s("-50"), left: s("50"), top: s("50") },
        local_x: s("10"),
        local_y: s("20"),
    }
}

fn input() -> BaseInput {
    BaseInput {
        control: control(),
        has_parent: false,
        parent_is_container: false,
        linear_list: false,
        vscroll: false,
        button: false,
        shadow: false,
        background_color: None,
        input_field: None,
        image: None,
        label: None,
    }
}

fn label(text: &str) -> LabelStyle {
    LabelStyle {
        text: s(text),
        font: s("Inter"),
        font_size: s("16"),
        color: s("rgb(0, 0, 0)"),
        is_shadow: false,
        alignment: Anchor::MiddleCenter,
        is_single_line: false,
        is_italic: false,
        is_bold: false,
        font_weight: s("400"),
        is_3d: false,
        depth: 0,
        line_height: None,
    }
}

fn get(m: &StringMap, k: &str) -> String {
    m.get(k).unwrap_or_else(|| panic!("missing {}", k))
}

#[test]
fn plain_control_is_an_absolute_grid_division() {
    let r = base_render(&input());
    assert_eq!(r.element_type, "div");
    assert_eq!(r.attributes.len(), 0);
    assert_eq!(r.inner_html, None);
    assert!(!r.phone_number);
    let st = &r.styles;
    assert_eq!(get(st, "display"), "grid");
    assert_eq!(get(st, "background"), "none");
    assert_eq!(get(st, "overflow"), "auto");
    assert_eq!(get(st, "position"), "absolute");
    assert_eq!(get(st, "left"), "calc(0% + 10px)");
    assert_eq!(get(st, "top"), "calc(0% + 20px)");
    assert_eq!(get(st, "width"), "auto");
    assert_eq!(get(st, "height"), "auto");
    assert_eq!(get(st, "min-width"), "auto");
    assert_eq!(get(st, "min-height"), "auto");
    assert_eq!(get(st, "border-radius"), "0px 0px 0px 0px");
    assert_eq!(get(st, "padding"), "2px 3px 4px 1px");
    assert_eq!(get(st, "border"), "0px solid #000");
    assert_eq!(get(st, "pointer-events"), "none");
    assert_eq!(get(st, "white-space"), "pre-wrap");
    assert!(!st.contains_key("flex-direction"));
    assert!(!st.contains_key("gap"));
}

#[test]
fn child_of_a_plain_parent_is_placed_by_its_pivot() {
    let mut i = input();
    i.has_parent = true;
    let r = base_render(&i);
    assert_eq!(get(&r.styles, "transform"), "translate(-50%, -50%)");
    assert_eq!(get(&r.styles, "left"), "50%");
    assert_eq!(get(&r.styles, "top"), "50%");
    i.parent_is_container = true;
    let r = base_render(&i);
    assert_eq!(get(&r.styles, "position"), "relative");
    assert!(!r.styles.contains_key("transform"));
}

#[test]
fn list_container_is_flex_even_with_a_label_and_hidden_when_invisible() {
    let mut i = input();
    i.linear_list = true;
    i.label = Some(label("Hi"));
    let r = base_render(&i);
    assert_eq!(get(&r.styles, "display"), "flex");
    i.control.is_visible = false;
    let r = base_render(&i);
    assert_eq!(get(&r.styles, "display"), "none");
}

#[test]
fn label_is_a_paragraph_with_typography() {
    let mut i = input();
    let mut l = label("Hello");
    l.is_single_line = true;
    l.is_bold = true;
    l.line_height = Some(s("24"));
    l.alignment = Anchor::LowerRight;
    i.label = Some(l);
    let r = base_render(&i);
    assert_eq!(r.element_type, "p");
    assert_eq!(r.inner_html, Some(s("Hello")));
    let st = &r.styles;
    assert_eq!(get(st, "display"), "block");
    assert_eq!(get(st, "font-family"), "Inter");
    assert_eq!(get(st, "font-size"), "16px");
    assert_eq!(get(st, "text-align"), "right");
    assert_eq!(get(st, "margin"), "0");
    assert_eq!(get(st, "width"), "max-content");
    assert_eq!(get(st, "box-sizing"), "content-box");
    assert_eq!(get(st, "font-weight"), "bold");
    assert_eq!(get(st, "line-height"), "24px");
    assert_eq!(get(st, "pointer-events"), "all");
}

#[test]
fn mogra_label_gets_its_margin_override() {
    let mut i = input();
    let mut l = label("x");
    l.font = s("Mogra");
    i.label = Some(l);
    let r = base_render(&i);
    assert_eq!(get(&r.styles, "margin"), "0px 0px -0px 0px");
}

#[test]
fn three_d_label_has_one_shadow_layer_per_pixel_of_depth() {
    let mut i = input();
    let mut l = label("3D");
    l.is_3d = true;
    l.depth = 2;
    i.label = Some(l);
    let r = base_render(&i);
    assert_eq!(
        get(&r.styles, "text-shadow"),
        "1px 1px 10px #aeaeae, 0px 1px 0px #aeaeae, 0px 2px 0px #aeaeae,  1px 18px 6px rgba(16,16,16,0.4), 1px 22px 10px rgba(16,16,16,0.2), 1px 25px 35px rgba(16,16,16,0.2), 1px 30px 60px rgba(16,16,16,0.75)"
    );
    assert_eq!(get(&r.styles, "transform"), "perspective(1000px) rotateX(25deg)");
    let mut l = label("flat");
    l.is_3d = true;
    l.depth = -3;
    i.label = Some(l);
    let r = base_render(&i);
    assert_eq!(
        get(&r.styles, "text-shadow"),
        "1px 1px 10px #aeaeae,  1px 18px 6px rgba(16,16,16,0.4), 1px 22px 10px rgba(16,16,16,0.2), 1px 25px 35px rgba(16,16,16,0.2), 1px 30px 60px rgba(16,16,16,0.75)"
    );
}

#[test]
fn input_fields_carry_their_attributes() {
    let mut i = input();
    i.input_field = Some(InputFieldStyle { font_size: s("14"), placeholder: s("Search"), input_type: InputType::Password });
    let r = base_render(&i);
    assert_eq!(r.element_type, "input");
    assert_eq!(r.attributes.get("autocomplete").unwrap(), "off");
    assert_eq!(r.attributes.get("placeholder").unwrap(), "Search");
    assert_eq!(r.attributes.get("type").unwrap(), "password");
    assert_eq!(get(&r.styles, "font-size"), "14px");
    assert!(!r.phone_number);
    i.input_field = Some(InputFieldStyle { font_size: s("14"), placeholder: s(""), input_type: InputType::PhoneNumber });
    let r = base_render(&i);
    assert!(r.phone_number);
    assert!(!r.attributes.contains_key("type"));
}

#[test]
fn buttons_colours_and_sizes() {
    let mut i = input();
    i.button = true;
    i.background_color = Some(s("#FF000080"));
    i.control.fixed_width = Some(s("120"));
    i.control.fit_height = true;
    i.control.use_background = true;
    i.control.stretch = true;
    i.control.border_radius = edges("1", "2", "3", "4");
    i.control.border_radius_is_zero = false;
    let r = base_render(&i);
    assert_eq!(r.element_type, "button");
    assert_eq!(get(&r.styles, "cursor"), "pointer");
    assert_eq!(get(&r.styles, "background"), "white");
    assert_eq!(get(&r.styles, "width"), "120px");
    assert_eq!(get(&r.styles, "min-width"), "120px");
    assert_eq!(get(&r.styles, "height"), "fit-content");
    assert_eq!(get(&r.styles, "align-self"), "stretch");
    assert_eq!(get(&r.styles, "overflow"), "revert");
    assert_eq!(get(&r.styles, "border-radius"), "2px 3px 4px 1px");
    i.control.use_background = false;
    let r = base_render(&i);
    assert_eq!(get(&r.styles, "background"), "#FF000080");
}

#[test]
fn images_as_backgrounds_and_nine_slices() {
    let mut i = input();
    i.image = Some(ImageStyle {
        brightness: s("0.5"),
        multiply: true,
        is_nine_slice: false,
        border_image_slice: edges("1", "2", "3", "4"),
        border_image_width: edges("5", "6", "7", "8"),
        image: s("cat.png"),
        has_data: false,
        aspect_ratio: Some(s("1.5")),
        cover_background: true,
    });
    let r = base_render(&i);
    assert_eq!(r.element_type, "div");
    let st = &r.styles;
    assert!(!st.contains_key("background"));
    assert_eq!(get(st, "filter"), "brightness(0.5)");
    assert_eq!(get(st, "mix-blend-mode"), "multiply");
    assert_eq!(get(st, "background-image"), "url('cat.png')");
    assert_eq!(get(st, "background-size"), "cover");
    assert_eq!(get(st, "aspect-ratio"), "1.5");
    assert_eq!(get(st, "min-width"), "100%");
    assert_eq!(get(st, "min-height"), "100%");
    if let Some(img) = i.image.as_mut() {
        img.is_nine_slice = true;
        img.aspect_ratio = None;
        img.cover_background = false;
    }
    let r = base_render(&i);
    let st = &r.styles;
    assert!(!st.contains_key("border"));
    assert_eq!(get(st, "background"), "none");
    assert_eq!(get(st, "border-image-slice"), "1 2 3 4 fill");
    assert_eq!(get(st, "border-image-width"), "5px 6px 7px 8px");
    assert_eq!(get(st, "border-image-source"), "url(cat.png)");
    assert_eq!(get(st, "min-width"), "auto");
}

#[test]
fn vertical_list_aligns_by_anchor_and_leaves_display_alone() {
    let v = Some(ListLayout { anchor: Anchor::UpperLeft, spacing: s("8"), wrapped: true, stretch_children: false });
    let m = list_style(&v, &None);
    assert_eq!(get(&m, "flex-direction"), "column");
    assert_eq!(get(&m, "justify-content"), "safe start");
    assert_eq!(get(&m, "align-content"), "start");
    assert_eq!(get(&m, "align-items"), "start");
    assert_eq!(get(&m, "gap"), "8px");
    assert_eq!(get(&m, "flex-wrap"), "wrap");
    assert!(!m.contains_key("display"));
    assert_eq!(m.len(), 6);
    let v = Some(ListLayout { anchor: Anchor::UpperRight, spacing: s("0"), wrapped: false, stretch_children: true });
    let m = list_style(&v, &None);
    assert_eq!(get(&m, "justify-content"), "center");
    assert!(!m.contains_key("align-content"));
    assert_eq!(get(&m, "align-items"), "stretch");
}

#[test]
fn horizontal_list_overrides_vertical_settings() {
    let v = Some(ListLayout { anchor: Anchor::UpperLeft, spacing: s("8"), wrapped: true, stretch_children: false });
    let h = Some(ListLayout { anchor: Anchor::LowerLeft, spacing: s("2.5"), wrapped: false, stretch_children: false });
    let m = list_style(&v, &h);
    assert_eq!(get(&m, "flex-direction"), "row");
    assert_eq!(get(&m, "justify-content"), "start");
    assert_eq!(get(&m, "align-content"), "end");
    assert_eq!(get(&m, "align-items"), "end");
    assert_eq!(get(&m, "gap"), "2.5px");
    assert_eq!(get(&m, "flex-wrap"), "wrap");
    assert_eq!(list_style(&None, &None).len(), 0);
}

#[test]
fn style_attribute_merge_keeps_existing_and_lets_new_declarations_win() {
    let mut target = StringMap::new();
    target.insert_str("width", "20px");
    let attr = insert_style(Some("color: red; width: 10px; "), target);
    let back = merge_declarations(&attr, StringMap::new());
    assert_eq!(back.len(), 2);
    assert_eq!(back.get("width").unwrap(), "20px");
    assert_eq!(back.get("color").unwrap(), "red");
    assert!(attr == "width: 20px; color: red; " || attr == "color: red; width: 20px; ");
}

#[test]
fn style_attribute_reading_trims_and_keeps_first_duplicate() {
    assert!(style_is_readable_text("  color :  red ; x: y; color: blue"));
    let m = merge_declarations("  color :  red ; x: y; color: blue", StringMap::new());
    assert_eq!(m.get("color").unwrap(), "red");
    assert_eq!(m.get("x").unwrap(), "y");
    assert_eq!(m.len(), 2);
}

#[test]
fn style_attribute_values_stop_at_a_second_colon() {
    let m = merge_declarations("background-image: url('data:x'); ", StringMap::new());
    assert_eq!(m.get("background-image").unwrap(), "url('data");
}

#[test]
fn unreadable_style_attribute_is_detected() {
    assert!(!style_is_readable_text("color red; "));
    assert!(style_is_readable_text(""));
    assert!(style_is_readable_text("  ;   "));
}

#[test]
fn written_declarations_read_back() {
    let mut m = StringMap::new();
    m.insert_str("display", "flex");
    m.insert_str("gap", "4px");
    let text = style_text(&m);
    assert_eq!(text, "display: flex; gap: 4px; ");
    let back = merge_declarations(&text, StringMap::new());
    assert_eq!(back.len(), 2);
    assert_eq!(back.get("display").unwrap(), "flex");
    assert_eq!(back.get("gap").unwrap(), "4px");
    assert_eq!(insert_style(None, StringMap::new()), "");
}

#[test]
fn decimal_numerals() {
    assert_eq!(decimal_text(0), "0");
    assert_eq!(decimal_text(7), "7");
    assert_eq!(decimal_text(1234567890), "1234567890");
    assert_eq!(decimal_text(u64::MAX), u64::MAX.to_string());
}

fn same_declarations(a: &StringMap, b: &StringMap) -> bool {
    a.len() == b.len() && a.entries().iter().all(|(k, v)| b.get(k).as_ref() == Some(v))
}

#[test]
fn base_and_list_refreshes_commute() {
    let mut i = input();
    i.linear_list = true;
    i.has_parent = true;
    let v = Some(ListLayout { anchor: Anchor::MiddleCenter, spacing: s("4"), wrapped: false, stretch_children: true });
    let start = "color: red; flex-direction: row; display: grid; ";
    let base_first = insert_style(Some(start), base_render(&i).styles);
    let base_first = insert_style(Some(&base_first), list_style(&v, &None));
    let list_first = insert_style(Some(start), list_style(&v, &None));
    let list_first = insert_style(Some(&list_first), base_render(&i).styles);
    let a = merge_declarations(&base_first, StringMap::new());
    let b = merge_declarations(&list_first, StringMap::new());
    assert!(same_declarations(&a, &b));
    assert_eq!(get(&a, "display"), "flex");
    assert_eq!(get(&a, "flex-direction"), "column");
    assert_eq!(get(&a, "align-items"), "stretch");
    assert_eq!(get(&a, "color"), "red");
}

#[test]
fn base_only_refresh_keeps_list_layout_in_the_attribute() {
    let mut i = input();
    i.linear_list = true;
    let h = Some(ListLayout { anchor: Anchor::UpperRight, spacing: s("12"), wrapped: true, stretch_children: false });
    let attr = insert_style(None, list_style(&None, &h));
    let attr = insert_style(Some(&attr), base_render(&i).styles);
    i.control.is_visible = false;
    let attr = insert_style(Some(&attr), base_render(&i).styles);
    let m = merge_declarations(&attr, StringMap::new());
    assert_eq!(get(&m, "display"), "none");
    assert_eq!(get(&m, "flex-direction"), "row");
    assert_eq!(get(&m, "justify-content"), "end");
    assert_eq!(get(&m, "gap"), "12px");
    assert_eq!(get(&m, "flex-wrap"), "wrap");
}

#[test]
fn inserting_the_same_styles_twice_is_inserting_them_once() {
    let make = || {
        let mut m = StringMap::new();
        m.insert_str("width", "20px");
        m.insert_str("display", "flex");
        m
    };
    let once = insert_style(Some("color: red; width: 10px; "), make());
    let twice = insert_style(Some(&once), make());
    let a = merge_declarations(&once, StringMap::new());
    let b = merge_declarations(&twice, StringMap::new());
    assert!(same_declarations(&a, &b));
    assert!(a.same_entries(&b));
    assert_eq!(a.len(), 3);
}

#[test]
fn inserting_twice_over_an_untidy_style_is_inserting_once() {
    let make = || {
        let mut m = StringMap::new();
        m.insert_str("width", "20px");
        m.insert_str("", "empty");
        m
    };
    let start = "  a : b ;x:y; c;d: e:f;  ; width:1px";
    assert!(style_is_readable_text(start));
    let once = insert_style(Some(start), make());
    assert!(style_is_readable_text(&once));
    let twice = insert_style(Some(&once), make());
    let a = merge_declarations(&once, StringMap::new());
    let b = merge_declarations(&twice, StringMap::new());
    assert!(a.same_entries(&b));
    assert_eq!(a.len(), 4);
    assert_eq!(a.get("a"), Some(s("b ;x")));
    assert_eq!(a.get("c;d"), Some(s("e")));
    assert_eq!(a.get("width"), Some(s("20px")));
    assert_eq!(a.get(""), Some(s("empty")));
}

#[test]
fn the_first_unreadable_piece_is_named() {
    assert_eq!(first_unreadable_piece("color: red; width: 1px; "), None);
    assert_eq!(first_unreadable_piece("  ; color: red"), None);
    assert_eq!(first_unreadable_piece("color: red; bogus; also bad; x: y"), Some(s("bogus")));
    assert!(!style_is_readable_text("color: red; bogus"));
}
