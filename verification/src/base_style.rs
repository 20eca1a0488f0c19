//! The base rendering of a control: which element stands for it, which
//! attributes it carries, and which CSS declarations describe it. Numbers that
//! come from the scene (sizes, positions, colours) arrive already written as CSS
//! text.
use vstd::prelude::*;
use crate::layout::{apply_display, display_for, with_display};
use crate::list_style::{is_list_key, lemma_display_is_not_a_list_key, Anchor};
use crate::string_map::StringMap;
use crate::text::{decimal, decimal_text};

verus! {

/// Four edge values, in the order of a `Vec4`: x is left, y top, z right, w bottom.
pub struct Edges {
    pub x: String,
    pub y: String,
    pub z: String,
    pub w: String,
}

/// The kinds of input fields.
#[derive(Clone, Copy, Debug, PartialEq, Eq, Structural)]
pub enum InputType {
    Default,
    Password,
    PhoneNumber,
}

/// What the renderer reads of an input field.
pub struct InputFieldStyle {
    pub font_size: String,
    pub placeholder: String,
    pub input_type: InputType,
}

/// What the renderer reads of an image.
pub struct ImageStyle {
    pub brightness: String,
    pub multiply: bool,
    pub is_nine_slice: bool,
    pub border_image_slice: Edges,
    pub border_image_width: Edges,
    pub image: String,
    pub has_data: bool,
    pub aspect_ratio: Option<String>,
    pub cover_background: bool,
}

/// What the renderer reads of a label. `depth` is the number of extrusion
/// layers of a 3D label (a fifth of its font size, rounded toward zero).
pub struct LabelStyle {
    pub text: String,
    pub font: String,
    pub font_size: String,
    pub color: String,
    pub is_shadow: bool,
    pub alignment: Anchor,
    pub is_single_line: bool,
    pub is_italic: bool,
    pub is_bold: bool,
    pub font_weight: String,
    pub is_3d: bool,
    pub depth: i32,
    pub line_height: Option<String>,
}

/// Offsets of a control placed against its parent by its pivot, in percent:
/// the translation that moves the pivot onto the position, and the position.
pub struct PivotOffsets {
    pub translate_x: String,
    pub translate_y: String,
    pub left: String,
    pub top: String,
}

/// What the renderer reads of a control.
pub struct ControlStyle {
    pub is_visible: bool,
    pub is_overflow: bool,
    pub expand_width: bool,
    pub expand_height: bool,
    pub fit_width: bool,
    pub fit_height: bool,
    pub fixed_width: Option<String>,
    pub fixed_height: Option<String>,
    pub scale: String,
    pub border_radius: Edges,
    pub border_radius_is_zero: bool,
    pub border_width: String,
    pub padding: Edges,
    pub use_background: bool,
    pub stretch: bool,
    pub pivot: PivotOffsets,
    pub local_x: String,
    pub local_y: String,
}

/// Everything the base renderer reads of one entity.
pub struct BaseInput {
    pub control: ControlStyle,
    pub has_parent: bool,
    pub parent_is_container: bool,
    pub linear_list: bool,
    pub vscroll: bool,
    pub button: bool,
    pub shadow: bool,
    pub background_color: Option<String>,
    pub input_field: Option<InputFieldStyle>,
    pub image: Option<ImageStyle>,
    pub label: Option<LabelStyle>,
}

/// The element that stands for an entity and what it carries.
pub struct BaseRender {
    pub element_type: String,
    pub attributes: StringMap,
    pub styles: StringMap,
    pub inner_html: Option<String>,
    pub phone_number: bool,
}

type Decls = Map<Seq<char>, Seq<char>>;

/// `top right bottom left`, each in pixels.
pub open spec fn css_box(e: Edges) -> Seq<char> {
    e.y@ + "px "@ + e.z@ + "px "@ + e.w@ + "px "@ + e.x@ + "px"@
}

/// The tag of the element: labels are paragraphs, images divisions, then
/// buttons, then inputs; anything else is a division.
pub open spec fn element_type_of(i: BaseInput) -> Seq<char> {
    if i.label.is_some() {
        "p"@
    } else if i.image.is_some() {
        "div"@
    } else if i.button {
        "button"@
    } else if i.input_field.is_some() {
        "input"@
    } else {
        "div"@
    }
}

/// The attributes of the element: an input field turns off autocompletion,
/// shows its placeholder, and masks a password.
pub open spec fn attributes_of(i: BaseInput) -> Decls {
    match i.input_field {
        Some(f) => {
            let m = Map::empty().insert("autocomplete"@, "off"@).insert("placeholder"@, f.placeholder@);
            if f.input_type == InputType::Password { m.insert("type"@, "password"@) } else { m }
        },
        None => Map::empty(),
    }
}

/// Whether the element takes pointer events.
pub open spec fn uses_pointer(i: BaseInput) -> bool {
    i.vscroll || i.input_field.is_some() || i.button || i.label.is_some()
}

/// Background, overflow and scrolling.
pub open spec fn frame_rules(m: Decls, i: BaseInput) -> Decls {
    let m1 = m.insert("background"@, "none"@).insert(
        "overflow"@,
        if i.control.is_overflow { "unset"@ } else { "auto"@ },
    );
    if i.vscroll { m1.insert("overflow-y"@, "auto"@) } else { m1 }
}

/// Inputs, buttons and background colours.
pub open spec fn kind_rules(m: Decls, i: BaseInput) -> Decls {
    let m1 = match i.input_field {
        Some(f) => m.insert("background"@, "none"@).insert("font-size"@, f.font_size@ + "px"@),
        None => m,
    };
    let m2 = if i.button {
        m1.insert("background"@, "none"@).insert("cursor"@, "pointer"@)
    } else {
        m1
    };
    match i.background_color {
        Some(c) => m2.insert("background"@, c@),
        None => m2,
    }
}

/// Expansion to the parent's size, scale, corners and border.
pub open spec fn shape_rules(m: Decls, i: BaseInput) -> Decls {
    let c = i.control;
    let m1 = if c.expand_width {
        m.insert("width"@, "100%"@).insert("left"@, "0"@).insert("right"@, "0"@)
    } else {
        m.insert("width"@, "auto"@)
    };
    let m2 = if c.expand_height {
        m1.insert("height"@, "100%"@).insert("top"@, "0"@).insert("bottom"@, "0"@)
    } else {
        m1.insert("height"@, "auto"@)
    };
    let m3 = m2.insert("scale"@, c.scale@).insert("border-radius"@, css_box(c.border_radius));
    let m4 = if !c.border_radius_is_zero { m3.insert("overflow"@, "revert"@) } else { m3 };
    m4.insert("border"@, c.border_width@ + "px solid #000"@).insert("outline"@, "none"@)
}

/// The source that an image without nine-slicing shows.
pub open spec fn image_source(img: ImageStyle) -> Seq<char> {
    if img.has_data {
        "data:image/jpeg;base64,@Convert.ToBase64String(electedOfficial.Picture)"@
    } else {
        img.image@
    }
}

/// Images: brightness, blending, nine-slice borders or a background image, and sizing.
pub open spec fn image_rules(m: Decls, i: BaseInput) -> Decls {
    match i.image {
        None => m,
        Some(img) => {
            let m1 = m.insert("filter"@, "brightness("@ + img.brightness@ + ")"@);
            let m2 = if img.multiply { m1.insert("mix-blend-mode"@, "multiply"@) } else { m1 };
            let m3 = if img.is_nine_slice {
                let s = img.border_image_slice;
                let w = img.border_image_width;
                m2.insert("border-image-slice"@, s.x@ + " "@ + s.y@ + " "@ + s.z@ + " "@ + s.w@ + " fill"@)
                    .insert("border-image-width"@, w.x@ + "px "@ + w.y@ + "px "@ + w.z@ + "px "@ + w.w@ + "px"@)
                    .insert("border-image-outset"@, "0px 0px 0px 0px"@)
                    .insert("border-image-source"@, "url("@ + img.image@ + ")"@)
                    .insert("border-image-repeat"@, "stretch stretch"@)
                    .insert("border-style"@, "solid"@)
                    .remove("border"@)
            } else {
                m2.remove("background"@)
                    .insert("background-image"@, "url('"@ + image_source(img) + "')"@)
                    .insert("background-repeat"@, "no-repeat"@)
                    .insert("background-size"@, "contain"@)
                    .insert("background-position"@, "center"@)
            };
            let m4 = match img.aspect_ratio {
                Some(a) => m3.insert("min-width"@, "100%"@).insert("min-height"@, "100%"@).insert("aspect-ratio"@, a@),
                None => m3,
            };
            if img.cover_background {
                m4.insert("min-width"@, "100%"@).insert("min-height"@, "100%"@).insert("background-size"@, "cover"@)
            } else {
                m4
            }
        },
    }
}

/// Placement: in flow inside a container; otherwise absolute, by pivot against a
/// parent or by local position at the top level.
pub open spec fn position_rules(m: Decls, i: BaseInput) -> Decls {
    if i.parent_is_container {
        m.insert("position"@, "relative"@)
    } else if i.has_parent {
        let p = i.control.pivot;
        m.insert("position"@, "absolute"@)
            .insert("transform"@, "translate("@ + p.translate_x@ + "%, "@ + p.translate_y@ + "%)"@)
            .insert("left"@, p.left@ + "%"@)
            .insert("top"@, p.top@ + "%"@)
    } else {
        m.insert("position"@, "absolute"@)
            .insert("left"@, "calc(0% + "@ + i.control.local_x@ + "px)"@)
            .insert("top"@, "calc(0% + "@ + i.control.local_y@ + "px)"@)
    }
}

/// Minimum sizes, box model and fixed or fitted sizes.
pub open spec fn size_rules(m: Decls, i: BaseInput) -> Decls {
    let c = i.control;
    let m1 = if !m.contains_key("min-height"@) { m.insert("min-height"@, "auto"@) } else { m };
    let m2 = if !m1.contains_key("min-width"@) { m1.insert("min-width"@, "auto"@) } else { m1 };
    let m3 = m2.insert("box-sizing"@, "border-box"@).insert("word-break"@, "break-word"@);
    let m4 = if c.fit_width {
        m3.insert("width"@, "fit-content"@)
    } else {
        match c.fixed_width {
            Some(w) => m3.insert("width"@, w@ + "px"@).insert("min-width"@, w@ + "px"@),
            None => m3,
        }
    };
    let m5 = if c.fit_height {
        m4.insert("height"@, "fit-content"@)
    } else {
        match c.fixed_height {
            Some(h) => m4.insert("height"@, h@ + "px"@).insert("min-height"@, h@ + "px"@),
            None => m4,
        }
    };
    m5.insert("padding"@, css_box(c.padding))
}

/// `text-align` of a label's anchor.
pub open spec fn text_align(a: Anchor) -> Seq<char> {
    match a {
        Anchor::UpperLeft | Anchor::MiddleLeft | Anchor::LowerLeft => "left"@,
        Anchor::UpperCenter | Anchor::MiddleCenter | Anchor::LowerCenter => "center"@,
        _ => "right"@,
    }
}

/// The extrusion layers of a 3D label, one shadow per pixel of depth.
pub open spec fn depth_layers(depth: int) -> Seq<char>
    decreases depth,
{
    if depth <= 0 {
        Seq::empty()
    } else {
        depth_layers(depth - 1) + "0px "@ + decimal(depth as nat) + "px 0px #aeaeae, "@
    }
}

/// The text shadow of a 3D label.
pub open spec fn shadow_3d(depth: int) -> Seq<char> {
    "1px 1px 10px #aeaeae, "@ + depth_layers(depth)
        + " 1px 18px 6px rgba(16,16,16,0.4), 1px 22px 10px rgba(16,16,16,0.2), 1px 25px 35px rgba(16,16,16,0.2), 1px 30px 60px rgba(16,16,16,0.75)"@
}

/// Typography of labels.
pub open spec fn label_rules(m: Decls, i: BaseInput) -> Decls {
    match i.label {
        None => m,
        Some(l) => {
            let m1 = m.insert("font-family"@, l.font@).insert("font-size"@, l.font_size@ + "px"@).insert(
                "color"@,
                l.color@,
            );
            let m2 = if l.is_shadow { m1.insert("text-shadow"@, "2px 2px 15px rgba(0,0,0,.4)"@) } else { m1 };
            let m3 = m2.insert("text-align"@, text_align(l.alignment)).insert(
                "margin"@,
                if l.font@ == "Mogra"@ { "0px 0px -0px 0px"@ } else { "0"@ },
            );
            let m4 = if l.is_single_line && !i.control.expand_width {
                m3.insert("box-sizing"@, "content-box"@).insert("word-break"@, "normal"@).insert(
                    "width"@,
                    "max-content"@,
                ).insert("flex-shrink"@, "0"@)
            } else {
                m3
            };
            let m5 = if l.is_italic { m4.insert("font-style"@, "italic"@) } else { m4 };
            let m6 = m5.insert("font-weight"@, if l.is_bold { "bold"@ } else { l.font_weight@ });
            let m7 = if l.is_3d {
                m6.insert("text-shadow"@, shadow_3d(l.depth as int)).insert(
                    "transform"@,
                    "perspective(1000px) rotateX(25deg)"@,
                )
            } else {
                m6
            };
            match l.line_height {
                Some(h) => m7.insert("line-height"@, h@ + "px"@),
                None => m7,
            }
        },
    }
}

/// Drop shadows, pointer events, the white background, stretching and white space.
pub open spec fn finish_rules(m: Decls, i: BaseInput) -> Decls {
    let m1 = if i.shadow {
        m.insert("border-color"@, "rgba(223,225,229,0)"@).insert("-webkit-appearance"@, "none"@).insert(
            "-webkit-box-shadow"@,
            "0 1px 6px rgb(32 33 36 / 28%) !important"@,
        ).insert("box-shadow"@, "0 1px 6px rgb(32 33 36 / 28%) !important"@)
    } else {
        m
    };
    let m2 = m1.insert("pointer-events"@, if uses_pointer(i) { "all"@ } else { "none"@ });
    let m3 = if i.control.use_background { m2.insert("background"@, "white"@) } else { m2 };
    let m4 = if i.control.stretch { m3.insert("align-self"@, "stretch"@) } else { m3 };
    m4.insert("white-space"@, "pre-wrap"@)
}

/// All base declarations of an entity; the display mode is decided last, from
/// visibility, list-ness and label-ness alone.
pub open spec fn base_styles(i: BaseInput) -> Decls {
    let m = finish_rules(
        label_rules(
            size_rules(position_rules(image_rules(shape_rules(kind_rules(frame_rules(Map::empty(), i), i), i), i), i), i),
            i,
        ),
        i,
    );
    with_display(m, i.control.is_visible, i.linear_list, i.label.is_some())
}

/// The display mode of a base rendering depends only on visibility, list-ness and
/// label-ness, whatever else the entity carries.
pub proof fn law_base_display_is_decided_by_visibility_list_and_label(i: BaseInput)
    ensures
        base_styles(i).contains_key("display"@),
        base_styles(i)["display"@] == display_for(i.control.is_visible, i.linear_list, i.label.is_some()),
{
}

/// Placement: a control inside a container stays in flow; any other is placed
/// absolutely, by its pivot against its parent or by its own position.
pub proof fn law_base_position(i: BaseInput)
    ensures
        base_styles(i).contains_key("position"@),
        base_styles(i)["position"@] == if i.parent_is_container {
            "relative"@
        } else {
            "absolute"@
        },
{
    reveal_strlit("position");
    reveal_strlit("pointer-events");
    lemma_later_keys_differ("position"@);
    let k = "position"@;
    let v = if i.parent_is_container { "relative"@ } else { "absolute"@ };
    let m0 = image_rules(shape_rules(kind_rules(frame_rules(Map::empty(), i), i), i), i);
    let m1 = position_rules(m0, i);
    assert(m1.contains_key(k) && m1[k] == v);
    let m2 = size_rules(m1, i);
    assert(m2.contains_key(k) && m2[k] == v);
    let m3 = label_rules(m2, i);
    assert(m3.contains_key(k) && m3[k] == v);
    assert(k.len() == 8 && "pointer-events"@.len() == 14);
    let m4 = finish_rules(m3, i);
    assert(m4.contains_key(k) && m4[k] == v);
}

/// An italic label, and only an italic label, is set in italics.
pub proof fn law_label_italic(i: BaseInput)
    ensures
        base_styles(i).contains_key("font-style"@) <==> (i.label matches Some(l) && l.is_italic),
        base_styles(i).contains_key("font-style"@) ==> base_styles(i)["font-style"@] == "italic"@,
{
    lemma_font_style_is_its_own_key();
    let k = "font-style"@;
    let m0 = size_rules(position_rules(image_rules(shape_rules(kind_rules(frame_rules(Map::empty(), i), i), i), i), i), i);
    assert(!frame_rules(Map::empty(), i).contains_key(k));
    assert(!kind_rules(frame_rules(Map::empty(), i), i).contains_key(k));
    assert(!shape_rules(kind_rules(frame_rules(Map::empty(), i), i), i).contains_key(k));
    assert(!image_rules(shape_rules(kind_rules(frame_rules(Map::empty(), i), i), i), i).contains_key(k));
    assert(!position_rules(image_rules(shape_rules(kind_rules(frame_rules(Map::empty(), i), i), i), i), i).contains_key(k));
    assert(!m0.contains_key(k));
    let m1 = label_rules(m0, i);
    assert(m1.contains_key(k) <==> (i.label matches Some(l) && l.is_italic));
    assert(m1.contains_key(k) ==> m1[k] == "italic"@);
    let m2 = finish_rules(m1, i);
    assert(m2.contains_key(k) <==> m1.contains_key(k));
    assert(m2.contains_key(k) ==> m2[k] == m1[k]);
}

/// `font-style` is none of the other properties the base renderer writes.
proof fn lemma_font_style_is_its_own_key()
    ensures
        "font-style"@ != "-webkit-appearance"@,
        "font-style"@ != "-webkit-box-shadow"@,
        "font-style"@ != "align-self"@,
        "font-style"@ != "aspect-ratio"@,
        "font-style"@ != "background"@,
        "font-style"@ != "background-image"@,
        "font-style"@ != "background-position"@,
        "font-style"@ != "background-repeat"@,
        "font-style"@ != "background-size"@,
        "font-style"@ != "border"@,
        "font-style"@ != "border-color"@,
        "font-style"@ != "border-image-outset"@,
        "font-style"@ != "border-image-repeat"@,
        "font-style"@ != "border-image-slice"@,
        "font-style"@ != "border-image-source"@,
        "font-style"@ != "border-image-width"@,
        "font-style"@ != "border-radius"@,
        "font-style"@ != "border-style"@,
        "font-style"@ != "bottom"@,
        "font-style"@ != "box-shadow"@,
        "font-style"@ != "box-sizing"@,
        "font-style"@ != "color"@,
        "font-style"@ != "cursor"@,
        "font-style"@ != "filter"@,
        "font-style"@ != "flex-shrink"@,
        "font-style"@ != "font-family"@,
        "font-style"@ != "font-size"@,
        "font-style"@ != "font-weight"@,
        "font-style"@ != "height"@,
        "font-style"@ != "left"@,
        "font-style"@ != "line-height"@,
        "font-style"@ != "margin"@,
        "font-style"@ != "min-height"@,
        "font-style"@ != "min-width"@,
        "font-style"@ != "mix-blend-mode"@,
        "font-style"@ != "outline"@,
        "font-style"@ != "overflow"@,
        "font-style"@ != "overflow-y"@,
        "font-style"@ != "padding"@,
        "font-style"@ != "pointer-events"@,
        "font-style"@ != "position"@,
        "font-style"@ != "right"@,
        "font-style"@ != "scale"@,
        "font-style"@ != "text-align"@,
        "font-style"@ != "text-shadow"@,
        "font-style"@ != "top"@,
        "font-style"@ != "transform"@,
        "font-style"@ != "white-space"@,
        "font-style"@ != "width"@,
        "font-style"@ != "word-break"@,
        "font-style"@ != "display"@,
{
    reveal_strlit("font-style");
    reveal_strlit("-webkit-appearance");
    reveal_strlit("-webkit-box-shadow");
    reveal_strlit("align-self");
    reveal_strlit("aspect-ratio");
    reveal_strlit("background");
    reveal_strlit("background-image");
    reveal_strlit("background-position");
    reveal_strlit("background-repeat");
    reveal_strlit("background-size");
    reveal_strlit("border");
    reveal_strlit("border-color");
    reveal_strlit("border-image-outset");
    reveal_strlit("border-image-repeat");
    reveal_strlit("border-image-slice");
    reveal_strlit("border-image-source");
    reveal_strlit("border-image-width");
    reveal_strlit("border-radius");
    reveal_strlit("border-style");
    reveal_strlit("bottom");
    reveal_strlit("box-shadow");
    reveal_strlit("box-sizing");
    reveal_strlit("color");
    reveal_strlit("cursor");
    reveal_strlit("filter");
    reveal_strlit("flex-shrink");
    reveal_strlit("font-family");
    reveal_strlit("font-size");
    reveal_strlit("font-weight");
    reveal_strlit("height");
    reveal_strlit("left");
    reveal_strlit("line-height");
    reveal_strlit("margin");
    reveal_strlit("min-height");
    reveal_strlit("min-width");
    reveal_strlit("mix-blend-mode");
    reveal_strlit("outline");
    reveal_strlit("overflow");
    reveal_strlit("overflow-y");
    reveal_strlit("padding");
    reveal_strlit("pointer-events");
    reveal_strlit("position");
    reveal_strlit("right");
    reveal_strlit("scale");
    reveal_strlit("text-align");
    reveal_strlit("text-shadow");
    reveal_strlit("top");
    reveal_strlit("transform");
    reveal_strlit("white-space");
    reveal_strlit("width");
    reveal_strlit("word-break");
    reveal_strlit("display");
    assert("font-style"@.len() == 10);
    assert("font-style"@[0] == 'f');
    assert("-webkit-appearance"@.len() == 18);
    assert("-webkit-box-shadow"@.len() == 18);
    assert("aspect-ratio"@.len() == 12);
    assert("background-image"@.len() == 16);
    assert("background-position"@.len() == 19);
    assert("background-repeat"@.len() == 17);
    assert("background-size"@.len() == 15);
    assert("border"@.len() == 6);
    assert("border-color"@.len() == 12);
    assert("border-image-outset"@.len() == 19);
    assert("border-image-repeat"@.len() == 19);
    assert("border-image-slice"@.len() == 18);
    assert("border-image-source"@.len() == 19);
    assert("border-image-width"@.len() == 18);
    assert("border-radius"@.len() == 13);
    assert("border-style"@.len() == 12);
    assert("bottom"@.len() == 6);
    assert("color"@.len() == 5);
    assert("cursor"@.len() == 6);
    assert("filter"@.len() == 6);
    assert("flex-shrink"@.len() == 11);
    assert("font-family"@.len() == 11);
    assert("font-size"@.len() == 9);
    assert("font-weight"@.len() == 11);
    assert("height"@.len() == 6);
    assert("left"@.len() == 4);
    assert("line-height"@.len() == 11);
    assert("margin"@.len() == 6);
    assert("min-width"@.len() == 9);
    assert("mix-blend-mode"@.len() == 14);
    assert("outline"@.len() == 7);
    assert("overflow"@.len() == 8);
    assert("padding"@.len() == 7);
    assert("pointer-events"@.len() == 14);
    assert("position"@.len() == 8);
    assert("right"@.len() == 5);
    assert("scale"@.len() == 5);
    assert("text-shadow"@.len() == 11);
    assert("top"@.len() == 3);
    assert("transform"@.len() == 9);
    assert("white-space"@.len() == 11);
    assert("width"@.len() == 5);
    assert("display"@.len() == 7);
    assert("align-self"@[0] == 'a');
    assert("background"@[0] == 'b');
    assert("box-shadow"@[0] == 'b');
    assert("box-sizing"@[0] == 'b');
    assert("min-height"@[0] == 'm');
    assert("overflow-y"@[0] == 'o');
    assert("text-align"@[0] == 't');
    assert("word-break"@[0] == 'w');
}

/// Pointer events reach scroll views, inputs, buttons and labels, and no other
/// control.
pub proof fn law_base_pointer_events(i: BaseInput)
    ensures
        base_styles(i).contains_key("pointer-events"@),
        base_styles(i)["pointer-events"@] == if uses_pointer(i) {
            "all"@
        } else {
            "none"@
        },
{
    reveal_strlit("pointer-events");
    lemma_later_keys_differ("pointer-events"@);
}

/// A property whose name is eight or fourteen characters long is none of those
/// that placement writes after `position`, nor any that the size, label and
/// finishing rules or the display mode write.
proof fn lemma_later_keys_differ(key: Seq<char>)
    requires
        key.len() == 8 || key.len() == 14,
    ensures
        key != "min-height"@,
        key != "min-width"@,
        key != "box-sizing"@,
        key != "word-break"@,
        key != "width"@,
        key != "height"@,
        key != "padding"@,
        key != "font-family"@,
        key != "font-size"@,
        key != "color"@,
        key != "text-shadow"@,
        key != "text-align"@,
        key != "margin"@,
        key != "flex-shrink"@,
        key != "font-style"@,
        key != "font-weight"@,
        key != "transform"@,
        key != "line-height"@,
        key != "border-color"@,
        key != "-webkit-appearance"@,
        key != "-webkit-box-shadow"@,
        key != "box-shadow"@,
        key != "background"@,
        key != "align-self"@,
        key != "white-space"@,
        key != "display"@,
        key != "left"@,
        key != "top"@,
{
    reveal_strlit("min-height");
    reveal_strlit("min-width");
    reveal_strlit("box-sizing");
    reveal_strlit("word-break");
    reveal_strlit("width");
    reveal_strlit("height");
    reveal_strlit("padding");
    reveal_strlit("font-family");
    reveal_strlit("font-size");
    reveal_strlit("color");
    reveal_strlit("text-shadow");
    reveal_strlit("text-align");
    reveal_strlit("margin");
    reveal_strlit("flex-shrink");
    reveal_strlit("font-style");
    reveal_strlit("font-weight");
    reveal_strlit("transform");
    reveal_strlit("line-height");
    reveal_strlit("border-color");
    reveal_strlit("-webkit-appearance");
    reveal_strlit("-webkit-box-shadow");
    reveal_strlit("box-shadow");
    reveal_strlit("background");
    reveal_strlit("align-self");
    reveal_strlit("white-space");
    reveal_strlit("display");
    reveal_strlit("left");
    reveal_strlit("top");
}

/// The base renderer never writes a list property (direction, alignment, gap or
/// wrapping): those belong to list rendering.
#[verifier::spinoff_prover]
pub proof fn law_base_never_writes_list_properties(i: BaseInput, key: Seq<char>)
    requires
        is_list_key(key),
    ensures
        !base_styles(i).contains_key(key),
{
    lemma_base_keys_are_not_list_keys();
    lemma_display_is_not_a_list_key();
}

/// None of the properties the base renderer writes is a list property.
pub proof fn lemma_base_keys_are_not_list_keys()
    ensures
        !is_list_key("-webkit-appearance"@),
        !is_list_key("-webkit-box-shadow"@),
        !is_list_key("align-self"@),
        !is_list_key("aspect-ratio"@),
        !is_list_key("background"@),
        !is_list_key("background-image"@),
        !is_list_key("background-position"@),
        !is_list_key("background-repeat"@),
        !is_list_key("background-size"@),
        !is_list_key("border"@),
        !is_list_key("border-color"@),
        !is_list_key("border-image-outset"@),
        !is_list_key("border-image-repeat"@),
        !is_list_key("border-image-slice"@),
        !is_list_key("border-image-source"@),
        !is_list_key("border-image-width"@),
        !is_list_key("border-radius"@),
        !is_list_key("border-style"@),
        !is_list_key("bottom"@),
        !is_list_key("box-shadow"@),
        !is_list_key("box-sizing"@),
        !is_list_key("color"@),
        !is_list_key("cursor"@),
        !is_list_key("filter"@),
        !is_list_key("flex-shrink"@),
        !is_list_key("font-family"@),
        !is_list_key("font-size"@),
        !is_list_key("font-style"@),
        !is_list_key("font-weight"@),
        !is_list_key("height"@),
        !is_list_key("left"@),
        !is_list_key("line-height"@),
        !is_list_key("margin"@),
        !is_list_key("min-height"@),
        !is_list_key("min-width"@),
        !is_list_key("mix-blend-mode"@),
        !is_list_key("outline"@),
        !is_list_key("overflow"@),
        !is_list_key("overflow-y"@),
        !is_list_key("padding"@),
        !is_list_key("pointer-events"@),
        !is_list_key("position"@),
        !is_list_key("right"@),
        !is_list_key("scale"@),
        !is_list_key("text-align"@),
        !is_list_key("text-shadow"@),
        !is_list_key("top"@),
        !is_list_key("transform"@),
        !is_list_key("white-space"@),
        !is_list_key("width"@),
        !is_list_key("word-break"@),
{
    reveal_strlit("-webkit-appearance");
    reveal_strlit("-webkit-box-shadow");
    reveal_strlit("align-self");
    reveal_strlit("aspect-ratio");
    reveal_strlit("background");
    reveal_strlit("background-image");
    reveal_strlit("background-position");
    reveal_strlit("background-repeat");
    reveal_strlit("background-size");
    reveal_strlit("border");
    reveal_strlit("border-color");
    reveal_strlit("border-image-outset");
    reveal_strlit("border-image-repeat");
    reveal_strlit("border-image-slice");
    reveal_strlit("border-image-source");
    reveal_strlit("border-image-width");
    reveal_strlit("border-radius");
    reveal_strlit("border-style");
    reveal_strlit("bottom");
    reveal_strlit("box-shadow");
    reveal_strlit("box-sizing");
    reveal_strlit("color");
    reveal_strlit("cursor");
    reveal_strlit("filter");
    reveal_strlit("flex-shrink");
    reveal_strlit("font-family");
    reveal_strlit("font-size");
    reveal_strlit("font-style");
    reveal_strlit("font-weight");
    reveal_strlit("height");
    reveal_strlit("left");
    reveal_strlit("line-height");
    reveal_strlit("margin");
    reveal_strlit("min-height");
    reveal_strlit("min-width");
    reveal_strlit("mix-blend-mode");
    reveal_strlit("outline");
    reveal_strlit("overflow");
    reveal_strlit("overflow-y");
    reveal_strlit("padding");
    reveal_strlit("pointer-events");
    reveal_strlit("position");
    reveal_strlit("right");
    reveal_strlit("scale");
    reveal_strlit("text-align");
    reveal_strlit("text-shadow");
    reveal_strlit("top");
    reveal_strlit("transform");
    reveal_strlit("white-space");
    reveal_strlit("width");
    reveal_strlit("word-break");
    reveal_strlit("flex-direction");
    reveal_strlit("justify-content");
    reveal_strlit("align-content");
    reveal_strlit("align-items");
    reveal_strlit("gap");
    reveal_strlit("flex-wrap");
    assert("-webkit-appearance"@.len() == 18);
    assert("-webkit-box-shadow"@.len() == 18);
    assert("align-self"@.len() == 10);
    assert("aspect-ratio"@.len() == 12);
    assert("background"@.len() == 10);
    assert("background-image"@.len() == 16);
    assert("background-position"@.len() == 19);
    assert("background-repeat"@.len() == 17);
    assert("background-size"@.len() == 15);
    assert("border"@.len() == 6);
    assert("border-color"@.len() == 12);
    assert("border-image-outset"@.len() == 19);
    assert("border-image-repeat"@.len() == 19);
    assert("border-image-slice"@.len() == 18);
    assert("border-image-source"@.len() == 19);
    assert("border-image-width"@.len() == 18);
    assert("border-radius"@.len() == 13);
    assert("border-style"@.len() == 12);
    assert("bottom"@.len() == 6);
    assert("box-shadow"@.len() == 10);
    assert("box-sizing"@.len() == 10);
    assert("color"@.len() == 5);
    assert("cursor"@.len() == 6);
    assert("filter"@.len() == 6);
    assert("flex-shrink"@.len() == 11);
    assert("font-family"@.len() == 11);
    assert("font-size"@.len() == 9);
    assert("font-style"@.len() == 10);
    assert("font-weight"@.len() == 11);
    assert("height"@.len() == 6);
    assert("left"@.len() == 4);
    assert("line-height"@.len() == 11);
    assert("margin"@.len() == 6);
    assert("min-height"@.len() == 10);
    assert("min-width"@.len() == 9);
    assert("mix-blend-mode"@.len() == 14);
    assert("outline"@.len() == 7);
    assert("overflow"@.len() == 8);
    assert("overflow-y"@.len() == 10);
    assert("padding"@.len() == 7);
    assert("pointer-events"@.len() == 14);
    assert("position"@.len() == 8);
    assert("right"@.len() == 5);
    assert("scale"@.len() == 5);
    assert("text-align"@.len() == 10);
    assert("text-shadow"@.len() == 11);
    assert("top"@.len() == 3);
    assert("transform"@.len() == 9);
    assert("white-space"@.len() == 11);
    assert("width"@.len() == 5);
    assert("word-break"@.len() == 10);
    assert("flex-direction"@.len() == 14);
    assert("justify-content"@.len() == 15);
    assert("align-content"@.len() == 13);
    assert("align-items"@.len() == 11);
    assert("gap"@.len() == 3);
    assert("flex-wrap"@.len() == 9);
    assert("background-size"@[0] == 'b' && "justify-content"@[0] == 'j');
    assert("border-radius"@[0] == 'b' && "align-content"@[0] == 'a');
    assert("flex-shrink"@[0] == 'f' && "align-items"@[0] == 'a');
    assert("font-family"@[0] == 'f' && "align-items"@[0] == 'a');
    assert("font-size"@[1] == 'o' && "flex-wrap"@[1] == 'l');
    assert("font-weight"@[0] == 'f' && "align-items"@[0] == 'a');
    assert("line-height"@[0] == 'l' && "align-items"@[0] == 'a');
    assert("min-width"@[0] == 'm' && "flex-wrap"@[0] == 'f');
    assert("mix-blend-mode"@[0] == 'm' && "flex-direction"@[0] == 'f');
    assert("pointer-events"@[0] == 'p' && "flex-direction"@[0] == 'f');
    assert("text-shadow"@[0] == 't' && "align-items"@[0] == 'a');
    assert("top"@[0] == 't' && "gap"@[0] == 'g');
    assert("transform"@[0] == 't' && "flex-wrap"@[0] == 'f');
    assert("white-space"@[0] == 'w' && "align-items"@[0] == 'a');
}

fn css_box_text(e: &Edges) -> (s: String)
    ensures
        s@ == css_box(*e),
{
    e.y.clone().concat("px ").concat(e.z.as_str()).concat("px ").concat(e.w.as_str()).concat("px ").concat(
        e.x.as_str(),
    ).concat("px")
}

fn element_type_text(i: &BaseInput) -> (s: String)
    ensures
        s@ == element_type_of(*i),
{
    let t = if i.label.is_some() {
        "p"
    } else if i.image.is_some() {
        "div"
    } else if i.button {
        "button"
    } else if i.input_field.is_some() {
        "input"
    } else {
        "div"
    };
    String::from_str(t)
}

fn attributes(i: &BaseInput) -> (m: StringMap)
    ensures
        m@ == attributes_of(*i),
{
    let mut m = StringMap::new();
    if let Some(f) = &i.input_field {
        m.insert_str("autocomplete", "off");
        m.insert(String::from_str("placeholder"), f.placeholder.clone());
        if f.input_type == InputType::Password {
            m.insert_str("type", "password");
        }
    }
    m
}

fn add_frame(m: &mut StringMap, i: &BaseInput)
    ensures
        final(m)@ == frame_rules(old(m)@, *i),
{
    m.insert_str("background", "none");
    m.insert_str("overflow", if i.control.is_overflow { "unset" } else { "auto" });
    if i.vscroll {
        m.insert_str("overflow-y", "auto");
    }
}

fn add_kind(m: &mut StringMap, i: &BaseInput)
    ensures
        final(m)@ == kind_rules(old(m)@, *i),
{
    if let Some(f) = &i.input_field {
        m.insert_str("background", "none");
        m.insert(String::from_str("font-size"), f.font_size.clone().concat("px"));
    }
    if i.button {
        m.insert_str("background", "none");
        m.insert_str("cursor", "pointer");
    }
    if let Some(c) = &i.background_color {
        m.insert(String::from_str("background"), c.clone());
    }
}

fn add_shape(m: &mut StringMap, i: &BaseInput)
    ensures
        final(m)@ == shape_rules(old(m)@, *i),
{
    let c = &i.control;
    if c.expand_width {
        m.insert_str("width", "100%");
        m.insert_str("left", "0");
        m.insert_str("right", "0");
    } else {
        m.insert_str("width", "auto");
    }
    if c.expand_height {
        m.insert_str("height", "100%");
        m.insert_str("top", "0");
        m.insert_str("bottom", "0");
    } else {
        m.insert_str("height", "auto");
    }
    m.insert(String::from_str("scale"), c.scale.clone());
    m.insert(String::from_str("border-radius"), css_box_text(&c.border_radius));
    if !c.border_radius_is_zero {
        m.insert_str("overflow", "revert");
    }
    m.insert(String::from_str("border"), c.border_width.clone().concat("px solid #000"));
    m.insert_str("outline", "none");
}

fn add_image(m: &mut StringMap, i: &BaseInput)
    ensures
        final(m)@ == image_rules(old(m)@, *i),
{
    if let Some(img) = &i.image {
        m.insert(String::from_str("filter"), String::from_str("brightness(").concat(img.brightness.as_str()).concat(")"));
        if img.multiply {
            m.insert_str("mix-blend-mode", "multiply");
        }
        if img.is_nine_slice {
            let s = &img.border_image_slice;
            let w = &img.border_image_width;
            m.insert(
                String::from_str("border-image-slice"),
                s.x.clone().concat(" ").concat(s.y.as_str()).concat(" ").concat(s.z.as_str()).concat(" ").concat(
                    s.w.as_str(),
                ).concat(" fill"),
            );
            m.insert(
                String::from_str("border-image-width"),
                w.x.clone().concat("px ").concat(w.y.as_str()).concat("px ").concat(w.z.as_str()).concat("px ").concat(
                    w.w.as_str(),
                ).concat("px"),
            );
            m.insert_str("border-image-outset", "0px 0px 0px 0px");
            m.insert(String::from_str("border-image-source"), String::from_str("url(").concat(img.image.as_str()).concat(")"));
            m.insert_str("border-image-repeat", "stretch stretch");
            m.insert_str("border-style", "solid");
            m.remove("border");
        } else {
            m.remove("background");
            let source = if img.has_data {
                String::from_str("data:image/jpeg;base64,@Convert.ToBase64String(electedOfficial.Picture)")
            } else {
                img.image.clone()
            };
            m.insert(String::from_str("background-image"), String::from_str("url('").concat(source.as_str()).concat("')"));
            m.insert_str("background-repeat", "no-repeat");
            m.insert_str("background-size", "contain");
            m.insert_str("background-position", "center");
        }
        if let Some(a) = &img.aspect_ratio {
            m.insert_str("min-width", "100%");
            m.insert_str("min-height", "100%");
            m.insert(String::from_str("aspect-ratio"), a.clone());
        }
        if img.cover_background {
            m.insert_str("min-width", "100%");
            m.insert_str("min-height", "100%");
            m.insert_str("background-size", "cover");
        }
    }
}

fn add_position(m: &mut StringMap, i: &BaseInput)
    ensures
        final(m)@ == position_rules(old(m)@, *i),
{
    if i.parent_is_container {
        m.insert_str("position", "relative");
    } else if i.has_parent {
        let p = &i.control.pivot;
        m.insert_str("position", "absolute");
        m.insert(
            String::from_str("transform"),
            String::from_str("translate(").concat(p.translate_x.as_str()).concat("%, ").concat(p.translate_y.as_str()).concat(
                "%)",
            ),
        );
        m.insert(String::from_str("left"), p.left.clone().concat("%"));
        m.insert(String::from_str("top"), p.top.clone().concat("%"));
    } else {
        m.insert_str("position", "absolute");
        m.insert(String::from_str("left"), String::from_str("calc(0% + ").concat(i.control.local_x.as_str()).concat("px)"));
        m.insert(String::from_str("top"), String::from_str("calc(0% + ").concat(i.control.local_y.as_str()).concat("px)"));
    }
}

fn add_size(m: &mut StringMap, i: &BaseInput)
    ensures
        final(m)@ == size_rules(old(m)@, *i),
{
    let c = &i.control;
    if !m.contains_key("min-height") {
        m.insert_str("min-height", "auto");
    }
    if !m.contains_key("min-width") {
        m.insert_str("min-width", "auto");
    }
    m.insert_str("box-sizing", "border-box");
    m.insert_str("word-break", "break-word");
    if c.fit_width {
        m.insert_str("width", "fit-content");
    } else if let Some(w) = &c.fixed_width {
        m.insert(String::from_str("width"), w.clone().concat("px"));
        m.insert(String::from_str("min-width"), w.clone().concat("px"));
    }
    if c.fit_height {
        m.insert_str("height", "fit-content");
    } else if let Some(h) = &c.fixed_height {
        m.insert(String::from_str("height"), h.clone().concat("px"));
        m.insert(String::from_str("min-height"), h.clone().concat("px"));
    }
    m.insert(String::from_str("padding"), css_box_text(&c.padding));
}

fn text_align_text(a: Anchor) -> (s: &'static str)
    ensures
        s@ == text_align(a),
{
    match a {
        Anchor::UpperLeft | Anchor::MiddleLeft | Anchor::LowerLeft => "left",
        Anchor::UpperCenter | Anchor::MiddleCenter | Anchor::LowerCenter => "center",
        _ => "right",
    }
}

fn depth_layers_text(depth: i32) -> (s: String)
    ensures
        s@ == depth_layers(depth as int),
{
    let mut s = String::new();
    let mut k: i32 = 0;
    while k < depth
        invariant
            0 <= k,
            depth >= 0 ==> k <= depth,
            depth < 0 ==> k == 0,
            s@ == depth_layers(k as int),
        decreases depth - k,
    {
        k = k + 1;
        s.append("0px ");
        let n = decimal_text(k as u64);
        s.append(n.as_str());
        s.append("px 0px #aeaeae, ");
    }
    proof {
        if depth <= 0 {
            assert(depth_layers(depth as int) =~= Seq::<char>::empty());
            assert(depth_layers(0) =~= Seq::<char>::empty());
        }
    }
    s
}

fn add_label(m: &mut StringMap, i: &BaseInput)
    ensures
        final(m)@ == label_rules(old(m)@, *i),
{
    if let Some(l) = &i.label {
        m.insert(String::from_str("font-family"), l.font.clone());
        m.insert(String::from_str("font-size"), l.font_size.clone().concat("px"));
        m.insert(String::from_str("color"), l.color.clone());
        if l.is_shadow {
            m.insert_str("text-shadow", "2px 2px 15px rgba(0,0,0,.4)");
        }
        m.insert_str("text-align", text_align_text(l.alignment));
        if l.font == String::from_str("Mogra") {
            m.insert_str("margin", "0px 0px -0px 0px");
        } else {
            m.insert_str("margin", "0");
        }
        if l.is_single_line && !i.control.expand_width {
            m.insert_str("box-sizing", "content-box");
            m.insert_str("word-break", "normal");
            m.insert_str("width", "max-content");
            m.insert_str("flex-shrink", "0");
        }
        if l.is_italic {
            m.insert_str("font-style", "italic");
        }
        if l.is_bold {
            m.insert_str("font-weight", "bold");
        } else {
            m.insert(String::from_str("font-weight"), l.font_weight.clone());
        }
        if l.is_3d {
            let layers = depth_layers_text(l.depth);
            let shadow = String::from_str("1px 1px 10px #aeaeae, ").concat(layers.as_str()).concat(
                " 1px 18px 6px rgba(16,16,16,0.4), 1px 22px 10px rgba(16,16,16,0.2), 1px 25px 35px rgba(16,16,16,0.2), 1px 30px 60px rgba(16,16,16,0.75)",
            );
            m.insert(String::from_str("text-shadow"), shadow);
            m.insert_str("transform", "perspective(1000px) rotateX(25deg)");
        }
        if let Some(h) = &l.line_height {
            m.insert(String::from_str("line-height"), h.clone().concat("px"));
        }
    }
}

fn add_finish(m: &mut StringMap, i: &BaseInput)
    ensures
        final(m)@ == finish_rules(old(m)@, *i),
{
    if i.shadow {
        m.insert_str("border-color", "rgba(223,225,229,0)");
        m.insert_str("-webkit-appearance", "none");
        m.insert_str("-webkit-box-shadow", "0 1px 6px rgb(32 33 36 / 28%) !important");
        m.insert_str("box-shadow", "0 1px 6px rgb(32 33 36 / 28%) !important");
    }
    let pointer = i.vscroll || i.input_field.is_some() || i.button || i.label.is_some();
    m.insert_str("pointer-events", if pointer { "all" } else { "none" });
    if i.control.use_background {
        m.insert_str("background", "white");
    }
    if i.control.stretch {
        m.insert_str("align-self", "stretch");
    }
    m.insert_str("white-space", "pre-wrap");
}

/// The base rendering of an entity: its element, attributes and declarations,
/// the text of a label, and whether the element is a phone number field.
pub fn base_render(i: &BaseInput) -> (r: BaseRender)
    ensures
        r.element_type@ == element_type_of(*i),
        r.attributes@ == attributes_of(*i),
        r.styles@ == base_styles(*i),
        r.inner_html == (match i.label {
            Some(l) => Some(l.text),
            None => None::<String>,
        }),
        r.phone_number == (match i.input_field {
            Some(f) => f.input_type == InputType::PhoneNumber,
            None => false,
        }),
{
    let mut m = StringMap::new();
    add_frame(&mut m, i);
    add_kind(&mut m, i);
    add_shape(&mut m, i);
    add_image(&mut m, i);
    add_position(&mut m, i);
    add_size(&mut m, i);
    add_label(&mut m, i);
    add_finish(&mut m, i);
    apply_display(&mut m, i.control.is_visible, i.linear_list, i.label.is_some());
    let inner_html = match &i.label {
        Some(l) => Some(l.text.clone()),
        None => None,
    };
    let phone_number = match &i.input_field {
        Some(f) => f.input_type == InputType::PhoneNumber,
        None => false,
    };
    BaseRender {
        element_type: element_type_text(i),
        attributes: attributes(i),
        styles: m,
        inner_html,
        phone_number,
    }
}

} // verus!
