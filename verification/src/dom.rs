//! How entities are found in the document and small facts about the page.
use vstd::prelude::*;
use crate::text::{chars_of, decimal, decimal_text};

verus! {

/// The `silk-id` attribute that ties an element to the entity with these bits.
pub open spec fn silk_id_of(bits: nat) -> Seq<char> {
    decimal(bits)
}

/// The selector of the element of the entity with these bits.
pub open spec fn silk_selector_of(bits: nat) -> Seq<char> {
    "[silk-id=\""@ + decimal(bits) + "\"]"@
}

/// The `silk-id` of the entity with these bits.
pub fn silk_id(bits: u64) -> (s: String)
    ensures
        s@ == silk_id_of(bits as nat),
{
    decimal_text(bits)
}

/// The selector that finds the element whose `silk-id` is `id`.
pub fn silk_selector(id: &str) -> (s: String)
    ensures
        s@ == "[silk-id=\""@ + id@ + "\"]"@,
{
    String::from_str("[silk-id=\"").concat(id).concat("\"]")
}

/// The selector of the element of the entity with these bits.
pub fn entity_selector(bits: u64) -> (s: String)
    ensures
        s@ == silk_selector_of(bits as nat),
{
    let id = silk_id(bits);
    silk_selector(id.as_str())
}

/// The tag of a new element: the requested one, or a division.
pub fn element_tag(element_type: Option<String>) -> (s: String)
    ensures
        s@ == match element_type {
            Some(t) => t@,
            None => "div"@,
        },
{
    match element_type {
        Some(t) => t,
        None => String::from_str("div"),
    }
}

/// The source of a font face loaded from `font_path`.
pub fn font_face_source(font_path: &str) -> (s: String)
    ensures
        s@ == "url("@ + font_path@ + ")"@,
{
    String::from_str("url(").concat(font_path).concat(")")
}

/// `p` is a prefix of `s`.
pub open spec fn has_prefix(s: Seq<char>, p: Seq<char>) -> bool {
    p.len() <= s.len() && s.subrange(0, p.len() as int) == p
}

/// The page runs as a browser extension when its URL is a `chrome-extension://` URL.
pub fn is_extension_url(url: &str) -> (b: bool)
    ensures
        b == has_prefix(url@, "chrome-extension://"@),
{
    let s = chars_of(url);
    let p = chars_of("chrome-extension://");
    if p.len() > s.len() {
        return false;
    }
    let mut i: usize = 0;
    while i < p.len()
        invariant
            s@ == url@,
            p@ == "chrome-extension://"@,
            p@.len() <= s@.len(),
            i <= p@.len(),
            forall|j: int| 0 <= j < i ==> s@[j] == p@[j],
        decreases p@.len() - i,
    {
        if s[i] != p[i] {
            assert(s@.subrange(0, p@.len() as int)[i as int] != p@[i as int]);
            return false;
        }
        i = i + 1;
    }
    assert(s@.subrange(0, p@.len() as int) =~= p@);
    true
}

} // verus!
