//! The `style` attribute of an element: reading the declarations it already
//! holds, merging a new set of declarations over them, and writing it back.
use vstd::prelude::*;
use crate::string_map::{distinct_keys, map_of, pair_view, StringMap};
use crate::text::{
    chars_of, find_from, free_of, is_white, lemma_free_subrange, lemma_split_from_pieces, lemma_split_prefix,
    lemma_split_prefix_free, lemma_split_single, lemma_trim_idempotent, lemma_trim_keeps_solid, lemma_trim_range,
    matches_at, split, split_ranges, trim, trim_range, trim_start,
};

verus! {

/// What separates declarations in a style attribute.
pub open spec fn declaration_separator() -> Seq<char> {
    seq![';', ' ']
}

/// What separates a property from its value.
pub open spec fn value_separator() -> Seq<char> {
    seq![':']
}

/// The property and value of a declaration: the trimmed text before the first
/// colon and the trimmed text between it and the next colon.
pub open spec fn declaration_of(seg: Seq<char>) -> (Seq<char>, Seq<char>) {
    let parts = split(seg, value_separator());
    (trim(parts[0]), trim(parts[1]))
}

/// A piece holding nothing but white space.
pub open spec fn is_blank(seg: Seq<char>) -> bool {
    trim(seg).len() == 0
}

/// `m` with the declarations of the pieces added in order, each only where its
/// property has no value yet.
pub open spec fn merge_segments(segs: Seq<Seq<char>>, m: Map<Seq<char>, Seq<char>>) -> Map<Seq<char>, Seq<char>>
    decreases segs.len(),
{
    if segs.len() == 0 {
        m
    } else {
        let before = merge_segments(segs.drop_last(), m);
        let seg = segs.last();
        if is_blank(seg) {
            before
        } else {
            let d = declaration_of(seg);
            if before.contains_key(d.0) { before } else { before.insert(d.0, d.1) }
        }
    }
}

/// The declarations after merging `target` over an existing style attribute:
/// `target` wins, and among the existing declarations the first of a property wins.
pub open spec fn merged_declarations(existing: Seq<char>, target: Map<Seq<char>, Seq<char>>) -> Map<Seq<char>, Seq<char>> {
    merge_segments(split(existing, declaration_separator()), target)
}

/// Every piece of a style attribute that is not blank holds a colon.
pub open spec fn style_is_readable(existing: Seq<char>) -> bool {
    let segs = split(existing, declaration_separator());
    forall|i: int| 0 <= i < segs.len() && !is_blank(#[trigger] segs[i]) ==> split(segs[i], value_separator()).len() > 1
}

/// A style attribute holding the given declarations in order, each written
/// `property: value; `.
pub open spec fn serialized(ps: Seq<(Seq<char>, Seq<char>)>) -> Seq<char>
    decreases ps.len(),
{
    if ps.len() == 0 {
        Seq::empty()
    } else {
        serialized(ps.drop_last()) + ps.last().0 + ": "@ + ps.last().1 + "; "@
    }
}

/// One declaration as the attribute writes it, without its terminator.
pub open spec fn declaration_text(p: (Seq<char>, Seq<char>)) -> Seq<char> {
    p.0 + ": "@ + p.1
}

/// Text free of the characters that delimit declarations.
pub open spec fn free_of_delimiters(t: Seq<char>) -> bool {
    forall|i: int| 0 <= i < t.len() ==> t[i] != ';' && t[i] != ':'
}

/// Text holding no colon.
pub open spec fn holds_no_colon(t: Seq<char>) -> bool {
    forall|i: int| 0 <= i < t.len() ==> t[i] != ':'
}

/// A declaration that reads back from its written form: its property is
/// trimmed, neither part holds a colon, and neither holds the declaration
/// separator.
pub open spec fn readable_entry(p: (Seq<char>, Seq<char>)) -> bool {
    &&& trim(p.0) == p.0
    &&& holds_no_colon(p.0)
    &&& holds_no_colon(p.1)
    &&& free_of(p.0, declaration_separator())
    &&& free_of(p.1, declaration_separator())
}

/// Declarations to insert whose properties are trimmed and whose properties
/// and values hold neither `;` nor `:`.
pub open spec fn delimiter_free(target: Map<Seq<char>, Seq<char>>) -> bool {
    forall|k: Seq<char>|
        #[trigger] target.contains_key(k) ==> trim(k) == k && free_of_delimiters(k) && free_of_delimiters(target[k])
}

/// The written declarations, one text per pair.
pub open spec fn declaration_texts(ps: Seq<(Seq<char>, Seq<char>)>) -> Seq<Seq<char>> {
    ps.map_values(|p: (Seq<char>, Seq<char>)| declaration_text(p))
}

/// The pairs with their values trimmed.
pub open spec fn trimmed_values(ps: Seq<(Seq<char>, Seq<char>)>) -> Seq<(Seq<char>, Seq<char>)> {
    ps.map_values(|p: (Seq<char>, Seq<char>)| (p.0, trim(p.1)))
}

proof fn lemma_separators()
    ensures
        "; "@ == declaration_separator(),
        ": "@ == seq![':', ' '],
{
    reveal_strlit("; ");
    reveal_strlit(": ");
    assert("; "@ =~= declaration_separator());
    assert(": "@ =~= seq![':', ' ']);
}

proof fn lemma_separator_chars(s: Seq<char>, t: int)
    ensures
        matches_at(s, declaration_separator(), t) <==> (0 <= t && t + 1 < s.len() && s[t] == ';' && s[t + 1] == ' '),
{
    if 0 <= t && t + 1 < s.len() {
        let w = s.subrange(t, t + 2);
        assert(w[0] == s[t] && w[1] == s[t + 1]);
        if s[t] == ';' && s[t + 1] == ' ' {
            assert(w =~= declaration_separator());
        }
    }
}

proof fn lemma_colon_chars(s: Seq<char>, t: int)
    ensures
        matches_at(s, value_separator(), t) <==> (0 <= t < s.len() && s[t] == ':'),
{
    if 0 <= t < s.len() {
        let w = s.subrange(t, t + 1);
        assert(w[0] == s[t]);
        if s[t] == ':' {
            assert(w =~= value_separator());
        }
    }
}

proof fn lemma_serialized_front(ps: Seq<(Seq<char>, Seq<char>)>)
    requires
        ps.len() >= 1,
    ensures
        serialized(ps) == declaration_text(ps[0]) + "; "@ + serialized(ps.drop_first()),
    decreases ps.len(),
{
    if ps.len() == 1 {
        assert(ps.drop_last() =~= Seq::<(Seq<char>, Seq<char>)>::empty());
        assert(ps.drop_first() =~= Seq::<(Seq<char>, Seq<char>)>::empty());
        assert(serialized(ps) =~= declaration_text(ps[0]) + "; "@ + serialized(ps.drop_first()));
    } else {
        lemma_serialized_front(ps.drop_last());
        assert(ps.drop_last().drop_first() =~= ps.drop_first().drop_last());
        assert(ps.drop_first().last() == ps.last());
        let x = serialized(ps.drop_last().drop_first());
        let l = ps.last();
        assert(serialized(ps.drop_first()) == x + l.0 + ": "@ + l.1 + "; "@);
        assert(serialized(ps) =~= declaration_text(ps[0]) + "; "@ + serialized(ps.drop_first()));
    }
}

/// Declarations free of delimiters, with a trimmed property, read back.
proof fn lemma_delimiter_free_entry(p: (Seq<char>, Seq<char>))
    requires
        trim(p.0) == p.0,
        free_of_delimiters(p.0),
        free_of_delimiters(p.1),
    ensures
        readable_entry(p),
{
    assert forall|t: int| !#[trigger] matches_at(p.0, declaration_separator(), t) by {
        lemma_separator_chars(p.0, t);
    }
    assert forall|t: int| !#[trigger] matches_at(p.1, declaration_separator(), t) by {
        lemma_separator_chars(p.1, t);
    }
}

/// A written declaration is not blank, holds a colon, reads back as its
/// property and its trimmed value, and is cut off whole before the separator.
proof fn lemma_entry_reads_back(p: (Seq<char>, Seq<char>), rest: Seq<char>)
    requires
        readable_entry(p),
    ensures
        !is_blank(declaration_text(p)),
        split(declaration_text(p), value_separator()).len() > 1,
        declaration_of(declaration_text(p)) == (p.0, trim(p.1)),
        split(declaration_text(p) + "; "@ + rest, declaration_separator()) == seq![declaration_text(p)] + split(
            rest,
            declaration_separator(),
        ),
{
    lemma_separators();
    let k = p.0;
    let v = p.1;
    let sv = seq![' '] + v;
    let d = declaration_text(p);
    assert(d =~= k + value_separator() + sv);
    assert forall|t: int| 0 <= t < sv.len() implies sv[t] != value_separator()[0] by {
        if t > 0 {
            assert(sv[t] == v[t - 1]);
        }
    }
    assert forall|t: int| 0 <= t < k.len() implies k[t] != value_separator()[0] by {}
    lemma_split_single(sv, value_separator());
    lemma_split_prefix(k, value_separator(), sv);
    assert(split(d, value_separator()) =~= seq![k, sv]);
    assert(sv.drop_first() =~= v);
    assert(is_white(' '));
    assert(trim_start(sv) == trim_start(v));
    assert(d[k.len() as int] == ':');
    lemma_trim_keeps_solid(d, k.len() as int);
    let sep = declaration_separator();
    let s = d + sep + rest;
    assert forall|t: int| 0 <= t < d.len() implies !#[trigger] matches_at(s, sep, t) by {
        lemma_separator_chars(s, t);
        if matches_at(s, sep, t) {
            assert(s[t] == d[t]);
            if t + 1 < k.len() {
                assert(k[t] == d[t] && k[t + 1] == s[t + 1]);
                lemma_separator_chars(k, t);
            } else if t >= k.len() + 2 && t + 1 < d.len() {
                let u = t - k.len() - 2;
                assert(v[u] == d[t] && v[u + 1] == s[t + 1]);
                lemma_separator_chars(v, u);
            }
        }
    }
    lemma_split_prefix_free(d, sep, rest);
}

proof fn lemma_split_serialized(ps: Seq<(Seq<char>, Seq<char>)>)
    requires
        forall|i: int| 0 <= i < ps.len() ==> readable_entry(#[trigger] ps[i]),
    ensures
        split(serialized(ps), declaration_separator()) == declaration_texts(ps).push(Seq::<char>::empty()),
    decreases ps.len(),
{
    lemma_separators();
    let segs = declaration_texts(ps);
    if ps.len() == 0 {
        assert(serialized(ps) =~= Seq::<char>::empty());
        assert(find_from(serialized(ps), declaration_separator(), 0) == None::<int>);
        assert(serialized(ps).subrange(0, 0) =~= Seq::<char>::empty());
        assert(split(serialized(ps), declaration_separator()) =~= seq![Seq::<char>::empty()]);
        assert(segs.push(Seq::<char>::empty()) =~= seq![Seq::<char>::empty()]);
    } else {
        let rest = ps.drop_first();
        assert forall|i: int| 0 <= i < rest.len() implies readable_entry(#[trigger] rest[i]) by {
            assert(rest[i] == ps[i + 1]);
        }
        lemma_split_serialized(rest);
        lemma_serialized_front(ps);
        assert(readable_entry(ps[0]));
        lemma_entry_reads_back(ps[0], serialized(rest));
        assert(segs.push(Seq::<char>::empty()) =~= seq![declaration_text(ps[0])] + declaration_texts(rest).push(
            Seq::<char>::empty(),
        ));
    }
}

proof fn lemma_merge_serialized(ps: Seq<(Seq<char>, Seq<char>)>, target: Map<Seq<char>, Seq<char>>)
    requires
        distinct_keys(ps),
        forall|i: int| 0 <= i < ps.len() ==> readable_entry(#[trigger] ps[i]),
    ensures
        merge_segments(declaration_texts(ps), target) == map_of(trimmed_values(ps)).union_prefer_right(target),
    decreases ps.len(),
{
    let segs = declaration_texts(ps);
    if ps.len() == 0 {
        assert(trimmed_values(ps) =~= Seq::<(Seq<char>, Seq<char>)>::empty());
        assert(map_of(trimmed_values(ps)).union_prefer_right(target) =~= target);
    } else {
        let init = ps.drop_last();
        assert forall|i: int| 0 <= i < init.len() implies readable_entry(#[trigger] init[i]) by {
            assert(init[i] == ps[i]);
        }
        assert(distinct_keys(init)) by {
            assert forall|a: int, b: int| 0 <= a < init.len() && 0 <= b < init.len() && a != b implies init[a].0
                != init[b].0 by {
                assert(init[a] == ps[a] && init[b] == ps[b]);
            }
        }
        lemma_merge_serialized(init, target);
        assert(segs.drop_last() =~= declaration_texts(init));
        let l = ps.last();
        assert(readable_entry(ps[ps.len() - 1]));
        lemma_entry_reads_back(l, Seq::<char>::empty());
        assert(segs.last() == declaration_text(l));
        let tv = trimmed_values(ps);
        assert(tv.drop_last() =~= trimmed_values(init));
        assert(tv.last() == (l.0, trim(l.1)));
        crate::string_map::lemma_map_of_dom(trimmed_values(init), l.0);
        if map_of(trimmed_values(init)).contains_key(l.0) {
            let j: int = choose|j: int| 0 <= j < init.len() && trimmed_values(init)[j].0 == l.0;
            assert(ps[j].0 == ps[ps.len() - 1].0);
        }
        assert(merge_segments(segs, target) =~= map_of(tv).union_prefer_right(target));
    }
}

/// Where each property of the merged declarations came from: a property to
/// insert keeps its value, and any other was read from a piece that is not blank.
proof fn lemma_merge_origin(segs: Seq<Seq<char>>, m: Map<Seq<char>, Seq<char>>)
    ensures
        forall|k: Seq<char>|
            #[trigger] m.contains_key(k) ==> merge_segments(segs, m).contains_key(k) && merge_segments(segs, m)[k]
                == m[k],
        forall|k: Seq<char>|
            #[trigger] merge_segments(segs, m).contains_key(k) && !m.contains_key(k) ==> exists|i: int|
                0 <= i < segs.len() && !is_blank(#[trigger] segs[i]) && declaration_of(segs[i]) == (
                    k,
                    merge_segments(segs, m)[k],
                ),
    decreases segs.len(),
{
    if segs.len() > 0 {
        let init = segs.drop_last();
        lemma_merge_origin(init, m);
        let before = merge_segments(init, m);
        let after = merge_segments(segs, m);
        assert forall|k: Seq<char>| #[trigger] after.contains_key(k) && !m.contains_key(k) implies exists|i: int|
            0 <= i < segs.len() && !is_blank(#[trigger] segs[i]) && declaration_of(segs[i]) == (k, after[k]) by {
            if before.contains_key(k) {
                let i: int = choose|i: int|
                    0 <= i < init.len() && !is_blank(#[trigger] init[i]) && declaration_of(init[i]) == (k, before[k]);
                assert(segs[i] == init[i]);
            } else {
                assert(segs[segs.len() - 1] == segs.last());
            }
        }
    }
}

/// A declaration read from a piece of a style attribute reads back: its
/// property and value are trimmed and hold neither a colon nor the separator.
proof fn lemma_read_entry(existing: Seq<char>, i: int)
    requires
        0 <= i < split(existing, declaration_separator()).len(),
        split(split(existing, declaration_separator())[i], value_separator()).len() > 1,
    ensures
        readable_entry(declaration_of(split(existing, declaration_separator())[i])),
        trim(declaration_of(split(existing, declaration_separator())[i]).1) == declaration_of(
            split(existing, declaration_separator())[i],
        ).1,
{
    let sep = declaration_separator();
    let vs = value_separator();
    let pieces = split(existing, sep);
    lemma_split_from_pieces(existing, sep, 0);
    let seg = pieces[i];
    assert(free_of(seg, sep));
    let parts = split(seg, vs);
    lemma_split_from_pieces(seg, vs, 0);
    assert(free_of(parts[0], vs));
    assert(free_of(parts[1], vs));
    let (a0, b0) = choose|a: int, b: int| 0 <= a <= b <= seg.len() && parts[0] == seg.subrange(a, b);
    let (a1, b1) = choose|a: int, b: int| 0 <= a <= b <= seg.len() && parts[1] == seg.subrange(a, b);
    lemma_free_subrange(seg, sep, a0, b0);
    lemma_free_subrange(seg, sep, a1, b1);
    let r0 = lemma_trim_range(parts[0]);
    let r1 = lemma_trim_range(parts[1]);
    lemma_free_subrange(parts[0], sep, r0.0, r0.1);
    lemma_free_subrange(parts[1], sep, r1.0, r1.1);
    lemma_free_subrange(parts[0], vs, r0.0, r0.1);
    lemma_free_subrange(parts[1], vs, r1.0, r1.1);
    let k = trim(parts[0]);
    let v = trim(parts[1]);
    assert forall|t: int| 0 <= t < k.len() implies k[t] != ':' by {
        lemma_colon_chars(k, t);
    }
    assert forall|t: int| 0 <= t < v.len() implies v[t] != ':' by {
        lemma_colon_chars(v, t);
    }
    lemma_trim_idempotent(parts[0]);
    lemma_trim_idempotent(parts[1]);
}

/// A style attribute written from declarations with distinct, trimmed
/// properties, holding no colon and no declaration separator, reads back as
/// those declarations with their values trimmed: it is readable, and merging
/// new declarations over it gives the written ones overridden by the new ones.
pub proof fn law_style_attribute_reads_back(ps: Seq<(Seq<char>, Seq<char>)>, target: Map<Seq<char>, Seq<char>>)
    requires
        distinct_keys(ps),
        forall|i: int| 0 <= i < ps.len() ==> readable_entry(#[trigger] ps[i]),
    ensures
        style_is_readable(serialized(ps)),
        merged_declarations(serialized(ps), target) == map_of(trimmed_values(ps)).union_prefer_right(target),
{
    let segs = declaration_texts(ps);
    lemma_split_serialized(ps);
    lemma_merge_serialized(ps, target);
    let pieces = split(serialized(ps), declaration_separator());
    assert(pieces.drop_last() =~= segs);
    assert(trim_start(Seq::<char>::empty()) =~= Seq::<char>::empty());
    assert(is_blank(pieces.last()));
    assert forall|i: int| 0 <= i < pieces.len() && !is_blank(#[trigger] pieces[i]) implies split(
        pieces[i],
        value_separator(),
    ).len() > 1 by {
        if i < segs.len() {
            assert(pieces[i] == declaration_text(ps[i]));
            lemma_entry_reads_back(ps[i], Seq::<char>::empty());
        }
    }
    assert forall|i: int| 0 <= i < segs.len() implies !is_blank(#[trigger] segs[i]) by {
        lemma_entry_reads_back(ps[i], Seq::<char>::empty());
    }
    assert(merge_segments(pieces, target) == merge_segments(segs, target));
}

/// Inserting the same declarations twice leaves the same declarations as
/// inserting them once. `existing` is any readable style attribute, `target`
/// holds trimmed properties and no delimiters, and `second` is the attribute
/// the first insertion wrote, in whatever order: it is readable again, and
/// merging `target` over it gives what the first insertion gave.
pub proof fn law_insert_style_idempotent(
    existing: Seq<char>,
    second: Seq<(Seq<char>, Seq<char>)>,
    target: Map<Seq<char>, Seq<char>>,
)
    requires
        style_is_readable(existing),
        delimiter_free(target),
        distinct_keys(second),
        map_of(second) == merged_declarations(existing, target),
    ensures
        style_is_readable(serialized(second)),
        merged_declarations(serialized(second), target) == merged_declarations(existing, target),
{
    let m1 = merged_declarations(existing, target);
    let pieces = split(existing, declaration_separator());
    lemma_merge_origin(pieces, target);
    assert forall|i: int| 0 <= i < second.len() implies readable_entry(#[trigger] second[i]) && (
    target.contains_key(second[i].0) || trim(second[i].1) == second[i].1) by {
        crate::string_map::lemma_map_of_value(second, i);
        let x = second[i].0;
        if target.contains_key(x) {
            lemma_delimiter_free_entry((x, target[x]));
        } else {
            let j: int = choose|j: int|
                0 <= j < pieces.len() && !is_blank(#[trigger] pieces[j]) && declaration_of(pieces[j]) == (x, m1[x]);
            lemma_read_entry(existing, j);
        }
    }
    law_style_attribute_reads_back(second, target);
    let tv = trimmed_values(second);
    assert(distinct_keys(tv)) by {
        assert forall|a: int, b: int| 0 <= a < tv.len() && 0 <= b < tv.len() && a != b implies tv[a].0 != tv[b].0 by {
            assert(tv[a].0 == second[a].0 && tv[b].0 == second[b].0);
        }
    }
    let r = map_of(tv).union_prefer_right(target);
    assert forall|x: Seq<char>| #[trigger] r.contains_key(x) == m1.contains_key(x) by {
        crate::string_map::lemma_map_of_dom(tv, x);
        crate::string_map::lemma_map_of_dom(second, x);
        if map_of(tv).contains_key(x) {
            let j: int = choose|j: int| 0 <= j < tv.len() && tv[j].0 == x;
            assert(second[j].0 == x);
        }
        if map_of(second).contains_key(x) {
            let j: int = choose|j: int| 0 <= j < second.len() && second[j].0 == x;
            assert(tv[j].0 == x);
        }
    }
    assert forall|x: Seq<char>| #[trigger] r.contains_key(x) implies r[x] == m1[x] by {
        if !target.contains_key(x) {
            crate::string_map::lemma_map_of_dom(tv, x);
            let j: int = choose|j: int| 0 <= j < tv.len() && tv[j].0 == x;
            crate::string_map::lemma_map_of_value(tv, j);
            crate::string_map::lemma_map_of_value(second, j);
            assert(tv[j] == (second[j].0, trim(second[j].1)));
        }
    }
    assert(r =~= m1);
}

/// A piece of a style attribute that is not blank and holds no colon.
pub open spec fn unreadable_piece(seg: Seq<char>) -> bool {
    !is_blank(seg) && split(seg, value_separator()).len() <= 1
}

/// The first piece of a style attribute that is not blank and holds no
/// colon, if there is one.
pub fn first_unreadable_piece(existing: &str) -> (r: Option<String>)
    ensures
        r is None <==> style_is_readable(existing@),
        r matches Some(p) ==> exists|i: int|
            0 <= i < split(existing@, declaration_separator()).len() && p@ == #[trigger] split(
                existing@,
                declaration_separator(),
            )[i] && unreadable_piece(p@) && forall|j: int|
                0 <= j < i ==> !unreadable_piece(#[trigger] split(existing@, declaration_separator())[j]),
{
    let chars = chars_of(existing);
    let semi: Vec<char> = vec![';', ' '];
    let colon: Vec<char> = vec![':'];
    assert(semi@ =~= declaration_separator());
    assert(colon@ =~= value_separator());
    let segs = split_ranges(&chars, &semi);
    let ghost pieces = split(existing@, declaration_separator());
    assert(split(chars@, semi@) == pieces);
    let mut i: usize = 0;
    while i < segs.len()
        invariant
            chars@ == existing@,
            colon@ == value_separator(),
            pieces == split(existing@, declaration_separator()),
            segs@.len() == pieces.len(),
            forall|t: int| 0 <= t < segs@.len() ==> (#[trigger] segs@[t]).0 <= segs@[t].1 <= chars@.len(),
            forall|t: int| 0 <= t < segs@.len() ==> #[trigger] chars@.subrange(segs@[t].0 as int, segs@[t].1 as int) == pieces[t],
            i <= segs@.len(),
            forall|t: int| 0 <= t < i ==> !unreadable_piece(#[trigger] pieces[t]),
        decreases segs@.len() - i,
    {
        let (a, b): (usize, usize) = segs[i];
        assert(chars@.subrange(a as int, b as int) == pieces[i as int]);
        let (ta, tb): (usize, usize) = trim_range(&chars, a, b);
        if ta < tb {
            let seg_text = existing.substring_char(a, b);
            let seg_chars = chars_of(seg_text);
            let parts = split_ranges(&seg_chars, &colon);
            if parts.len() <= 1 {
                assert(unreadable_piece(pieces[i as int]));
                return Some(String::from_str(seg_text));
            }
        }
        i = i + 1;
    }
    assert(style_is_readable(existing@)) by {
        assert forall|t: int| 0 <= t < pieces.len() && !is_blank(#[trigger] pieces[t]) implies split(
            pieces[t],
            value_separator(),
        ).len() > 1 by {
            assert(!unreadable_piece(pieces[t]));
        }
    }
    None
}

/// Whether every piece of a style attribute that is not blank holds a colon.
pub fn style_is_readable_text(existing: &str) -> (b: bool)
    ensures
        b == style_is_readable(existing@),
{
    first_unreadable_piece(existing).is_none()
}

/// The declarations of `target` merged over those of an existing style
/// attribute: `target` wins, and among the existing declarations the first of
/// a property wins.
pub fn merge_declarations(existing: &str, target: StringMap) -> (m: StringMap)
    requires
        style_is_readable(existing@),
    ensures
        m@ == merged_declarations(existing@, target@),
{
    let chars = chars_of(existing);
    let semi: Vec<char> = vec![';', ' '];
    let colon: Vec<char> = vec![':'];
    assert(semi@ =~= declaration_separator());
    assert(colon@ =~= value_separator());
    let segs = split_ranges(&chars, &semi);
    let ghost pieces = split(existing@, declaration_separator());
    let ghost start = target@;
    let mut m = target;
    let mut i: usize = 0;
    assert(split(chars@, semi@) == pieces);
    assert(pieces.take(0) =~= Seq::<Seq<char>>::empty());
    while i < segs.len()
        invariant
            chars@ == existing@,
            colon@ == value_separator(),
            style_is_readable(existing@),
            pieces == split(existing@, declaration_separator()),
            segs@.len() == pieces.len(),
            forall|t: int| 0 <= t < segs@.len() ==> (#[trigger] segs@[t]).0 <= segs@[t].1 <= chars@.len(),
            forall|t: int| 0 <= t < segs@.len() ==> #[trigger] chars@.subrange(segs@[t].0 as int, segs@[t].1 as int) == pieces[t],
            i <= segs@.len(),
            m@ == merge_segments(pieces.take(i as int), start),
        decreases segs@.len() - i,
    {
        let (a, b): (usize, usize) = segs[i];
        let ghost seg = pieces[i as int];
        assert(chars@.subrange(a as int, b as int) == seg);
        assert(pieces.take(i + 1).drop_last() =~= pieces.take(i as int));
        assert(pieces.take(i + 1).last() == seg);
        let (ta, tb): (usize, usize) = trim_range(&chars, a, b);
        if ta < tb {
            let seg_text = existing.substring_char(a, b);
            let seg_chars = chars_of(seg_text);
            let parts = split_ranges(&seg_chars, &colon);
            assert(!is_blank(seg));
            assert(split(seg, value_separator()).len() > 1);
            assert(seg_chars@ == seg);
            assert(seg_chars@.subrange(parts@[0].0 as int, parts@[0].1 as int) == split(seg, value_separator())[0]);
            assert(seg_chars@.subrange(parts@[1].0 as int, parts@[1].1 as int) == split(seg, value_separator())[1]);
            let (ka, kb): (usize, usize) = trim_range(&seg_chars, parts[0].0, parts[0].1);
            let (va, vb): (usize, usize) = trim_range(&seg_chars, parts[1].0, parts[1].1);
            let key = String::from_str(seg_text.substring_char(ka, kb));
            assert(key@ == declaration_of(seg).0);
            if !m.contains_key(key.as_str()) {
                let value = String::from_str(seg_text.substring_char(va, vb));
                assert(value@ == declaration_of(seg).1);
                m.insert(key, value);
            }
        } else {
            assert(is_blank(seg));
        }
        i = i + 1;
    }
    assert(pieces.take(segs@.len() as int) =~= pieces);
    m
}

/// The style attribute that holds the entries of `m`, in order.
pub fn style_text(m: &StringMap) -> (s: String)
    ensures
        s@ == serialized(m.pairs()),
{
    let entries = m.entries();
    let ghost ps = m.pairs();
    let mut s = String::new();
    let mut i: usize = 0;
    assert(ps.take(0) =~= Seq::<(Seq<char>, Seq<char>)>::empty());
    while i < entries.len()
        invariant
            entries@.map_values(|e: (String, String)| pair_view(e)) == ps,
            i <= entries@.len(),
            s@ == serialized(ps.take(i as int)),
        decreases entries@.len() - i,
    {
        assert(ps.take(i + 1).drop_last() =~= ps.take(i as int));
        assert(ps[i as int] == pair_view(entries@[i as int]));
        s.append(entries[i].0.as_str());
        s.append(": ");
        s.append(entries[i].1.as_str());
        s.append("; ");
        i = i + 1;
    }
    assert(ps.take(entries@.len() as int) =~= ps);
    s
}

/// The new style attribute of an element: `target` merged over the existing
/// attribute, if there is one, written as `property: value; ` per declaration.
/// The order of the declarations is not part of the result's meaning.
pub fn insert_style(existing: Option<&str>, target: StringMap) -> (attribute: String)
    requires
        existing matches Some(e) ==> style_is_readable(e@),
    ensures
        exists|ps: Seq<(Seq<char>, Seq<char>)>|
            distinct_keys(ps) && attribute@ == serialized(ps) && map_of(ps) == match existing {
                Some(e) => merged_declarations(e@, target@),
                None => target@,
            },
{
    let m = match existing {
        Some(e) => merge_declarations(e, target),
        None => target,
    };
    let s = style_text(&m);
    let _ = m.entries();
    s
}

} // verus!
