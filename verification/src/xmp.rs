//! The motion-photo XMP packet, edited as text.
//!
//! Namespace-prefixed attributes (such as `GCamera:MotionPhoto`) must survive untouched,
//! so the document is kept as raw text and every change is a targeted replacement or
//! insertion at a known marker of the fixed template.

use vstd::prelude::*;

use crate::constants::XMP_TEMPLATE;
use crate::error::LiveMuxError;
use crate::text::{
    append_slice, char_is_whitespace, chars_equal, chars_of, concat_chars, contains,
    contains_chars, copy_range, decimal, find, find_char, find_chars, i64_decimal, is_digit,
    is_whitespace_char, lemma_decimal_digits, lemma_find_props, lemma_rfind_props, matches_at, opt_int, rfind,
    rfind_chars, signed_decimal, starts_with, starts_with_chars, string_from_chars, trim,
    trim_chars, trim_end, trim_end_chars, usize_decimal,
};

verus! {

pub const DESCRIPTION_OPEN: &'static str = "<rdf:Description";

pub const DESCRIPTION_CLOSE: &'static str = "</rdf:Description>";

pub const DIRECTORY_OPEN: &'static str = "<Container:Directory";

pub const DIRECTORY_CLOSE: &'static str = "</Container:Directory>";

pub const ITEM_OPEN: &'static str = "<Container:Item";

/// Attribute after whose value new namespace declarations are inserted.
pub const XMLNS_ANCHOR: &'static str = "xmlns:HDRGainMap=";

/// Attribute after which copied source attributes are inserted.
pub const ATTRS_ANCHOR: &'static str = "GCamera:MotionPhoto=\"1\"";

pub const TIMESTAMP_ATTR: &'static str = "GCamera:MotionPhotoPresentationTimestampUs=\"";

/// `name="value"`.
pub open spec fn quoted_attr(name: Seq<char>, value: Seq<char>) -> Seq<char> {
    name + "=\""@ + value + "\""@
}

/// `s` with `t` inserted at index `i`.
pub open spec fn insert_at(s: Seq<char>, i: int, t: Seq<char>) -> Seq<char> {
    s.take(i) + t + s.skip(i)
}

// ---------------------------------------------------------------------------------------
// Locating an attribute of a `Container:Item`

/// `Item:Semantic="<semantic>"`, the marker that identifies a `Container:Item`.
pub open spec fn semantic_marker(semantic: Seq<char>) -> Seq<char> {
    quoted_attr("Item:Semantic"@, semantic)
}

/// End (exclusive, relative to `after`) of the element that starts `after`: just past the
/// first `/>`, or else just past the first `>`.
pub open spec fn element_end(after: Seq<char>) -> Option<int> {
    match find(after, "/>"@) {
        Some(p) => Some(p + 2),
        None => match find(after, seq!['>']) {
            Some(p) => Some(p + 1),
            None => None,
        },
    }
}

/// Message when an item has no such attribute.
pub open spec fn missing_attr_message(semantic: Seq<char>, attr: Seq<char>) -> Seq<char> {
    "Attribute "@ + attr + " in Item Semantic="@ + semantic
}

/// Span of the value of `attr` in the `Container:Item` identified by `semantic`:
/// find the first semantic marker, the last `<Container:Item` before it, the end of that
/// element, then the first `attr="` inside the element and the next `"` after it.
/// On failure, the message of the missing piece.
pub open spec fn locate_item_attr(xml: Seq<char>, semantic: Seq<char>, attr: Seq<char>) -> Result<
    (int, int),
    Seq<char>,
> {
    match find(xml, semantic_marker(semantic)) {
        None => Err("Item with Semantic="@ + semantic),
        Some(item_pos) => match rfind(xml.take(item_pos), ITEM_OPEN@) {
            None => Err("Container:Item tag"@),
            Some(item_start) => match element_end(xml.skip(item_start)) {
                None => Err("Container:Item end"@),
                Some(rel_end) => {
                    let item = xml.subrange(item_start, item_start + rel_end);
                    let prefix = attr + "=\""@;
                    match find(item, prefix) {
                        None => Err(missing_attr_message(semantic, attr)),
                        Some(ap) => {
                            let vs = ap + prefix.len();
                            match find(item.skip(vs), seq!['"']) {
                                None => Err(missing_attr_message(semantic, attr)),
                                Some(ve) => Ok((item_start + vs, item_start + vs + ve)),
                            }
                        },
                    }
                },
            },
        },
    }
}

/// The document after setting `attr` of the item identified by `semantic` to `value`.
pub open spec fn replaced_item_attr(
    xml: Seq<char>,
    semantic: Seq<char>,
    attr: Seq<char>,
    value: Seq<char>,
) -> Result<Seq<char>, Seq<char>> {
    match locate_item_attr(xml, semantic, attr) {
        Ok((a, b)) => Ok(xml.take(a) + value + xml.skip(b)),
        Err(m) => Err(m),
    }
}

// ---------------------------------------------------------------------------------------
// Reading the source's rdf:Description

/// First `>` at or after `i` that is outside double quotes (`in_quote` tells whether `i`
/// starts inside quotes).
pub open spec fn tag_end_from(s: Seq<char>, i: nat, in_quote: bool) -> Option<int>
    decreases s.len() - i,
{
    if i >= s.len() {
        None
    } else if s[i as int] == '"' {
        tag_end_from(s, i + 1, !in_quote)
    } else if s[i as int] == '>' && !in_quote {
        Some(i as int)
    } else {
        tag_end_from(s, i + 1, in_quote)
    }
}

/// Where an opening tag's attributes end: its first `>` outside quotes.
pub open spec fn description_attrs_end(tag: Seq<char>) -> Option<int> {
    tag_end_from(tag, 0, false)
}

pub open spec fn is_quote(c: char) -> bool {
    c == '"' || c == '\''
}

/// First index `>= i` holding a single or double quote.
pub open spec fn first_quote_from(s: Seq<char>, i: nat) -> Option<int>
    decreases s.len() - i,
{
    if i >= s.len() {
        None
    } else if is_quote(s[i as int]) {
        Some(i as int)
    } else {
        first_quote_from(s, i + 1)
    }
}

/// Characters that end the text before an attribute's name.
pub open spec fn is_name_boundary(c: char) -> bool {
    is_whitespace_char(c) || c == '<'
}

/// Last index `<= k` holding a name boundary.
pub open spec fn last_boundary_upto(s: Seq<char>, k: int) -> Option<int>
    decreases k + 1,
{
    if k < 0 {
        None
    } else if is_name_boundary(s[k]) {
        Some(k)
    } else {
        last_boundary_upto(s, k - 1)
    }
}

/// Start of the attribute name at the end of `before` (the text before an `=`, already
/// trimmed): just after its last name boundary, or its start.
pub open spec fn name_start(before: Seq<char>) -> int {
    match last_boundary_upto(before, before.len() - 1) {
        Some(p) => p + 1,
        None => 0,
    }
}

/// The `(name, value)` pairs of `tag`, read left to right: the name is the word before the
/// next `=`, the value is what lies between the next quote (single or double) and the
/// matching closing quote. Reading stops at the first `=` without a complete quoted value.
pub open spec fn scan_attrs(tag: Seq<char>) -> Seq<(Seq<char>, Seq<char>)>
    decreases tag.len(),
{
    match find(tag, seq!['=']) {
        None => Seq::empty(),
        Some(eq) => {
            let before = trim_end(tag.take(eq));
            let name = before.skip(name_start(before));
            let after = tag.skip(eq + 1);
            match first_quote_from(after, 0) {
                None => Seq::empty(),
                Some(qi) => match find(after.skip(qi + 1), seq![after[qi]]) {
                    None => Seq::empty(),
                    Some(ve) => if 0 <= eq < tag.len() && 0 <= qi && 0 <= ve && qi + 1 + ve + 1
                        <= after.len() {
                        seq![(name, after.subrange(qi + 1, qi + 1 + ve))] + scan_attrs(
                            after.skip(qi + 1 + ve + 1),
                        )
                    } else {
                        Seq::empty()
                    },
                },
            }
        },
    }
}

/// Reading the attributes of `tag` never cuts a character in two: every name boundary
/// that ends the text before an attribute name is a one-byte (ASCII) character.
pub open spec fn attr_scan_ok(tag: Seq<char>) -> bool
    decreases tag.len(),
{
    match find(tag, seq!['=']) {
        None => true,
        Some(eq) => {
            let before = trim_end(tag.take(eq));
            let after = tag.skip(eq + 1);
            &&& (last_boundary_upto(before, before.len() - 1) matches Some(p) ==> (before[p] as u32)
                < 128)
            &&& match first_quote_from(after, 0) {
                None => true,
                Some(qi) => match find(after.skip(qi + 1), seq![after[qi]]) {
                    None => true,
                    Some(ve) => if 0 <= eq < tag.len() && 0 <= qi && 0 <= ve && qi + 1 + ve + 1
                        <= after.len() {
                        attr_scan_ok(after.skip(qi + 1 + ve + 1))
                    } else {
                        true
                    },
                },
            }
        },
    }
}

/// The namespace declarations (`xmlns:*`) among `pairs`, as `name="value"`.
pub open spec fn xmlns_decls(pairs: Seq<(Seq<char>, Seq<char>)>) -> Seq<Seq<char>>
    decreases pairs.len(),
{
    if pairs.len() == 0 {
        Seq::empty()
    } else {
        let rest = xmlns_decls(pairs.drop_last());
        if starts_with(pairs.last().0, "xmlns:"@) {
            rest.push(quoted_attr(pairs.last().0, pairs.last().1))
        } else {
            rest
        }
    }
}

/// Attributes worth copying from a source description: not a namespace declaration, not
/// `rdf:about` or `rdf:parseType`, not empty, no `<`, and not a `GCamera:` attribute (the
/// template has those).
pub open spec fn is_copied_attr(name: Seq<char>) -> bool {
    &&& !starts_with(name, "xmlns:"@)
    &&& name != "rdf:about"@
    &&& name != "rdf:parseType"@
    &&& name.len() > 0
    &&& !contains(name, seq!['<'])
    &&& !starts_with(name, "GCamera:"@)
}

/// The attributes worth copying among `pairs`, as `name="value"`.
pub open spec fn copied_attrs(pairs: Seq<(Seq<char>, Seq<char>)>) -> Seq<Seq<char>>
    decreases pairs.len(),
{
    if pairs.len() == 0 {
        Seq::empty()
    } else {
        let rest = copied_attrs(pairs.drop_last());
        if is_copied_attr(pairs.last().0) {
            rest.push(quoted_attr(pairs.last().0, pairs.last().1))
        } else {
            rest
        }
    }
}

/// Namespace declarations of an rdf:Description tag.
pub open spec fn xmlns_attrs(tag: Seq<char>) -> Seq<Seq<char>> {
    xmlns_decls(scan_attrs(tag))
}

/// Attributes of an rdf:Description tag worth copying.
pub open spec fn description_attrs(tag: Seq<char>) -> Seq<Seq<char>> {
    copied_attrs(scan_attrs(tag))
}

/// The content between the first `<rdf:Description ...>` and the first
/// `</rdf:Description>` after it; none when the description is missing, self-closing,
/// unclosed or empty.
pub open spec fn description_children(xmp: Seq<char>) -> Option<Seq<char>> {
    match find(xmp, DESCRIPTION_OPEN@) {
        None => None,
        Some(ds) => {
            let after = xmp.skip(ds);
            match description_attrs_end(after) {
                None => None,
                Some(i) => if i > 0 && after[i - 1] == '/' {
                    None
                } else {
                    match find(after, DESCRIPTION_CLOSE@) {
                        None => None,
                        Some(ce) => if i + 1 < ce {
                            Some(after.subrange(i + 1, ce))
                        } else {
                            None
                        },
                    }
                },
            }
        },
    }
}

/// `xml` without the text from its first `<Container:Directory` up to the end of its first
/// `</Container:Directory>`; unchanged when either is missing.
pub open spec fn without_directory(xml: Seq<char>) -> Seq<char> {
    match find(xml, DIRECTORY_OPEN@) {
        None => xml,
        Some(start) => match find(xml, DIRECTORY_CLOSE@) {
            None => xml,
            Some(end) => xml.take(start) + xml.skip(end + DIRECTORY_CLOSE@.len()),
        },
    }
}

// ---------------------------------------------------------------------------------------
// Merging

/// The declarations of `decls` not already in `xml`, each on a new line.
pub open spec fn new_xmlns_text(decls: Seq<Seq<char>>, xml: Seq<char>) -> Seq<char>
    decreases decls.len(),
{
    if decls.len() == 0 {
        Seq::empty()
    } else {
        let rest = new_xmlns_text(decls.drop_last(), xml);
        if contains(xml, decls.last()) {
            rest
        } else {
            rest + "\n        "@ + decls.last()
        }
    }
}

/// The attributes `attrs`, each on a new line.
pub open spec fn attrs_text(attrs: Seq<Seq<char>>) -> Seq<char>
    decreases attrs.len(),
{
    if attrs.len() == 0 {
        Seq::empty()
    } else {
        attrs_text(attrs.drop_last()) + "\n      "@ + attrs.last()
    }
}

/// `xml` with the new namespace declarations inserted after the value of
/// `xmlns:HDRGainMap=`.
pub open spec fn with_xmlns(xml: Seq<char>, decls: Seq<Seq<char>>) -> Seq<char> {
    if decls.len() == 0 {
        xml
    } else {
        match find(xml, XMLNS_ANCHOR@) {
            None => xml,
            Some(pos) => {
                let after = xml.skip(pos);
                match find(after, seq!['"']) {
                    None => xml,
                    Some(q1) => match find(after.skip(q1 + 1), seq!['"']) {
                        None => xml,
                        Some(q2) => {
                            let ns = new_xmlns_text(decls, xml);
                            if ns.len() == 0 {
                                xml
                            } else {
                                insert_at(xml, pos + q1 + 1 + q2 + 1, ns)
                            }
                        },
                    },
                }
            },
        }
    }
}

/// `xml` with `attrs` inserted after `GCamera:MotionPhoto="1"`.
pub open spec fn with_attrs(xml: Seq<char>, attrs: Seq<Seq<char>>) -> Seq<char> {
    if attrs.len() == 0 {
        xml
    } else {
        match find(xml, ATTRS_ANCHOR@) {
            None => xml,
            Some(pos) => insert_at(xml, pos + ATTRS_ANCHOR@.len(), attrs_text(attrs)),
        }
    }
}

/// Each copied attribute on a line of its own: a newline, six spaces, the attribute.
pub open spec fn attr_lines(attrs: Seq<Seq<char>>) -> Seq<Seq<char>> {
    Seq::new(attrs.len(), |i: int| seq!['\n', ' ', ' ', ' ', ' ', ' ', ' '] + attrs[i])
}

/// The text inserted for the copied attributes holds every one of them, in order, each
/// on a line of its own indented by six spaces.
pub proof fn law_attrs_text_lists_every_attr(attrs: Seq<Seq<char>>)
    ensures
        attrs_text(attrs) == crate::text::flatten(attr_lines(attrs)),
    decreases attrs.len(),
{
    reveal_strlit("\n      ");
    if attrs.len() > 0 {
        law_attrs_text_lists_every_attr(attrs.drop_last());
        assert(attr_lines(attrs).drop_last() =~= attr_lines(attrs.drop_last()));
        assert(attr_lines(attrs).last() =~= "\n      "@ + attrs.last());
    } else {
        assert(attr_lines(attrs) =~= Seq::<Seq<char>>::empty());
    }
}

/// Merging copies every attribute worth copying: right after `GCamera:MotionPhoto="1"`
/// the document holds each of them, in the source's order, one per indented line.
pub proof fn law_copied_attrs_follow_anchor(xml: Seq<char>, attrs: Seq<Seq<char>>)
    requires
        attrs.len() > 0,
        find(xml, ATTRS_ANCHOR@) is Some,
    ensures
        ({
            let at = find(xml, ATTRS_ANCHOR@).unwrap() + ATTRS_ANCHOR@.len();
            let lines = crate::text::flatten(attr_lines(attrs));
            with_attrs(xml, attrs).subrange(at, at + lines.len()) == lines
        }),
{
    lemma_find_props(xml, ATTRS_ANCHOR@);
    law_attrs_text_lists_every_attr(attrs);
    let at = find(xml, ATTRS_ANCHOR@).unwrap() + ATTRS_ANCHOR@.len();
    let lines = crate::text::flatten(attr_lines(attrs));
    assert(with_attrs(xml, attrs).subrange(at, at + lines.len()) =~= lines);
}

/// `xml` with the source's description children (without its container directory,
/// trimmed) inserted before `</rdf:Description>`.
pub open spec fn with_children(xml: Seq<char>, source: Seq<char>) -> Seq<char> {
    match description_children(source) {
        None => xml,
        Some(children) => {
            let filtered = trim(without_directory(children));
            if filtered.len() == 0 {
                xml
            } else {
                match find(xml, DESCRIPTION_CLOSE@) {
                    None => xml,
                    Some(p) => insert_at(xml, p, "      "@ + filtered + "\n    "@),
                }
            }
        },
    }
}

/// The opening rdf:Description tag of the source (up to its first `>` outside quotes).
pub open spec fn source_description_tag(source: Seq<char>) -> Option<Seq<char>> {
    match find(source, DESCRIPTION_OPEN@) {
        None => None,
        Some(ds) => match description_attrs_end(source.skip(ds)) {
            None => None,
            Some(ae) => Some(source.skip(ds).take(ae)),
        },
    }
}

/// The document after merging `source`: none when the source has no rdf:Description.
pub open spec fn merged_xml(xml: Seq<char>, source: Seq<char>) -> Option<Seq<char>> {
    if find(source, DESCRIPTION_OPEN@) is None {
        None
    } else {
        let x1 = match source_description_tag(source) {
            None => xml,
            Some(tag) => with_attrs(with_xmlns(xml, xmlns_attrs(tag)), description_attrs(tag)),
        };
        Some(with_children(x1, source))
    }
}

/// Merging `source` runs without cutting a character in two.
pub open spec fn mergeable(source: Seq<char>) -> bool {
    source_description_tag(source) matches Some(tag) ==> attr_scan_ok(tag)
}

/// An exec pair of character vectors read as a pair of sequences.
pub open spec fn pairs_view(v: Seq<(Vec<char>, Vec<char>)>) -> Seq<(Seq<char>, Seq<char>)> {
    Seq::new(v.len(), |i: int| (v[i].0@, v[i].1@))
}

/// An exec list of character vectors read as a list of sequences.
pub open spec fn texts_view(v: Seq<Vec<char>>) -> Seq<Seq<char>> {
    Seq::new(v.len(), |i: int| v[i]@)
}

} // verus!

verus! {

/// Where the rdf:Description opening tag ends: the first `>` outside double quotes.
pub fn find_description_attrs_end(tag_str: &[char]) -> (r: Option<usize>)
    ensures
        opt_int(r) == description_attrs_end(tag_str@),
{
    let mut in_quote = false;
    let mut i: usize = 0;
    while i < tag_str.len()
        invariant
            i <= tag_str.len(),
            description_attrs_end(tag_str@) == tag_end_from(tag_str@, i as nat, in_quote),
        decreases tag_str.len() - i,
    {
        let ch = tag_str[i];
        if ch == '"' {
            // toggle inside/outside quotes
            in_quote = !in_quote;
        } else if ch == '>' && !in_quote {
            return Some(i);
        }
        i += 1;
    }
    None
}

/// First single or double quote in `s`.
fn first_quote(s: &[char]) -> (r: Option<usize>)
    ensures
        opt_int(r) == first_quote_from(s@, 0),
        r matches Some(i) ==> i < s@.len() && is_quote(s@[i as int]),
{
    let mut i: usize = 0;
    while i < s.len()
        invariant
            i <= s.len(),
            first_quote_from(s@, 0) == first_quote_from(s@, i as nat),
        decreases s.len() - i,
    {
        if s[i] == '"' || s[i] == '\'' {
            return Some(i);
        }
        i += 1;
    }
    None
}

/// Last name boundary (whitespace or `<`) in `s`.
fn last_name_boundary(s: &[char]) -> (r: Option<usize>)
    ensures
        opt_int(r) == last_boundary_upto(s@, s@.len() - 1),
        r matches Some(i) ==> i < s@.len(),
{
    let mut k: usize = s.len();
    while k > 0
        invariant
            k <= s.len(),
            last_boundary_upto(s@, s@.len() - 1) == last_boundary_upto(s@, k - 1),
        decreases k,
    {
        if char_is_whitespace(s[k - 1]) || s[k - 1] == '<' {
            return Some(k - 1);
        }
        k -= 1;
    }
    None
}

proof fn lemma_first_quote_range(s: Seq<char>, i: nat)
    ensures
        first_quote_from(s, i) matches Some(k) ==> i <= k < s.len() && is_quote(s[k]),
    decreases s.len() - i,
{
    if i < s.len() && !is_quote(s[i as int]) {
        lemma_first_quote_range(s, i + 1);
    }
}

/// The `(name, value)` pairs of an opening tag, read left to right.
fn scan_attributes(tag: &[char]) -> (r: Vec<(Vec<char>, Vec<char>)>)
    ensures
        pairs_view(r@) == scan_attrs(tag@),
{
    let mut out: Vec<(Vec<char>, Vec<char>)> = Vec::new();
    let mut remaining: Vec<char> = copy_range(tag, 0, tag.len());
    assert(remaining@ =~= tag@);
    assert(pairs_view(out@) =~= Seq::empty());
    loop
        invariant
            scan_attrs(tag@) == pairs_view(out@) + scan_attrs(remaining@),
        decreases remaining@.len(),
    {
        let ghost rem = remaining@;
        let eq_pos = match find_char(&remaining, '=') {
            Some(p) => p,
            None => {
                assert(pairs_view(out@) + scan_attrs(rem) =~= pairs_view(out@));
                return out;
            },
        };
        let rem_len = remaining.len();
        let head = copy_range(&remaining, 0, eq_pos);
        let before_eq = trim_end_chars(&head);
        let before_len = before_eq.len();
        let name_start = match last_name_boundary(&before_eq) {
            Some(p) => p + 1,
            None => 0,
        };
        let attr_name = copy_range(&before_eq, name_start, before_eq.len());
        assert(attr_name@ =~= before_eq@.skip(name_start as int));
        let after_eq = copy_range(&remaining, eq_pos + 1, remaining.len());
        assert(after_eq@ =~= rem.skip(eq_pos + 1));
        let qi = match first_quote(&after_eq) {
            Some(q) => q,
            None => {
                assert(pairs_view(out@) + scan_attrs(rem) =~= pairs_view(out@));
                return out;
            },
        };
        let q = after_eq[qi];
        let val_start = qi + 1;
        let tail = copy_range(&after_eq, val_start, after_eq.len());
        assert(tail@ =~= after_eq@.skip(val_start as int));
        let val_end = match find_char(&tail, q) {
            Some(e) => e,
            None => {
                assert(pairs_view(out@) + scan_attrs(rem) =~= pairs_view(out@));
                return out;
            },
        };
        let value = copy_range(&after_eq, val_start, val_start + val_end);
        let next = copy_range(&after_eq, val_start + val_end + 1, after_eq.len());
        assert(next@ =~= after_eq@.skip(val_start + val_end + 1));
        let ghost old_out = out@;
        out.push((attr_name, value));
        assert(pairs_view(out@) =~= pairs_view(old_out) + seq![(
            before_eq@.skip(name_start as int),
            after_eq@.subrange(val_start as int, val_start + val_end),
        )]);
        remaining = next;
    }
}

/// Extracts the `xmlns:*` namespace declarations of an rdf:Description tag.
pub fn extract_xmlns_attrs(tag: &[char]) -> (r: Vec<Vec<char>>)
    requires
        attr_scan_ok(tag@),
    ensures
        texts_view(r@) == xmlns_attrs(tag@),
{
    let pairs = scan_attributes(tag);
    let prefix = chars_of("xmlns:");
    let mut attrs: Vec<Vec<char>> = Vec::new();
    let mut i: usize = 0;
    while i < pairs.len()
        invariant
            i <= pairs@.len(),
            prefix@ == "xmlns:"@,
            pairs_view(pairs@) == scan_attrs(tag@),
            texts_view(attrs@) == xmlns_decls(pairs_view(pairs@).take(i as int)),
        decreases pairs@.len() - i,
    {
        let ghost pv = pairs_view(pairs@);
        assert(pv.take(i + 1).drop_last() =~= pv.take(i as int));
        assert(pv.take(i + 1).last() == pv[i as int]);
        let (name, value) = (&pairs[i].0, &pairs[i].1);
        if starts_with_chars(name, &prefix) {
            let ghost old_attrs = attrs@;
            attrs.push(format_attr(name, value));
            assert(texts_view(attrs@) =~= texts_view(old_attrs).push(
                quoted_attr(name@, value@),
            ));
        }
        i += 1;
    }
    assert(pairs_view(pairs@).take(pairs@.len() as int) =~= pairs_view(pairs@));
    attrs
}

/// Extracts the attributes of an rdf:Description tag worth copying: skips `xmlns:*`,
/// `rdf:about`, `rdf:parseType`, empty or malformed names, and `GCamera:*`.
pub fn extract_description_attrs(tag: &[char]) -> (r: Vec<Vec<char>>)
    requires
        attr_scan_ok(tag@),
    ensures
        texts_view(r@) == description_attrs(tag@),
{
    let pairs = scan_attributes(tag);
    let mut attrs: Vec<Vec<char>> = Vec::new();
    let mut i: usize = 0;
    while i < pairs.len()
        invariant
            i <= pairs@.len(),
            pairs_view(pairs@) == scan_attrs(tag@),
            texts_view(attrs@) == copied_attrs(pairs_view(pairs@).take(i as int)),
        decreases pairs@.len() - i,
    {
        let ghost pv = pairs_view(pairs@);
        assert(pv.take(i + 1).drop_last() =~= pv.take(i as int));
        assert(pv.take(i + 1).last() == pv[i as int]);
        let (name, value) = (&pairs[i].0, &pairs[i].1);
        if is_copied_attr_name(name) {
            let ghost old_attrs = attrs@;
            attrs.push(format_attr(name, value));
            assert(texts_view(attrs@) =~= texts_view(old_attrs).push(
                quoted_attr(name@, value@),
            ));
        }
        i += 1;
    }
    assert(pairs_view(pairs@).take(pairs@.len() as int) =~= pairs_view(pairs@));
    attrs
}

/// `name="value"`.
fn format_attr(name: &[char], value: &[char]) -> (r: Vec<char>)
    ensures
        r@ == quoted_attr(name@, value@),
{
    let mut out = concat_chars(name, &chars_of("=\""));
    append_slice(&mut out, value);
    append_slice(&mut out, &chars_of("\""));
    out
}

/// Is an attribute with this name worth copying?
fn is_copied_attr_name(name: &[char]) -> (b: bool)
    ensures
        b == is_copied_attr(name@),
{
    let about = chars_of("rdf:about");
    let parse_type = chars_of("rdf:parseType");
    !starts_with_chars(name, &chars_of("xmlns:")) && !chars_equal(name, &about) && !chars_equal(
        name,
        &parse_type,
    ) && name.len() > 0 && find_char(name, '<').is_none() && !starts_with_chars(
        name,
        &chars_of("GCamera:"),
    )
}

} // verus!

verus! {

/// Extracts the content between `<rdf:Description ...>` and `</rdf:Description>`.
pub fn extract_description_children(xmp: &[char]) -> (r: Option<Vec<char>>)
    ensures
        match r {
            Some(c) => description_children(xmp@) == Some(c@),
            None => description_children(xmp@) is None,
        },
{
    let open = chars_of(DESCRIPTION_OPEN);
    let desc_start = match find_chars(xmp, &open) {
        Some(p) => p,
        None => return None,
    };
    proof {
        lemma_find_props(xmp@, open@);
    }
    let after = copy_range(xmp, desc_start, xmp.len());
    assert(after@ =~= xmp@.skip(desc_start as int));
    // end of the opening tag
    let tag_end = match find_description_attrs_end(&after) {
        Some(i) => i,
        None => return None,
    };
    proof {
        lemma_tag_end_range(after@, 0, false);
    }
    if tag_end > 0 && after[tag_end - 1] == '/' {
        // self-closing: no children
        return None;
    }
    let children_start = tag_end + 1;
    let close = chars_of(DESCRIPTION_CLOSE);
    let children_end = match find_chars(&after, &close) {
        Some(p) => p,
        None => return None,
    };
    proof {
        lemma_find_props(after@, close@);
    }
    if children_start < children_end {
        Some(copy_range(&after, children_start, children_end))
    } else {
        None
    }
}

proof fn lemma_tag_end_range(s: Seq<char>, i: nat, in_quote: bool)
    ensures
        tag_end_from(s, i, in_quote) matches Some(k) ==> i <= k < s.len(),
    decreases s.len() - i,
{
    if i < s.len() {
        if s[i as int] == '"' {
            lemma_tag_end_range(s, i + 1, !in_quote);
        } else if !(s[i as int] == '>' && !in_quote) {
            lemma_tag_end_range(s, i + 1, in_quote);
        }
    }
}

/// `xml` without its first `<Container:Directory>...</Container:Directory>` block.
fn without_directory_chars(xml: &[char]) -> (r: Vec<char>)
    ensures
        r@ == without_directory(xml@),
{
    let open = chars_of(DIRECTORY_OPEN);
    let close = chars_of(DIRECTORY_CLOSE);
    proof {
        lemma_find_props(xml@, open@);
        lemma_find_props(xml@, close@);
    }
    let n = xml.len();
    if let Some(start) = find_chars(xml, &open) {
        if let Some(end) = find_chars(xml, &close) {
            let end_full = end + close.len();
            let mut result = copy_range(xml, 0, start);
            append_slice(&mut result, &copy_range(xml, end_full, xml.len()));
            return result;
        }
    }
    copy_range(xml, 0, xml.len())
}

/// Removes `<Container:Directory>...</Container:Directory>` from an XML string.
pub fn filter_container_directory(xml: &str) -> (r: String)
    ensures
        r@ == without_directory(xml@),
{
    let chars = chars_of(xml);
    string_from_chars(&without_directory_chars(&chars))
}

/// XMP document built from the template with targeted replacements.
pub struct XmpDocument {
    xml: Vec<char>,
}

impl View for XmpDocument {
    type V = Seq<char>;

    closed spec fn view(&self) -> Seq<char> {
        self.xml@
    }
}

/// The document with the value of every `GCamera:MotionPhotoPresentationTimestampUs`
/// attribute set to `value`, whatever it held (an attribute whose value never closes is
/// left as it is, with what follows it).
pub open spec fn with_timestamp(xml: Seq<char>, value: Seq<char>) -> Seq<char>
    decreases xml.len(),
{
    match find(xml, TIMESTAMP_ATTR@) {
        None => xml,
        Some(i) => {
            let start = i + TIMESTAMP_ATTR@.len();
            let rest = xml.skip(start);
            match find(rest, "\""@) {
                None => xml,
                Some(j) => {
                    proof {
                        lemma_find_props(xml, TIMESTAMP_ATTR@);
                        lemma_find_props(rest, "\""@);
                        reveal_strlit("\"");
                        assert(rest.skip(j + 1).len() < xml.len());
                    }
                    xml.take(start) + value + "\""@ + with_timestamp(rest.skip(j + 1), value)
                },
            }
        },
    }
}

/// Where `s` and `t` agree on their first `n` items, a first occurrence of `pat` in `s`
/// that ends within them is the first occurrence in `t` too.
proof fn lemma_find_in_common_prefix(s: Seq<char>, t: Seq<char>, pat: Seq<char>, n: int)
    requires
        0 <= n <= s.len(),
        n <= t.len(),
        s.take(n) == t.take(n),
        find(s, pat) matches Some(i) && i + pat.len() <= n,
    ensures
        find(t, pat) == find(s, pat),
{
    lemma_find_props(s, pat);
    lemma_find_props(t, pat);
    let i = find(s, pat).unwrap();
    assert(t.subrange(i, i + pat.len()) =~= t.take(n).subrange(i, i + pat.len()));
    assert(s.subrange(i, i + pat.len()) =~= s.take(n).subrange(i, i + pat.len()));
    assert(matches_at(t, i, pat));
    let k = find(t, pat).unwrap();
    if k < i {
        assert(t.subrange(k, k + pat.len()) =~= t.take(n).subrange(k, k + pat.len()));
        assert(s.subrange(k, k + pat.len()) =~= s.take(n).subrange(k, k + pat.len()));
        assert(matches_at(s, k, pat));
    }
}

/// Setting the keyframe twice leaves the later value: every timestamp attribute holds
/// what the second call set, whatever the first one set.
pub proof fn law_timestamp_set_twice(xml: Seq<char>, first: i64, second: i64)
    ensures
        with_timestamp(with_timestamp(xml, signed_decimal(first as int)), signed_decimal(second as int))
            == with_timestamp(xml, signed_decimal(second as int)),
    decreases xml.len(),
{
    let a = signed_decimal(first as int);
    let b = signed_decimal(second as int);
    let p = TIMESTAMP_ATTR@;
    let q = "\""@;
    reveal_strlit("\"");
    assert(q.len() == 1 && q[0] == '"');
    lemma_find_props(xml, p);
    if let Some(i) = find(xml, p) {
        let start = i + p.len();
        let rest = xml.skip(start);
        lemma_find_props(rest, q);
        if let Some(j) = find(rest, q) {
            let tail = rest.skip(j + 1);
            let once = with_timestamp(xml, a);
            let rec = with_timestamp(tail, a);
            assert(once == xml.take(start) + a + q + rec);
            assert(once.take(start) =~= xml.take(start));
            lemma_find_in_common_prefix(xml, once, p, start);
            // the value just written has no quote: the next quote closes it
            lemma_signed_decimal_plain(first as int);
            let orest = once.skip(start);
            assert(orest =~= a + q + rec);
            lemma_find_props(orest, q);
            assert(matches_at(orest, a.len() as int, q)) by {
                assert(orest.subrange(a.len() as int, a.len() + 1int) =~= q);
            }
            assert forall|k: int| 0 <= k < a.len() implies !#[trigger] matches_at(orest, k, q) by {
                assert(orest.subrange(k, k + 1)[0] == a[k]);
            }
            let fj = find(orest, q).unwrap();
            assert(fj == a.len());
            assert(orest.skip(a.len() + 1int) =~= rec);
            law_timestamp_set_twice(tail, first, second);
        }
    }
}

/// A number written in decimal holds no quote.
proof fn lemma_signed_decimal_plain(n: int)
    ensures
        forall|k: int| 0 <= k < signed_decimal(n).len() ==> #[trigger] signed_decimal(n)[k] != '"',
{
    let m: nat = if n < 0 {
        (-n) as nat
    } else {
        n as nat
    };
    lemma_decimal_digits(m);
    assert forall|k: int| 0 <= k < signed_decimal(n).len() implies #[trigger] signed_decimal(n)[k]
        != '"' by {
        if n < 0 {
            if k > 0 {
                assert(signed_decimal(n)[k] == decimal(m)[k - 1]);
                assert(is_digit(decimal(m)[k - 1]));
            }
        } else {
            assert(is_digit(decimal(m)[k]));
        }
    }
}

impl XmpDocument {
    pub fn from_template() -> (r: Result<Self, LiveMuxError>)
        ensures
            r matches Ok(d) && d@ == XMP_TEMPLATE@,
    {
        Ok(XmpDocument { xml: chars_of(XMP_TEMPLATE) })
    }

    /// Sets `GCamera:MotionPhotoPresentationTimestampUs` to the given number of
    /// microseconds, whatever value it held.
    pub fn set_timestamp(&mut self, microseconds: i64) -> (r: Result<(), LiveMuxError>)
        ensures
            r is Ok,
            final(self)@ == with_timestamp(old(self)@, signed_decimal(microseconds as int)),
    {
        let prefix = chars_of(TIMESTAMP_ATTR);
        let quote = chars_of("\"");
        proof {
            reveal_strlit("\"");
        }
        let value = i64_decimal(microseconds);
        let ghost whole = self.xml@;
        let mut out: Vec<char> = Vec::new();
        let mut rest = copy_range(&self.xml, 0, self.xml.len());
        assert(rest@ =~= whole);
        loop
            invariant_except_break
                prefix@ == TIMESTAMP_ATTR@,
                quote@ == "\""@,
                quote@.len() == 1,
                value@ == signed_decimal(microseconds as int),
                out@ + with_timestamp(rest@, value@) == with_timestamp(whole, value@),
            ensures
                out@ == with_timestamp(whole, value@),
            decreases rest@.len(),
        {
            let rlen = rest.len();
            proof {
                lemma_find_props(rest@, prefix@);
            }
            let i = match find_chars(&rest, &prefix) {
                Some(i) => i,
                None => {
                    append_slice(&mut out, &rest);
                    assert(with_timestamp(rest@, value@) == rest@);
                    break;
                },
            };
            let start = i + prefix.len();
            let after = copy_range(&rest, start, rest.len());
            assert(after@ =~= rest@.skip(start as int));
            proof {
                lemma_find_props(after@, quote@);
            }
            let j = match find_chars(&after, &quote) {
                Some(j) => j,
                None => {
                    append_slice(&mut out, &rest);
                    assert(with_timestamp(rest@, value@) == rest@);
                    break;
                },
            };
            let ghost before = out@;
            append_slice(&mut out, &copy_range(&rest, 0, start));
            append_slice(&mut out, &value);
            append_slice(&mut out, &quote);
            let next = copy_range(&after, j + 1, after.len());
            assert(next@ =~= after@.skip(j + 1));
            assert(out@ + with_timestamp(next@, value@) =~= before + with_timestamp(
                rest@,
                value@,
            ));
            rest = next;
        }
        self.xml = out;
        Ok(())
    }

    /// Sets `Item:Mime` of the primary (image) item.
    pub fn set_primary_mime(&mut self, mime: &str) -> (r: Result<(), LiveMuxError>)
        ensures
            replace_in_item_post(old(self)@, final(self)@, "Primary"@, "Item:Mime"@, mime@, r),
    {
        self.replace_in_item("Primary", "Item:Mime", mime)
    }

    /// Sets `Item:Mime` of the motion-photo (video) item.
    pub fn set_motionphoto_mime(&mut self, mime: &str) -> (r: Result<(), LiveMuxError>)
        ensures
            replace_in_item_post(old(self)@, final(self)@, "MotionPhoto"@, "Item:Mime"@, mime@, r),
    {
        self.replace_in_item("MotionPhoto", "Item:Mime", mime)
    }

    /// Sets `Item:Length` of the motion-photo item (the video's distance from the end of file).
    pub fn set_motionphoto_length(&mut self, length: usize) -> (r: Result<(), LiveMuxError>)
        ensures
            replace_in_item_post(
                old(self)@,
                final(self)@,
                "MotionPhoto"@,
                "Item:Length"@,
                decimal(length as nat),
                r,
            ),
    {
        let digits = string_from_chars(&usize_decimal(length));
        self.replace_in_item("MotionPhoto", "Item:Length", digits.as_str())
    }

    /// Sets `Item:Padding` of the primary item.
    pub fn set_primary_padding(&mut self, padding: usize) -> (r: Result<(), LiveMuxError>)
        ensures
            replace_in_item_post(
                old(self)@,
                final(self)@,
                "Primary"@,
                "Item:Padding"@,
                decimal(padding as nat),
                r,
            ),
    {
        let digits = string_from_chars(&usize_decimal(padding));
        self.replace_in_item("Primary", "Item:Padding", digits.as_str())
    }

    /// Serializes the document to UTF-8 bytes.
    pub fn to_bytes(&self) -> (r: Vec<u8>)
        ensures
            r@ == vstd::utf8::encode_utf8(self@),
    {
        let s = string_from_chars(&self.xml);
        vstd::slice::slice_to_vec(s.as_str().as_bytes())
    }

    /// Replaces the value of `attr` within the `Container:Item` identified by
    /// `Item:Semantic="<semantic>"`.
    fn replace_in_item(&mut self, semantic: &str, attr: &str, new_value: &str) -> (r: Result<
        (),
        LiveMuxError,
    >)
        ensures
            replace_in_item_post(old(self)@, final(self)@, semantic@, attr@, new_value@, r),
    {
        let xml_len = self.xml.len();
        let sem = chars_of(semantic);
        let attr_chars = chars_of(attr);
        let quote = chars_of("\"");
        let mut marker = concat_chars(&chars_of("Item:Semantic"), &chars_of("=\""));
        append_slice(&mut marker, &sem);
        append_slice(&mut marker, &quote);
        assert(marker@ =~= semantic_marker(semantic@));
        let item_pos = match find_chars(&self.xml, &marker) {
            Some(p) => p,
            None => {
                let msg = concat_chars(&chars_of("Item with Semantic="), &sem);
                return Err(LiveMuxError::XmpElementMissing(string_from_chars(&msg)));
            },
        };
        proof {
            lemma_find_props(self.xml@, marker@);
        }
        let before = copy_range(&self.xml, 0, item_pos);
        assert(before@ =~= self.xml@.take(item_pos as int));
        let item_open = chars_of(ITEM_OPEN);
        let item_start = match rfind_chars(&before, &item_open) {
            Some(p) => p,
            None => {
                return Err(
                    LiveMuxError::XmpElementMissing(
                        string_from_chars(&chars_of("Container:Item tag")),
                    ),
                );
            },
        };
        proof {
            lemma_rfind_props(before@, item_open@);
        }
        let after_item = copy_range(&self.xml, item_start, xml_len);
        assert(after_item@ =~= self.xml@.skip(item_start as int));
        let self_close = chars_of("/>");
        proof {
            lemma_find_props(after_item@, self_close@);
            lemma_find_props(after_item@, seq!['>']);
        }
        proof {
            reveal_strlit("/>");
        }
        let after_len = after_item.len();
        let rel_end = match find_chars(&after_item, &self_close) {
            Some(p) => p + 2,
            None => match find_char(&after_item, '>') {
                Some(p) => p + 1,
                None => {
                    return Err(
                        LiveMuxError::XmpElementMissing(
                            string_from_chars(&chars_of("Container:Item end")),
                        ),
                    );
                },
            },
        };
        proof {
            reveal_strlit("/>");
        }
        let item_end = item_start + rel_end;
        let item = copy_range(&self.xml, item_start, item_end);
        let prefix = concat_chars(&attr_chars, &chars_of("=\""));
        proof {
            lemma_find_props(item@, prefix@);
        }
        if let Some(attr_pos) = find_chars(&item, &prefix) {
            let val_start = attr_pos + prefix.len();
            let tail = copy_range(&item, val_start, item.len());
            assert(tail@ =~= item@.skip(val_start as int));
            proof {
                lemma_find_props(tail@, seq!['"']);
            }
            if let Some(val_end) = find_char(&tail, '"') {
                let abs_start = item_start + val_start;
                let abs_end = item_start + val_start + val_end;
                let mut updated = copy_range(&self.xml, 0, abs_start);
                append_slice(&mut updated, &chars_of(new_value));
                append_slice(&mut updated, &copy_range(&self.xml, abs_end, xml_len));
                assert(updated@ =~= self.xml@.take(abs_start as int) + new_value@ + self.xml@.skip(
                    abs_end as int,
                ));
                self.xml = updated;
                return Ok(());
            }
        }
        let mut msg = concat_chars(&chars_of("Attribute "), &attr_chars);
        append_slice(&mut msg, &chars_of(" in Item Semantic="));
        append_slice(&mut msg, &sem);
        Err(LiveMuxError::XmpElementMissing(string_from_chars(&msg)))
    }
}

/// What setting `attr` of the item `semantic` to `value` leaves: the edited document and
/// `Ok`, or, when the attribute cannot be found, the document unchanged and the
/// `XmpElementMissing` error naming what is missing.
pub open spec fn replace_in_item_post(
    before: Seq<char>,
    after: Seq<char>,
    semantic: Seq<char>,
    attr: Seq<char>,
    value: Seq<char>,
    r: Result<(), LiveMuxError>,
) -> bool {
    match replaced_item_attr(before, semantic, attr, value) {
        Ok(x) => r is Ok && after == x,
        Err(m) => after == before && (r matches Err(LiveMuxError::XmpElementMissing(msg))
            && msg@ == m),
    }
}

} // verus!

verus! {

/// `s` with `t` inserted at index `i`.
fn insert_chars(s: &[char], i: usize, t: &[char]) -> (r: Vec<char>)
    requires
        i <= s@.len(),
    ensures
        r@ == insert_at(s@, i as int, t@),
{
    let mut out = copy_range(s, 0, i);
    append_slice(&mut out, t);
    append_slice(&mut out, &copy_range(s, i, s.len()));
    assert(out@ =~= insert_at(s@, i as int, t@));
    out
}

impl XmpDocument {
    /// Merges the source image's XMP into this document: the source rdf:Description's
    /// namespace declarations not yet present, its attributes worth copying, and its child
    /// elements except the container directory.
    pub fn merge_source_xmp(&mut self, source_xmp: &str) -> (r: Result<(), LiveMuxError>)
        requires
            mergeable(source_xmp@),
        ensures
            match merged_xml(old(self)@, source_xmp@) {
                Some(x) => r is Ok && final(self)@ == x,
                None => final(self)@ == old(self)@ && (r matches Err(
                    LiveMuxError::XmpElementMissing(m),
                ) && m@ == "rdf:Description in source"@),
            },
    {
        let source = chars_of(source_xmp);
        let open = chars_of(DESCRIPTION_OPEN);
        let desc_start = match find_chars(&source, &open) {
            Some(p) => p,
            None => {
                return Err(
                    LiveMuxError::XmpElementMissing(
                        string_from_chars(&chars_of("rdf:Description in source")),
                    ),
                );
            },
        };
        proof {
            lemma_find_props(source@, open@);
        }
        let after_desc = copy_range(&source, desc_start, source.len());
        assert(after_desc@ =~= source@.skip(desc_start as int));
        if let Some(attrs_end) = find_description_attrs_end(&after_desc) {
            proof {
                lemma_tag_end_range(after_desc@, 0, false);
            }
            let desc_tag = copy_range(&after_desc, 0, attrs_end);
            assert(desc_tag@ =~= after_desc@.take(attrs_end as int));
            let xmlns = extract_xmlns_attrs(&desc_tag);
            self.insert_xmlns(&xmlns);
            let attrs = extract_description_attrs(&desc_tag);
            self.insert_attrs(&attrs);
        }
        if let Some(children) = extract_description_children(&source) {
            let filtered = trim_chars(&without_directory_chars(&children));
            if filtered.len() > 0 {
                let close = chars_of(DESCRIPTION_CLOSE);
                proof {
                    lemma_find_props(self.xml@, close@);
                }
                if let Some(pos) = find_chars(&self.xml, &close) {
                    let mut block = concat_chars(&chars_of("      "), &filtered);
                    append_slice(&mut block, &chars_of("\n    "));
                    self.xml = insert_chars(&self.xml, pos, &block);
                }
            }
        }
        Ok(())
    }

    /// Inserts the declarations not yet present after the value of `xmlns:HDRGainMap=`.
    fn insert_xmlns(&mut self, decls: &Vec<Vec<char>>)
        ensures
            final(self)@ == with_xmlns(old(self)@, texts_view(decls@)),
    {
        if decls.len() == 0 {
            return;
        }
        let anchor = chars_of(XMLNS_ANCHOR);
        proof {
            lemma_find_props(self.xml@, anchor@);
        }
        let pos = match find_chars(&self.xml, &anchor) {
            Some(p) => p,
            None => return,
        };
        let after = copy_range(&self.xml, pos, self.xml.len());
        assert(after@ =~= self.xml@.skip(pos as int));
        proof {
            lemma_find_props(after@, seq!['"']);
        }
        let q1 = match find_char(&after, '"') {
            Some(q) => q,
            None => return,
        };
        let rest = copy_range(&after, q1 + 1, after.len());
        assert(rest@ =~= after@.skip(q1 + 1));
        proof {
            lemma_find_props(rest@, seq!['"']);
        }
        let q2 = match find_char(&rest, '"') {
            Some(q) => q,
            None => return,
        };
        let insert_at_pos = pos + q1 + 1 + q2 + 1;
        let indent = chars_of("\n        ");
        let mut ns_str: Vec<char> = Vec::new();
        let mut i: usize = 0;
        let ghost dv = texts_view(decls@);
        while i < decls.len()
            invariant
                i <= decls@.len(),
                dv == texts_view(decls@),
                indent@ == "\n        "@,
                ns_str@ == new_xmlns_text(dv.take(i as int), self.xml@),
            decreases decls@.len() - i,
        {
            assert(dv.take(i + 1).drop_last() =~= dv.take(i as int));
            assert(dv.take(i + 1).last() == decls@[i as int]@);
            if !contains_chars(&self.xml, &decls[i]) {
                append_slice(&mut ns_str, &indent);
                append_slice(&mut ns_str, &decls[i]);
            }
            i += 1;
        }
        assert(dv.take(decls@.len() as int) =~= dv);
        if ns_str.len() > 0 {
            self.xml = insert_chars(&self.xml, insert_at_pos, &ns_str);
        }
    }

    /// Inserts `attrs` after `GCamera:MotionPhoto="1"`.
    fn insert_attrs(&mut self, attrs: &Vec<Vec<char>>)
        ensures
            final(self)@ == with_attrs(old(self)@, texts_view(attrs@)),
    {
        if attrs.len() == 0 {
            return;
        }
        let anchor = chars_of(ATTRS_ANCHOR);
        proof {
            lemma_find_props(self.xml@, anchor@);
        }
        let pos = match find_chars(&self.xml, &anchor) {
            Some(p) => p,
            None => return,
        };
        let xml_len = self.xml.len();
        assert(pos + anchor@.len() <= xml_len);
        let at = pos + anchor.len();
        let indent = chars_of("\n      ");
        let mut attr_str: Vec<char> = Vec::new();
        let mut i: usize = 0;
        let ghost av = texts_view(attrs@);
        while i < attrs.len()
            invariant
                i <= attrs@.len(),
                av == texts_view(attrs@),
                indent@ == "\n      "@,
                attr_str@ == attrs_text(av.take(i as int)),
            decreases attrs@.len() - i,
        {
            assert(av.take(i + 1).drop_last() =~= av.take(i as int));
            assert(av.take(i + 1).last() == attrs@[i as int]@);
            append_slice(&mut attr_str, &indent);
            append_slice(&mut attr_str, &attrs[i]);
            i += 1;
        }
        assert(av.take(attrs@.len() as int) =~= av);
        self.xml = insert_chars(&self.xml, at, &attr_str);
    }
}

/// Can `merge_source_xmp` take this source? (It cannot when reading the source's
/// attributes would cut a multi-byte character in two.)
pub fn source_xmp_is_mergeable(source_xmp: &str) -> (b: bool)
    ensures
        b == mergeable(source_xmp@),
{
    let source = chars_of(source_xmp);
    let open = chars_of(DESCRIPTION_OPEN);
    let desc_start = match find_chars(&source, &open) {
        Some(p) => p,
        None => return true,
    };
    proof {
        lemma_find_props(source@, open@);
    }
    let after_desc = copy_range(&source, desc_start, source.len());
    assert(after_desc@ =~= source@.skip(desc_start as int));
    match find_description_attrs_end(&after_desc) {
        Some(attrs_end) => {
            proof {
                lemma_tag_end_range(after_desc@, 0, false);
            }
            let desc_tag = copy_range(&after_desc, 0, attrs_end);
            assert(desc_tag@ =~= after_desc@.take(attrs_end as int));
            attr_scan_is_ok(&desc_tag)
        },
        None => true,
    }
}

/// Does reading the attributes of `tag` keep to whole characters?
fn attr_scan_is_ok(tag: &[char]) -> (b: bool)
    ensures
        b == attr_scan_ok(tag@),
{
    let mut remaining: Vec<char> = copy_range(tag, 0, tag.len());
    assert(remaining@ =~= tag@);
    loop
        invariant
            attr_scan_ok(tag@) == attr_scan_ok(remaining@),
        decreases remaining@.len(),
    {
        let rem_len = remaining.len();
        let eq_pos = match find_char(&remaining, '=') {
            Some(p) => p,
            None => return true,
        };
        let before_eq = trim_end_chars(&copy_range(&remaining, 0, eq_pos));
        if let Some(p) = last_name_boundary(&before_eq) {
            if (before_eq[p] as u32) >= 128 {
                return false;
            }
        }
        let after_eq = copy_range(&remaining, eq_pos + 1, remaining.len());
        assert(after_eq@ =~= remaining@.skip(eq_pos + 1));
        let qi = match first_quote(&after_eq) {
            Some(q) => q,
            None => return true,
        };
        let q = after_eq[qi];
        let tail = copy_range(&after_eq, qi + 1, after_eq.len());
        assert(tail@ =~= after_eq@.skip(qi + 1));
        let val_end = match find_char(&tail, q) {
            Some(e) => e,
            None => return true,
        };
        let next = copy_range(&after_eq, qi + 1 + val_end + 1, after_eq.len());
        assert(next@ =~= after_eq@.skip(qi + 1 + val_end + 1));
        remaining = next;
    }
}

} // verus!
