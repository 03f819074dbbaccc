//! A small XML reader for sprite sheet descriptors.
//!
//! The documents this crate reads are of one fixed shape: a single root
//! element carrying attributes, holding only whitespace and childless
//! elements (self-closing, or an open tag directly followed by its close
//! tag).  This module reads exactly that subset, byte for byte: names are
//! ASCII name characters, attribute values are quoted with `"` or `'` and
//! taken literally, and whitespace may surround tags, attributes and the
//! `=` sign.  Declarations, comments, text content, nested children and
//! character entities are outside the subset and rejected.
//!
//! The reader is total and deterministic: [`parse_document`] returns the
//! value of [`spec_document`] on the same bytes, and `None` means the input
//! is not in the subset.

use vstd::prelude::*;

use crate::util::copy_bytes;
use crate::util::bytes_eq;
use vstd::slice::slice_subrange;

verus! {

/// The mathematical value of one attribute: its name and its literal value.
#[verifier::ext_equal]
pub struct AttrS {
    pub name: Seq<u8>,
    pub value: Seq<u8>,
}

/// The mathematical value of one childless element.
#[verifier::ext_equal]
pub struct ChildS {
    pub name: Seq<u8>,
    pub attrs: Seq<AttrS>,
}

/// The mathematical value of a whole document.
#[verifier::ext_equal]
pub struct DocS {
    pub root_name: Seq<u8>,
    pub root_attrs: Seq<AttrS>,
    pub children: Seq<ChildS>,
}

/// One attribute as read: its name and its literal value bytes.
#[derive(Debug, Clone)]
pub struct Attr {
    pub name: Vec<u8>,
    pub value: Vec<u8>,
}

impl View for Attr {
    type V = AttrS;

    open spec fn view(&self) -> AttrS {
        AttrS { name: self.name@, value: self.value@ }
    }
}

/// One childless element as read.
#[derive(Debug, Clone)]
pub struct RawChild {
    pub name: Vec<u8>,
    pub attrs: Vec<Attr>,
}

/// The sequence of mathematical values of a sequence of attributes.
pub open spec fn attrs_view(s: Seq<Attr>) -> Seq<AttrS> {
    s.map_values(|a: Attr| a@)
}

impl View for RawChild {
    type V = ChildS;

    open spec fn view(&self) -> ChildS {
        ChildS { name: self.name@, attrs: attrs_view(self.attrs@) }
    }
}

/// The sequence of mathematical values of a sequence of elements.
pub open spec fn children_view(s: Seq<RawChild>) -> Seq<ChildS> {
    s.map_values(|c: RawChild| c@)
}

/// A whole document as read: the root's name and attributes, and the
/// childless elements within, in document order.
#[derive(Debug, Clone)]
pub struct RawDoc {
    pub root_name: Vec<u8>,
    pub root_attrs: Vec<Attr>,
    pub children: Vec<RawChild>,
}

impl View for RawDoc {
    type V = DocS;

    open spec fn view(&self) -> DocS {
        DocS {
            root_name: self.root_name@,
            root_attrs: attrs_view(self.root_attrs@),
            children: children_view(self.children@),
        }
    }
}

/// True when `b` is XML whitespace: space, tab, carriage return, newline.
pub open spec fn is_ws(b: u8) -> bool {
    b == 32 || b == 9 || b == 13 || b == 10
}

/// True when `b` may open a name: an ASCII letter, `_` or `:`.
pub open spec fn is_name_start(b: u8) -> bool {
    (65 <= b <= 90) || (97 <= b <= 122) || b == 95 || b == 58
}

/// True when `b` may continue a name: a name-start byte, a digit, `-` or
/// `.`.
pub open spec fn is_name_char(b: u8) -> bool {
    is_name_start(b) || (48 <= b <= 57) || b == 45 || b == 46
}

/// The first position at or after `i` holding no whitespace, or the length.
pub open spec fn skip_ws(s: Seq<u8>, i: int) -> int
    decreases s.len() - i,
{
    if 0 <= i && i < s.len() && is_ws(s[i]) {
        skip_ws(s, i + 1)
    } else {
        i
    }
}

/// The end of the run of name bytes starting at `i`.
pub open spec fn name_end(s: Seq<u8>, i: int) -> int
    decreases s.len() - i,
{
    if 0 <= i && i < s.len() && is_name_char(s[i]) {
        name_end(s, i + 1)
    } else {
        i
    }
}

/// The position of the closing quote `q` at or after `i`, provided no `<`
/// stands before it; `None` when the value never closes.
pub open spec fn value_end(s: Seq<u8>, i: int, q: u8) -> Option<int>
    decreases s.len() - i,
{
    if i < 0 || i >= s.len() {
        None
    } else if s[i] == q {
        Some(i)
    } else if s[i] == 60 {
        None
    } else {
        value_end(s, i + 1, q)
    }
}

pub proof fn lemma_skip_ws_bounds(s: Seq<u8>, i: int)
    requires
        0 <= i <= s.len(),
    ensures
        i <= skip_ws(s, i) <= s.len(),
    decreases s.len() - i,
{
    if i < s.len() && is_ws(s[i]) {
        lemma_skip_ws_bounds(s, i + 1);
    }
}

pub proof fn lemma_name_end_bounds(s: Seq<u8>, i: int)
    requires
        0 <= i <= s.len(),
    ensures
        i <= name_end(s, i) <= s.len(),
    decreases s.len() - i,
{
    if i < s.len() && is_name_char(s[i]) {
        lemma_name_end_bounds(s, i + 1);
    }
}

pub proof fn lemma_value_end_bounds(s: Seq<u8>, i: int, q: u8)
    requires
        0 <= i <= s.len(),
    ensures
        value_end(s, i, q) matches Some(ve) ==> i <= ve < s.len(),
    decreases s.len() - i,
{
    if 0 <= i && i < s.len() && s[i] != q && s[i] != 60 {
        lemma_value_end_bounds(s, i + 1, q);
    }
}

/// The attributes written from position `i` on: each is whitespace, then a
/// name, `=` (whitespace allowed around it) and a quoted literal value.
/// The pair gives the attributes in order and the position after them,
/// with trailing whitespace consumed.  `None` when what stands there is not
/// an attribute list.
pub open spec fn spec_attrs(s: Seq<u8>, i: int) -> Option<(Seq<AttrS>, int)>
    decreases s.len() - i,
{
    if i < 0 {
        None
    } else {
        let j = skip_ws(s, i);
        if j < s.len() && is_name_start(s[j]) {
            if j == i {
                // an attribute must follow whitespace
                None
            } else {
                let ne = name_end(s, j);
                let k = skip_ws(s, ne);
                if k < s.len() && s[k] == 61 {
                    let q = skip_ws(s, k + 1);
                    if q < s.len() && (s[q] == 34 || s[q] == 39) {
                        match value_end(s, q + 1, s[q]) {
                            Some(ve) => {
                                proof {
                                    lemma_skip_ws_bounds(s, i);
                                    lemma_name_end_bounds(s, j);
                                    lemma_skip_ws_bounds(s, ne);
                                    lemma_skip_ws_bounds(s, k + 1);
                                    lemma_value_end_bounds(s, q + 1, s[q]);
                                }
                                match spec_attrs(s, ve + 1) {
                                    Some((rest, end)) => Some(
                                        (
                                            seq![
                                                AttrS {
                                                    name: s.subrange(j, ne),
                                                    value: s.subrange(q + 1, ve),
                                                },
                                            ] + rest,
                                            end,
                                        ),
                                    ),
                                    None => None,
                                }
                            },
                            None => None,
                        }
                    } else {
                        None
                    }
                } else {
                    None
                }
            }
        } else {
            Some((Seq::empty(), j))
        }
    }
}

pub proof fn lemma_spec_attrs_bounds(s: Seq<u8>, i: int)
    requires
        0 <= i <= s.len(),
    ensures
        spec_attrs(s, i) matches Some(p) ==> i <= p.1 <= s.len(),
    decreases s.len() - i,
{
    let j = skip_ws(s, i);
    lemma_skip_ws_bounds(s, i);
    if j < s.len() && is_name_start(s[j]) && j != i {
        let ne = name_end(s, j);
        lemma_name_end_bounds(s, j);
        let k = skip_ws(s, ne);
        lemma_skip_ws_bounds(s, ne);
        if k < s.len() && s[k] == 61 {
            let q = skip_ws(s, k + 1);
            lemma_skip_ws_bounds(s, k + 1);
            if q < s.len() && (s[q] == 34 || s[q] == 39) {
                lemma_value_end_bounds(s, q + 1, s[q]);
                match value_end(s, q + 1, s[q]) {
                    Some(ve) => {
                        lemma_spec_attrs_bounds(s, ve + 1);
                    },
                    None => {},
                }
            }
        }
    }
}

/// An opening tag at `i`: `<`, a name, attributes, then `>` or `/>`.  The
/// tuple gives the name, the attributes, whether the tag closed itself, and
/// the position after it.
pub open spec fn spec_tag_open(s: Seq<u8>, i: int) -> Option<(Seq<u8>, Seq<AttrS>, bool, int)> {
    if 0 <= i && i < s.len() && s[i] == 60 && i + 1 < s.len() && is_name_start(s[i + 1]) {
        let ne = name_end(s, i + 1);
        let nm = s.subrange(i + 1, ne);
        match spec_attrs(s, ne) {
            Some((attrs, p)) => {
                if p < s.len() && s[p] == 62 {
                    Some((nm, attrs, false, p + 1))
                } else if p < s.len() && s[p] == 47 && p + 1 < s.len() && s[p + 1] == 62 {
                    Some((nm, attrs, true, p + 2))
                } else {
                    None
                }
            },
            None => None,
        }
    } else {
        None
    }
}

pub proof fn lemma_spec_tag_open_bounds(s: Seq<u8>, i: int)
    requires
        0 <= i <= s.len(),
    ensures
        spec_tag_open(s, i) matches Some(p) ==> i < p.3 <= s.len(),
{
    if 0 <= i && i < s.len() && s[i] == 60 && i + 1 < s.len() && is_name_start(s[i + 1]) {
        lemma_name_end_bounds(s, i + 1);
        lemma_spec_attrs_bounds(s, name_end(s, i + 1));
    }
}

/// A closing tag at `i` for the element named `nm`: `</`, the same name,
/// optional whitespace, `>`.  Gives the position after it.
pub open spec fn spec_close_tag(s: Seq<u8>, i: int, nm: Seq<u8>) -> Option<int> {
    if 0 <= i && i + 1 < s.len() && s[i] == 60 && s[i + 1] == 47 && i + 2 < s.len()
        && is_name_start(s[i + 2]) {
        let ne = name_end(s, i + 2);
        if s.subrange(i + 2, ne) == nm {
            let k = skip_ws(s, ne);
            if k < s.len() && s[k] == 62 {
                Some(k + 1)
            } else {
                None
            }
        } else {
            None
        }
    } else {
        None
    }
}

pub proof fn lemma_spec_close_tag_bounds(s: Seq<u8>, i: int, nm: Seq<u8>)
    requires
        0 <= i <= s.len(),
    ensures
        spec_close_tag(s, i, nm) matches Some(e) ==> i < e <= s.len(),
{
    if 0 <= i && i + 1 < s.len() && s[i] == 60 && s[i + 1] == 47 && i + 2 < s.len()
        && is_name_start(s[i + 2]) {
        lemma_name_end_bounds(s, i + 2);
        lemma_skip_ws_bounds(s, name_end(s, i + 2));
    }
}

/// A childless element at `i`: an opening tag that closes itself, or an
/// opening tag followed (after whitespace) directly by its closing tag.
pub open spec fn spec_child(s: Seq<u8>, i: int) -> Option<(ChildS, int)> {
    match spec_tag_open(s, i) {
        Some((nm, attrs, selfclosing, e)) => {
            if selfclosing {
                Some((ChildS { name: nm, attrs }, e))
            } else {
                let m = skip_ws(s, e);
                match spec_close_tag(s, m, nm) {
                    Some(e2) => Some((ChildS { name: nm, attrs }, e2)),
                    None => None,
                }
            }
        },
        None => None,
    }
}

pub proof fn lemma_spec_child_bounds(s: Seq<u8>, i: int)
    requires
        0 <= i <= s.len(),
    ensures
        spec_child(s, i) matches Some(p) ==> i < p.1 <= s.len(),
{
    lemma_spec_tag_open_bounds(s, i);
    match spec_tag_open(s, i) {
        Some((nm, attrs, selfclosing, e)) => {
            if !selfclosing {
                lemma_skip_ws_bounds(s, e);
                lemma_spec_close_tag_bounds(s, skip_ws(s, e), nm);
            }
        },
        None => {},
    }
}

/// The childless elements written from `i` on, separated by whitespace,
/// up to (not consuming) a closing tag.  Gives the elements in document
/// order and the position of the closing tag's `<`.  `None` on text
/// content, a nested element's early end, or an unclosed document.
pub open spec fn spec_children(s: Seq<u8>, i: int) -> Option<(Seq<ChildS>, int)>
    decreases s.len() - i,
{
    if i < 0 {
        None
    } else {
        let j = skip_ws(s, i);
        if j < s.len() && s[j] == 60 {
            if j + 1 < s.len() && s[j + 1] == 47 {
                Some((Seq::empty(), j))
            } else {
                match spec_child(s, j) {
                    Some((c, k)) => {
                        proof {
                            lemma_skip_ws_bounds(s, i);
                            lemma_spec_child_bounds(s, j);
                        }
                        match spec_children(s, k) {
                            Some((rest, e)) => Some((seq![c] + rest, e)),
                            None => None,
                        }
                    },
                    None => None,
                }
            }
        } else {
            None
        }
    }
}

/// The whole document: optional whitespace, one root element whose content
/// is only whitespace and childless elements, optional whitespace, end of
/// input.
pub open spec fn spec_document(s: Seq<u8>) -> Option<DocS> {
    let i = skip_ws(s, 0);
    match spec_tag_open(s, i) {
        Some((nm, attrs, selfclosing, e)) => {
            if selfclosing {
                if skip_ws(s, e) == s.len() {
                    Some(DocS { root_name: nm, root_attrs: attrs, children: Seq::empty() })
                } else {
                    None
                }
            } else {
                match spec_children(s, e) {
                    Some((cs, p)) => {
                        match spec_close_tag(s, p, nm) {
                            Some(e2) => {
                                if skip_ws(s, e2) == s.len() {
                                    Some(DocS { root_name: nm, root_attrs: attrs, children: cs })
                                } else {
                                    None
                                }
                            },
                            None => None,
                        }
                    },
                    None => None,
                }
            }
        },
        None => None,
    }
}

fn is_ws_x(b: u8) -> (r: bool)
    ensures
        r == is_ws(b),
{
    b == 32 || b == 9 || b == 13 || b == 10
}

fn is_name_start_x(b: u8) -> (r: bool)
    ensures
        r == is_name_start(b),
{
    (65 <= b && b <= 90) || (97 <= b && b <= 122) || b == 95 || b == 58
}

fn is_name_char_x(b: u8) -> (r: bool)
    ensures
        r == is_name_char(b),
{
    is_name_start_x(b) || (48 <= b && b <= 57) || b == 45 || b == 46
}

fn skip_ws_x(s: &[u8], i: usize) -> (r: usize)
    requires
        i as int <= s@.len(),
    ensures
        r as int == skip_ws(s@, i as int),
        i <= r,
        r as int <= s@.len(),
    decreases s@.len() - i,
{
    if i < s.len() && is_ws_x(s[i]) {
        skip_ws_x(s, i + 1)
    } else {
        i
    }
}

fn name_end_x(s: &[u8], i: usize) -> (r: usize)
    requires
        i as int <= s@.len(),
    ensures
        r as int == name_end(s@, i as int),
        i <= r,
        r as int <= s@.len(),
        (i as int) < s@.len() && is_name_char(s@[i as int]) ==> r > i,
    decreases s@.len() - i,
{
    if i < s.len() && is_name_char_x(s[i]) {
        name_end_x(s, i + 1)
    } else {
        i
    }
}

fn value_end_x(s: &[u8], i: usize, q: u8) -> (r: Option<usize>)
    requires
        i as int <= s@.len(),
    ensures
        r is None ==> value_end(s@, i as int, q) is None,
        r matches Some(ve) ==> value_end(s@, i as int, q) == Some(ve as int) && i <= ve && (
        ve as int) < s@.len(),
    decreases s@.len() - i,
{
    if i >= s.len() {
        None
    } else if s[i] == q {
        Some(i)
    } else if s[i] == 60 {
        None
    } else {
        value_end_x(s, i + 1, q)
    }
}

fn parse_attrs_x(s: &[u8], i: usize) -> (r: Option<(Vec<Attr>, usize)>)
    requires
        i as int <= s@.len(),
    ensures
        r is None ==> spec_attrs(s@, i as int) is None,
        r matches Some(p) ==> spec_attrs(s@, i as int) matches Some(sp) && attrs_view(p.0@)
            == sp.0 && p.1 as int == sp.1 && i <= p.1 && p.1 as int <= s@.len(),
    decreases s@.len() - i,
{
    let j = skip_ws_x(s, i);
    if j < s.len() && is_name_start_x(s[j]) {
        if j == i {
            return None;
        }
        let ne = name_end_x(s, j);
        let k = skip_ws_x(s, ne);
        if k < s.len() && s[k] == 61 {
            let q = skip_ws_x(s, k + 1);
            if q < s.len() && (s[q] == 34 || s[q] == 39) {
                match value_end_x(s, q + 1, s[q]) {
                    Some(ve) => {
                        match parse_attrs_x(s, ve + 1) {
                            Some(rp) => {
                                let (mut rest, end) = rp;
                                let name = copy_bytes(slice_subrange(s, j, ne));
                                let value = copy_bytes(slice_subrange(s, q + 1, ve));
                                let ghost old_rest = rest@;
                                rest.insert(0, Attr { name, value });
                                proof {
                                    assert(attrs_view(rest@) =~= seq![
                                        AttrS {
                                            name: s@.subrange(j as int, ne as int),
                                            value: s@.subrange(q + 1, ve as int),
                                        },
                                    ] + attrs_view(old_rest));
                                }
                                Some((rest, end))
                            },
                            None => None,
                        }
                    },
                    None => None,
                }
            } else {
                None
            }
        } else {
            None
        }
    } else {
        Some((Vec::new(), j))
    }
}

fn parse_tag_open_x(s: &[u8], i: usize) -> (r: Option<(Vec<u8>, Vec<Attr>, bool, usize)>)
    requires
        i as int <= s@.len(),
    ensures
        r is None ==> spec_tag_open(s@, i as int) is None,
        r matches Some(p) ==> spec_tag_open(s@, i as int) matches Some(sp) && p.0@ == sp.0
            && attrs_view(p.1@) == sp.1 && p.2 == sp.2 && p.3 as int == sp.3 && i < p.3 && (
        p.3 as int) <= s@.len(),
{
    if i < s.len() && s[i] == 60 && i + 1 < s.len() && is_name_start_x(s[i + 1]) {
        let ne = name_end_x(s, i + 1);
        let nm = copy_bytes(slice_subrange(s, i + 1, ne));
        match parse_attrs_x(s, ne) {
            Some(ap) => {
                let (attrs, p) = ap;
                if p < s.len() && s[p] == 62 {
                    Some((nm, attrs, false, p + 1))
                } else if p < s.len() && s[p] == 47 && p + 1 < s.len() && s[p + 1] == 62 {
                    Some((nm, attrs, true, p + 2))
                } else {
                    None
                }
            },
            None => None,
        }
    } else {
        None
    }
}

fn parse_close_tag_x(s: &[u8], i: usize, nm: &[u8]) -> (r: Option<usize>)
    requires
        i as int <= s@.len(),
    ensures
        r is None ==> spec_close_tag(s@, i as int, nm@) is None,
        r matches Some(e) ==> spec_close_tag(s@, i as int, nm@) == Some(e as int) && i < e && (
        e as int) <= s@.len(),
{
    if i < s.len() && s[i] == 60 && i + 1 < s.len() && s[i + 1] == 47 && i + 2 < s.len()
        && is_name_start_x(s[i + 2]) {
        let ne = name_end_x(s, i + 2);
        let seen = slice_subrange(s, i + 2, ne);
        if bytes_eq(seen, nm) {
            let k = skip_ws_x(s, ne);
            if k < s.len() && s[k] == 62 {
                Some(k + 1)
            } else {
                None
            }
        } else {
            None
        }
    } else {
        None
    }
}

fn parse_child_x(s: &[u8], i: usize) -> (r: Option<(RawChild, usize)>)
    requires
        i as int <= s@.len(),
    ensures
        r is None ==> spec_child(s@, i as int) is None,
        r matches Some(p) ==> spec_child(s@, i as int) matches Some(sp) && p.0@ == sp.0
            && p.1 as int == sp.1 && i < p.1 && (p.1 as int) <= s@.len(),
{
    match parse_tag_open_x(s, i) {
        Some(tp) => {
            let (nm, attrs, selfclosing, e) = tp;
            if selfclosing {
                Some((RawChild { name: nm, attrs }, e))
            } else {
                let m = skip_ws_x(s, e);
                match parse_close_tag_x(s, m, nm.as_slice()) {
                    Some(e2) => Some((RawChild { name: nm, attrs }, e2)),
                    None => None,
                }
            }
        },
        None => None,
    }
}

fn parse_children_x(s: &[u8], i: usize) -> (r: Option<(Vec<RawChild>, usize)>)
    requires
        i as int <= s@.len(),
    ensures
        r is None ==> spec_children(s@, i as int) is None,
        r matches Some(p) ==> spec_children(s@, i as int) matches Some(sp) && children_view(p.0@)
            == sp.0 && p.1 as int == sp.1 && i <= p.1 && (p.1 as int) <= s@.len(),
    decreases s@.len() - i,
{
    let j = skip_ws_x(s, i);
    if j < s.len() && s[j] == 60 {
        if j + 1 < s.len() && s[j + 1] == 47 {
            Some((Vec::new(), j))
        } else {
            match parse_child_x(s, j) {
                Some(cp) => {
                    let (c, k) = cp;
                    match parse_children_x(s, k) {
                        Some(rp) => {
                            let (mut rest, e) = rp;
                            let ghost old_rest = rest@;
                            let ghost cs = c@;
                            rest.insert(0, c);
                            proof {
                                assert(children_view(rest@) =~= seq![cs] + children_view(
                                    old_rest,
                                ));
                            }
                            Some((rest, e))
                        },
                        None => None,
                    }
                },
                None => None,
            }
        }
    } else {
        None
    }
}

/// Reads a whole document from `s`: the value of [`spec_document`] on the
/// same bytes, or `None` when `s` is not a document of the subset.
pub fn parse_document(s: &[u8]) -> (r: Option<RawDoc>)
    ensures
        r is None ==> spec_document(s@) is None,
        r matches Some(d) ==> spec_document(s@) == Some(d@),
{
    let i = skip_ws_x(s, 0);
    match parse_tag_open_x(s, i) {
        Some(tp) => {
            let (nm, attrs, selfclosing, e) = tp;
            if selfclosing {
                if skip_ws_x(s, e) == s.len() {
                    let d = RawDoc { root_name: nm, root_attrs: attrs, children: Vec::new() };
                    proof {
                        assert(children_view(Seq::<RawChild>::empty()) =~= Seq::<ChildS>::empty());
                    }
                    Some(d)
                } else {
                    None
                }
            } else {
                match parse_children_x(s, e) {
                    Some(cp) => {
                        let (cs, p) = cp;
                        match parse_close_tag_x(s, p, nm.as_slice()) {
                            Some(e2) => {
                                if skip_ws_x(s, e2) == s.len() {
                                    Some(RawDoc { root_name: nm, root_attrs: attrs, children: cs })
                                } else {
                                    None
                                }
                            },
                            None => None,
                        }
                    },
                    None => None,
                }
            }
        },
        None => None,
    }
}

} // verus!
