//! A small XML reader and writer for the registry's wire documents.
//!
//! The reader turns a byte sequence into a document tree of elements,
//! attributes and text (entities decoded, whitespace-only text dropped); the
//! schema-specific mapping in `serial` walks that tree. The grammar accepted
//! is defined by the `spec_parse_*` functions, and the executable reader is
//! proved to return exactly what they say.

use vstd::prelude::*;

verus! {

/// One attribute of an element, name and already-unescaped value.
#[derive(Debug)]
pub struct XmlAttr {
    pub name: Vec<u8>,
    pub value: Vec<u8>,
}

/// One element: its name, attributes in order, and children in order.
#[derive(Debug)]
pub struct XmlElement {
    pub name: Vec<u8>,
    pub attrs: Vec<XmlAttr>,
    pub children: Vec<XmlNode>,
}

/// One child of an element: a nested element or a run of text.
#[derive(Debug)]
pub enum XmlNode {
    Elem(XmlElement),
    Text(Vec<u8>),
}

/// View of `XmlAttr`.
pub struct AttrV {
    pub name: Seq<u8>,
    pub value: Seq<u8>,
}

/// View of `XmlElement`.
pub struct ElemV {
    pub name: Seq<u8>,
    pub attrs: Seq<AttrV>,
    pub children: Seq<NodeV>,
}

/// View of `XmlNode`.
pub enum NodeV {
    Elem(ElemV),
    Text(Seq<u8>),
}

impl View for XmlAttr {
    type V = AttrV;

    open spec fn view(&self) -> AttrV {
        AttrV { name: self.name@, value: self.value@ }
    }
}

/// The view of a node, structurally.
pub open spec fn view_node(n: XmlNode) -> NodeV
    decreases n,
    via view_node_decreases
{
    match n {
        XmlNode::Text(t) => NodeV::Text(t@),
        XmlNode::Elem(e) => NodeV::Elem(
            ElemV {
                name: e.name@,
                attrs: e.attrs@.map_values(|a: XmlAttr| a@),
                children: Seq::new(
                    e.children@.len(),
                    |i: int|
                        if 0 <= i < e.children@.len() {
                            view_node(e.children@[i])
                        } else {
                            NodeV::Text(Seq::empty())
                        },
                ),
            },
        ),
    }
}

#[via_fn]
proof fn view_node_decreases(n: XmlNode) {
    match n {
        XmlNode::Elem(e) => {
            assert(decreases_to!(n => e));
            assert(decreases_to!(e => e.children));
            assert(decreases_to!(e.children => e.children@));
            assert forall|i: int| 0 <= i < e.children@.len() implies decreases_to!(
                e.children@ => e.children@[i]
            ) by {
                vstd::seq::axiom_seq_index_decreases(e.children@, i);
            }
        },
        XmlNode::Text(_) => {},
    }
}

impl View for XmlNode {
    type V = NodeV;

    open spec fn view(&self) -> NodeV {
        view_node(*self)
    }
}

impl View for XmlElement {
    type V = ElemV;

    open spec fn view(&self) -> ElemV {
        ElemV {
            name: self.name@,
            attrs: self.attrs@.map_values(|a: XmlAttr| a@),
            children: Seq::new(
                self.children@.len(),
                |i: int|
                    if 0 <= i < self.children@.len() {
                        view_node(self.children@[i])
                    } else {
                        NodeV::Text(Seq::empty())
                    },
            ),
        }
    }
}

// --- byte classes ---

/// XML whitespace.
pub open spec fn is_ws(b: u8) -> bool {
    b == 0x20 || b == 0x09 || b == 0x0a || b == 0x0d
}

fn is_ws_exec(b: u8) -> (r: bool)
    ensures
        r == is_ws(b),
{
    b == 0x20 || b == 0x09 || b == 0x0a || b == 0x0d
}

/// Bytes accepted in an element or attribute name: ASCII letters and digits,
/// `_`, `-`, `.` and `:`.
pub open spec fn is_name_byte(b: u8) -> bool {
    (0x41 <= b && b <= 0x5a) || (0x61 <= b && b <= 0x7a) || (0x30 <= b && b <= 0x39) || b == 0x5f
        || b == 0x2d || b == 0x2e || b == 0x3a
}

fn is_name_byte_exec(b: u8) -> (r: bool)
    ensures
        r == is_name_byte(b),
{
    (0x41 <= b && b <= 0x5a) || (0x61 <= b && b <= 0x7a) || (0x30 <= b && b <= 0x39) || b == 0x5f
        || b == 0x2d || b == 0x2e || b == 0x3a
}

// --- lexing: whitespace, names, text with entities ---

/// The first position at or after `pos` holding a non-whitespace byte (or the
/// end of input).
pub open spec fn spec_skip_ws(s: Seq<u8>, pos: int) -> int
    decreases s.len() - pos,
{
    if 0 <= pos < s.len() && is_ws(s[pos]) {
        spec_skip_ws(s, pos + 1)
    } else {
        pos
    }
}

fn skip_ws(s: &[u8], pos: usize) -> (r: usize)
    requires
        pos <= s@.len(),
    ensures
        r == spec_skip_ws(s@, pos as int),
        pos <= r <= s@.len(),
{
    let mut p = pos;
    while p < s.len() && is_ws_exec(s[p])
        invariant
            pos <= p <= s@.len(),
            spec_skip_ws(s@, pos as int) == spec_skip_ws(s@, p as int),
        decreases s@.len() - p,
    {
        p += 1;
    }
    p
}

/// The end of the name starting at `pos`: the first position at or after it
/// holding a non-name byte.
pub open spec fn spec_name_end(s: Seq<u8>, pos: int) -> int
    decreases s.len() - pos,
{
    if 0 <= pos < s.len() && is_name_byte(s[pos]) {
        spec_name_end(s, pos + 1)
    } else {
        pos
    }
}

/// A name at `pos`: at least one name byte.
pub open spec fn spec_parse_name(s: Seq<u8>, pos: int) -> Option<(Seq<u8>, int)> {
    let e = spec_name_end(s, pos);
    if e > pos {
        Some((s.subrange(pos, e), e))
    } else {
        None
    }
}

fn parse_name(s: &[u8], pos: usize) -> (r: Option<(Vec<u8>, usize)>)
    requires
        pos <= s@.len(),
    ensures
        match r {
            Some((n, p)) => spec_parse_name(s@, pos as int) == Some((n@, p as int)) && pos < p
                <= s@.len(),
            None => spec_parse_name(s@, pos as int) is None,
        },
{
    let mut p = pos;
    let mut out: Vec<u8> = Vec::new();
    while p < s.len() && is_name_byte_exec(s[p])
        invariant
            pos <= p <= s@.len(),
            spec_name_end(s@, pos as int) == spec_name_end(s@, p as int),
            out@ == s@.subrange(pos as int, p as int),
        decreases s@.len() - p,
    {
        out.push(s[p]);
        proof {
            assert(s@.subrange(pos as int, p as int).push(s@[p as int]) =~= s@.subrange(
                pos as int,
                p + 1,
            ));
        }
        p += 1;
    }
    if p > pos {
        Some((out, p))
    } else {
        None
    }
}

/// Text until the `stop` byte, decoding the five named entities. Fails on
/// the end of input, on a raw `<` (unless `<` is the stop byte) and on an
/// unknown entity.
pub open spec fn spec_parse_text(s: Seq<u8>, pos: int, stop: u8) -> Option<(Seq<u8>, int)>
    decreases s.len() - pos,
{
    if pos < 0 || pos >= s.len() {
        None
    } else if s[pos] == stop {
        Some((Seq::empty(), pos))
    } else if s[pos] == 0x26 {
        // "&"
        if pos + 3 < s.len() && s[pos + 1] == 0x6c && s[pos + 2] == 0x74 && s[pos + 3] == 0x3b {
            // "&lt;"
            match spec_parse_text(s, pos + 4, stop) {
                Some((t, p)) => Some((seq![0x3cu8] + t, p)),
                None => None,
            }
        } else if pos + 3 < s.len() && s[pos + 1] == 0x67 && s[pos + 2] == 0x74 && s[pos + 3]
            == 0x3b {
            // "&gt;"
            match spec_parse_text(s, pos + 4, stop) {
                Some((t, p)) => Some((seq![0x3eu8] + t, p)),
                None => None,
            }
        } else if pos + 4 < s.len() && s[pos + 1] == 0x61 && s[pos + 2] == 0x6d && s[pos + 3]
            == 0x70 && s[pos + 4] == 0x3b {
            // "&amp;"
            match spec_parse_text(s, pos + 5, stop) {
                Some((t, p)) => Some((seq![0x26u8] + t, p)),
                None => None,
            }
        } else if pos + 5 < s.len() && s[pos + 1] == 0x71 && s[pos + 2] == 0x75 && s[pos + 3]
            == 0x6f && s[pos + 4] == 0x74 && s[pos + 5] == 0x3b {
            // "&quot;"
            match spec_parse_text(s, pos + 6, stop) {
                Some((t, p)) => Some((seq![0x22u8] + t, p)),
                None => None,
            }
        } else if pos + 5 < s.len() && s[pos + 1] == 0x61 && s[pos + 2] == 0x70 && s[pos + 3]
            == 0x6f && s[pos + 4] == 0x73 && s[pos + 5] == 0x3b {
            // "&apos;"
            match spec_parse_text(s, pos + 6, stop) {
                Some((t, p)) => Some((seq![0x27u8] + t, p)),
                None => None,
            }
        } else {
            None
        }
    } else if s[pos] == 0x3c {
        // a raw "<" is markup, never text
        None
    } else {
        match spec_parse_text(s, pos + 1, stop) {
            Some((t, p)) => Some((seq![s[pos]] + t, p)),
            None => None,
        }
    }
}

fn parse_text(s: &[u8], pos: usize, stop: u8) -> (r: Option<(Vec<u8>, usize)>)
    requires
        pos <= s@.len(),
    ensures
        match r {
            Some((t, p)) => spec_parse_text(s@, pos as int, stop) == Some((t@, p as int)) && pos
                <= p < s@.len(),
            None => spec_parse_text(s@, pos as int, stop) is None,
        },
    decreases s@.len() - pos,
{
    if pos >= s.len() {
        None
    } else if s[pos] == stop {
        Some((Vec::new(), pos))
    } else if s[pos] == 0x26 {
        let remaining = s.len() - pos;
        let (decoded, next): (u8, usize) = if remaining > 3 && s[pos + 1] == 0x6c && s[pos + 2]
            == 0x74 && s[pos + 3] == 0x3b {
            (0x3c, pos + 4)
        } else if remaining > 3 && s[pos + 1] == 0x67 && s[pos + 2] == 0x74 && s[pos + 3] == 0x3b {
            (0x3e, pos + 4)
        } else if remaining > 4 && s[pos + 1] == 0x61 && s[pos + 2] == 0x6d && s[pos + 3] == 0x70
            && s[pos + 4] == 0x3b {
            (0x26, pos + 5)
        } else if remaining > 5 && s[pos + 1] == 0x71 && s[pos + 2] == 0x75 && s[pos + 3] == 0x6f
            && s[pos + 4] == 0x74 && s[pos + 5] == 0x3b {
            (0x22, pos + 6)
        } else if remaining > 5 && s[pos + 1] == 0x61 && s[pos + 2] == 0x70 && s[pos + 3] == 0x6f
            && s[pos + 4] == 0x73 && s[pos + 5] == 0x3b {
            (0x27, pos + 6)
        } else {
            return None;
        };
        match parse_text(s, next, stop) {
            Some((mut t, p)) => {
                t.insert(0, decoded);
                proof {
                    assert(t@ =~= seq![decoded] + t@.drop_first());
                }
                Some((t, p))
            },
            None => None,
        }
    } else if s[pos] == 0x3c {
        None
    } else {
        match parse_text(s, pos + 1, stop) {
            Some((mut t, p)) => {
                let b = s[pos];
                t.insert(0, b);
                proof {
                    assert(t@ =~= seq![b] + t@.drop_first());
                }
                Some((t, p))
            },
            None => None,
        }
    }
}

/// The view of an element node is the element's view.
pub proof fn lemma_view_node_elem(e: XmlElement)
    ensures
        view_node(XmlNode::Elem(e)) == NodeV::Elem(e@),
{
    let a = view_node(XmlNode::Elem(e));
    assert(a->Elem_0.attrs =~= e@.attrs);
    assert(a->Elem_0.children =~= e@.children);
}

/// The views of a sequence of child nodes.
pub open spec fn view_children(cs: Seq<XmlNode>) -> Seq<NodeV> {
    Seq::new(
        cs.len(),
        |i: int|
            if 0 <= i < cs.len() {
                view_node(cs[i])
            } else {
                NodeV::Text(Seq::empty())
            },
    )
}

/// Whether a text run is whitespace only (and so no content).
pub open spec fn all_ws(t: Seq<u8>) -> bool {
    forall|i: int| 0 <= i < t.len() ==> is_ws(t[i])
}

fn all_ws_exec(t: &Vec<u8>) -> (r: bool)
    ensures
        r == all_ws(t@),
{
    let mut i: usize = 0;
    while i < t.len()
        invariant
            i <= t@.len(),
            forall|j: int| 0 <= j < i ==> is_ws(t@[j]),
        decreases t@.len() - i,
    {
        if !is_ws_exec(t[i]) {
            return false;
        }
        i += 1;
    }
    true
}

// --- the document grammar ---
//
// The element and node-list productions recurse into one another, so they
// carry a fuel bound; parsing a whole document supplies one unit of fuel per
// input byte and one extra, which no document can exhaust, since every
// recursive step first consumes input.

/// An attribute list: whitespace-separated `name="value"` pairs (either
/// quote), ending before the first thing that is not a name.
pub open spec fn spec_parse_attrs(s: Seq<u8>, pos: int, fuel: nat) -> Option<(Seq<AttrV>, int)>
    decreases fuel,
{
    if fuel == 0 {
        None
    } else {
        let p = spec_skip_ws(s, pos);
        match spec_parse_name(s, p) {
            None => Some((Seq::empty(), p)),
            Some((n, p1)) => {
                let p2 = spec_skip_ws(s, p1);
                if p2 < s.len() && s[p2] == 0x3d {
                    let p3 = spec_skip_ws(s, p2 + 1);
                    if p3 < s.len() && (s[p3] == 0x22 || s[p3] == 0x27) {
                        match spec_parse_text(s, p3 + 1, s[p3]) {
                            None => None,
                            Some((v, p4)) => match spec_parse_attrs(s, p4 + 1, (fuel - 1) as nat) {
                                None => None,
                                Some((rest, p5)) => Some(
                                    (seq![AttrV { name: n, value: v }] + rest, p5),
                                ),
                            },
                        }
                    } else {
                        None
                    }
                } else {
                    None
                }
            },
        }
    }
}

/// One element: `<name attrs/>` or `<name attrs> children </name>`, the end
/// tag naming the same element.
pub open spec fn spec_parse_element(s: Seq<u8>, pos: int, fuel: nat) -> Option<(ElemV, int)>
    decreases fuel,
{
    if fuel == 0 {
        None
    } else if pos < s.len() && s[pos] == 0x3c {
        match spec_parse_name(s, pos + 1) {
            None => None,
            Some((name, p1)) => match spec_parse_attrs(s, p1, (fuel - 1) as nat) {
                None => None,
                Some((attrs, p2)) => {
                    if p2 < s.len() && s[p2] == 0x2f {
                        if p2 + 1 < s.len() && s[p2 + 1] == 0x3e {
                            Some((ElemV { name, attrs, children: Seq::empty() }, p2 + 2))
                        } else {
                            None
                        }
                    } else if p2 < s.len() && s[p2] == 0x3e {
                        match spec_parse_nodes(s, p2 + 1, (fuel - 1) as nat) {
                            None => None,
                            Some((children, p3)) => {
                                if p3 + 1 < s.len() && s[p3] == 0x3c && s[p3 + 1] == 0x2f {
                                    match spec_parse_name(s, p3 + 2) {
                                        None => None,
                                        Some((ename, p4)) => {
                                            let p5 = spec_skip_ws(s, p4);
                                            if ename == name && p5 < s.len() && s[p5] == 0x3e {
                                                Some((ElemV { name, attrs, children }, p5 + 1))
                                            } else {
                                                None
                                            }
                                        },
                                    }
                                } else {
                                    None
                                }
                            },
                        }
                    } else {
                        None
                    }
                },
            },
        }
    } else {
        None
    }
}

/// A run of children: elements and non-whitespace text runs, up to an end
/// tag or the end of input.
pub open spec fn spec_parse_nodes(s: Seq<u8>, pos: int, fuel: nat) -> Option<(Seq<NodeV>, int)>
    decreases fuel,
{
    if fuel == 0 {
        None
    } else if pos >= s.len() {
        Some((Seq::empty(), pos))
    } else if s[pos] == 0x3c {
        if pos + 1 < s.len() && s[pos + 1] == 0x2f {
            Some((Seq::empty(), pos))
        } else {
            match spec_parse_element(s, pos, (fuel - 1) as nat) {
                None => None,
                Some((e, p)) => match spec_parse_nodes(s, p, (fuel - 1) as nat) {
                    None => None,
                    Some((rest, p2)) => Some((seq![NodeV::Elem(e)] + rest, p2)),
                },
            }
        }
    } else {
        match spec_parse_text(s, pos, 0x3c) {
            None => None,
            Some((t, p)) => match spec_parse_nodes(s, p, (fuel - 1) as nat) {
                None => None,
                Some((rest, p2)) => if all_ws(t) {
                    Some((rest, p2))
                } else {
                    Some((seq![NodeV::Text(t)] + rest, p2))
                },
            },
        }
    }
}

fn parse_attrs(s: &[u8], pos: usize, fuel: usize) -> (r: Option<(Vec<XmlAttr>, usize)>)
    requires
        pos <= s@.len(),
    ensures
        match r {
            Some((a, p)) => spec_parse_attrs(s@, pos as int, fuel as nat) == Some(
                (a@.map_values(|x: XmlAttr| x@), p as int),
            ) && p <= s@.len(),
            None => spec_parse_attrs(s@, pos as int, fuel as nat) is None,
        },
    decreases fuel,
{
    if fuel == 0 {
        return None;
    }
    let p = skip_ws(s, pos);
    match parse_name(s, p) {
        None => {
            let empty: Vec<XmlAttr> = Vec::new();
            proof {
                assert(empty@.map_values(|x: XmlAttr| x@) =~= Seq::<AttrV>::empty());
            }
            Some((empty, p))
        },
        Some((n, p1)) => {
            let p2 = skip_ws(s, p1);
            if p2 < s.len() && s[p2] == 0x3d {
                let p3 = skip_ws(s, p2 + 1);
                if p3 < s.len() && (s[p3] == 0x22 || s[p3] == 0x27) {
                    match parse_text(s, p3 + 1, s[p3]) {
                        None => None,
                        Some((v, p4)) => match parse_attrs(s, p4 + 1, fuel - 1) {
                            None => None,
                            Some((mut rest, p5)) => {
                                let attr = XmlAttr { name: n, value: v };
                                let ghost attrv = attr@;
                                rest.insert(0, attr);
                                proof {
                                    assert(rest@.map_values(|x: XmlAttr| x@) =~= seq![attrv]
                                        + rest@.drop_first().map_values(|x: XmlAttr| x@));
                                }
                                Some((rest, p5))
                            },
                        },
                    }
                } else {
                    None
                }
            } else {
                None
            }
        },
    }
}

fn parse_element(s: &[u8], pos: usize, fuel: usize) -> (r: Option<(XmlElement, usize)>)
    requires
        pos <= s@.len(),
    ensures
        match r {
            Some((e, p)) => spec_parse_element(s@, pos as int, fuel as nat) == Some(
                (e@, p as int),
            ) && p <= s@.len(),
            None => spec_parse_element(s@, pos as int, fuel as nat) is None,
        },
    decreases fuel,
{
    if fuel == 0 {
        return None;
    }
    if pos < s.len() && s[pos] == 0x3c {
        match parse_name(s, pos + 1) {
            None => None,
            Some((name, p1)) => match parse_attrs(s, p1, fuel - 1) {
                None => None,
                Some((attrs, p2)) => {
                    if p2 < s.len() && s[p2] == 0x2f {
                        if s.len() - p2 > 1 && s[p2 + 1] == 0x3e {
                            let e = XmlElement { name, attrs, children: Vec::new() };
                            proof {
                                assert(e@.children =~= Seq::<NodeV>::empty());
                                assert(e@.attrs =~= e.attrs@.map_values(|x: XmlAttr| x@));
                            }
                            Some((e, p2 + 2))
                        } else {
                            None
                        }
                    } else if p2 < s.len() && s[p2] == 0x3e {
                        match parse_nodes(s, p2 + 1, fuel - 1) {
                            None => None,
                            Some((children, p3)) => {
                                if s.len() - p3 > 1 && s[p3] == 0x3c && s[p3 + 1] == 0x2f {
                                    match parse_name(s, p3 + 2) {
                                        None => None,
                                        Some((ename, p4)) => {
                                            let p5 = skip_ws(s, p4);
                                            if crate::codec::bytes_eq(
                                                ename.as_slice(),
                                                name.as_slice(),
                                            ) && p5 < s.len() && s[p5] == 0x3e {
                                                let e = XmlElement { name, attrs, children };
                                                proof {
                                                    assert(e@.children =~= view_children(
                                                        e.children@,
                                                    ));
                                                    assert(e@.attrs =~= e.attrs@.map_values(
                                                        |x: XmlAttr| x@,
                                                    ));
                                                }
                                                Some((e, p5 + 1))
                                            } else {
                                                None
                                            }
                                        },
                                    }
                                } else {
                                    None
                                }
                            },
                        }
                    } else {
                        None
                    }
                },
            },
        }
    } else {
        None
    }
}

fn parse_nodes(s: &[u8], pos: usize, fuel: usize) -> (r: Option<(Vec<XmlNode>, usize)>)
    requires
        pos <= s@.len(),
    ensures
        match r {
            Some((v, p)) => spec_parse_nodes(s@, pos as int, fuel as nat) == Some(
                (view_children(v@), p as int),
            ) && p <= s@.len(),
            None => spec_parse_nodes(s@, pos as int, fuel as nat) is None,
        },
    decreases fuel,
{
    if fuel == 0 {
        return None;
    }
    if pos >= s.len() {
        let empty: Vec<XmlNode> = Vec::new();
        proof {
            assert(view_children(empty@) =~= Seq::<NodeV>::empty());
        }
        Some((empty, pos))
    } else if s[pos] == 0x3c {
        if s.len() - pos > 1 && s[pos + 1] == 0x2f {
            let empty: Vec<XmlNode> = Vec::new();
            proof {
                assert(view_children(empty@) =~= Seq::<NodeV>::empty());
            }
            Some((empty, pos))
        } else {
            match parse_element(s, pos, fuel - 1) {
                None => None,
                Some((e, p)) => match parse_nodes(s, p, fuel - 1) {
                    None => None,
                    Some((mut rest, p2)) => {
                        let ghost ev = e@;
                        let node = XmlNode::Elem(e);
                        let ghost nodev = node@;
                        proof {
                            lemma_view_node_elem(node->Elem_0);
                            assert(nodev == NodeV::Elem(ev));
                        }
                        rest.insert(0, node);
                        proof {
                            assert(view_children(rest@) =~= seq![nodev] + view_children(
                                rest@.drop_first(),
                            ));
                        }
                        Some((rest, p2))
                    },
                },
            }
        }
    } else {
        match parse_text(s, pos, 0x3c) {
            None => None,
            Some((t, p)) => match parse_nodes(s, p, fuel - 1) {
                None => None,
                Some((mut rest, p2)) => {
                    if all_ws_exec(&t) {
                        Some((rest, p2))
                    } else {
                        let node = XmlNode::Text(t);
                        let ghost nodev = node@;
                        rest.insert(0, node);
                        proof {
                            assert(view_children(rest@) =~= seq![nodev] + view_children(
                                rest@.drop_first(),
                            ));
                        }
                        Some((rest, p2))
                    }
                },
            },
        }
    }
}

// --- the document prolog ---
//
// Before the root element a document may carry an XML declaration or other
// processing instruction (`<?...?>`) and comments (`<!--...-->`), separated
// by whitespace; a reader skips them.

/// The position right after the `?>` that closes a processing instruction,
/// scanning from `pos`; nothing when the input ends first.
pub open spec fn spec_pi_end(s: Seq<u8>, pos: int) -> Option<int>
    decreases s.len() - pos,
{
    if 0 <= pos && pos + 1 < s.len() && s[pos] == 0x3f && s[pos + 1] == 0x3e {
        Some(pos + 2)
    } else if 0 <= pos < s.len() {
        spec_pi_end(s, pos + 1)
    } else {
        None
    }
}

/// The position right after the `-->` that closes a comment, scanning from
/// `pos`; nothing when the input ends first.
pub open spec fn spec_comment_end(s: Seq<u8>, pos: int) -> Option<int>
    decreases s.len() - pos,
{
    if 0 <= pos && pos + 2 < s.len() && s[pos] == 0x2d && s[pos + 1] == 0x2d && s[pos + 2]
        == 0x3e {
        Some(pos + 3)
    } else if 0 <= pos < s.len() {
        spec_comment_end(s, pos + 1)
    } else {
        None
    }
}

/// The position after the document prolog: whitespace, processing
/// instructions and comments are skipped; an unterminated one fails.
pub open spec fn spec_skip_prolog(s: Seq<u8>, pos: int, fuel: nat) -> Option<int>
    decreases fuel,
{
    if fuel == 0 {
        None
    } else {
        let p = spec_skip_ws(s, pos);
        if p + 1 < s.len() && s[p] == 0x3c && s[p + 1] == 0x3f {
            match spec_pi_end(s, p + 2) {
                Some(q) => spec_skip_prolog(s, q, (fuel - 1) as nat),
                None => None,
            }
        } else if p + 3 < s.len() && s[p] == 0x3c && s[p + 1] == 0x21 && s[p + 2] == 0x2d && s[p
            + 3] == 0x2d {
            match spec_comment_end(s, p + 4) {
                Some(q) => spec_skip_prolog(s, q, (fuel - 1) as nat),
                None => None,
            }
        } else {
            Some(p)
        }
    }
}

fn pi_end(s: &[u8], pos: usize) -> (r: Option<usize>)
    requires
        pos <= s@.len(),
    ensures
        match r {
            Some(q) => spec_pi_end(s@, pos as int) == Some(q as int) && pos < q <= s@.len(),
            None => spec_pi_end(s@, pos as int) is None,
        },
{
    let mut p = pos;
    while p < s.len()
        invariant
            pos <= p <= s@.len(),
            spec_pi_end(s@, pos as int) == spec_pi_end(s@, p as int),
        decreases s@.len() - p,
    {
        if s.len() - p > 1 && s[p] == 0x3f && s[p + 1] == 0x3e {
            return Some(p + 2);
        }
        p += 1;
    }
    None
}

fn comment_end(s: &[u8], pos: usize) -> (r: Option<usize>)
    requires
        pos <= s@.len(),
    ensures
        match r {
            Some(q) => spec_comment_end(s@, pos as int) == Some(q as int) && pos < q <= s@.len(),
            None => spec_comment_end(s@, pos as int) is None,
        },
{
    let mut p = pos;
    while p < s.len()
        invariant
            pos <= p <= s@.len(),
            spec_comment_end(s@, pos as int) == spec_comment_end(s@, p as int),
        decreases s@.len() - p,
    {
        if s.len() - p > 2 && s[p] == 0x2d && s[p + 1] == 0x2d && s[p + 2] == 0x3e {
            return Some(p + 3);
        }
        p += 1;
    }
    None
}

fn skip_prolog(s: &[u8], pos: usize, fuel: usize) -> (r: Option<usize>)
    requires
        pos <= s@.len(),
    ensures
        match r {
            Some(q) => spec_skip_prolog(s@, pos as int, fuel as nat) == Some(q as int) && q
                <= s@.len(),
            None => spec_skip_prolog(s@, pos as int, fuel as nat) is None,
        },
    decreases fuel,
{
    if fuel == 0 {
        return None;
    }
    let p = skip_ws(s, pos);
    if s.len() - p > 1 && s[p] == 0x3c && s[p + 1] == 0x3f {
        match pi_end(s, p + 2) {
            Some(q) => skip_prolog(s, q, fuel - 1),
            None => None,
        }
    } else if s.len() - p > 3 && s[p] == 0x3c && s[p + 1] == 0x21 && s[p + 2] == 0x2d && s[p + 3]
        == 0x2d {
        match comment_end(s, p + 4) {
            Some(q) => skip_prolog(s, q, fuel - 1),
            None => None,
        }
    } else {
        Some(p)
    }
}

/// A whole document: the prolog (whitespace, an XML declaration or other
/// processing instructions, comments), one element, optional trailing
/// whitespace, nothing else. The fuel never runs out on an input this long.
pub open spec fn doc_fuel(s: Seq<u8>) -> nat {
    if s.len() + 1 <= usize::MAX {
        (s.len() + 1) as nat
    } else {
        s.len()
    }
}

/// What parsing a whole document yields, if anything.
pub open spec fn spec_parse_document(s: Seq<u8>) -> Option<ElemV> {
    match spec_skip_prolog(s, 0, doc_fuel(s)) {
        None => None,
        Some(p0) => match spec_parse_element(s, p0, doc_fuel(s)) {
            None => None,
            Some((e, p)) => {
                let p2 = spec_skip_ws(s, p);
                if p2 == s.len() {
                    Some(e)
                } else {
                    None
                }
            },
        },
    }
}

/// Parses a whole document from bytes.
pub fn parse_document_bytes(s: &[u8]) -> (r: Option<XmlElement>)
    ensures
        match r {
            Some(e) => spec_parse_document(s@) == Some(e@),
            None => spec_parse_document(s@) is None,
        },
{
    let fuel: usize = if s.len() < usize::MAX {
        s.len() + 1
    } else {
        s.len()
    };
    let p0 = match skip_prolog(s, 0, fuel) {
        Some(p0) => p0,
        None => {
            return None;
        },
    };
    match parse_element(s, p0, fuel) {
        None => None,
        Some((e, p)) => {
            let p2 = skip_ws(s, p);
            if p2 == s.len() {
                Some(e)
            } else {
                None
            }
        },
    }
}

// --- reading the tree ---
//
// The schema mapping reads fields out of a parsed element. Where the same
// child or attribute occurs twice, the later one counts, as a sequential
// reader that assigns each occurrence would leave it.

/// The last element child with the given name, if any.
pub open spec fn last_elem_named(cs: Seq<NodeV>, name: Seq<u8>) -> Option<ElemV>
    decreases cs.len(),
{
    if cs.len() == 0 {
        None
    } else {
        match cs.last() {
            NodeV::Elem(c) => if c.name == name {
                Some(c)
            } else {
                last_elem_named(cs.drop_last(), name)
            },
            NodeV::Text(_) => last_elem_named(cs.drop_last(), name),
        }
    }
}

/// The value of the last attribute with the given name, if any.
pub open spec fn last_attr(attrs: Seq<AttrV>, name: Seq<u8>) -> Option<Seq<u8>>
    decreases attrs.len(),
{
    if attrs.len() == 0 {
        None
    } else if attrs.last().name == name {
        Some(attrs.last().value)
    } else {
        last_attr(attrs.drop_last(), name)
    }
}

/// The concatenated text children of an element.
pub open spec fn spec_text_content(cs: Seq<NodeV>) -> Seq<u8>
    decreases cs.len(),
{
    if cs.len() == 0 {
        Seq::empty()
    } else {
        spec_text_content(cs.drop_last()) + match cs.last() {
            NodeV::Text(t) => t,
            NodeV::Elem(_) => Seq::empty(),
        }
    }
}

/// Finds the last element child with the given name.
pub fn find_last_child<'a>(e: &'a XmlElement, name: &[u8]) -> (r: Option<&'a XmlElement>)
    ensures
        match r {
            Some(c) => last_elem_named(e@.children, name@) == Some(c@),
            None => last_elem_named(e@.children, name@) is None,
        },
{
    let ghost cs = e@.children;
    let mut res: Option<&'a XmlElement> = None;
    let mut i: usize = 0;
    while i < e.children.len()
        invariant
            cs == e@.children,
            i <= e.children@.len(),
            cs.len() == e.children@.len(),
            match res {
                Some(c) => last_elem_named(cs.take(i as int), name@) == Some(c@),
                None => last_elem_named(cs.take(i as int), name@) is None,
            },
        decreases e.children@.len() - i,
    {
        proof {
            assert(cs.take(i + 1).drop_last() =~= cs.take(i as int));
            assert(cs.take(i + 1).last() == cs[i as int]);
            assert(cs[i as int] == view_node(e.children@[i as int]));
        }
        match &e.children[i] {
            XmlNode::Elem(c) => {
                proof {
                    lemma_view_node_elem(*c);
                }
                if crate::codec::bytes_eq(c.name.as_slice(), name) {
                    res = Some(c);
                }
            },
            XmlNode::Text(_) => {},
        }
        i += 1;
    }
    proof {
        assert(cs.take(cs.len() as int) =~= cs);
    }
    res
}

/// Finds the value of the last attribute with the given name.
pub fn find_attr<'a>(e: &'a XmlElement, name: &[u8]) -> (r: Option<&'a Vec<u8>>)
    ensures
        match r {
            Some(v) => last_attr(e@.attrs, name@) == Some(v@),
            None => last_attr(e@.attrs, name@) is None,
        },
{
    let ghost attrs = e@.attrs;
    let mut res: Option<&'a Vec<u8>> = None;
    let mut i: usize = 0;
    while i < e.attrs.len()
        invariant
            attrs == e@.attrs,
            i <= e.attrs@.len(),
            attrs.len() == e.attrs@.len(),
            match res {
                Some(v) => last_attr(attrs.take(i as int), name@) == Some(v@),
                None => last_attr(attrs.take(i as int), name@) is None,
            },
        decreases e.attrs@.len() - i,
    {
        proof {
            assert(attrs.take(i + 1).drop_last() =~= attrs.take(i as int));
            assert(attrs.take(i + 1).last() == attrs[i as int]);
            assert(attrs[i as int] == e.attrs@[i as int]@);
        }
        if crate::codec::bytes_eq(e.attrs[i].name.as_slice(), name) {
            res = Some(&e.attrs[i].value);
        }
        i += 1;
    }
    proof {
        assert(attrs.take(attrs.len() as int) =~= attrs);
    }
    res
}

/// Collects the concatenated text children of an element.
pub fn text_content(e: &XmlElement) -> (r: Vec<u8>)
    ensures
        r@ == spec_text_content(e@.children),
{
    let ghost cs = e@.children;
    let mut out: Vec<u8> = Vec::new();
    let mut i: usize = 0;
    while i < e.children.len()
        invariant
            cs == e@.children,
            i <= e.children@.len(),
            cs.len() == e.children@.len(),
            out@ == spec_text_content(cs.take(i as int)),
        decreases e.children@.len() - i,
    {
        proof {
            assert(cs.take(i + 1).drop_last() =~= cs.take(i as int));
            assert(cs.take(i + 1).last() == cs[i as int]);
            assert(cs[i as int] == view_node(e.children@[i as int]));
        }
        match &e.children[i] {
            XmlNode::Text(t) => {
                crate::codec::push_bytes(&mut out, t.as_slice());
            },
            XmlNode::Elem(_) => {
                proof {
                    assert(out@ + Seq::<u8>::empty() =~= out@);
                }
            },
        }
        i += 1;
    }
    proof {
        assert(cs.take(cs.len() as int) =~= cs);
    }
    out
}

// --- writing ---

/// What one byte contributes to escaped text: the five XML-special bytes
/// become entities, everything else passes through.
pub open spec fn esc_chunk(b: u8) -> Seq<u8> {
    if b == 0x26 {
        seq![0x26u8, 0x61u8, 0x6du8, 0x70u8, 0x3bu8]  // "&amp;"
    } else if b == 0x3c {
        seq![0x26u8, 0x6cu8, 0x74u8, 0x3bu8]  // "&lt;"
    } else if b == 0x3e {
        seq![0x26u8, 0x67u8, 0x74u8, 0x3bu8]  // "&gt;"
    } else if b == 0x22 {
        seq![0x26u8, 0x71u8, 0x75u8, 0x6fu8, 0x74u8, 0x3bu8]  // "&quot;"
    } else if b == 0x27 {
        seq![0x26u8, 0x61u8, 0x70u8, 0x6fu8, 0x73u8, 0x3bu8]  // "&apos;"
    } else {
        seq![b]
    }
}

/// Text as written into a document, all five special bytes escaped.
pub open spec fn escaped(s: Seq<u8>) -> Seq<u8>
    decreases s.len(),
{
    if s.len() == 0 {
        Seq::empty()
    } else {
        escaped(s.drop_last()) + esc_chunk(s.last())
    }
}

/// Appends `s` to `out`, escaping the five XML-special bytes.
pub fn push_escaped(out: &mut Vec<u8>, s: &[u8])
    ensures
        final(out)@ == old(out)@ + escaped(s@),
{
    let mut i: usize = 0;
    while i < s.len()
        invariant
            i <= s@.len(),
            out@ == old(out)@ + escaped(s@.take(i as int)),
        decreases s@.len() - i,
    {
        let b = s[i];
        proof {
            assert(s@.take(i + 1).drop_last() =~= s@.take(i as int));
            assert(s@.take(i + 1).last() == b);
        }
        let ghost pre = out@;
        if b == 0x26 {
            out.push(0x26);
            out.push(0x61);
            out.push(0x6d);
            out.push(0x70);
            out.push(0x3b);
        } else if b == 0x3c {
            out.push(0x26);
            out.push(0x6c);
            out.push(0x74);
            out.push(0x3b);
        } else if b == 0x3e {
            out.push(0x26);
            out.push(0x67);
            out.push(0x74);
            out.push(0x3b);
        } else if b == 0x22 {
            out.push(0x26);
            out.push(0x71);
            out.push(0x75);
            out.push(0x6f);
            out.push(0x74);
            out.push(0x3b);
        } else if b == 0x27 {
            out.push(0x26);
            out.push(0x61);
            out.push(0x70);
            out.push(0x6f);
            out.push(0x73);
            out.push(0x3b);
        } else {
            out.push(b);
        }
        proof {
            assert(out@ =~= pre + esc_chunk(b));
            assert(pre + esc_chunk(b) =~= old(out)@ + escaped(s@.take(i + 1)));
        }
        i += 1;
    }
    proof {
        assert(s@.take(s@.len() as int) =~= s@);
    }
}

} // verus!
