//! TOK token documents: a table of element names, a table of typed
//! attribute names, then a tree of nodes that refer to both by index.

use vstd::prelude::*;
use crate::bytes::{le16, signed16, signed8, get_i16_le, to_i8};
use crate::text::{lossy_utf8, utf8_lossy, decimal_text, decimal_string};

verus! {

/// The type of an attribute's values.
#[derive(Copy, Clone, PartialEq, Eq, Structural, Debug)]
pub enum TokAttrType {
    CString,
    SInt16,
    SInt8,
    Unknown(u8),
}

/// The type that a stored type code names.
pub open spec fn attr_type_of(v: u8) -> TokAttrType {
    if v == 1 {
        TokAttrType::CString
    } else if v == 3 {
        TokAttrType::SInt16
    } else if v == 4 {
        TokAttrType::SInt8
    } else {
        TokAttrType::Unknown(v)
    }
}

impl From<u8> for TokAttrType {
    fn from(v: u8) -> (r: Self) {
        match v {
            1 => TokAttrType::CString,
            3 => TokAttrType::SInt16,
            4 => TokAttrType::SInt8,
            other => TokAttrType::Unknown(other),
        }
    }
}

impl vstd::std_specs::convert::FromSpecImpl<u8> for TokAttrType {
    open spec fn obeys_from_spec() -> bool {
        true
    }

    open spec fn from_spec(v: u8) -> TokAttrType {
        attr_type_of(v)
    }
}

/// An element name with its 1-based index.
pub struct TokElement {
    pub index: u8,
    pub name: String,
}

/// An attribute name with its 1-based index and its type.
pub struct TokAttribute {
    pub index: u8,
    pub attr_type: TokAttrType,
    pub name: String,
}

/// A node of the document: its element, its attributes as name and value
/// texts, and its children.
pub struct TokNode {
    pub element_index: u8,
    pub element_name: String,
    pub attributes: Vec<(String, String)>,
    pub children: Vec<TokNode>,
}

/// A whole document.
pub struct TokFile {
    pub elements: Vec<TokElement>,
    pub attributes: Vec<TokAttribute>,
    pub root_nodes: Vec<TokNode>,
}

/// Why a TOK document cannot be read.
#[derive(Copy, Clone, PartialEq, Eq, Structural, Debug)]
pub enum TokError {
    /// A number value runs past the end of the data.
    UnexpectedEof,
}

/// What reading a document can run into beyond a plain error: data on
/// which the reader stops with a panic.
#[derive(Copy, Clone, PartialEq, Eq, Structural, Debug)]
pub enum TokFault {
    UnexpectedEof,
    Malformed,
}

// ------------------------------------------------------------------ spec

/// The outcome of reading from a position: a value and the position after
/// it, the end-of-data error, or a stop on data the reader cannot take.
pub enum TokStep<T> {
    Done(T, int),
    Eof,
    Crash,
}

/// A node as texts and sequences.
pub struct TokNodeView {
    pub element_index: u8,
    pub element_name: Seq<char>,
    pub attributes: Seq<(Seq<char>, Seq<char>)>,
    pub children: Seq<TokNodeView>,
}

/// The view of a node.
pub open spec fn node_view(n: TokNode) -> TokNodeView
    decreases n, 1int,
{
    TokNodeView {
        element_index: n.element_index,
        element_name: n.element_name@,
        attributes: pairs_view(n.attributes@),
        children: nodes_view(n.children@),
    }
}

/// The views of nodes.
pub open spec fn nodes_view(s: Seq<TokNode>) -> Seq<TokNodeView>
    decreases s, 0int,
{
    if s.len() == 0 {
        Seq::empty()
    } else {
        nodes_view(s.drop_last()).push(node_view(s.last()))
    }
}

/// Name and value pairs as texts.
pub open spec fn pairs_view(s: Seq<(String, String)>) -> Seq<(Seq<char>, Seq<char>)> {
    Seq::new(s.len(), |i: int| (s[i].0@, s[i].1@))
}

/// The first NUL byte at or after `pos`, or the end of the data.
pub open spec fn first_nul(b: Seq<u8>, pos: int) -> int
    decreases b.len() - pos,
{
    if pos < 0 || pos >= b.len() {
        b.len() as int
    } else if b[pos] == 0 {
        pos
    } else {
        first_nul(b, pos + 1)
    }
}

pub proof fn lemma_first_nul(b: Seq<u8>, pos: int)
    requires
        0 <= pos <= b.len(),
    ensures
        pos <= first_nul(b, pos) <= b.len(),
        forall|i: int| pos <= i < first_nul(b, pos) ==> b[i] != 0,
        first_nul(b, pos) < b.len() ==> b[first_nul(b, pos)] == 0,
    decreases b.len() - pos,
{
    if pos < b.len() && b[pos] != 0 {
        lemma_first_nul(b, pos + 1);
    }
}

/// The NUL-terminated text at `pos` (decoded with replacement) and the
/// position after its NUL; a position past the end of the data stops the
/// reader.
pub open spec fn cstring_at(b: Seq<u8>, pos: int) -> TokStep<Seq<char>> {
    if pos < 0 || pos > b.len() {
        TokStep::Crash
    } else {
        TokStep::Done(lossy_utf8(b.subrange(pos, first_nul(b, pos))), first_nul(b, pos) + 1)
    }
}

/// The element names from `pos` up to the empty one, `k` being read so
/// far; the 256th name stops the reader, its index not fitting a byte.
pub open spec fn elements_from(b: Seq<u8>, pos: int, k: nat) -> TokStep<Seq<Seq<char>>>
    decreases b.len() + 1 - pos,
{
    if pos < 0 || pos > b.len() {
        TokStep::Crash
    } else {
        proof {
            lemma_first_nul(b, pos);
        }
        let s = lossy_utf8(b.subrange(pos, first_nul(b, pos)));
        let p = first_nul(b, pos) + 1;
        if s.len() == 0 {
            TokStep::Done(Seq::empty(), p)
        } else if k % 256 == 255 {
            TokStep::Crash
        } else {
            match elements_from(b, p, k + 1) {
                TokStep::Done(r, q) => TokStep::Done(seq![s] + r, q),
                TokStep::Eof => TokStep::Eof,
                TokStep::Crash => TokStep::Crash,
            }
        }
    }
}

/// The typed attribute names from `pos` up to the type code 0 or the end
/// of the data, `k` being read so far.
pub open spec fn attributes_from(b: Seq<u8>, pos: int, k: nat) -> TokStep<Seq<(TokAttrType, Seq<char>)>>
    decreases b.len() + 1 - pos,
{
    if pos < 0 {
        TokStep::Crash
    } else if pos >= b.len() {
        TokStep::Done(Seq::empty(), pos)
    } else if b[pos] == 0 {
        TokStep::Done(Seq::empty(), pos + 1)
    } else {
        proof {
            lemma_first_nul(b, pos + 1);
        }
        let name = lossy_utf8(b.subrange(pos + 1, first_nul(b, pos + 1)));
        let p = first_nul(b, pos + 1) + 1;
        if k % 256 == 255 {
            TokStep::Crash
        } else {
            match attributes_from(b, p, k + 1) {
                TokStep::Done(r, q) => TokStep::Done(seq![(attr_type_of(b[pos]), name)] + r, q),
                TokStep::Eof => TokStep::Eof,
                TokStep::Crash => TokStep::Crash,
            }
        }
    }
}

/// The value text of an attribute of type `ty` stored at `pos`.
pub open spec fn attr_value(b: Seq<u8>, pos: int, ty: TokAttrType) -> TokStep<Seq<char>> {
    match ty {
        TokAttrType::CString => cstring_at(b, pos),
        TokAttrType::SInt16 => if pos + 2 > b.len() {
            TokStep::Eof
        } else {
            TokStep::Done(decimal_text(signed16(le16(b, pos))), pos + 2)
        },
        TokAttrType::SInt8 => if pos >= b.len() {
            TokStep::Eof
        } else {
            TokStep::Done(decimal_text(signed8(b[pos] as int)), pos + 1)
        },
        TokAttrType::Unknown(_) => TokStep::Done(seq!['?', '?'], pos),
    }
}

/// The attributes of a node from `pos`: attribute indices, each followed by
/// its value, up to the index 0 or an index with no attribute; the end of
/// the data before that stops the reader.
pub open spec fn node_attrs(b: Seq<u8>, pos: int, attrs: Seq<(TokAttrType, Seq<char>)>) -> TokStep<Seq<(Seq<char>, Seq<char>)>>
    decreases b.len() + 1 - pos,
{
    if pos < 0 || pos >= b.len() {
        TokStep::Crash
    } else if b[pos] == 0 || b[pos] - 1 >= attrs.len() {
        TokStep::Done(Seq::empty(), pos + 1)
    } else {
        let a = attrs[b[pos] - 1];
        match attr_value(b, pos + 1, a.0) {
            TokStep::Done(v, p) => if p < pos + 1 || p > b.len() + 1 {
                TokStep::Crash
            } else {
                match node_attrs(b, p, attrs) {
                    TokStep::Done(r, q) => TokStep::Done(seq![(a.1, v)] + r, q),
                    TokStep::Eof => TokStep::Eof,
                    TokStep::Crash => TokStep::Crash,
                }
            },
            TokStep::Eof => TokStep::Eof,
            TokStep::Crash => TokStep::Crash,
        }
    }
}

/// The name of the element of 1-based index `i`, or "unknown_" and the
/// index where there is none.
pub open spec fn element_name_of(elems: Seq<Seq<char>>, i: u8) -> Seq<char> {
    if i - 1 < elems.len() {
        elems[i - 1]
    } else {
        seq!['u', 'n', 'k', 'n', 'o', 'w', 'n', '_'] + decimal_text(i as int)
    }
}

/// The node at `pos`, if any: none at the end of the data or at an element
/// index 0 (which is consumed).
pub open spec fn node_at(b: Seq<u8>, pos: int, elems: Seq<Seq<char>>, attrs: Seq<(TokAttrType, Seq<char>)>) -> TokStep<Option<TokNodeView>>
    decreases b.len() + 2 - pos, 0int,
{
    if pos < 0 {
        TokStep::Crash
    } else if pos >= b.len() {
        TokStep::Done(None, pos)
    } else if b[pos] == 0 {
        TokStep::Done(None, pos + 1)
    } else {
        match node_attrs(b, pos + 1, attrs) {
            TokStep::Done(at, p) => if p <= pos || p > b.len() + 1 {
                TokStep::Crash
            } else {
                match nodes_from(b, p, elems, attrs) {
                    TokStep::Done(kids, q) => TokStep::Done(
                        Some(TokNodeView {
                            element_index: b[pos],
                            element_name: element_name_of(elems, b[pos]),
                            attributes: at,
                            children: kids,
                        }),
                        q,
                    ),
                    TokStep::Eof => TokStep::Eof,
                    TokStep::Crash => TokStep::Crash,
                }
            },
            TokStep::Eof => TokStep::Eof,
            TokStep::Crash => TokStep::Crash,
        }
    }
}

/// The nodes from `pos` up to the first place where there is none.
pub open spec fn nodes_from(b: Seq<u8>, pos: int, elems: Seq<Seq<char>>, attrs: Seq<(TokAttrType, Seq<char>)>) -> TokStep<Seq<TokNodeView>>
    decreases b.len() + 2 - pos, 1int,
{
    if pos < 0 || pos > b.len() + 1 {
        TokStep::Crash
    } else {
        match node_at(b, pos, elems, attrs) {
            TokStep::Done(None, p) => TokStep::Done(Seq::empty(), p),
            TokStep::Done(Some(n), p) => if p <= pos || p > b.len() + 1 {
                TokStep::Crash
            } else {
                match nodes_from(b, p, elems, attrs) {
                    TokStep::Done(r, q) => TokStep::Done(seq![n] + r, q),
                    TokStep::Eof => TokStep::Eof,
                    TokStep::Crash => TokStep::Crash,
                }
            },
            TokStep::Eof => TokStep::Eof,
            TokStep::Crash => TokStep::Crash,
        }
    }
}

/// The whole document: element names, attribute types and names, nodes.
pub open spec fn tok_parse(b: Seq<u8>) -> TokStep<(Seq<Seq<char>>, Seq<(TokAttrType, Seq<char>)>, Seq<TokNodeView>)> {
    match elements_from(b, 0, 0) {
        TokStep::Done(e, p1) => match attributes_from(b, p1, 0) {
            TokStep::Done(a, p2) => match nodes_from(b, p2, e, a) {
                TokStep::Done(n, p3) => TokStep::Done((e, a, n), p3),
                TokStep::Eof => TokStep::Eof,
                TokStep::Crash => TokStep::Crash,
            },
            TokStep::Eof => TokStep::Eof,
            TokStep::Crash => TokStep::Crash,
        },
        TokStep::Eof => TokStep::Eof,
        TokStep::Crash => TokStep::Crash,
    }
}

/// The element table read, as names.
pub open spec fn elements_view(s: Seq<TokElement>) -> Seq<Seq<char>> {
    Seq::new(s.len(), |i: int| s[i].name@)
}

/// The attribute table read, as type codes' types and names.
pub open spec fn attributes_match(s: Seq<TokAttribute>, a: Seq<(TokAttrType, Seq<char>)>) -> bool {
    &&& s.len() == a.len()
    &&& forall|i: int| 0 <= i < s.len() ==> {
        &&& (#[trigger] s[i]).attr_type == a[i].0
        &&& s[i].name@ == a[i].1
        &&& s[i].index == ((i + 1) % 256) as u8
    }
}

/// `f` is the document that `tok_parse` reads from `b`.
pub open spec fn tok_file_matches(b: Seq<u8>, f: TokFile) -> bool {
    match tok_parse(b) {
        TokStep::Done((e, a, n), _) => {
            &&& elements_view(f.elements@) == e
            &&& forall|i: int| 0 <= i < f.elements@.len() ==> (#[trigger] f.elements@[i]).index == ((i + 1) % 256) as u8
            &&& attributes_match(f.attributes@, a)
            &&& nodes_view(f.root_nodes@) == n
        },
        _ => false,
    }
}

// ------------------------------------------------------------------ reading

/// The attribute table as types and names.
pub open spec fn attrs_view(s: Seq<TokAttribute>) -> Seq<(TokAttrType, Seq<char>)> {
    Seq::new(s.len(), |i: int| (s[i].attr_type, s[i].name@))
}

/// `prefix` put before what a step reads.
pub open spec fn glue<T>(prefix: Seq<T>, step: TokStep<Seq<T>>) -> TokStep<Seq<T>> {
    match step {
        TokStep::Done(r, q) => TokStep::Done(prefix + r, q),
        TokStep::Eof => TokStep::Eof,
        TokStep::Crash => TokStep::Crash,
    }
}

/// Reads the NUL-terminated text at `*pos` and moves past its NUL.
fn read_cstring(buf: &[u8], pos: &mut usize) -> (s: String)
    requires
        *old(pos) <= buf.len(),
        buf.len() < usize::MAX,
    ensures
        cstring_at(buf@, *old(pos) as int) == TokStep::Done(s@, *final(pos) as int),
        *final(pos) <= buf.len() + 1,
        *final(pos) > *old(pos),
{
    let start = *pos;
    let mut end = start;
    proof {
        lemma_first_nul(buf@, start as int);
    }
    while end < buf.len() && buf[end] != 0
        invariant
            start <= end <= buf.len(),
            first_nul(buf@, start as int) == first_nul(buf@, end as int),
        decreases buf.len() - end,
    {
        end = end + 1;
    }
    let s = utf8_lossy(&buf[start..end]);
    *pos = end + 1;
    s
}

/// Reads the little-endian 16-bit value at `*pos` and moves past it.
fn read_i16(buf: &[u8], pos: &mut usize) -> (r: Result<i16, TokFault>)
    ensures
        *old(pos) + 2 > buf.len() ==> r == Err::<i16, TokFault>(TokFault::UnexpectedEof) && *final(pos) == *old(pos),
        *old(pos) + 2 <= buf.len() ==> r == Ok::<i16, TokFault>(signed16(le16(buf@, *old(pos) as int)) as i16) && *final(pos) == *old(pos) + 2,
{
    if *pos > buf.len() || buf.len() - *pos < 2 {
        return Err(TokFault::UnexpectedEof);
    }
    let v = get_i16_le(buf, *pos);
    *pos = *pos + 2;
    Ok(v)
}

/// Reads the byte at `*pos` as a signed value and moves past it.
fn read_i8(buf: &[u8], pos: &mut usize) -> (r: Result<i8, TokFault>)
    ensures
        *old(pos) >= buf.len() ==> r == Err::<i8, TokFault>(TokFault::UnexpectedEof) && *final(pos) == *old(pos),
        *old(pos) < buf.len() ==> r == Ok::<i8, TokFault>(signed8(buf@[*old(pos) as int] as int) as i8) && *final(pos) == *old(pos) + 1,
{
    if *pos >= buf.len() {
        return Err(TokFault::UnexpectedEof);
    }
    let v = to_i8(buf[*pos]);
    *pos = *pos + 1;
    Ok(v)
}

/// The text of an attribute value of type `ty` at `*pos`.
fn read_attr_value(buf: &[u8], pos: &mut usize, ty: TokAttrType) -> (r: Result<String, TokFault>)
    requires
        *old(pos) <= buf.len(),
        buf.len() < usize::MAX,
    ensures
        match attr_value(buf@, *old(pos) as int, ty) {
            TokStep::Done(v, q) => r matches Ok(x) && x@ == v && q == *final(pos),
            TokStep::Eof => r == Err::<String, TokFault>(TokFault::UnexpectedEof),
            TokStep::Crash => r == Err::<String, TokFault>(TokFault::Malformed),
        },
        r is Ok ==> *old(pos) <= *final(pos) <= buf.len() + 1,
{
    match ty {
        TokAttrType::CString => Ok(read_cstring(buf, pos)),
        TokAttrType::SInt16 => {
            let v = read_i16(buf, pos)?;
            Ok(decimal_string(v as i32))
        },
        TokAttrType::SInt8 => {
            let v = read_i8(buf, pos)?;
            Ok(decimal_string(v as i32))
        },
        TokAttrType::Unknown(_) => {
            let q = String::from_str("??");
            proof {
                reveal_strlit("??");
                assert(q@ =~= seq!['?', '?']);
            }
            Ok(q)
        },
    }
}

/// Reads the node at `*pos`, if any.
fn parse_node(buf: &[u8], pos: &mut usize, elements: &Vec<TokElement>, attrs: &Vec<TokAttribute>) -> (r: Result<Option<TokNode>, TokFault>)
    requires
        *old(pos) <= buf.len() + 1,
        buf.len() < usize::MAX - 2,
    ensures
        match node_at(buf@, *old(pos) as int, elements_view(elements@), attrs_view(attrs@)) {
            TokStep::Done(None, q) => r == Ok::<Option<TokNode>, TokFault>(None) && q == *final(pos),
            TokStep::Done(Some(n), q) => r matches Ok(Some(x)) && node_view(x) == n && q == *final(pos),
            TokStep::Eof => r == Err::<Option<TokNode>, TokFault>(TokFault::UnexpectedEof),
            TokStep::Crash => r == Err::<Option<TokNode>, TokFault>(TokFault::Malformed),
        },
        r is Ok ==> *old(pos) <= *final(pos) <= buf.len() + 1,
        r matches Ok(Some(_)) ==> *old(pos) < *final(pos),
    decreases buf.len() + 2 - *old(pos), 0int,
{
    let ghost ev = elements_view(elements@);
    let ghost av = attrs_view(attrs@);
    let ghost p0 = *pos as int;
    if *pos >= buf.len() {
        return Ok(None);
    }
    let elem_index = buf[*pos];
    *pos = *pos + 1;
    if elem_index == 0 {
        return Ok(None);
    }
    let element_name = if ((elem_index - 1) as usize) < elements.len() {
        elements[(elem_index - 1) as usize].name.clone()
    } else {
        let mut n = String::from_str("unknown_");
        let d = decimal_string(elem_index as i32);
        n.append(d.as_str());
        proof {
            reveal_strlit("unknown_");
            assert(n@ =~= seq!['u', 'n', 'k', 'n', 'o', 'w', 'n', '_'] + decimal_text(elem_index as int));
        }
        n
    };
    proof {
        assert(element_name@ == element_name_of(ev, elem_index));
    }
    let mut attributes: Vec<(String, String)> = Vec::new();
    let ghost p1 = *pos as int;
    proof {
        assert(pairs_view(attributes@) =~= Seq::<(Seq<char>, Seq<char>)>::empty());
        assert(glue(Seq::<(Seq<char>, Seq<char>)>::empty(), node_attrs(buf@, p1, av)) == node_attrs(buf@, p1, av)) by {
            match node_attrs(buf@, p1, av) {
                TokStep::Done(r, q) => {
                    assert(Seq::<(Seq<char>, Seq<char>)>::empty() + r =~= r);
                },
                _ => {},
            }
        }
    }
    loop
        invariant_except_break
            node_attrs(buf@, p1, av) == glue(pairs_view(attributes@), node_attrs(buf@, *pos as int, av)),
        invariant
            p0 == *old(pos),
            p0 < buf@.len(),
            buf@[p0] != 0,
            p0 < p1 <= *pos <= buf.len() + 1,
            p1 == p0 + 1,
            buf.len() < usize::MAX - 2,
            ev == elements_view(elements@),
            av == attrs_view(attrs@),
        ensures
            p1 < *pos <= buf.len() + 1,
            node_attrs(buf@, p1, av) == TokStep::Done(pairs_view(attributes@), *pos as int),
        decreases buf.len() + 1 - *pos,
    {
        let ghost pa = *pos as int;
        let ghost prefix = pairs_view(attributes@);
        if *pos >= buf.len() {
            proof {
                assert(node_attrs(buf@, pa, av) == TokStep::<Seq<(Seq<char>, Seq<char>)>>::Crash);
            }
            return Err(TokFault::Malformed);
        }
        let attr_index = buf[*pos];
        *pos = *pos + 1;
        if attr_index == 0 || (attr_index - 1) as usize >= attrs.len() {
            proof {
                assert(node_attrs(buf@, pa, av) == TokStep::Done(Seq::<(Seq<char>, Seq<char>)>::empty(), pa + 1));
                assert(prefix + Seq::<(Seq<char>, Seq<char>)>::empty() =~= prefix);
            }
            break;
        }
        let a = &attrs[(attr_index - 1) as usize];
        proof {
            assert(av[attr_index - 1] == (a.attr_type, a.name@));
        }
        let val = match read_attr_value(buf, pos, a.attr_type) {
            Ok(v) => v,
            Err(e) => {
                proof {
                    assert(node_attrs(buf@, pa, av) is Eof || node_attrs(buf@, pa, av) is Crash);
                    assert(e == TokFault::UnexpectedEof ==> node_attrs(buf@, pa, av) is Eof);
                    assert(e == TokFault::Malformed ==> node_attrs(buf@, pa, av) is Crash);
                }
                return Err(e);
            },
        };
        attributes.push((a.name.clone(), val));
        proof {
            assert(pairs_view(attributes@) =~= prefix.push((a.name@, val@)));
            match node_attrs(buf@, *pos as int, av) {
                TokStep::Done(r, q) => {
                    assert(prefix + (seq![(a.name@, val@)] + r) =~= pairs_view(attributes@) + r);
                },
                _ => {},
            }
        }
    }
    let ghost p2 = *pos as int;
    let ghost at = pairs_view(attributes@);
    let children = match parse_nodes(buf, pos, elements, attrs) {
        Ok(c) => c,
        Err(e) => {
            return Err(e);
        },
    };
    Ok(Some(TokNode { element_index: elem_index, element_name, attributes, children }))
}

/// Reads the nodes from `*pos` up to the first place where there is none.
fn parse_nodes(buf: &[u8], pos: &mut usize, elements: &Vec<TokElement>, attrs: &Vec<TokAttribute>) -> (r: Result<Vec<TokNode>, TokFault>)
    requires
        *old(pos) <= buf.len() + 1,
        buf.len() < usize::MAX - 2,
    ensures
        match nodes_from(buf@, *old(pos) as int, elements_view(elements@), attrs_view(attrs@)) {
            TokStep::Done(ns, q) => r matches Ok(x) && nodes_view(x@) == ns && q == *final(pos),
            TokStep::Eof => r == Err::<Vec<TokNode>, TokFault>(TokFault::UnexpectedEof),
            TokStep::Crash => r == Err::<Vec<TokNode>, TokFault>(TokFault::Malformed),
        },
        r is Ok ==> *old(pos) <= *final(pos) <= buf.len() + 1,
    decreases buf.len() + 2 - *old(pos), 1int,
{
    let ghost ev = elements_view(elements@);
    let ghost av = attrs_view(attrs@);
    let ghost p0 = *pos as int;
    let mut nodes: Vec<TokNode> = Vec::new();
    proof {
        assert(nodes_view(nodes@) =~= Seq::<TokNodeView>::empty());
        assert(glue(Seq::<TokNodeView>::empty(), nodes_from(buf@, p0, ev, av)) == nodes_from(buf@, p0, ev, av)) by {
            match nodes_from(buf@, p0, ev, av) {
                TokStep::Done(r, q) => {
                    assert(Seq::<TokNodeView>::empty() + r =~= r);
                },
                _ => {},
            }
        }
    }
    loop
        invariant
            p0 == *old(pos),
            p0 <= *pos <= buf.len() + 1,
            buf.len() < usize::MAX - 2,
            ev == elements_view(elements@),
            av == attrs_view(attrs@),
            nodes_from(buf@, p0, ev, av) == glue(nodes_view(nodes@), nodes_from(buf@, *pos as int, ev, av)),
        decreases buf.len() + 2 - *pos,
    {
        let ghost pn = *pos as int;
        match parse_node(buf, pos, elements, attrs) {
            Ok(Some(n)) => {
                let ghost before = nodes_view(nodes@);
                let ghost old_seq = nodes@;
                nodes.push(n);
                proof {
                    assert(nodes@.drop_last() =~= old_seq);
                    assert(nodes_view(nodes@) == before.push(node_view(n)));
                    match nodes_from(buf@, *pos as int, ev, av) {
                        TokStep::Done(r, q) => {
                            assert(before + (seq![node_view(n)] + r) =~= nodes_view(nodes@) + r);
                        },
                        _ => {},
                    }
                }
            },
            Ok(None) => {
                proof {
                    assert(nodes_view(nodes@) + Seq::<TokNodeView>::empty() =~= nodes_view(nodes@));
                }
                return Ok(nodes);
            },
            Err(e) => {
                return Err(e);
            },
        }
    }
}

/// Reads a whole document, telling apart the data on which reading stops
/// with a panic.
pub fn try_parse_tok_file(buf: &[u8]) -> (r: Result<TokFile, TokFault>)
    requires
        buf.len() < usize::MAX - 2,
    ensures
        match tok_parse(buf@) {
            TokStep::Done(_, _) => r matches Ok(f) && tok_file_matches(buf@, f),
            TokStep::Eof => r == Err::<TokFile, TokFault>(TokFault::UnexpectedEof),
            TokStep::Crash => r == Err::<TokFile, TokFault>(TokFault::Malformed),
        },
{
    let mut pos: usize = 0;
    // element names
    let mut elements: Vec<TokElement> = Vec::new();
    proof {
        assert(elements_view(elements@) =~= Seq::<Seq<char>>::empty());
        match elements_from(buf@, 0, 0) {
            TokStep::Done(r, q) => {
                assert(Seq::<Seq<char>>::empty() + r =~= r);
            },
            _ => {},
        }
    }
    loop
        invariant_except_break
            elements_from(buf@, 0, 0) == glue(elements_view(elements@), elements_from(buf@, pos as int, elements@.len())),
        invariant
            pos <= buf.len() + 1,
            buf.len() < usize::MAX - 2,
            forall|i: int| 0 <= i < elements@.len() ==> (#[trigger] elements@[i]).index == ((i + 1) % 256) as u8,
        ensures
            elements_from(buf@, 0, 0) == TokStep::Done(elements_view(elements@), pos as int),
        decreases buf.len() + 1 - pos,
    {
        let ghost k = elements@.len();
        let ghost prefix = elements_view(elements@);
        if pos > buf.len() {
            proof {
                assert(elements_from(buf@, pos as int, k) == TokStep::<Seq<Seq<char>>>::Crash);
            }
            return Err(TokFault::Malformed);
        }
        let ghost p = pos as int;
        let s = read_cstring(buf, &mut pos);
        proof {
            lemma_first_nul(buf@, p);
        }
        if s.unicode_len() == 0 {
            proof {
                assert(elements_from(buf@, p, k) == TokStep::Done(Seq::<Seq<char>>::empty(), pos as int));
                assert(prefix + Seq::<Seq<char>>::empty() =~= prefix);
            }
            break;
        }
        let n = elements.len();
        if n % 256 == 255 {
            proof {
                assert(elements_from(buf@, p, k) == TokStep::<Seq<Seq<char>>>::Crash);
            }
            return Err(TokFault::Malformed);
        }
        let index: u8 = ((n % 256) as u8) + 1;
        elements.push(TokElement { index, name: s });
        proof {
            assert(elements_view(elements@) =~= prefix.push(s@));
            match elements_from(buf@, pos as int, (k + 1) as nat) {
                TokStep::Done(r, q) => {
                    assert(prefix + (seq![s@] + r) =~= elements_view(elements@) + r);
                },
                _ => {},
            }
        }
    }
    let ghost ev = elements_view(elements@);
    let ghost pa0 = pos as int;
    // attribute names
    let mut attributes: Vec<TokAttribute> = Vec::new();
    proof {
        assert(attrs_view(attributes@) =~= Seq::<(TokAttrType, Seq<char>)>::empty());
        match attributes_from(buf@, pa0, 0) {
            TokStep::Done(r, q) => {
                assert(Seq::<(TokAttrType, Seq<char>)>::empty() + r =~= r);
            },
            _ => {},
        }
    }
    while pos < buf.len()
        invariant_except_break
            attributes_from(buf@, pa0, 0) == glue(attrs_view(attributes@), attributes_from(buf@, pos as int, attributes@.len())),
        invariant
            elements_from(buf@, 0, 0) == TokStep::Done(ev, pa0),
            pa0 <= pos <= buf.len() + 1,
            buf.len() < usize::MAX - 2,
            forall|i: int| 0 <= i < attributes@.len() ==> (#[trigger] attributes@[i]).index == ((i + 1) % 256) as u8,
        ensures
            attributes_from(buf@, pa0, 0) == TokStep::Done(attrs_view(attributes@), pos as int),
        decreases buf.len() + 1 - pos,
    {
        let ghost k = attributes@.len();
        let ghost prefix = attrs_view(attributes@);
        let ghost p = pos as int;
        let t = buf[pos];
        pos = pos + 1;
        if t == 0 {
            proof {
                assert(prefix + Seq::<(TokAttrType, Seq<char>)>::empty() =~= prefix);
            }
            break;
        }
        let name = read_cstring(buf, &mut pos);
        let n = attributes.len();
        if n % 256 == 255 {
            proof {
                assert(attributes_from(buf@, p, k) == TokStep::<Seq<(TokAttrType, Seq<char>)>>::Crash);
            }
            return Err(TokFault::Malformed);
        }
        let index: u8 = ((n % 256) as u8) + 1;
        let attr_type = TokAttrType::from(t);
        attributes.push(TokAttribute { index, attr_type, name });
        proof {
            assert(attrs_view(attributes@) =~= prefix.push((attr_type_of(t), name@)));
            match attributes_from(buf@, pos as int, (k + 1) as nat) {
                TokStep::Done(r, q) => {
                    assert(prefix + (seq![(attr_type_of(t), name@)] + r) =~= attrs_view(attributes@) + r);
                },
                _ => {},
            }
        }
    }
    proof {
        if pos >= buf.len() {
            assert(attributes_from(buf@, pos as int, attributes@.len()) == TokStep::Done(Seq::<(TokAttrType, Seq<char>)>::empty(), pos as int));
            assert(attrs_view(attributes@) + Seq::<(TokAttrType, Seq<char>)>::empty() =~= attrs_view(attributes@));
        }
    }
    let root_nodes = parse_nodes(buf, &mut pos, &elements, &attributes)?;
    Ok(TokFile { elements, attributes, root_nodes })
}

/// Reads a whole TOK document: the element names up to an empty one, the
/// typed attribute names up to the type code 0, then the nodes. Fails where
/// a number value runs past the end of the data. On data where reading
/// stops with a panic (see `try_parse_tok_file`) it is not to be called.
pub fn parse_tok_file(buf: &[u8]) -> (r: Result<TokFile, TokError>)
    requires
        buf.len() < usize::MAX - 2,
        !(tok_parse(buf@) is Crash),
    ensures
        match tok_parse(buf@) {
            TokStep::Done(_, _) => r matches Ok(f) && tok_file_matches(buf@, f),
            _ => r == Err::<TokFile, TokError>(TokError::UnexpectedEof),
        },
{
    match try_parse_tok_file(buf) {
        Ok(f) => Ok(f),
        Err(_) => Err(TokError::UnexpectedEof),
    }
}

} // verus!
