//! The lists of duplicate files that the game ships as XML: each `source`
//! element names a file, and the `target` elements inside it name the
//! files that duplicate it.

use vstd::prelude::*;
use crate::api::text_eq;
use crate::category::{names_sorted, entry_names};
use crate::ies::{pairs_map, insert_pair, fix_slashes, slash_fixed};
use quick_xml::events::Event;
use quick_xml::Reader;

verus! {

/// An XML event as the duplicates list reader needs it: a start tag
/// (`false`) or an empty-element tag (`true`) with its name and attributes,
/// an attribute that could not be read being `None`; or an end tag with its
/// name.
pub enum XmlEvent {
    Element(bool, String, Vec<Option<(String, String)>>),
    End(String),
}

/// Why a duplicates list cannot be read.
#[derive(Copy, Clone, PartialEq, Eq, Structural, Debug)]
pub enum XmlError {
    /// The XML reader reported malformed input.
    InvalidData,
}

/// An attribute list as character sequences.
pub open spec fn attrs_view(attrs: Seq<Option<(String, String)>>) -> Seq<Option<(Seq<char>, Seq<char>)>> {
    attrs.map_values(|a: Option<(String, String)>| match a {
        Some((k, v)) => Some((k@, v@)),
        None => None,
    })
}

/// An XML event with its names and attributes as character sequences.
pub enum XmlEventView {
    Element(bool, Seq<char>, Seq<Option<(Seq<char>, Seq<char>)>>),
    End(Seq<char>),
}

impl View for XmlEvent {
    type V = XmlEventView;

    open spec fn view(&self) -> XmlEventView {
        match self {
            XmlEvent::Element(empty, n, a) => XmlEventView::Element(*empty, n@, attrs_view(a@)),
            XmlEvent::End(n) => XmlEventView::End(n@),
        }
    }
}

/// The views of the events `evs`.
pub open spec fn events_view(evs: Seq<XmlEvent>) -> Seq<XmlEventView> {
    evs.map_values(|e: XmlEvent| e@)
}

/// The element events that quick-xml's reader, trimming text, yields for
/// `bytes` up to the end, or `None` where it reports an error first.
pub uninterp spec fn xml_event_list(bytes: Seq<u8>) -> Option<Seq<XmlEventView>>;

/// Runs `quick_xml::Reader` (with `trim_text(true)`) over `bytes` up to
/// `Eof`, converting each start, empty-element and end tag with its name
/// and attributes and passing over the other events; `None` on the first
/// error. The outcome is named as a function of the bytes alone.
#[verifier::external_body]
pub fn xml_events(bytes: &[u8]) -> (r: Option<Vec<XmlEvent>>)
    ensures
        match r {
            Some(v) => xml_event_list(bytes@) == Some(events_view(v@)),
            None => xml_event_list(bytes@) is None,
        },
{
    let mut rd = Reader::from_reader(bytes);
    rd.config_mut().trim_text(true);
    let mut out = vec![];
    loop {
        let (empty, e) = match rd.read_event().ok()? {
            Event::Start(e) => (false, e),
            Event::Empty(e) => (true, e),
            Event::End(e) => { out.push(XmlEvent::End(e.name().0.into())); continue; }
            Event::Eof => return Some(out),
            _ => continue
        };
        out.push(XmlEvent::Element(empty, e.name().0.into(), e.attributes().map(|a| a.ok().map(|a| (a.key.0.into(), a.value.into()))).collect()));
    }
}

/// The value of the first readable attribute named "file".
pub open spec fn file_attr(attrs: Seq<Option<(Seq<char>, Seq<char>)>>) -> Option<Seq<char>>
    decreases attrs.len(),
{
    if attrs.len() == 0 {
        None
    } else {
        match attrs[0] {
            Some((k, v)) => if k == seq!['f', 'i', 'l', 'e'] {
                Some(v)
            } else {
                file_attr(attrs.drop_first())
            },
            None => file_attr(attrs.drop_first()),
        }
    }
}

/// The name "source".
pub open spec fn source_tag() -> Seq<char> {
    seq!['s', 'o', 'u', 'r', 'c', 'e']
}

/// The name "target".
pub open spec fn target_tag() -> Seq<char> {
    seq!['t', 'a', 'r', 'g', 'e', 't']
}

/// Where reading the events stands: the current source and the duplicates
/// found.
pub struct DupState {
    pub source: Option<Seq<char>>,
    pub map: Map<Seq<char>, Seq<char>>,
}

/// The state after one more event: a `source` start tag makes its file
/// (backslashes made slashes) the current source, a `target` empty-element
/// tag inside a source maps its file to that source, and a `source` end tag
/// ends the source.
pub open spec fn dup_step(st: DupState, ev: XmlEventView) -> DupState {
    match ev {
        XmlEventView::Element(empty, name, attrs) => if !empty && name == source_tag() {
            DupState {
                source: match file_attr(attrs) {
                    Some(v) => Some(slash_fixed(v)),
                    None => None,
                },
                ..st
            }
        } else if empty && name == target_tag() {
            match (st.source, file_attr(attrs)) {
                (Some(src), Some(v)) => DupState { map: st.map.insert(slash_fixed(v), src), ..st },
                _ => st,
            }
        } else {
            st
        },
        XmlEventView::End(name) => if name == source_tag() {
            DupState { source: None, ..st }
        } else {
            st
        },
    }
}

/// The state after the events `evs`, from the start.
pub open spec fn dup_state(evs: Seq<XmlEventView>) -> DupState
    decreases evs.len(),
{
    if evs.len() == 0 {
        DupState { source: None, map: Map::empty() }
    } else {
        dup_step(dup_state(evs.drop_last()), evs.last())
    }
}

fn find_file_attr(attrs: &Vec<Option<(String, String)>>) -> (r: Option<&String>)
    ensures
        match r {
            Some(v) => file_attr(attrs_view(attrs@)) == Some(v@),
            None => file_attr(attrs_view(attrs@)) is None,
        },
{
    let key = "file";
    proof {
        reveal_strlit("file");
        assert(key@ =~= seq!['f', 'i', 'l', 'e']);
    }
    let mut i: usize = 0;
    assert(attrs_view(attrs@).skip(0) =~= attrs_view(attrs@));
    while i < attrs.len()
        invariant
            i <= attrs@.len(),
            key@ == seq!['f', 'i', 'l', 'e'],
            file_attr(attrs_view(attrs@)) == file_attr(attrs_view(attrs@).skip(i as int)),
        decreases attrs@.len() - i,
    {
        assert(attrs_view(attrs@).skip(i as int)[0] == attrs_view(attrs@)[i as int]);
        assert(attrs_view(attrs@).skip(i as int).drop_first() =~= attrs_view(attrs@).skip(i + 1));
        match &attrs[i] {
            Some((k, v)) => {
                if text_eq(k.as_str(), key) {
                    return Some(v);
                }
            },
            None => {},
        }
        i = i + 1;
    }
    None
}

/// The duplicates that the events of a duplicates list name: each target
/// file (its backslashes made slashes) mapped to its source, the last
/// mention of a target winning. The pairs come sorted, each target once.
pub fn duplicates_from_events(events: &Vec<XmlEvent>) -> (r: Vec<(String, String)>)
    ensures
        names_sorted(entry_names(r@)),
        pairs_map(r@) == dup_state(events_view(events@)).map,
{
    let ghost evs = events_view(events@);
    let source_name = "source";
    let target_name = "target";
    proof {
        reveal_strlit("source");
        reveal_strlit("target");
        assert(source_name@ =~= source_tag());
        assert(target_name@ =~= target_tag());
    }
    let mut map: Vec<(String, String)> = Vec::new();
    let mut source: Option<String> = None;
    let mut i: usize = 0;
    proof {
        assert(evs.take(0) =~= Seq::<XmlEventView>::empty());
        assert(pairs_map(map@) =~= Map::<Seq<char>, Seq<char>>::empty());
    }
    while i < events.len()
        invariant
            i <= events@.len(),
            evs == events_view(events@),
            source_name@ == source_tag(),
            target_name@ == target_tag(),
            names_sorted(entry_names(map@)),
            pairs_map(map@) == dup_state(evs.take(i as int)).map,
            dup_state(evs.take(i as int)).source == (match source {
                Some(s) => Some(s@),
                None => None,
            }),
        decreases events@.len() - i,
    {
        proof {
            let t = evs.take(i + 1);
            assert(t.drop_last() =~= evs.take(i as int));
            assert(t.last() == events@[i as int]@);
        }
        match &events[i] {
            XmlEvent::Element(empty, name, attrs) => {
                if !*empty && text_eq(name.as_str(), source_name) {
                    source = match find_file_attr(attrs) {
                        Some(v) => Some(fix_slashes(v.as_str())),
                        None => None,
                    };
                } else if *empty && text_eq(name.as_str(), target_name) {
                    match (&source, find_file_attr(attrs)) {
                        (Some(src), Some(v)) => {
                            let target = fix_slashes(v.as_str());
                            insert_pair(&mut map, target, src.clone());
                        },
                        _ => {},
                    }
                }
            },
            XmlEvent::End(name) => {
                if text_eq(name.as_str(), source_name) {
                    source = None;
                }
            },
        }
        i = i + 1;
    }
    proof {
        assert(evs.take(i as int) =~= evs);
    }
    map
}

/// Reads a duplicates list from its XML bytes: each target file (its
/// backslashes made slashes) mapped to the source file it duplicates, the
/// last mention of a target winning; an error where the XML reader reports
/// malformed input. The pairs come sorted, each target once.
pub fn parse_duplicates_xml(bytes: &[u8]) -> (r: Result<Vec<(String, String)>, XmlError>)
    ensures
        match xml_event_list(bytes@) {
            Some(evs) => r matches Ok(v) && names_sorted(entry_names(v@)) && pairs_map(v@) == dup_state(evs).map,
            None => r == Err::<Vec<(String, String)>, XmlError>(XmlError::InvalidData),
        },
{
    match xml_events(bytes) {
        Some(events) => Ok(duplicates_from_events(&events)),
        None => Err(XmlError::InvalidData),
    }
}

} // verus!
