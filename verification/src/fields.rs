//! Rendering a decoded control message as named fields, for display.

use vstd::prelude::*;
use crate::cursor::{cur_varint, rd_varint};
use crate::types::ns_view;

verus! {

/// The text a run of bytes reads as, with every sequence that is not UTF-8
/// replaced by U+FFFD.
pub uninterp spec fn utf8_lossy(b: Seq<u8>) -> Seq<char>;

/// The text `b` reads as; calls `String::from_utf8_lossy`, whose result
/// depends on the bytes alone.
#[verifier::external_body]
pub(crate) fn text_of(b: &[u8]) -> (r: String)
    ensures
        r@ == utf8_lossy(b@),
{
    String::from_utf8_lossy(b).into_owned()
}

/// A value inside a rendered structure.
#[derive(Debug, Clone, PartialEq, Eq)]
pub enum Scalar {
    Uint(u64),
    Bytes(Vec<u8>),
}

/// The value of a rendered parameter.
#[derive(Debug, Clone, PartialEq, Eq)]
pub enum EntryValue {
    Uint(u64),
    Text(String),
    Bytes(Vec<u8>),
    /// A parameter whose value is a structure: its named parts.
    Parts(Vec<(&'static str, Scalar)>),
}

/// The value of one rendered field of a message.
#[derive(Debug, Clone, PartialEq, Eq)]
pub enum FieldValue {
    Uint(u64),
    Text(String),
    /// A namespace: each field as text.
    TextList(Vec<String>),
    /// A list of integers.
    UintList(Vec<u64>),
    /// A structure of named integers and byte strings.
    Parts(Vec<(&'static str, Scalar)>),
    /// A parameter list: each parameter this draft names, in list order.
    Entries(Vec<(&'static str, EntryValue)>),
}

/// The named fields of a message, in the order its draft defines them.
#[derive(Debug, Clone, PartialEq, Eq)]
pub struct FieldMap {
    pub entries: Vec<(&'static str, FieldValue)>,
}

pub enum ScalarView {
    Uint(u64),
    Bytes(Seq<u8>),
}

pub enum EntryValueView {
    Uint(u64),
    Text(Seq<char>),
    Bytes(Seq<u8>),
    Parts(Seq<(&'static str, ScalarView)>),
}

pub enum FieldValueView {
    Uint(u64),
    Text(Seq<char>),
    TextList(Seq<Seq<char>>),
    UintList(Seq<u64>),
    Parts(Seq<(&'static str, ScalarView)>),
    Entries(Seq<(&'static str, EntryValueView)>),
}

/// The named parts of a structure, as values.
pub open spec fn parts_view(o: Seq<(&'static str, Scalar)>) -> Seq<(&'static str, ScalarView)> {
    o.map_values(|e: (&'static str, Scalar)| (e.0, e.1@))
}

impl View for Scalar {
    type V = ScalarView;

    open spec fn view(&self) -> ScalarView {
        match self {
            Scalar::Uint(v) => ScalarView::Uint(*v),
            Scalar::Bytes(b) => ScalarView::Bytes(b@),
        }
    }
}

impl View for EntryValue {
    type V = EntryValueView;

    open spec fn view(&self) -> EntryValueView {
        match self {
            EntryValue::Uint(v) => EntryValueView::Uint(*v),
            EntryValue::Text(t) => EntryValueView::Text(t@),
            EntryValue::Bytes(b) => EntryValueView::Bytes(b@),
            EntryValue::Parts(m) => EntryValueView::Parts(parts_view(m@)),
        }
    }
}

impl View for FieldValue {
    type V = FieldValueView;

    open spec fn view(&self) -> FieldValueView {
        match self {
            FieldValue::Uint(v) => FieldValueView::Uint(*v),
            FieldValue::Text(t) => FieldValueView::Text(t@),
            FieldValue::TextList(ts) => FieldValueView::TextList(ts@.map_values(|t: String| t@)),
            FieldValue::UintList(vs) => FieldValueView::UintList(vs@),
            FieldValue::Parts(o) => FieldValueView::Parts(parts_view(o@)),
            FieldValue::Entries(m) => FieldValueView::Entries(m@.map_values(|e: (&'static str, EntryValue)| (e.0, e.1@))),
        }
    }
}

impl View for FieldMap {
    type V = Seq<(&'static str, FieldValueView)>;

    open spec fn view(&self) -> Seq<(&'static str, FieldValueView)> {
        self.entries@.map_values(|e: (&'static str, FieldValue)| (e.0, e.1@))
    }
}

/// A namespace's fields as text.
pub open spec fn texts_of(fs: Seq<Seq<u8>>) -> Seq<Seq<char>> {
    fs.map_values(|f: Seq<u8>| utf8_lossy(f))
}

/// Each field of a namespace as text.
pub fn texts(fields: &Vec<Vec<u8>>) -> (r: Vec<String>)
    ensures
        r@.map_values(|t: String| t@) == texts_of(ns_view(fields@)),
{
    let mut out: Vec<String> = Vec::new();
    let mut i: usize = 0;
    while i < fields.len()
        invariant
            i <= fields@.len(),
            out@.len() == i,
            forall|j: int| 0 <= j < i ==> #[trigger] out@[j]@ == utf8_lossy(fields@[j]@),
        decreases fields@.len() - i,
    {
        out.push(text_of(fields[i].as_slice()));
        i = i + 1;
    }
    assert(out@.map_values(|t: String| t@) =~= texts_of(ns_view(fields@)));
    out
}

/// Read the variable-length integer at `pos` of `b`, if there is one.
pub(crate) fn varint_after(b: &[u8], pos: usize) -> (r: Option<(u64, usize)>)
    requires
        pos <= b@.len(),
    ensures
        match rd_varint(b@.skip(pos as int)) {
            Ok((v, rest)) => r matches Some((x, n)) && x == v && pos <= n <= b@.len() && b@.skip(n as int) == rest,
            Err(_) => r is None,
        },
{
    match cur_varint(b, pos) {
        Ok((x, n)) => Some((x.into_inner(), n)),
        Err(_) => None,
    }
}

/// An Authorization Token rendered by its parts: the Alias Type, then
/// whichever of the Token Alias, Token Type and value follow it. A value
/// whose Alias Type cannot be read is rendered as its bytes.
pub open spec fn spec_auth_token_render(b: Seq<u8>) -> EntryValueView {
    match rd_varint(b) {
        Err(_) => EntryValueView::Bytes(b),
        Ok((at, s1)) => EntryValueView::Parts(
            seq![("alias_type", ScalarView::Uint(at))] + if at == 0 || at == 2 {
                match rd_varint(s1) {
                    Ok((ta, _)) => seq![("token_alias", ScalarView::Uint(ta))],
                    Err(_) => Seq::empty(),
                }
            } else if at == 1 {
                match rd_varint(s1) {
                    Ok((ta, s2)) => seq![("token_alias", ScalarView::Uint(ta))] + match rd_varint(s2) {
                        Ok((tt, s3)) => seq![("token_type", ScalarView::Uint(tt)), ("token_value", ScalarView::Bytes(s3))],
                        Err(_) => seq![("token_value", ScalarView::Bytes(s2))],
                    },
                    Err(_) => seq![("token_value", ScalarView::Bytes(s1))],
                }
            } else {
                match rd_varint(s1) {
                    Ok((tt, s2)) => seq![("token_type", ScalarView::Uint(tt)), ("token_value", ScalarView::Bytes(s2))],
                    Err(_) => seq![("token_value", ScalarView::Bytes(s1))],
                }
            },
        ),
    }
}

pub fn auth_token_render(b: &[u8]) -> (r: EntryValue)
    ensures
        r@ == spec_auth_token_render(b@),
{
    assert(b@.skip(0) =~= b@);
    let (at, p1) = match varint_after(b, 0) {
        Some(x) => x,
        None => return EntryValue::Bytes(slice_tail(b, 0)),
    };
    let mut o: Vec<(&'static str, Scalar)> = Vec::new();
    o.push(("alias_type", Scalar::Uint(at)));
    if at == 0 || at == 2 {
        match varint_after(b, p1) {
            Some((ta, _)) => o.push(("token_alias", Scalar::Uint(ta))),
            None => {},
        }
    } else if at == 1 {
        match varint_after(b, p1) {
            Some((ta, p2)) => {
                o.push(("token_alias", Scalar::Uint(ta)));
                match varint_after(b, p2) {
                    Some((tt, p3)) => {
                        o.push(("token_type", Scalar::Uint(tt)));
                        o.push(("token_value", Scalar::Bytes(slice_tail(b, p3))));
                    },
                    None => o.push(("token_value", Scalar::Bytes(slice_tail(b, p2)))),
                }
            },
            None => o.push(("token_value", Scalar::Bytes(slice_tail(b, p1)))),
        }
    } else {
        match varint_after(b, p1) {
            Some((tt, p2)) => {
                o.push(("token_type", Scalar::Uint(tt)));
                o.push(("token_value", Scalar::Bytes(slice_tail(b, p2))));
            },
            None => o.push(("token_value", Scalar::Bytes(slice_tail(b, p1)))),
        }
    }
    assert(parts_view(o@) =~= spec_auth_token_render(b@)->Parts_0);
    let r = EntryValue::Parts(o);
    r
}

pub fn slice_tail(b: &[u8], pos: usize) -> (r: Vec<u8>)
    requires
        pos <= b@.len(),
    ensures
        r@ == b@.skip(pos as int),
{
    let mut out: Vec<u8> = Vec::new();
    let mut i = pos;
    while i < b.len()
        invariant
            pos <= i <= b@.len(),
            out@ == b@.subrange(pos as int, i as int),
        decreases b@.len() - i,
    {
        out.push(b[i]);
        i = i + 1;
        assert(out@ =~= b@.subrange(pos as int, i as int));
    }
    assert(out@ =~= b@.skip(pos as int));
    out
}

} // verus!
