//! Draft-16 control messages rendered as named fields.

use vstd::prelude::*;
use crate::cursor::rd_varint;
use crate::draft16::control::{ControlMessageView, Field, FetchPayloadView};
use crate::draft16::message::{spec_kvp_views, ControlMessage, FetchPayload, FetchType, MessageType};
use crate::fields::{
    auth_token_render, parts_view, slice_tail, spec_auth_token_render,
    text_of, texts, texts_of, utf8_lossy, varint_after, EntryValue, EntryValueView, FieldMap,
    FieldValue, FieldValueView, Scalar, ScalarView,
};
use crate::kvp::{KeyValuePair, KeyValuePairView, KvpValue, KvpValueView};
use crate::types::ns_view;

verus! {

/// Which names a parameter list is rendered with.
#[derive(Debug, Clone, Copy, PartialEq, Eq, Structural)]
pub enum ParamTable {
    Setup,
    Message,
    TrackExtension,
}

/// The name this draft gives parameter Type `key` in `table`.
pub open spec fn spec_param_name(table: ParamTable, key: u64) -> Option<&'static str> {
    match table {
        ParamTable::Setup => if key == 0x01 {
            Some("path")
        } else if key == 0x02 {
            Some("max_request_id")
        } else if key == 0x03 {
            Some("authorization_token")
        } else if key == 0x04 {
            Some("max_auth_token_cache_size")
        } else if key == 0x05 {
            Some("authority")
        } else if key == 0x07 {
            Some("moqt_implementation")
        } else {
            None
        },
        ParamTable::Message => if key == 0x02 {
            Some("delivery_timeout")
        } else if key == 0x03 {
            Some("authorization_token")
        } else if key == 0x04 {
            Some("max_cache_duration")
        } else if key == 0x08 {
            Some("expires")
        } else if key == 0x09 {
            Some("largest_object")
        } else if key == 0x0e {
            Some("publisher_priority")
        } else if key == 0x10 {
            Some("forward")
        } else if key == 0x20 {
            Some("subscriber_priority")
        } else if key == 0x21 {
            Some("subscription_filter")
        } else if key == 0x22 {
            Some("group_order")
        } else if key == 0x30 {
            Some("dynamic_groups")
        } else if key == 0x32 {
            Some("new_group_request")
        } else {
            None
        },
        ParamTable::TrackExtension => if key == 0x02 {
            Some("delivery_timeout")
        } else if key == 0x04 {
            Some("max_cache_duration")
        } else if key == 0x0e {
            Some("default_publisher_priority")
        } else {
            None
        },
    }
}

/// The name this draft gives parameter Type `key` in `table`.
pub fn param_name(table: ParamTable, key: u64) -> (r: Option<&'static str>)
    ensures
        r == spec_param_name(table, key),
{
    match table {
        ParamTable::Setup => match key {
            0x01 => Some("path"),
            0x02 => Some("max_request_id"),
            0x03 => Some("authorization_token"),
            0x04 => Some("max_auth_token_cache_size"),
            0x05 => Some("authority"),
            0x07 => Some("moqt_implementation"),
            _ => None,
        },
        ParamTable::Message => match key {
            0x02 => Some("delivery_timeout"),
            0x03 => Some("authorization_token"),
            0x04 => Some("max_cache_duration"),
            0x08 => Some("expires"),
            0x09 => Some("largest_object"),
            0x0e => Some("publisher_priority"),
            0x10 => Some("forward"),
            0x20 => Some("subscriber_priority"),
            0x21 => Some("subscription_filter"),
            0x22 => Some("group_order"),
            0x30 => Some("dynamic_groups"),
            0x32 => Some("new_group_request"),
            _ => None,
        },
        ParamTable::TrackExtension => match key {
            0x02 => Some("delivery_timeout"),
            0x04 => Some("max_cache_duration"),
            0x0e => Some("default_publisher_priority"),
            _ => None,
        },
    }
}

/// Whether a Subscription Filter value holds the integers its Filter Type
/// announces, so that it can be rendered.
pub open spec fn spec_filter_renderable(b: Seq<u8>) -> bool {
    match rd_varint(b) {
        Err(_) => false,
        Ok((t, s1)) => (t == 3 || t == 4) ==> match rd_varint(s1) {
            Err(_) => false,
            Ok((_, s2)) => match rd_varint(s2) {
                Err(_) => false,
                Ok((_, s3)) => t == 4 ==> rd_varint(s3) is Ok,
            },
        },
    }
}

/// A Subscription Filter rendered by its parts.
pub open spec fn spec_filter_render(b: Seq<u8>) -> EntryValueView {
    let (t, s1) = rd_varint(b)->Ok_0;
    EntryValueView::Parts(
        seq![("filter_type", ScalarView::Uint(t))] + if t == 3 || t == 4 {
            let (sg, s2) = rd_varint(s1)->Ok_0;
            let (so, s3) = rd_varint(s2)->Ok_0;
            seq![("start_group", ScalarView::Uint(sg)), ("start_object", ScalarView::Uint(so))] + if t == 4 {
                seq![("end_group", ScalarView::Uint(rd_varint(s3)->Ok_0.0))]
            } else {
                Seq::empty()
            }
        } else {
            Seq::empty()
        },
    )
}

fn filter_render(b: &[u8]) -> (r: EntryValue)
    requires
        spec_filter_renderable(b@),
    ensures
        r@ == spec_filter_render(b@),
{
    assert(b@.skip(0) =~= b@);
    let (t, p1) = varint_after(b, 0).unwrap();
    let mut o: Vec<(&'static str, Scalar)> = Vec::new();
    o.push(("filter_type", Scalar::Uint(t)));
    if t == 3 || t == 4 {
        let (sg, p2) = varint_after(b, p1).unwrap();
        let (so, p3) = varint_after(b, p2).unwrap();
        o.push(("start_group", Scalar::Uint(sg)));
        o.push(("start_object", Scalar::Uint(so)));
        if t == 4 {
            let (eg, _) = varint_after(b, p3).unwrap();
            o.push(("end_group", Scalar::Uint(eg)));
        }
    }
    assert(parts_view(o@) =~= spec_filter_render(b@)->Parts_0);
    let r = EntryValue::Parts(o);
    r
}

/// A LARGEST_OBJECT value rendered as its Group and Object, or as its bytes
/// when it is not two integers.
pub open spec fn spec_largest_object_render(b: Seq<u8>) -> EntryValueView {
    match rd_varint(b) {
        Err(_) => EntryValueView::Bytes(b),
        Ok((g, s1)) => match rd_varint(s1) {
            Err(_) => EntryValueView::Bytes(b),
            Ok((o, _)) => EntryValueView::Parts(seq![("group", ScalarView::Uint(g)), ("object", ScalarView::Uint(o))]),
        },
    }
}

fn largest_object_render(b: &[u8]) -> (r: EntryValue)
    ensures
        r@ == spec_largest_object_render(b@),
{
    assert(b@.skip(0) =~= b@);
    let (g, p1) = match varint_after(b, 0) {
        Some(x) => x,
        None => return EntryValue::Bytes(slice_tail(b, 0)),
    };
    let (ob, _) = match varint_after(b, p1) {
        Some(x) => x,
        None => return EntryValue::Bytes(slice_tail(b, 0)),
    };
    let mut o: Vec<(&'static str, Scalar)> = Vec::new();
    o.push(("group", Scalar::Uint(g)));
    o.push(("object", Scalar::Uint(ob)));
    assert(parts_view(o@) =~= spec_largest_object_render(b@)->Parts_0);
    let r = EntryValue::Parts(o);
    r
}

/// Whether every SUBSCRIPTION_FILTER among `ps` can be rendered.
pub open spec fn filters_renderable(ps: Seq<KeyValuePairView>) -> bool {
    forall|i: int| 0 <= i < ps.len() ==> (#[trigger] ps[i]).key == 0x21 && ps[i].value is Bytes ==> spec_filter_renderable(
        ps[i].value->Bytes_0,
    )
}

/// A named parameter rendered: a varint as itself, a filter, a largest
/// object or a token by its parts, other bytes as text.
pub open spec fn spec_render_pair(table: ParamTable, kv: KeyValuePairView) -> Option<(&'static str, EntryValueView)> {
    match spec_param_name(table, kv.key) {
        None => None,
        Some(name) => Some((
            name,
            match kv.value {
                KvpValueView::Varint(v) => EntryValueView::Uint(v),
                KvpValueView::Bytes(b) => if kv.key == 0x21 {
                    spec_filter_render(b)
                } else if kv.key == 0x09 {
                    spec_largest_object_render(b)
                } else if kv.key == 0x03 && table != ParamTable::TrackExtension {
                    spec_auth_token_render(b)
                } else {
                    EntryValueView::Text(utf8_lossy(b))
                },
            },
        )),
    }
}

/// The named parameters of a list, in list order; a parameter whose Type
/// this draft does not name is left out.
pub open spec fn spec_render_params(table: ParamTable, ps: Seq<KeyValuePairView>) -> Seq<(&'static str, EntryValueView)>
    decreases ps.len(),
{
    if ps.len() == 0 {
        Seq::empty()
    } else {
        spec_render_params(table, ps.drop_last()) + match spec_render_pair(table, ps.last()) {
            Some(e) => seq![e],
            None => Seq::empty(),
        }
    }
}

/// Render the parameters of a list this draft names.
pub fn render_params(table: ParamTable, params: &Vec<KeyValuePair>) -> (r: FieldValue)
    requires
        table == ParamTable::Message ==> filters_renderable(spec_kvp_views(params@)),
    ensures
        r@ == FieldValueView::Entries(spec_render_params(table, spec_kvp_views(params@))),
{
    let ghost ps = spec_kvp_views(params@);
    let mut out: Vec<(&'static str, EntryValue)> = Vec::new();
    let mut i: usize = 0;
    while i < params.len()
        invariant
            i <= params@.len(),
            ps == spec_kvp_views(params@),
            table == ParamTable::Message ==> filters_renderable(ps),
            out@.map_values(|e: (&'static str, EntryValue)| (e.0, e.1@)) == spec_render_params(table, ps.take(i as int)),
        decreases params@.len() - i,
    {
        let kv = &params[i];
        let key = kv.key.into_inner();
        assert(ps[i as int] == kv@);
        assert(ps.take(i + 1).drop_last() =~= ps.take(i as int));
        let ghost before = out@;
        match param_name(table, key) {
            None => {},
            Some(name) => {
                let v = match &kv.value {
                    KvpValue::Varint(x) => EntryValue::Uint(x.into_inner()),
                    KvpValue::Bytes(b) => if key == 0x21 {
                        filter_render(b.as_slice())
                    } else if key == 0x09 {
                        largest_object_render(b.as_slice())
                    } else if key == 0x03 && table != ParamTable::TrackExtension {
                        auth_token_render(b.as_slice())
                    } else {
                        EntryValue::Text(text_of(b.as_slice()))
                    },
                };
                out.push((name, v));
            },
        }
        proof {
            assert(out@.map_values(|e: (&'static str, EntryValue)| (e.0, e.1@)) =~= spec_render_params(table, ps.take(i + 1)));
        }
        i = i + 1;
    }
    assert(ps.take(i as int) =~= ps);
    FieldValue::Entries(out)
}

/// The fields of a message, named as this draft names them, in the order
/// it defines them; track extensions appear only when there are some.
pub open spec fn spec_message_fields(m: ControlMessageView) -> Seq<(&'static str, FieldValueView)> {
    match m.message_type {
        MessageType::ClientSetup => seq![("parameters", FieldValueView::Entries(spec_render_params(ParamTable::Setup, m.fields[0]->Pairs_0)))],
        MessageType::ServerSetup => seq![("parameters", FieldValueView::Entries(spec_render_params(ParamTable::Setup, m.fields[0]->Pairs_0)))],
        MessageType::GoAway => seq![("new_session_uri", FieldValueView::Text(utf8_lossy(m.fields[0]->Bytes_0)))],
        MessageType::MaxRequestId => seq![("max_request_id", FieldValueView::Uint(m.fields[0]->Int_0))],
        MessageType::RequestsBlocked => seq![("maximum_request_id", FieldValueView::Uint(m.fields[0]->Int_0))],
        MessageType::RequestOk => seq![("request_id", FieldValueView::Uint(m.fields[0]->Int_0)), ("parameters", FieldValueView::Entries(spec_render_params(ParamTable::Message, m.fields[1]->Pairs_0)))],
        MessageType::RequestError => seq![("request_id", FieldValueView::Uint(m.fields[0]->Int_0)), ("error_code", FieldValueView::Uint(m.fields[1]->Int_0)), ("retry_interval", FieldValueView::Uint(m.fields[2]->Int_0)), ("reason_phrase", FieldValueView::Text(utf8_lossy(m.fields[3]->Bytes_0)))],
        MessageType::Subscribe => seq![("request_id", FieldValueView::Uint(m.fields[0]->Int_0)), ("track_namespace", FieldValueView::TextList(texts_of(m.fields[1]->Ns_0))), ("track_name", FieldValueView::Text(utf8_lossy(m.fields[2]->Bytes_0))), ("parameters", FieldValueView::Entries(spec_render_params(ParamTable::Message, m.fields[3]->Pairs_0)))],
        MessageType::SubscribeOk => seq![("request_id", FieldValueView::Uint(m.fields[0]->Int_0)), ("track_alias", FieldValueView::Uint(m.fields[1]->Int_0)), ("parameters", FieldValueView::Entries(spec_render_params(ParamTable::Message, m.fields[2]->Pairs_0)))] + if m.fields[3]->Pairs_0.len() > 0 { seq![("track_extensions", FieldValueView::Entries(spec_render_params(ParamTable::TrackExtension, m.fields[3]->Pairs_0)))] } else { Seq::empty() },
        MessageType::RequestUpdate => seq![("request_id", FieldValueView::Uint(m.fields[0]->Int_0)), ("existing_request_id", FieldValueView::Uint(m.fields[1]->Int_0)), ("parameters", FieldValueView::Entries(spec_render_params(ParamTable::Message, m.fields[2]->Pairs_0)))],
        MessageType::Unsubscribe => seq![("request_id", FieldValueView::Uint(m.fields[0]->Int_0))],
        MessageType::Publish => seq![("request_id", FieldValueView::Uint(m.fields[0]->Int_0)), ("track_namespace", FieldValueView::TextList(texts_of(m.fields[1]->Ns_0))), ("track_name", FieldValueView::Text(utf8_lossy(m.fields[2]->Bytes_0))), ("track_alias", FieldValueView::Uint(m.fields[3]->Int_0)), ("parameters", FieldValueView::Entries(spec_render_params(ParamTable::Message, m.fields[4]->Pairs_0)))] + if m.fields[5]->Pairs_0.len() > 0 { seq![("track_extensions", FieldValueView::Entries(spec_render_params(ParamTable::TrackExtension, m.fields[5]->Pairs_0)))] } else { Seq::empty() },
        MessageType::PublishOk => seq![("request_id", FieldValueView::Uint(m.fields[0]->Int_0)), ("parameters", FieldValueView::Entries(spec_render_params(ParamTable::Message, m.fields[1]->Pairs_0)))],
        MessageType::PublishDone => seq![("request_id", FieldValueView::Uint(m.fields[0]->Int_0)), ("status_code", FieldValueView::Uint(m.fields[1]->Int_0)), ("stream_count", FieldValueView::Uint(m.fields[2]->Int_0)), ("reason_phrase", FieldValueView::Text(utf8_lossy(m.fields[3]->Bytes_0)))],
        MessageType::PublishNamespace => seq![("request_id", FieldValueView::Uint(m.fields[0]->Int_0)), ("track_namespace", FieldValueView::TextList(texts_of(m.fields[1]->Ns_0))), ("parameters", FieldValueView::Entries(spec_render_params(ParamTable::Message, m.fields[2]->Pairs_0)))],
        MessageType::PublishNamespaceDone => seq![("request_id", FieldValueView::Uint(m.fields[0]->Int_0))],
        MessageType::PublishNamespaceCancel => seq![("request_id", FieldValueView::Uint(m.fields[0]->Int_0)), ("error_code", FieldValueView::Uint(m.fields[1]->Int_0)), ("reason_phrase", FieldValueView::Text(utf8_lossy(m.fields[2]->Bytes_0)))],
        MessageType::Namespace => seq![("namespace_suffix", FieldValueView::TextList(texts_of(m.fields[0]->Ns_0)))],
        MessageType::NamespaceDone => seq![("namespace_suffix", FieldValueView::TextList(texts_of(m.fields[0]->Ns_0)))],
        MessageType::SubscribeNamespace => seq![("request_id", FieldValueView::Uint(m.fields[0]->Int_0)), ("namespace_prefix", FieldValueView::TextList(texts_of(m.fields[1]->Ns_0))), ("subscribe_options", FieldValueView::Uint(m.fields[2]->Int_0)), ("parameters", FieldValueView::Entries(spec_render_params(ParamTable::Message, m.fields[3]->Pairs_0)))],
        MessageType::TrackStatus => seq![("request_id", FieldValueView::Uint(m.fields[0]->Int_0)), ("track_namespace", FieldValueView::TextList(texts_of(m.fields[1]->Ns_0))), ("track_name", FieldValueView::Text(utf8_lossy(m.fields[2]->Bytes_0))), ("parameters", FieldValueView::Entries(spec_render_params(ParamTable::Message, m.fields[3]->Pairs_0)))],
        MessageType::Fetch => seq![("request_id", FieldValueView::Uint(m.fields[0]->Int_0)), ("fetch_type", FieldValueView::Uint(m.fields[1]->fetch_type))] + match m.fields[1]->payload {
            FetchPayloadView::Standalone { track_namespace, track_name, start_group, start_object, end_group, end_object } => seq![
                ("track_namespace", FieldValueView::TextList(texts_of(track_namespace))),
                ("track_name", FieldValueView::Text(utf8_lossy(track_name))),
                ("start_group", FieldValueView::Uint(start_group)),
                ("start_object", FieldValueView::Uint(start_object)),
                ("end_group", FieldValueView::Uint(end_group)),
                ("end_object", FieldValueView::Uint(end_object)),
            ],
            FetchPayloadView::Joining { joining_request_id, joining_start } => seq![
                ("joining_request_id", FieldValueView::Uint(joining_request_id)),
                ("joining_start", FieldValueView::Uint(joining_start)),
            ],
        } + seq![("parameters", FieldValueView::Entries(spec_render_params(ParamTable::Message, m.fields[2]->Pairs_0)))],
        MessageType::FetchOk => seq![("request_id", FieldValueView::Uint(m.fields[0]->Int_0)), ("end_of_track", FieldValueView::Uint(m.fields[1]->Byte_0 as u64)), ("end_group", FieldValueView::Uint(m.fields[2]->Int_0)), ("end_object", FieldValueView::Uint(m.fields[3]->Int_0)), ("parameters", FieldValueView::Entries(spec_render_params(ParamTable::Message, m.fields[4]->Pairs_0)))] + if m.fields[5]->Pairs_0.len() > 0 { seq![("track_extensions", FieldValueView::Entries(spec_render_params(ParamTable::TrackExtension, m.fields[5]->Pairs_0)))] } else { Seq::empty() },
        MessageType::FetchCancel => seq![("request_id", FieldValueView::Uint(m.fields[0]->Int_0))],
    }
}

/// Whether every SUBSCRIPTION_FILTER among a message's parameters holds
/// the integers its Filter Type announces, so that it can be rendered.
pub open spec fn message_renderable(m: ControlMessageView) -> bool {
    forall|i: int| 0 <= i < m.fields.len() ==> (#[trigger] m.fields[i] matches Field::Pairs(ps) ==> filters_renderable(ps))
}

fn fields_client_setup(msg: &ControlMessage) -> (r: FieldMap)
    requires
        msg is ClientSetup,
        message_renderable(msg@),
    ensures
        r@ == spec_message_fields(msg@),
{
    let m = match msg { ControlMessage::ClientSetup(m) => m, _ => { proof { assert(false); } return FieldMap { entries: Vec::new() }; } };
    proof {
        assert(msg@.fields[0] == msg@.fields[0]);
    }
    let mut entries: Vec<(&'static str, FieldValue)> = Vec::new();
    proof { assert(msg@.fields[0] matches Field::Pairs(ps) ==> filters_renderable(ps)); }
    entries.push(("parameters", render_params(ParamTable::Setup, &m.parameters)));
    let r = FieldMap { entries };
    assert(r@ =~= spec_message_fields(msg@));
    r
}

fn fields_server_setup(msg: &ControlMessage) -> (r: FieldMap)
    requires
        msg is ServerSetup,
        message_renderable(msg@),
    ensures
        r@ == spec_message_fields(msg@),
{
    let m = match msg { ControlMessage::ServerSetup(m) => m, _ => { proof { assert(false); } return FieldMap { entries: Vec::new() }; } };
    proof {
        assert(msg@.fields[0] == msg@.fields[0]);
    }
    let mut entries: Vec<(&'static str, FieldValue)> = Vec::new();
    proof { assert(msg@.fields[0] matches Field::Pairs(ps) ==> filters_renderable(ps)); }
    entries.push(("parameters", render_params(ParamTable::Setup, &m.parameters)));
    let r = FieldMap { entries };
    assert(r@ =~= spec_message_fields(msg@));
    r
}

fn fields_go_away(msg: &ControlMessage) -> (r: FieldMap)
    requires
        msg is GoAway,
        message_renderable(msg@),
    ensures
        r@ == spec_message_fields(msg@),
{
    let m = match msg { ControlMessage::GoAway(m) => m, _ => { proof { assert(false); } return FieldMap { entries: Vec::new() }; } };
    proof {
        assert(msg@.fields[0] == msg@.fields[0]);
    }
    let mut entries: Vec<(&'static str, FieldValue)> = Vec::new();
    entries.push(("new_session_uri", FieldValue::Text(text_of(m.new_session_uri.as_slice()))));
    let r = FieldMap { entries };
    assert(r@ =~= spec_message_fields(msg@));
    r
}

fn fields_max_request_id(msg: &ControlMessage) -> (r: FieldMap)
    requires
        msg is MaxRequestId,
        message_renderable(msg@),
    ensures
        r@ == spec_message_fields(msg@),
{
    let m = match msg { ControlMessage::MaxRequestId(m) => m, _ => { proof { assert(false); } return FieldMap { entries: Vec::new() }; } };
    proof {
        assert(msg@.fields[0] == msg@.fields[0]);
    }
    let mut entries: Vec<(&'static str, FieldValue)> = Vec::new();
    entries.push(("max_request_id", FieldValue::Uint(m.request_id.into_inner())));
    let r = FieldMap { entries };
    assert(r@ =~= spec_message_fields(msg@));
    r
}

fn fields_requests_blocked(msg: &ControlMessage) -> (r: FieldMap)
    requires
        msg is RequestsBlocked,
        message_renderable(msg@),
    ensures
        r@ == spec_message_fields(msg@),
{
    let m = match msg { ControlMessage::RequestsBlocked(m) => m, _ => { proof { assert(false); } return FieldMap { entries: Vec::new() }; } };
    proof {
        assert(msg@.fields[0] == msg@.fields[0]);
    }
    let mut entries: Vec<(&'static str, FieldValue)> = Vec::new();
    entries.push(("maximum_request_id", FieldValue::Uint(m.maximum_request_id.into_inner())));
    let r = FieldMap { entries };
    assert(r@ =~= spec_message_fields(msg@));
    r
}

fn fields_request_ok(msg: &ControlMessage) -> (r: FieldMap)
    requires
        msg is RequestOk,
        message_renderable(msg@),
    ensures
        r@ == spec_message_fields(msg@),
{
    let m = match msg { ControlMessage::RequestOk(m) => m, _ => { proof { assert(false); } return FieldMap { entries: Vec::new() }; } };
    proof {
        assert(msg@.fields[0] == msg@.fields[0]);
        assert(msg@.fields[1] == msg@.fields[1]);
    }
    let mut entries: Vec<(&'static str, FieldValue)> = Vec::new();
    entries.push(("request_id", FieldValue::Uint(m.request_id.into_inner())));
    proof { assert(msg@.fields[1] matches Field::Pairs(ps) ==> filters_renderable(ps)); }
    entries.push(("parameters", render_params(ParamTable::Message, &m.parameters)));
    let r = FieldMap { entries };
    assert(r@ =~= spec_message_fields(msg@));
    r
}

fn fields_request_error(msg: &ControlMessage) -> (r: FieldMap)
    requires
        msg is RequestError,
        message_renderable(msg@),
    ensures
        r@ == spec_message_fields(msg@),
{
    let m = match msg { ControlMessage::RequestError(m) => m, _ => { proof { assert(false); } return FieldMap { entries: Vec::new() }; } };
    proof {
        assert(msg@.fields[0] == msg@.fields[0]);
        assert(msg@.fields[1] == msg@.fields[1]);
        assert(msg@.fields[2] == msg@.fields[2]);
        assert(msg@.fields[3] == msg@.fields[3]);
    }
    let mut entries: Vec<(&'static str, FieldValue)> = Vec::new();
    entries.push(("request_id", FieldValue::Uint(m.request_id.into_inner())));
    entries.push(("error_code", FieldValue::Uint(m.error_code.into_inner())));
    entries.push(("retry_interval", FieldValue::Uint(m.retry_interval.into_inner())));
    entries.push(("reason_phrase", FieldValue::Text(text_of(m.reason_phrase.as_slice()))));
    let r = FieldMap { entries };
    assert(r@ =~= spec_message_fields(msg@));
    r
}

fn fields_subscribe(msg: &ControlMessage) -> (r: FieldMap)
    requires
        msg is Subscribe,
        message_renderable(msg@),
    ensures
        r@ == spec_message_fields(msg@),
{
    let m = match msg { ControlMessage::Subscribe(m) => m, _ => { proof { assert(false); } return FieldMap { entries: Vec::new() }; } };
    proof {
        assert(msg@.fields[0] == msg@.fields[0]);
        assert(msg@.fields[1] == msg@.fields[1]);
        assert(msg@.fields[2] == msg@.fields[2]);
        assert(msg@.fields[3] == msg@.fields[3]);
    }
    let mut entries: Vec<(&'static str, FieldValue)> = Vec::new();
    entries.push(("request_id", FieldValue::Uint(m.request_id.into_inner())));
    entries.push(("track_namespace", FieldValue::TextList(texts(&m.track_namespace.0))));
    entries.push(("track_name", FieldValue::Text(text_of(m.track_name.as_slice()))));
    proof { assert(msg@.fields[3] matches Field::Pairs(ps) ==> filters_renderable(ps)); }
    entries.push(("parameters", render_params(ParamTable::Message, &m.parameters)));
    let r = FieldMap { entries };
    assert(r@ =~= spec_message_fields(msg@));
    r
}

fn fields_subscribe_ok(msg: &ControlMessage) -> (r: FieldMap)
    requires
        msg is SubscribeOk,
        message_renderable(msg@),
    ensures
        r@ == spec_message_fields(msg@),
{
    let m = match msg { ControlMessage::SubscribeOk(m) => m, _ => { proof { assert(false); } return FieldMap { entries: Vec::new() }; } };
    proof {
        assert(msg@.fields[0] == msg@.fields[0]);
        assert(msg@.fields[1] == msg@.fields[1]);
        assert(msg@.fields[2] == msg@.fields[2]);
        assert(msg@.fields[3] == msg@.fields[3]);
    }
    let mut entries: Vec<(&'static str, FieldValue)> = Vec::new();
    entries.push(("request_id", FieldValue::Uint(m.request_id.into_inner())));
    entries.push(("track_alias", FieldValue::Uint(m.track_alias.into_inner())));
    proof { assert(msg@.fields[2] matches Field::Pairs(ps) ==> filters_renderable(ps)); }
    entries.push(("parameters", render_params(ParamTable::Message, &m.parameters)));
    if m.track_extensions.len() > 0 {
        proof { assert(spec_kvp_views(m.track_extensions@).len() == m.track_extensions@.len()); }
        entries.push(("track_extensions", render_params(ParamTable::TrackExtension, &m.track_extensions)));
    }
    let r = FieldMap { entries };
    assert(r@ =~= spec_message_fields(msg@));
    r
}

fn fields_request_update(msg: &ControlMessage) -> (r: FieldMap)
    requires
        msg is RequestUpdate,
        message_renderable(msg@),
    ensures
        r@ == spec_message_fields(msg@),
{
    let m = match msg { ControlMessage::RequestUpdate(m) => m, _ => { proof { assert(false); } return FieldMap { entries: Vec::new() }; } };
    proof {
        assert(msg@.fields[0] == msg@.fields[0]);
        assert(msg@.fields[1] == msg@.fields[1]);
        assert(msg@.fields[2] == msg@.fields[2]);
    }
    let mut entries: Vec<(&'static str, FieldValue)> = Vec::new();
    entries.push(("request_id", FieldValue::Uint(m.request_id.into_inner())));
    entries.push(("existing_request_id", FieldValue::Uint(m.existing_request_id.into_inner())));
    proof { assert(msg@.fields[2] matches Field::Pairs(ps) ==> filters_renderable(ps)); }
    entries.push(("parameters", render_params(ParamTable::Message, &m.parameters)));
    let r = FieldMap { entries };
    assert(r@ =~= spec_message_fields(msg@));
    r
}

fn fields_unsubscribe(msg: &ControlMessage) -> (r: FieldMap)
    requires
        msg is Unsubscribe,
        message_renderable(msg@),
    ensures
        r@ == spec_message_fields(msg@),
{
    let m = match msg { ControlMessage::Unsubscribe(m) => m, _ => { proof { assert(false); } return FieldMap { entries: Vec::new() }; } };
    proof {
        assert(msg@.fields[0] == msg@.fields[0]);
    }
    let mut entries: Vec<(&'static str, FieldValue)> = Vec::new();
    entries.push(("request_id", FieldValue::Uint(m.request_id.into_inner())));
    let r = FieldMap { entries };
    assert(r@ =~= spec_message_fields(msg@));
    r
}

fn fields_publish(msg: &ControlMessage) -> (r: FieldMap)
    requires
        msg is Publish,
        message_renderable(msg@),
    ensures
        r@ == spec_message_fields(msg@),
{
    let m = match msg { ControlMessage::Publish(m) => m, _ => { proof { assert(false); } return FieldMap { entries: Vec::new() }; } };
    proof {
        assert(msg@.fields[0] == msg@.fields[0]);
        assert(msg@.fields[1] == msg@.fields[1]);
        assert(msg@.fields[2] == msg@.fields[2]);
        assert(msg@.fields[3] == msg@.fields[3]);
        assert(msg@.fields[4] == msg@.fields[4]);
        assert(msg@.fields[5] == msg@.fields[5]);
    }
    let mut entries: Vec<(&'static str, FieldValue)> = Vec::new();
    entries.push(("request_id", FieldValue::Uint(m.request_id.into_inner())));
    entries.push(("track_namespace", FieldValue::TextList(texts(&m.track_namespace.0))));
    entries.push(("track_name", FieldValue::Text(text_of(m.track_name.as_slice()))));
    entries.push(("track_alias", FieldValue::Uint(m.track_alias.into_inner())));
    proof { assert(msg@.fields[4] matches Field::Pairs(ps) ==> filters_renderable(ps)); }
    entries.push(("parameters", render_params(ParamTable::Message, &m.parameters)));
    if m.track_extensions.len() > 0 {
        proof { assert(spec_kvp_views(m.track_extensions@).len() == m.track_extensions@.len()); }
        entries.push(("track_extensions", render_params(ParamTable::TrackExtension, &m.track_extensions)));
    }
    let r = FieldMap { entries };
    assert(r@ =~= spec_message_fields(msg@));
    r
}

fn fields_publish_ok(msg: &ControlMessage) -> (r: FieldMap)
    requires
        msg is PublishOk,
        message_renderable(msg@),
    ensures
        r@ == spec_message_fields(msg@),
{
    let m = match msg { ControlMessage::PublishOk(m) => m, _ => { proof { assert(false); } return FieldMap { entries: Vec::new() }; } };
    proof {
        assert(msg@.fields[0] == msg@.fields[0]);
        assert(msg@.fields[1] == msg@.fields[1]);
    }
    let mut entries: Vec<(&'static str, FieldValue)> = Vec::new();
    entries.push(("request_id", FieldValue::Uint(m.request_id.into_inner())));
    proof { assert(msg@.fields[1] matches Field::Pairs(ps) ==> filters_renderable(ps)); }
    entries.push(("parameters", render_params(ParamTable::Message, &m.parameters)));
    let r = FieldMap { entries };
    assert(r@ =~= spec_message_fields(msg@));
    r
}

fn fields_publish_done(msg: &ControlMessage) -> (r: FieldMap)
    requires
        msg is PublishDone,
        message_renderable(msg@),
    ensures
        r@ == spec_message_fields(msg@),
{
    let m = match msg { ControlMessage::PublishDone(m) => m, _ => { proof { assert(false); } return FieldMap { entries: Vec::new() }; } };
    proof {
        assert(msg@.fields[0] == msg@.fields[0]);
        assert(msg@.fields[1] == msg@.fields[1]);
        assert(msg@.fields[2] == msg@.fields[2]);
        assert(msg@.fields[3] == msg@.fields[3]);
    }
    let mut entries: Vec<(&'static str, FieldValue)> = Vec::new();
    entries.push(("request_id", FieldValue::Uint(m.request_id.into_inner())));
    entries.push(("status_code", FieldValue::Uint(m.status_code.into_inner())));
    entries.push(("stream_count", FieldValue::Uint(m.stream_count.into_inner())));
    entries.push(("reason_phrase", FieldValue::Text(text_of(m.reason_phrase.as_slice()))));
    let r = FieldMap { entries };
    assert(r@ =~= spec_message_fields(msg@));
    r
}

fn fields_publish_namespace(msg: &ControlMessage) -> (r: FieldMap)
    requires
        msg is PublishNamespace,
        message_renderable(msg@),
    ensures
        r@ == spec_message_fields(msg@),
{
    let m = match msg { ControlMessage::PublishNamespace(m) => m, _ => { proof { assert(false); } return FieldMap { entries: Vec::new() }; } };
    proof {
        assert(msg@.fields[0] == msg@.fields[0]);
        assert(msg@.fields[1] == msg@.fields[1]);
        assert(msg@.fields[2] == msg@.fields[2]);
    }
    let mut entries: Vec<(&'static str, FieldValue)> = Vec::new();
    entries.push(("request_id", FieldValue::Uint(m.request_id.into_inner())));
    entries.push(("track_namespace", FieldValue::TextList(texts(&m.track_namespace.0))));
    proof { assert(msg@.fields[2] matches Field::Pairs(ps) ==> filters_renderable(ps)); }
    entries.push(("parameters", render_params(ParamTable::Message, &m.parameters)));
    let r = FieldMap { entries };
    assert(r@ =~= spec_message_fields(msg@));
    r
}

fn fields_publish_namespace_done(msg: &ControlMessage) -> (r: FieldMap)
    requires
        msg is PublishNamespaceDone,
        message_renderable(msg@),
    ensures
        r@ == spec_message_fields(msg@),
{
    let m = match msg { ControlMessage::PublishNamespaceDone(m) => m, _ => { proof { assert(false); } return FieldMap { entries: Vec::new() }; } };
    proof {
        assert(msg@.fields[0] == msg@.fields[0]);
    }
    let mut entries: Vec<(&'static str, FieldValue)> = Vec::new();
    entries.push(("request_id", FieldValue::Uint(m.request_id.into_inner())));
    let r = FieldMap { entries };
    assert(r@ =~= spec_message_fields(msg@));
    r
}

fn fields_publish_namespace_cancel(msg: &ControlMessage) -> (r: FieldMap)
    requires
        msg is PublishNamespaceCancel,
        message_renderable(msg@),
    ensures
        r@ == spec_message_fields(msg@),
{
    let m = match msg { ControlMessage::PublishNamespaceCancel(m) => m, _ => { proof { assert(false); } return FieldMap { entries: Vec::new() }; } };
    proof {
        assert(msg@.fields[0] == msg@.fields[0]);
        assert(msg@.fields[1] == msg@.fields[1]);
        assert(msg@.fields[2] == msg@.fields[2]);
    }
    let mut entries: Vec<(&'static str, FieldValue)> = Vec::new();
    entries.push(("request_id", FieldValue::Uint(m.request_id.into_inner())));
    entries.push(("error_code", FieldValue::Uint(m.error_code.into_inner())));
    entries.push(("reason_phrase", FieldValue::Text(text_of(m.reason_phrase.as_slice()))));
    let r = FieldMap { entries };
    assert(r@ =~= spec_message_fields(msg@));
    r
}

fn fields_namespace(msg: &ControlMessage) -> (r: FieldMap)
    requires
        msg is Namespace,
        message_renderable(msg@),
    ensures
        r@ == spec_message_fields(msg@),
{
    let m = match msg { ControlMessage::Namespace(m) => m, _ => { proof { assert(false); } return FieldMap { entries: Vec::new() }; } };
    proof {
        assert(msg@.fields[0] == msg@.fields[0]);
    }
    let mut entries: Vec<(&'static str, FieldValue)> = Vec::new();
    entries.push(("namespace_suffix", FieldValue::TextList(texts(&m.namespace_suffix.0))));
    let r = FieldMap { entries };
    assert(r@ =~= spec_message_fields(msg@));
    r
}

fn fields_namespace_done(msg: &ControlMessage) -> (r: FieldMap)
    requires
        msg is NamespaceDone,
        message_renderable(msg@),
    ensures
        r@ == spec_message_fields(msg@),
{
    let m = match msg { ControlMessage::NamespaceDone(m) => m, _ => { proof { assert(false); } return FieldMap { entries: Vec::new() }; } };
    proof {
        assert(msg@.fields[0] == msg@.fields[0]);
    }
    let mut entries: Vec<(&'static str, FieldValue)> = Vec::new();
    entries.push(("namespace_suffix", FieldValue::TextList(texts(&m.namespace_suffix.0))));
    let r = FieldMap { entries };
    assert(r@ =~= spec_message_fields(msg@));
    r
}

fn fields_subscribe_namespace(msg: &ControlMessage) -> (r: FieldMap)
    requires
        msg is SubscribeNamespace,
        message_renderable(msg@),
    ensures
        r@ == spec_message_fields(msg@),
{
    let m = match msg { ControlMessage::SubscribeNamespace(m) => m, _ => { proof { assert(false); } return FieldMap { entries: Vec::new() }; } };
    proof {
        assert(msg@.fields[0] == msg@.fields[0]);
        assert(msg@.fields[1] == msg@.fields[1]);
        assert(msg@.fields[2] == msg@.fields[2]);
        assert(msg@.fields[3] == msg@.fields[3]);
    }
    let mut entries: Vec<(&'static str, FieldValue)> = Vec::new();
    entries.push(("request_id", FieldValue::Uint(m.request_id.into_inner())));
    entries.push(("namespace_prefix", FieldValue::TextList(texts(&m.namespace_prefix.0))));
    entries.push(("subscribe_options", FieldValue::Uint(m.subscribe_options.into_inner())));
    proof { assert(msg@.fields[3] matches Field::Pairs(ps) ==> filters_renderable(ps)); }
    entries.push(("parameters", render_params(ParamTable::Message, &m.parameters)));
    let r = FieldMap { entries };
    assert(r@ =~= spec_message_fields(msg@));
    r
}

fn fields_track_status(msg: &ControlMessage) -> (r: FieldMap)
    requires
        msg is TrackStatus,
        message_renderable(msg@),
    ensures
        r@ == spec_message_fields(msg@),
{
    let m = match msg { ControlMessage::TrackStatus(m) => m, _ => { proof { assert(false); } return FieldMap { entries: Vec::new() }; } };
    proof {
        assert(msg@.fields[0] == msg@.fields[0]);
        assert(msg@.fields[1] == msg@.fields[1]);
        assert(msg@.fields[2] == msg@.fields[2]);
        assert(msg@.fields[3] == msg@.fields[3]);
    }
    let mut entries: Vec<(&'static str, FieldValue)> = Vec::new();
    entries.push(("request_id", FieldValue::Uint(m.request_id.into_inner())));
    entries.push(("track_namespace", FieldValue::TextList(texts(&m.track_namespace.0))));
    entries.push(("track_name", FieldValue::Text(text_of(m.track_name.as_slice()))));
    proof { assert(msg@.fields[3] matches Field::Pairs(ps) ==> filters_renderable(ps)); }
    entries.push(("parameters", render_params(ParamTable::Message, &m.parameters)));
    let r = FieldMap { entries };
    assert(r@ =~= spec_message_fields(msg@));
    r
}

fn fields_fetch(msg: &ControlMessage) -> (r: FieldMap)
    requires
        msg is Fetch,
        message_renderable(msg@),
    ensures
        r@ == spec_message_fields(msg@),
{
    let m = match msg { ControlMessage::Fetch(m) => m, _ => { proof { assert(false); } return FieldMap { entries: Vec::new() }; } };
    proof {
        assert(msg@.fields[0] == msg@.fields[0]);
        assert(msg@.fields[1] == msg@.fields[1]);
        assert(msg@.fields[2] == msg@.fields[2]);
    }
    let mut entries: Vec<(&'static str, FieldValue)> = Vec::new();
    entries.push(("request_id", FieldValue::Uint(m.request_id.into_inner())));
    let ft: u64 = match m.fetch_type { FetchType::Standalone => 1, FetchType::RelativeJoining => 2, FetchType::AbsoluteJoining => 3 };
    entries.push(("fetch_type", FieldValue::Uint(ft)));
    match &m.fetch_payload {
        FetchPayload::Standalone { track_namespace, track_name, start_group, start_object, end_group, end_object } => {
            entries.push(("track_namespace", FieldValue::TextList(texts(&track_namespace.0))));
            entries.push(("track_name", FieldValue::Text(text_of(track_name.as_slice()))));
            entries.push(("start_group", FieldValue::Uint(start_group.into_inner())));
            entries.push(("start_object", FieldValue::Uint(start_object.into_inner())));
            entries.push(("end_group", FieldValue::Uint(end_group.into_inner())));
            entries.push(("end_object", FieldValue::Uint(end_object.into_inner())));
        },
        FetchPayload::Joining { joining_request_id, joining_start } => {
            entries.push(("joining_request_id", FieldValue::Uint(joining_request_id.into_inner())));
            entries.push(("joining_start", FieldValue::Uint(joining_start.into_inner())));
        },
    }
    proof { assert(msg@.fields[2] matches Field::Pairs(ps) ==> filters_renderable(ps)); }
    entries.push(("parameters", render_params(ParamTable::Message, &m.parameters)));
    let r = FieldMap { entries };
    assert(r@ =~= spec_message_fields(msg@));
    r
}

fn fields_fetch_ok(msg: &ControlMessage) -> (r: FieldMap)
    requires
        msg is FetchOk,
        message_renderable(msg@),
    ensures
        r@ == spec_message_fields(msg@),
{
    let m = match msg { ControlMessage::FetchOk(m) => m, _ => { proof { assert(false); } return FieldMap { entries: Vec::new() }; } };
    proof {
        assert(msg@.fields[0] == msg@.fields[0]);
        assert(msg@.fields[1] == msg@.fields[1]);
        assert(msg@.fields[2] == msg@.fields[2]);
        assert(msg@.fields[3] == msg@.fields[3]);
        assert(msg@.fields[4] == msg@.fields[4]);
        assert(msg@.fields[5] == msg@.fields[5]);
    }
    let mut entries: Vec<(&'static str, FieldValue)> = Vec::new();
    entries.push(("request_id", FieldValue::Uint(m.request_id.into_inner())));
    entries.push(("end_of_track", FieldValue::Uint(m.end_of_track as u64)));
    entries.push(("end_group", FieldValue::Uint(m.end_group.into_inner())));
    entries.push(("end_object", FieldValue::Uint(m.end_object.into_inner())));
    proof { assert(msg@.fields[4] matches Field::Pairs(ps) ==> filters_renderable(ps)); }
    entries.push(("parameters", render_params(ParamTable::Message, &m.parameters)));
    if m.track_extensions.len() > 0 {
        proof { assert(spec_kvp_views(m.track_extensions@).len() == m.track_extensions@.len()); }
        entries.push(("track_extensions", render_params(ParamTable::TrackExtension, &m.track_extensions)));
    }
    let r = FieldMap { entries };
    assert(r@ =~= spec_message_fields(msg@));
    r
}

fn fields_fetch_cancel(msg: &ControlMessage) -> (r: FieldMap)
    requires
        msg is FetchCancel,
        message_renderable(msg@),
    ensures
        r@ == spec_message_fields(msg@),
{
    let m = match msg { ControlMessage::FetchCancel(m) => m, _ => { proof { assert(false); } return FieldMap { entries: Vec::new() }; } };
    proof {
        assert(msg@.fields[0] == msg@.fields[0]);
    }
    let mut entries: Vec<(&'static str, FieldValue)> = Vec::new();
    entries.push(("request_id", FieldValue::Uint(m.request_id.into_inner())));
    let r = FieldMap { entries };
    assert(r@ =~= spec_message_fields(msg@));
    r
}

/// This draft's field names for a decoded control message, with their
/// values, in the order the draft defines the fields. An optional field
/// the message does not carry is absent.
pub fn message_fields(msg: &ControlMessage) -> (r: FieldMap)
    requires
        message_renderable(msg@),
    ensures
        r@ == spec_message_fields(msg@),
{
    match msg {
        ControlMessage::ClientSetup(_) => fields_client_setup(msg),
        ControlMessage::ServerSetup(_) => fields_server_setup(msg),
        ControlMessage::GoAway(_) => fields_go_away(msg),
        ControlMessage::MaxRequestId(_) => fields_max_request_id(msg),
        ControlMessage::RequestsBlocked(_) => fields_requests_blocked(msg),
        ControlMessage::RequestOk(_) => fields_request_ok(msg),
        ControlMessage::RequestError(_) => fields_request_error(msg),
        ControlMessage::Subscribe(_) => fields_subscribe(msg),
        ControlMessage::SubscribeOk(_) => fields_subscribe_ok(msg),
        ControlMessage::RequestUpdate(_) => fields_request_update(msg),
        ControlMessage::Unsubscribe(_) => fields_unsubscribe(msg),
        ControlMessage::Publish(_) => fields_publish(msg),
        ControlMessage::PublishOk(_) => fields_publish_ok(msg),
        ControlMessage::PublishDone(_) => fields_publish_done(msg),
        ControlMessage::PublishNamespace(_) => fields_publish_namespace(msg),
        ControlMessage::PublishNamespaceDone(_) => fields_publish_namespace_done(msg),
        ControlMessage::PublishNamespaceCancel(_) => fields_publish_namespace_cancel(msg),
        ControlMessage::Namespace(_) => fields_namespace(msg),
        ControlMessage::NamespaceDone(_) => fields_namespace_done(msg),
        ControlMessage::SubscribeNamespace(_) => fields_subscribe_namespace(msg),
        ControlMessage::TrackStatus(_) => fields_track_status(msg),
        ControlMessage::Fetch(_) => fields_fetch(msg),
        ControlMessage::FetchOk(_) => fields_fetch_ok(msg),
        ControlMessage::FetchCancel(_) => fields_fetch_cancel(msg),
    }
}


/// Whether a Subscription Filter value holds the integers its Filter Type
/// announces.
pub fn filter_renderable(b: &[u8]) -> (r: bool)
    ensures
        r == spec_filter_renderable(b@),
{
    assert(b@.skip(0) =~= b@);
    let (t, p1) = match varint_after(b, 0) {
        Some(x) => x,
        None => return false,
    };
    if t == 3 || t == 4 {
        let (_, p2) = match varint_after(b, p1) {
            Some(x) => x,
            None => return false,
        };
        let (_, p3) = match varint_after(b, p2) {
            Some(x) => x,
            None => return false,
        };
        if t == 4 {
            return varint_after(b, p3).is_some();
        }
    }
    true
}

/// Whether every SUBSCRIPTION_FILTER among `params` holds the integers its
/// Filter Type announces.
pub fn filters_renderable_exec(params: &Vec<KeyValuePair>) -> (r: bool)
    ensures
        r == filters_renderable(spec_kvp_views(params@)),
{
    let ghost ps = spec_kvp_views(params@);
    let mut i: usize = 0;
    while i < params.len()
        invariant
            i <= params@.len(),
            ps == spec_kvp_views(params@),
            forall|j: int| 0 <= j < i ==> ((#[trigger] ps[j]).key == 0x21 && ps[j].value is Bytes ==> spec_filter_renderable(ps[j].value->Bytes_0)),
        decreases params@.len() - i,
    {
        assert(ps[i as int] == params@[i as int]@);
        if params[i].key.into_inner() == 0x21 {
            match &params[i].value {
                KvpValue::Bytes(b) => {
                    if !filter_renderable(b.as_slice()) {
                        return false;
                    }
                },
                KvpValue::Varint(_) => {},
            }
        }
        i = i + 1;
    }
    true
}

/// Whether [`message_fields`] can render `msg`: every SUBSCRIPTION_FILTER
/// among its parameters holds the integers its Filter Type announces.
pub fn message_renderable_exec(msg: &ControlMessage) -> (r: bool)
    ensures
        r == message_renderable(msg@),
{
    match msg {
        ControlMessage::ClientSetup(m) => {
            let c0 = filters_renderable_exec(&m.parameters);
            proof {
                assert forall|i: int| 0 <= i < msg@.fields.len() && (c0) implies (#[trigger] msg@.fields[i] matches Field::Pairs(ps) ==> filters_renderable(ps)) by {}
                assert(msg@.fields[0] == Field::Pairs(spec_kvp_views(m.parameters@)));
            }
            c0
        },
        ControlMessage::ServerSetup(m) => {
            let c0 = filters_renderable_exec(&m.parameters);
            proof {
                assert forall|i: int| 0 <= i < msg@.fields.len() && (c0) implies (#[trigger] msg@.fields[i] matches Field::Pairs(ps) ==> filters_renderable(ps)) by {}
                assert(msg@.fields[0] == Field::Pairs(spec_kvp_views(m.parameters@)));
            }
            c0
        },
        ControlMessage::GoAway(_) => {
            assert(forall|i: int| 0 <= i < msg@.fields.len() ==> !(#[trigger] msg@.fields[i] is Pairs));
            true
        },
        ControlMessage::MaxRequestId(_) => {
            assert(forall|i: int| 0 <= i < msg@.fields.len() ==> !(#[trigger] msg@.fields[i] is Pairs));
            true
        },
        ControlMessage::RequestsBlocked(_) => {
            assert(forall|i: int| 0 <= i < msg@.fields.len() ==> !(#[trigger] msg@.fields[i] is Pairs));
            true
        },
        ControlMessage::RequestOk(m) => {
            let c1 = filters_renderable_exec(&m.parameters);
            proof {
                assert forall|i: int| 0 <= i < msg@.fields.len() && (c1) implies (#[trigger] msg@.fields[i] matches Field::Pairs(ps) ==> filters_renderable(ps)) by {}
                assert(msg@.fields[1] == Field::Pairs(spec_kvp_views(m.parameters@)));
            }
            c1
        },
        ControlMessage::RequestError(_) => {
            assert(forall|i: int| 0 <= i < msg@.fields.len() ==> !(#[trigger] msg@.fields[i] is Pairs));
            true
        },
        ControlMessage::Subscribe(m) => {
            let c3 = filters_renderable_exec(&m.parameters);
            proof {
                assert forall|i: int| 0 <= i < msg@.fields.len() && (c3) implies (#[trigger] msg@.fields[i] matches Field::Pairs(ps) ==> filters_renderable(ps)) by {}
                assert(msg@.fields[3] == Field::Pairs(spec_kvp_views(m.parameters@)));
            }
            c3
        },
        ControlMessage::SubscribeOk(m) => {
            let c2 = filters_renderable_exec(&m.parameters);
            let c3 = filters_renderable_exec(&m.track_extensions);
            proof {
                assert forall|i: int| 0 <= i < msg@.fields.len() && (c2 && c3) implies (#[trigger] msg@.fields[i] matches Field::Pairs(ps) ==> filters_renderable(ps)) by {}
                assert(msg@.fields[2] == Field::Pairs(spec_kvp_views(m.parameters@)));
                assert(msg@.fields[3] == Field::Pairs(spec_kvp_views(m.track_extensions@)));
            }
            c2 && c3
        },
        ControlMessage::RequestUpdate(m) => {
            let c2 = filters_renderable_exec(&m.parameters);
            proof {
                assert forall|i: int| 0 <= i < msg@.fields.len() && (c2) implies (#[trigger] msg@.fields[i] matches Field::Pairs(ps) ==> filters_renderable(ps)) by {}
                assert(msg@.fields[2] == Field::Pairs(spec_kvp_views(m.parameters@)));
            }
            c2
        },
        ControlMessage::Unsubscribe(_) => {
            assert(forall|i: int| 0 <= i < msg@.fields.len() ==> !(#[trigger] msg@.fields[i] is Pairs));
            true
        },
        ControlMessage::Publish(m) => {
            let c4 = filters_renderable_exec(&m.parameters);
            let c5 = filters_renderable_exec(&m.track_extensions);
            proof {
                assert forall|i: int| 0 <= i < msg@.fields.len() && (c4 && c5) implies (#[trigger] msg@.fields[i] matches Field::Pairs(ps) ==> filters_renderable(ps)) by {}
                assert(msg@.fields[4] == Field::Pairs(spec_kvp_views(m.parameters@)));
                assert(msg@.fields[5] == Field::Pairs(spec_kvp_views(m.track_extensions@)));
            }
            c4 && c5
        },
        ControlMessage::PublishOk(m) => {
            let c1 = filters_renderable_exec(&m.parameters);
            proof {
                assert forall|i: int| 0 <= i < msg@.fields.len() && (c1) implies (#[trigger] msg@.fields[i] matches Field::Pairs(ps) ==> filters_renderable(ps)) by {}
                assert(msg@.fields[1] == Field::Pairs(spec_kvp_views(m.parameters@)));
            }
            c1
        },
        ControlMessage::PublishDone(_) => {
            assert(forall|i: int| 0 <= i < msg@.fields.len() ==> !(#[trigger] msg@.fields[i] is Pairs));
            true
        },
        ControlMessage::PublishNamespace(m) => {
            let c2 = filters_renderable_exec(&m.parameters);
            proof {
                assert forall|i: int| 0 <= i < msg@.fields.len() && (c2) implies (#[trigger] msg@.fields[i] matches Field::Pairs(ps) ==> filters_renderable(ps)) by {}
                assert(msg@.fields[2] == Field::Pairs(spec_kvp_views(m.parameters@)));
            }
            c2
        },
        ControlMessage::PublishNamespaceDone(_) => {
            assert(forall|i: int| 0 <= i < msg@.fields.len() ==> !(#[trigger] msg@.fields[i] is Pairs));
            true
        },
        ControlMessage::PublishNamespaceCancel(_) => {
            assert(forall|i: int| 0 <= i < msg@.fields.len() ==> !(#[trigger] msg@.fields[i] is Pairs));
            true
        },
        ControlMessage::Namespace(_) => {
            assert(forall|i: int| 0 <= i < msg@.fields.len() ==> !(#[trigger] msg@.fields[i] is Pairs));
            true
        },
        ControlMessage::NamespaceDone(_) => {
            assert(forall|i: int| 0 <= i < msg@.fields.len() ==> !(#[trigger] msg@.fields[i] is Pairs));
            true
        },
        ControlMessage::SubscribeNamespace(m) => {
            let c3 = filters_renderable_exec(&m.parameters);
            proof {
                assert forall|i: int| 0 <= i < msg@.fields.len() && (c3) implies (#[trigger] msg@.fields[i] matches Field::Pairs(ps) ==> filters_renderable(ps)) by {}
                assert(msg@.fields[3] == Field::Pairs(spec_kvp_views(m.parameters@)));
            }
            c3
        },
        ControlMessage::TrackStatus(m) => {
            let c3 = filters_renderable_exec(&m.parameters);
            proof {
                assert forall|i: int| 0 <= i < msg@.fields.len() && (c3) implies (#[trigger] msg@.fields[i] matches Field::Pairs(ps) ==> filters_renderable(ps)) by {}
                assert(msg@.fields[3] == Field::Pairs(spec_kvp_views(m.parameters@)));
            }
            c3
        },
        ControlMessage::Fetch(m) => {
            let c2 = filters_renderable_exec(&m.parameters);
            proof {
                assert forall|i: int| 0 <= i < msg@.fields.len() && (c2) implies (#[trigger] msg@.fields[i] matches Field::Pairs(ps) ==> filters_renderable(ps)) by {}
                assert(msg@.fields[2] == Field::Pairs(spec_kvp_views(m.parameters@)));
            }
            c2
        },
        ControlMessage::FetchOk(m) => {
            let c4 = filters_renderable_exec(&m.parameters);
            let c5 = filters_renderable_exec(&m.track_extensions);
            proof {
                assert forall|i: int| 0 <= i < msg@.fields.len() && (c4 && c5) implies (#[trigger] msg@.fields[i] matches Field::Pairs(ps) ==> filters_renderable(ps)) by {}
                assert(msg@.fields[4] == Field::Pairs(spec_kvp_views(m.parameters@)));
                assert(msg@.fields[5] == Field::Pairs(spec_kvp_views(m.track_extensions@)));
            }
            c4 && c5
        },
        ControlMessage::FetchCancel(_) => {
            assert(forall|i: int| 0 <= i < msg@.fields.len() ==> !(#[trigger] msg@.fields[i] is Pairs));
            true
        },
    }
}

} // verus!
