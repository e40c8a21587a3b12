//! Draft-14 control messages rendered as named fields.

use vstd::prelude::*;
use crate::draft14::control::{
    exists_byte, filter_value, fwd_byte, ints_view, order_byte, ControlMessageView, Field, FetchPayloadView,
};
use crate::draft14::message::{ControlMessage, FetchPayload, FetchType, MessageType};
use crate::draft15::params::spec_kvp_views;
use crate::fields::{
    auth_token_render, parts_view, spec_auth_token_render, text_of, texts, texts_of, utf8_lossy, EntryValue,
    EntryValueView, FieldMap, FieldValue, FieldValueView, Scalar, ScalarView,
};
use crate::kvp::{KeyValuePair, KeyValuePairView, KvpValue, KvpValueView};
use crate::types::Location;
use crate::varint::VarInt;

verus! {

/// The name this draft gives setup parameter Type `key`. Draft 14 gives
/// 0x05 to both AUTHORITY and MOQT_IMPLEMENTATION; it is rendered as
/// `authority`.
pub open spec fn spec_d14_setup_param_name(key: u64) -> Option<&'static str> {
    if key == 0x01 {
        Some("path")
    } else if key == 0x02 {
        Some("max_request_id")
    } else if key == 0x03 {
        Some("authorization_token")
    } else if key == 0x04 {
        Some("max_auth_token_cache_size")
    } else if key == 0x05 {
        Some("authority")
    } else {
        None
    }
}

/// The name this draft gives version-specific parameter Type `key`.
pub open spec fn spec_d14_msg_param_name(key: u64) -> Option<&'static str> {
    if key == 0x02 {
        Some("delivery_timeout")
    } else if key == 0x03 {
        Some("authorization_token")
    } else if key == 0x04 {
        Some("max_cache_duration")
    } else {
        None
    }
}

/// The name this draft gives setup parameter Type `key`.
pub fn d14_setup_param_name(key: u64) -> (r: Option<&'static str>)
    ensures
        r == spec_d14_setup_param_name(key),
{
    match key {
        0x01 => Some("path"),
        0x02 => Some("max_request_id"),
        0x03 => Some("authorization_token"),
        0x04 => Some("max_auth_token_cache_size"),
        0x05 => Some("authority"),
        _ => None,
    }
}

/// The name this draft gives version-specific parameter Type `key`.
pub fn d14_msg_param_name(key: u64) -> (r: Option<&'static str>)
    ensures
        r == spec_d14_msg_param_name(key),
{
    match key {
        0x02 => Some("delivery_timeout"),
        0x03 => Some("authorization_token"),
        0x04 => Some("max_cache_duration"),
        _ => None,
    }
}

/// A named parameter rendered: a varint as itself, an AUTHORIZATION TOKEN
/// (Type 0x03, the one Type either table names `authorization_token`) by
/// its parts, other bytes as text. `setup` picks the setup names.
pub open spec fn spec_render_pair(setup: bool, kv: KeyValuePairView) -> Option<(&'static str, EntryValueView)> {
    let name = if setup {
        spec_d14_setup_param_name(kv.key)
    } else {
        spec_d14_msg_param_name(kv.key)
    };
    match name {
        None => None,
        Some(n) => Some((
            n,
            match kv.value {
                KvpValueView::Varint(v) => EntryValueView::Uint(v),
                KvpValueView::Bytes(b) => if kv.key == 0x03 {
                    spec_auth_token_render(b)
                } else {
                    EntryValueView::Text(utf8_lossy(b))
                },
            },
        )),
    }
}

/// The named parameters of a list, in list order; a parameter whose Type
/// this draft does not name is left out.
pub open spec fn spec_render_params(setup: bool, ps: Seq<KeyValuePairView>) -> Seq<(&'static str, EntryValueView)>
    decreases ps.len(),
{
    if ps.len() == 0 {
        Seq::empty()
    } else {
        spec_render_params(setup, ps.drop_last()) + match spec_render_pair(setup, ps.last()) {
            Some(e) => seq![e],
            None => Seq::empty(),
        }
    }
}

/// Render the parameters of a list that this draft names, with the setup
/// names when `setup`.
pub fn kvp_to_json(params: &Vec<KeyValuePair>, setup: bool) -> (r: FieldValue)
    ensures
        r@ == FieldValueView::Entries(spec_render_params(setup, spec_kvp_views(params@))),
{
    let ghost ps = spec_kvp_views(params@);
    let mut out: Vec<(&'static str, EntryValue)> = Vec::new();
    let mut i: usize = 0;
    while i < params.len()
        invariant
            i <= params@.len(),
            ps == spec_kvp_views(params@),
            out@.map_values(|e: (&'static str, EntryValue)| (e.0, e.1@)) == spec_render_params(setup, ps.take(i as int)),
        decreases params@.len() - i,
    {
        let kv = &params[i];
        let key = kv.key.into_inner();
        assert(ps[i as int] == kv@);
        assert(ps.take(i + 1).drop_last() =~= ps.take(i as int));
        let name = if setup {
            d14_setup_param_name(key)
        } else {
            d14_msg_param_name(key)
        };
        match name {
            None => {},
            Some(n) => {
                let v = match &kv.value {
                    KvpValue::Varint(x) => EntryValue::Uint(x.into_inner()),
                    KvpValue::Bytes(b) => if key == 0x03 {
                        auth_token_render(b.as_slice())
                    } else {
                        EntryValue::Text(text_of(b.as_slice()))
                    },
                };
                out.push((n, v));
            },
        }
        proof {
            assert(out@.map_values(|e: (&'static str, EntryValue)| (e.0, e.1@)) =~= spec_render_params(setup, ps.take(i + 1)));
        }
        i = i + 1;
    }
    assert(ps.take(i as int) =~= ps);
    FieldValue::Entries(out)
}

/// A Location rendered as its group and object.
pub open spec fn loc_fields(g: u64, o: u64) -> FieldValueView {
    FieldValueView::Parts(seq![("group", ScalarView::Uint(g)), ("object", ScalarView::Uint(o))])
}

/// Render a Location as its group and object.
pub fn loc_to_json(loc: &Location) -> (r: FieldValue)
    ensures
        r@ == loc_fields(loc.group@, loc.object@),
{
    let mut o: Vec<(&'static str, Scalar)> = Vec::new();
    o.push(("group", Scalar::Uint(loc.group.into_inner())));
    o.push(("object", Scalar::Uint(loc.object.into_inner())));
    assert(parts_view(o@) =~= seq![("group", ScalarView::Uint(loc.group@)), ("object", ScalarView::Uint(loc.object@))]);
    FieldValue::Parts(o)
}

fn uints(v: &Vec<VarInt>) -> (r: Vec<u64>)
    ensures
        r@ == ints_view(v@),
{
    let mut out: Vec<u64> = Vec::new();
    let mut i: usize = 0;
    while i < v.len()
        invariant
            i <= v@.len(),
            out@ == ints_view(v@).take(i as int),
        decreases v@.len() - i,
    {
        out.push(v[i].into_inner());
        i = i + 1;
        assert(out@ =~= ints_view(v@).take(i as int));
    }
    assert(ints_view(v@).take(i as int) =~= ints_view(v@));
    out
}

fn fetch_type_value(t: FetchType) -> (r: u64)
    ensures
        r == t.spec_value(),
{
    match t {
        FetchType::Standalone => 1,
        FetchType::RelativeJoining => 2,
        FetchType::AbsoluteJoining => 3,
    }
}

/// The fields of a message, named as this draft names them, in the order
/// it defines them; an optional field the message does not carry is
/// absent.
pub open spec fn spec_message_fields(m: ControlMessageView) -> Seq<(&'static str, FieldValueView)> {
    match m.message_type {
        MessageType::ClientSetup => seq![("supported_versions", FieldValueView::UintList(m.fields[0]->Ints_0)), ("parameters", FieldValueView::Entries(spec_render_params(true, m.fields[1]->Pairs_0)))],
        MessageType::ServerSetup => seq![("selected_version", FieldValueView::Uint(m.fields[0]->Int_0)), ("parameters", FieldValueView::Entries(spec_render_params(true, m.fields[1]->Pairs_0)))],
        MessageType::GoAway => seq![("new_session_uri", FieldValueView::Text(utf8_lossy(m.fields[0]->Bytes_0)))],
        MessageType::MaxRequestId => seq![("request_id", FieldValueView::Uint(m.fields[0]->Int_0))],
        MessageType::RequestsBlocked => seq![("request_id", FieldValueView::Uint(m.fields[0]->Int_0))],
        MessageType::Subscribe => seq![("request_id", FieldValueView::Uint(m.fields[0]->Int_0)), ("track_namespace", FieldValueView::TextList(texts_of(m.fields[1]->Ns_0))), ("track_name", FieldValueView::Text(utf8_lossy(m.fields[2]->Bytes_0))), ("subscriber_priority", FieldValueView::Uint((m.fields[3]->Octets_0[0]) as u64)), ("group_order", FieldValueView::Uint((m.fields[3]->Octets_0[1]) as u64)), ("forward", FieldValueView::Uint((m.fields[3]->Octets_0[2]) as u64)), ("filter_type", FieldValueView::Uint(m.fields[4]->filter_type))] + (match m.fields[4]->start { Some((g, o)) => seq![("start_group", FieldValueView::Uint(g)), ("start_object", FieldValueView::Uint(o))], None => Seq::empty() }) + (match m.fields[4]->end_group { Some(g) => seq![("end_group", FieldValueView::Uint(g))], None => Seq::empty() }) + seq![("parameters", FieldValueView::Entries(spec_render_params(false, m.fields[5]->Pairs_0)))],
        MessageType::SubscribeOk => seq![("request_id", FieldValueView::Uint(m.fields[0]->Int_0)), ("track_alias", FieldValueView::Uint(m.fields[1]->Int_0)), ("expires", FieldValueView::Uint(m.fields[2]->Int_0)), ("group_order", FieldValueView::Uint((m.fields[3]->order) as u64)), ("content_exists", FieldValueView::Uint((m.fields[3]->exists) as u64))] + (match m.fields[3]->largest { Some((g, o)) => seq![("largest_location", loc_fields(g, o))], None => Seq::empty() }) + seq![("parameters", FieldValueView::Entries(spec_render_params(false, m.fields[4]->Pairs_0)))],
        MessageType::SubscribeError => seq![("request_id", FieldValueView::Uint(m.fields[0]->Int_0)), ("error_code", FieldValueView::Uint(m.fields[1]->Int_0)), ("reason_phrase", FieldValueView::Text(utf8_lossy(m.fields[2]->Bytes_0)))],
        MessageType::SubscribeUpdate => seq![("request_id", FieldValueView::Uint(m.fields[0]->Int_0)), ("subscription_request_id", FieldValueView::Uint(m.fields[1]->Int_0)), ("start_group", FieldValueView::Uint(m.fields[2]->Loc_0)), ("start_object", FieldValueView::Uint(m.fields[2]->Loc_1)), ("end_group", FieldValueView::Uint(m.fields[3]->Int_0)), ("subscriber_priority", FieldValueView::Uint((m.fields[4]->Octets_0[0]) as u64)), ("forward", FieldValueView::Uint((m.fields[4]->Octets_0[1]) as u64)), ("parameters", FieldValueView::Entries(spec_render_params(false, m.fields[5]->Pairs_0)))],
        MessageType::Unsubscribe => seq![("request_id", FieldValueView::Uint(m.fields[0]->Int_0))],
        MessageType::Publish => seq![("request_id", FieldValueView::Uint(m.fields[0]->Int_0)), ("track_namespace", FieldValueView::TextList(texts_of(m.fields[1]->Ns_0))), ("track_name", FieldValueView::Text(utf8_lossy(m.fields[2]->Bytes_0))), ("track_alias", FieldValueView::Uint(m.fields[3]->Int_0)), ("group_order", FieldValueView::Uint((m.fields[4]->order) as u64)), ("content_exists", FieldValueView::Uint((m.fields[4]->exists) as u64))] + (match m.fields[4]->largest { Some((g, o)) => seq![("largest_location", loc_fields(g, o))], None => Seq::empty() }) + seq![("forward", FieldValueView::Uint((m.fields[5]->Octets_0[0]) as u64)), ("parameters", FieldValueView::Entries(spec_render_params(false, m.fields[6]->Pairs_0)))],
        MessageType::PublishOk => seq![("request_id", FieldValueView::Uint(m.fields[0]->Int_0)), ("forward", FieldValueView::Uint((m.fields[1]->Octets_0[0]) as u64)), ("subscriber_priority", FieldValueView::Uint((m.fields[1]->Octets_0[1]) as u64)), ("group_order", FieldValueView::Uint((m.fields[1]->Octets_0[2]) as u64)), ("filter_type", FieldValueView::Uint(m.fields[2]->filter_type))] + (match m.fields[2]->start { Some((g, o)) => seq![("start_group", FieldValueView::Uint(g)), ("start_object", FieldValueView::Uint(o))], None => Seq::empty() }) + (match m.fields[2]->end_group { Some(g) => seq![("end_group", FieldValueView::Uint(g))], None => Seq::empty() }) + seq![("parameters", FieldValueView::Entries(spec_render_params(false, m.fields[3]->Pairs_0)))],
        MessageType::PublishError => seq![("request_id", FieldValueView::Uint(m.fields[0]->Int_0)), ("error_code", FieldValueView::Uint(m.fields[1]->Int_0)), ("reason_phrase", FieldValueView::Text(utf8_lossy(m.fields[2]->Bytes_0)))],
        MessageType::PublishDone => seq![("request_id", FieldValueView::Uint(m.fields[0]->Int_0)), ("status_code", FieldValueView::Uint(m.fields[1]->Int_0)), ("stream_count", FieldValueView::Uint(m.fields[2]->Int_0)), ("reason_phrase", FieldValueView::Text(utf8_lossy(m.fields[3]->Bytes_0)))],
        MessageType::PublishNamespace => seq![("request_id", FieldValueView::Uint(m.fields[0]->Int_0)), ("track_namespace", FieldValueView::TextList(texts_of(m.fields[1]->Ns_0))), ("parameters", FieldValueView::Entries(spec_render_params(false, m.fields[2]->Pairs_0)))],
        MessageType::PublishNamespaceOk => seq![("request_id", FieldValueView::Uint(m.fields[0]->Int_0))],
        MessageType::PublishNamespaceError => seq![("request_id", FieldValueView::Uint(m.fields[0]->Int_0)), ("error_code", FieldValueView::Uint(m.fields[1]->Int_0)), ("reason_phrase", FieldValueView::Text(utf8_lossy(m.fields[2]->Bytes_0)))],
        MessageType::PublishNamespaceDone => seq![("track_namespace", FieldValueView::TextList(texts_of(m.fields[0]->Ns_0)))],
        MessageType::PublishNamespaceCancel => seq![("track_namespace", FieldValueView::TextList(texts_of(m.fields[0]->Ns_0))), ("error_code", FieldValueView::Uint(m.fields[1]->Int_0)), ("reason_phrase", FieldValueView::Text(utf8_lossy(m.fields[2]->Bytes_0)))],
        MessageType::SubscribeNamespace => seq![("request_id", FieldValueView::Uint(m.fields[0]->Int_0)), ("namespace_prefix", FieldValueView::TextList(texts_of(m.fields[1]->Ns_0))), ("parameters", FieldValueView::Entries(spec_render_params(false, m.fields[2]->Pairs_0)))],
        MessageType::SubscribeNamespaceOk => seq![("request_id", FieldValueView::Uint(m.fields[0]->Int_0))],
        MessageType::SubscribeNamespaceError => seq![("request_id", FieldValueView::Uint(m.fields[0]->Int_0)), ("error_code", FieldValueView::Uint(m.fields[1]->Int_0)), ("reason_phrase", FieldValueView::Text(utf8_lossy(m.fields[2]->Bytes_0)))],
        MessageType::UnsubscribeNamespace => seq![("track_namespace_prefix", FieldValueView::TextList(texts_of(m.fields[0]->Ns_0)))],
        MessageType::Fetch => seq![("request_id", FieldValueView::Uint(m.fields[0]->Int_0)), ("subscriber_priority", FieldValueView::Uint((m.fields[1]->Octets_0[0]) as u64)), ("group_order", FieldValueView::Uint((m.fields[1]->Octets_0[1]) as u64))] + (seq![("fetch_type", FieldValueView::Uint(m.fields[2]->fetch_type))] + match m.fields[2]->payload {
            FetchPayloadView::Standalone { track_namespace, track_name, start_group, start_object, end_group, end_object } => seq![
                ("track_namespace", FieldValueView::TextList(texts_of(track_namespace))),
                ("track_name", FieldValueView::Text(utf8_lossy(track_name))),
                ("start_group", FieldValueView::Uint(start_group)),
                ("start_object", FieldValueView::Uint(start_object)),
                ("end_group", FieldValueView::Uint(end_group)),
                ("end_object", FieldValueView::Uint(end_object)),
            ],
            FetchPayloadView::Joining { joining_request_id, joining_start } => seq![
                ("joining_request_id", FieldValueView::Uint(joining_request_id)),
                ("joining_start", FieldValueView::Uint(joining_start)),
            ],
        }) + seq![("parameters", FieldValueView::Entries(spec_render_params(false, m.fields[3]->Pairs_0)))],
        MessageType::FetchOk => seq![("request_id", FieldValueView::Uint(m.fields[0]->Int_0)), ("group_order", FieldValueView::Uint((m.fields[1]->Octets_0[0]) as u64)), ("end_of_track", FieldValueView::Uint((m.fields[1]->Octets_0[1]) as u64)), ("end_location", loc_fields(m.fields[2]->Loc_0, m.fields[2]->Loc_1)), ("parameters", FieldValueView::Entries(spec_render_params(false, m.fields[3]->Pairs_0)))],
        MessageType::FetchError => seq![("request_id", FieldValueView::Uint(m.fields[0]->Int_0)), ("error_code", FieldValueView::Uint(m.fields[1]->Int_0)), ("reason_phrase", FieldValueView::Text(utf8_lossy(m.fields[2]->Bytes_0)))],
        MessageType::FetchCancel => seq![("request_id", FieldValueView::Uint(m.fields[0]->Int_0))],
        MessageType::TrackStatus => seq![("request_id", FieldValueView::Uint(m.fields[0]->Int_0)), ("track_namespace", FieldValueView::TextList(texts_of(m.fields[1]->Ns_0))), ("track_name", FieldValueView::Text(utf8_lossy(m.fields[2]->Bytes_0))), ("subscriber_priority", FieldValueView::Uint((m.fields[3]->Octets_0[0]) as u64)), ("group_order", FieldValueView::Uint((m.fields[3]->Octets_0[1]) as u64)), ("forward", FieldValueView::Uint((m.fields[3]->Octets_0[2]) as u64)), ("filter_type", FieldValueView::Uint(m.fields[4]->filter_type))] + (match m.fields[4]->start { Some((g, o)) => seq![("start_group", FieldValueView::Uint(g)), ("start_object", FieldValueView::Uint(o))], None => Seq::empty() }) + (match m.fields[4]->end_group { Some(g) => seq![("end_group", FieldValueView::Uint(g))], None => Seq::empty() }) + seq![("parameters", FieldValueView::Entries(spec_render_params(false, m.fields[5]->Pairs_0)))],
        MessageType::TrackStatusOk => seq![("request_id", FieldValueView::Uint(m.fields[0]->Int_0)), ("track_alias", FieldValueView::Uint(m.fields[1]->Int_0)), ("expires", FieldValueView::Uint(m.fields[2]->Int_0)), ("group_order", FieldValueView::Uint((m.fields[3]->order) as u64)), ("content_exists", FieldValueView::Uint((m.fields[3]->exists) as u64))] + (match m.fields[3]->largest { Some((g, o)) => seq![("largest_location", loc_fields(g, o))], None => Seq::empty() }) + seq![("parameters", FieldValueView::Entries(spec_render_params(false, m.fields[4]->Pairs_0)))],
        MessageType::TrackStatusError => seq![("request_id", FieldValueView::Uint(m.fields[0]->Int_0)), ("error_code", FieldValueView::Uint(m.fields[1]->Int_0)), ("reason_phrase", FieldValueView::Text(utf8_lossy(m.fields[2]->Bytes_0)))],
    }
}

fn fields_client_setup(msg: &ControlMessage) -> (r: FieldMap)
    requires
        msg is ClientSetup,
    ensures
        r@ == spec_message_fields(msg@),
{
    let m = match msg { ControlMessage::ClientSetup(m) => m, _ => { proof { assert(false); } return FieldMap { entries: Vec::new() }; } };
    let mut entries: Vec<(&'static str, FieldValue)> = Vec::new();
    entries.push(("supported_versions", FieldValue::UintList(uints(&m.supported_versions))));
    entries.push(("parameters", kvp_to_json(&m.parameters, true)));
    let r = FieldMap { entries };
    assert(r@ =~= spec_message_fields(msg@));
    r
}

fn fields_server_setup(msg: &ControlMessage) -> (r: FieldMap)
    requires
        msg is ServerSetup,
    ensures
        r@ == spec_message_fields(msg@),
{
    let m = match msg { ControlMessage::ServerSetup(m) => m, _ => { proof { assert(false); } return FieldMap { entries: Vec::new() }; } };
    let mut entries: Vec<(&'static str, FieldValue)> = Vec::new();
    entries.push(("selected_version", FieldValue::Uint(m.selected_version.into_inner())));
    entries.push(("parameters", kvp_to_json(&m.parameters, true)));
    let r = FieldMap { entries };
    assert(r@ =~= spec_message_fields(msg@));
    r
}

fn fields_go_away(msg: &ControlMessage) -> (r: FieldMap)
    requires
        msg is GoAway,
    ensures
        r@ == spec_message_fields(msg@),
{
    let m = match msg { ControlMessage::GoAway(m) => m, _ => { proof { assert(false); } return FieldMap { entries: Vec::new() }; } };
    let mut entries: Vec<(&'static str, FieldValue)> = Vec::new();
    entries.push(("new_session_uri", FieldValue::Text(text_of(m.new_session_uri.as_slice()))));
    let r = FieldMap { entries };
    assert(r@ =~= spec_message_fields(msg@));
    r
}

fn fields_max_request_id(msg: &ControlMessage) -> (r: FieldMap)
    requires
        msg is MaxRequestId,
    ensures
        r@ == spec_message_fields(msg@),
{
    let m = match msg { ControlMessage::MaxRequestId(m) => m, _ => { proof { assert(false); } return FieldMap { entries: Vec::new() }; } };
    let mut entries: Vec<(&'static str, FieldValue)> = Vec::new();
    entries.push(("request_id", FieldValue::Uint(m.request_id.into_inner())));
    let r = FieldMap { entries };
    assert(r@ =~= spec_message_fields(msg@));
    r
}

fn fields_requests_blocked(msg: &ControlMessage) -> (r: FieldMap)
    requires
        msg is RequestsBlocked,
    ensures
        r@ == spec_message_fields(msg@),
{
    let m = match msg { ControlMessage::RequestsBlocked(m) => m, _ => { proof { assert(false); } return FieldMap { entries: Vec::new() }; } };
    let mut entries: Vec<(&'static str, FieldValue)> = Vec::new();
    entries.push(("request_id", FieldValue::Uint(m.maximum_request_id.into_inner())));
    let r = FieldMap { entries };
    assert(r@ =~= spec_message_fields(msg@));
    r
}

#[verifier::rlimit(60)]
#[verifier::spinoff_prover]
fn fields_subscribe(msg: &ControlMessage) -> (r: FieldMap)
    requires
        msg is Subscribe,
    ensures
        r@ == spec_message_fields(msg@),
{
    let m = match msg { ControlMessage::Subscribe(m) => m, _ => { proof { assert(false); } return FieldMap { entries: Vec::new() }; } };
    let mut entries: Vec<(&'static str, FieldValue)> = Vec::new();
    entries.push(("request_id", FieldValue::Uint(m.request_id.into_inner())));
    entries.push(("track_namespace", FieldValue::TextList(texts(&m.track_namespace.0))));
    entries.push(("track_name", FieldValue::Text(text_of(m.track_name.as_slice()))));
    entries.push(("subscriber_priority", FieldValue::Uint(m.subscriber_priority as u64)));
    entries.push(("group_order", FieldValue::Uint(order_byte(m.group_order) as u64)));
    entries.push(("forward", FieldValue::Uint(fwd_byte(m.forward) as u64)));
    entries.push(("filter_type", FieldValue::Uint(filter_value(m.filter_type))));
    match &m.start_location {
            Some(l) => {
                entries.push(("start_group", FieldValue::Uint(l.group.into_inner())));
                entries.push(("start_object", FieldValue::Uint(l.object.into_inner())));
            },
            None => {},
        }
    match &m.end_group {
            Some(g) => {
                entries.push(("end_group", FieldValue::Uint(g.into_inner())));
            },
            None => {},
        }
    entries.push(("parameters", kvp_to_json(&m.parameters, false)));
    let r = FieldMap { entries };
    assert(r@ =~= spec_message_fields(msg@));
    r
}

#[verifier::rlimit(60)]
#[verifier::spinoff_prover]
fn fields_subscribe_ok(msg: &ControlMessage) -> (r: FieldMap)
    requires
        msg is SubscribeOk,
    ensures
        r@ == spec_message_fields(msg@),
{
    let m = match msg { ControlMessage::SubscribeOk(m) => m, _ => { proof { assert(false); } return FieldMap { entries: Vec::new() }; } };
    let mut entries: Vec<(&'static str, FieldValue)> = Vec::new();
    entries.push(("request_id", FieldValue::Uint(m.request_id.into_inner())));
    entries.push(("track_alias", FieldValue::Uint(m.track_alias.into_inner())));
    entries.push(("expires", FieldValue::Uint(m.expires.into_inner())));
    entries.push(("group_order", FieldValue::Uint(order_byte(m.group_order) as u64)));
    entries.push(("content_exists", FieldValue::Uint(exists_byte(m.content_exists) as u64)));
    match &m.largest_location {
            Some(l) => {
                entries.push(("largest_location", loc_to_json(l)));
            },
            None => {},
        }
    entries.push(("parameters", kvp_to_json(&m.parameters, false)));
    let r = FieldMap { entries };
    assert(r@ =~= spec_message_fields(msg@));
    r
}

fn fields_subscribe_error(msg: &ControlMessage) -> (r: FieldMap)
    requires
        msg is SubscribeError,
    ensures
        r@ == spec_message_fields(msg@),
{
    let m = match msg { ControlMessage::SubscribeError(m) => m, _ => { proof { assert(false); } return FieldMap { entries: Vec::new() }; } };
    let mut entries: Vec<(&'static str, FieldValue)> = Vec::new();
    entries.push(("request_id", FieldValue::Uint(m.request_id.into_inner())));
    entries.push(("error_code", FieldValue::Uint(m.error_code.into_inner())));
    entries.push(("reason_phrase", FieldValue::Text(text_of(m.reason_phrase.as_slice()))));
    let r = FieldMap { entries };
    assert(r@ =~= spec_message_fields(msg@));
    r
}

#[verifier::rlimit(60)]
#[verifier::spinoff_prover]
fn fields_subscribe_update(msg: &ControlMessage) -> (r: FieldMap)
    requires
        msg is SubscribeUpdate,
    ensures
        r@ == spec_message_fields(msg@),
{
    let m = match msg { ControlMessage::SubscribeUpdate(m) => m, _ => { proof { assert(false); } return FieldMap { entries: Vec::new() }; } };
    let mut entries: Vec<(&'static str, FieldValue)> = Vec::new();
    entries.push(("request_id", FieldValue::Uint(m.request_id.into_inner())));
    entries.push(("subscription_request_id", FieldValue::Uint(m.subscription_request_id.into_inner())));
    entries.push(("start_group", FieldValue::Uint(m.start_location.group.into_inner())));
    entries.push(("start_object", FieldValue::Uint(m.start_location.object.into_inner())));
    entries.push(("end_group", FieldValue::Uint(m.end_group.into_inner())));
    entries.push(("subscriber_priority", FieldValue::Uint(m.subscriber_priority as u64)));
    entries.push(("forward", FieldValue::Uint(fwd_byte(m.forward) as u64)));
    entries.push(("parameters", kvp_to_json(&m.parameters, false)));
    let r = FieldMap { entries };
    assert(r@ =~= spec_message_fields(msg@));
    r
}

fn fields_unsubscribe(msg: &ControlMessage) -> (r: FieldMap)
    requires
        msg is Unsubscribe,
    ensures
        r@ == spec_message_fields(msg@),
{
    let m = match msg { ControlMessage::Unsubscribe(m) => m, _ => { proof { assert(false); } return FieldMap { entries: Vec::new() }; } };
    let mut entries: Vec<(&'static str, FieldValue)> = Vec::new();
    entries.push(("request_id", FieldValue::Uint(m.request_id.into_inner())));
    let r = FieldMap { entries };
    assert(r@ =~= spec_message_fields(msg@));
    r
}

#[verifier::rlimit(60)]
#[verifier::spinoff_prover]
fn fields_publish(msg: &ControlMessage) -> (r: FieldMap)
    requires
        msg is Publish,
    ensures
        r@ == spec_message_fields(msg@),
{
    let m = match msg { ControlMessage::Publish(m) => m, _ => { proof { assert(false); } return FieldMap { entries: Vec::new() }; } };
    let mut entries: Vec<(&'static str, FieldValue)> = Vec::new();
    entries.push(("request_id", FieldValue::Uint(m.request_id.into_inner())));
    entries.push(("track_namespace", FieldValue::TextList(texts(&m.track_namespace.0))));
    entries.push(("track_name", FieldValue::Text(text_of(m.track_name.as_slice()))));
    entries.push(("track_alias", FieldValue::Uint(m.track_alias.into_inner())));
    entries.push(("group_order", FieldValue::Uint(order_byte(m.group_order) as u64)));
    entries.push(("content_exists", FieldValue::Uint(exists_byte(m.content_exists) as u64)));
    match &m.largest_location {
            Some(l) => {
                entries.push(("largest_location", loc_to_json(l)));
            },
            None => {},
        }
    entries.push(("forward", FieldValue::Uint(fwd_byte(m.forward) as u64)));
    entries.push(("parameters", kvp_to_json(&m.parameters, false)));
    let r = FieldMap { entries };
    assert(r@ =~= spec_message_fields(msg@));
    r
}

#[verifier::rlimit(60)]
#[verifier::spinoff_prover]
fn fields_publish_ok(msg: &ControlMessage) -> (r: FieldMap)
    requires
        msg is PublishOk,
    ensures
        r@ == spec_message_fields(msg@),
{
    let m = match msg { ControlMessage::PublishOk(m) => m, _ => { proof { assert(false); } return FieldMap { entries: Vec::new() }; } };
    let mut entries: Vec<(&'static str, FieldValue)> = Vec::new();
    entries.push(("request_id", FieldValue::Uint(m.request_id.into_inner())));
    entries.push(("forward", FieldValue::Uint(fwd_byte(m.forward) as u64)));
    entries.push(("subscriber_priority", FieldValue::Uint(m.subscriber_priority as u64)));
    entries.push(("group_order", FieldValue::Uint(order_byte(m.group_order) as u64)));
    entries.push(("filter_type", FieldValue::Uint(filter_value(m.filter_type))));
    match &m.start_location {
            Some(l) => {
                entries.push(("start_group", FieldValue::Uint(l.group.into_inner())));
                entries.push(("start_object", FieldValue::Uint(l.object.into_inner())));
            },
            None => {},
        }
    match &m.end_group {
            Some(g) => {
                entries.push(("end_group", FieldValue::Uint(g.into_inner())));
            },
            None => {},
        }
    entries.push(("parameters", kvp_to_json(&m.parameters, false)));
    let r = FieldMap { entries };
    assert(r@ =~= spec_message_fields(msg@));
    r
}

fn fields_publish_error(msg: &ControlMessage) -> (r: FieldMap)
    requires
        msg is PublishError,
    ensures
        r@ == spec_message_fields(msg@),
{
    let m = match msg { ControlMessage::PublishError(m) => m, _ => { proof { assert(false); } return FieldMap { entries: Vec::new() }; } };
    let mut entries: Vec<(&'static str, FieldValue)> = Vec::new();
    entries.push(("request_id", FieldValue::Uint(m.request_id.into_inner())));
    entries.push(("error_code", FieldValue::Uint(m.error_code.into_inner())));
    entries.push(("reason_phrase", FieldValue::Text(text_of(m.reason_phrase.as_slice()))));
    let r = FieldMap { entries };
    assert(r@ =~= spec_message_fields(msg@));
    r
}

fn fields_publish_done(msg: &ControlMessage) -> (r: FieldMap)
    requires
        msg is PublishDone,
    ensures
        r@ == spec_message_fields(msg@),
{
    let m = match msg { ControlMessage::PublishDone(m) => m, _ => { proof { assert(false); } return FieldMap { entries: Vec::new() }; } };
    let mut entries: Vec<(&'static str, FieldValue)> = Vec::new();
    entries.push(("request_id", FieldValue::Uint(m.request_id.into_inner())));
    entries.push(("status_code", FieldValue::Uint(m.status_code.into_inner())));
    entries.push(("stream_count", FieldValue::Uint(m.stream_count.into_inner())));
    entries.push(("reason_phrase", FieldValue::Text(text_of(m.reason_phrase.as_slice()))));
    let r = FieldMap { entries };
    assert(r@ =~= spec_message_fields(msg@));
    r
}

fn fields_publish_namespace(msg: &ControlMessage) -> (r: FieldMap)
    requires
        msg is PublishNamespace,
    ensures
        r@ == spec_message_fields(msg@),
{
    let m = match msg { ControlMessage::PublishNamespace(m) => m, _ => { proof { assert(false); } return FieldMap { entries: Vec::new() }; } };
    let mut entries: Vec<(&'static str, FieldValue)> = Vec::new();
    entries.push(("request_id", FieldValue::Uint(m.request_id.into_inner())));
    entries.push(("track_namespace", FieldValue::TextList(texts(&m.track_namespace.0))));
    entries.push(("parameters", kvp_to_json(&m.parameters, false)));
    let r = FieldMap { entries };
    assert(r@ =~= spec_message_fields(msg@));
    r
}

fn fields_publish_namespace_ok(msg: &ControlMessage) -> (r: FieldMap)
    requires
        msg is PublishNamespaceOk,
    ensures
        r@ == spec_message_fields(msg@),
{
    let m = match msg { ControlMessage::PublishNamespaceOk(m) => m, _ => { proof { assert(false); } return FieldMap { entries: Vec::new() }; } };
    let mut entries: Vec<(&'static str, FieldValue)> = Vec::new();
    entries.push(("request_id", FieldValue::Uint(m.request_id.into_inner())));
    let r = FieldMap { entries };
    assert(r@ =~= spec_message_fields(msg@));
    r
}

fn fields_publish_namespace_error(msg: &ControlMessage) -> (r: FieldMap)
    requires
        msg is PublishNamespaceError,
    ensures
        r@ == spec_message_fields(msg@),
{
    let m = match msg { ControlMessage::PublishNamespaceError(m) => m, _ => { proof { assert(false); } return FieldMap { entries: Vec::new() }; } };
    let mut entries: Vec<(&'static str, FieldValue)> = Vec::new();
    entries.push(("request_id", FieldValue::Uint(m.request_id.into_inner())));
    entries.push(("error_code", FieldValue::Uint(m.error_code.into_inner())));
    entries.push(("reason_phrase", FieldValue::Text(text_of(m.reason_phrase.as_slice()))));
    let r = FieldMap { entries };
    assert(r@ =~= spec_message_fields(msg@));
    r
}

fn fields_publish_namespace_done(msg: &ControlMessage) -> (r: FieldMap)
    requires
        msg is PublishNamespaceDone,
    ensures
        r@ == spec_message_fields(msg@),
{
    let m = match msg { ControlMessage::PublishNamespaceDone(m) => m, _ => { proof { assert(false); } return FieldMap { entries: Vec::new() }; } };
    let mut entries: Vec<(&'static str, FieldValue)> = Vec::new();
    entries.push(("track_namespace", FieldValue::TextList(texts(&m.track_namespace.0))));
    let r = FieldMap { entries };
    assert(r@ =~= spec_message_fields(msg@));
    r
}

fn fields_publish_namespace_cancel(msg: &ControlMessage) -> (r: FieldMap)
    requires
        msg is PublishNamespaceCancel,
    ensures
        r@ == spec_message_fields(msg@),
{
    let m = match msg { ControlMessage::PublishNamespaceCancel(m) => m, _ => { proof { assert(false); } return FieldMap { entries: Vec::new() }; } };
    let mut entries: Vec<(&'static str, FieldValue)> = Vec::new();
    entries.push(("track_namespace", FieldValue::TextList(texts(&m.track_namespace.0))));
    entries.push(("error_code", FieldValue::Uint(m.error_code.into_inner())));
    entries.push(("reason_phrase", FieldValue::Text(text_of(m.reason_phrase.as_slice()))));
    let r = FieldMap { entries };
    assert(r@ =~= spec_message_fields(msg@));
    r
}

fn fields_subscribe_namespace(msg: &ControlMessage) -> (r: FieldMap)
    requires
        msg is SubscribeNamespace,
    ensures
        r@ == spec_message_fields(msg@),
{
    let m = match msg { ControlMessage::SubscribeNamespace(m) => m, _ => { proof { assert(false); } return FieldMap { entries: Vec::new() }; } };
    let mut entries: Vec<(&'static str, FieldValue)> = Vec::new();
    entries.push(("request_id", FieldValue::Uint(m.request_id.into_inner())));
    entries.push(("namespace_prefix", FieldValue::TextList(texts(&m.track_namespace.0))));
    entries.push(("parameters", kvp_to_json(&m.parameters, false)));
    let r = FieldMap { entries };
    assert(r@ =~= spec_message_fields(msg@));
    r
}

fn fields_subscribe_namespace_ok(msg: &ControlMessage) -> (r: FieldMap)
    requires
        msg is SubscribeNamespaceOk,
    ensures
        r@ == spec_message_fields(msg@),
{
    let m = match msg { ControlMessage::SubscribeNamespaceOk(m) => m, _ => { proof { assert(false); } return FieldMap { entries: Vec::new() }; } };
    let mut entries: Vec<(&'static str, FieldValue)> = Vec::new();
    entries.push(("request_id", FieldValue::Uint(m.request_id.into_inner())));
    let r = FieldMap { entries };
    assert(r@ =~= spec_message_fields(msg@));
    r
}

fn fields_subscribe_namespace_error(msg: &ControlMessage) -> (r: FieldMap)
    requires
        msg is SubscribeNamespaceError,
    ensures
        r@ == spec_message_fields(msg@),
{
    let m = match msg { ControlMessage::SubscribeNamespaceError(m) => m, _ => { proof { assert(false); } return FieldMap { entries: Vec::new() }; } };
    let mut entries: Vec<(&'static str, FieldValue)> = Vec::new();
    entries.push(("request_id", FieldValue::Uint(m.request_id.into_inner())));
    entries.push(("error_code", FieldValue::Uint(m.error_code.into_inner())));
    entries.push(("reason_phrase", FieldValue::Text(text_of(m.reason_phrase.as_slice()))));
    let r = FieldMap { entries };
    assert(r@ =~= spec_message_fields(msg@));
    r
}

fn fields_unsubscribe_namespace(msg: &ControlMessage) -> (r: FieldMap)
    requires
        msg is UnsubscribeNamespace,
    ensures
        r@ == spec_message_fields(msg@),
{
    let m = match msg { ControlMessage::UnsubscribeNamespace(m) => m, _ => { proof { assert(false); } return FieldMap { entries: Vec::new() }; } };
    let mut entries: Vec<(&'static str, FieldValue)> = Vec::new();
    entries.push(("track_namespace_prefix", FieldValue::TextList(texts(&m.track_namespace_prefix.0))));
    let r = FieldMap { entries };
    assert(r@ =~= spec_message_fields(msg@));
    r
}

#[verifier::rlimit(60)]
#[verifier::spinoff_prover]
fn fields_fetch(msg: &ControlMessage) -> (r: FieldMap)
    requires
        msg is Fetch,
    ensures
        r@ == spec_message_fields(msg@),
{
    let m = match msg { ControlMessage::Fetch(m) => m, _ => { proof { assert(false); } return FieldMap { entries: Vec::new() }; } };
    let mut entries: Vec<(&'static str, FieldValue)> = Vec::new();
    entries.push(("request_id", FieldValue::Uint(m.request_id.into_inner())));
    entries.push(("subscriber_priority", FieldValue::Uint(m.subscriber_priority as u64)));
    entries.push(("group_order", FieldValue::Uint(order_byte(m.group_order) as u64)));
    entries.push(("fetch_type", FieldValue::Uint(fetch_type_value(m.fetch_type))));
    match &m.fetch_payload {
            FetchPayload::Standalone { track_namespace, track_name, start_group, start_object, end_group, end_object } => {
                entries.push(("track_namespace", FieldValue::TextList(texts(&track_namespace.0))));
                entries.push(("track_name", FieldValue::Text(text_of(track_name.as_slice()))));
                entries.push(("start_group", FieldValue::Uint(start_group.into_inner())));
                entries.push(("start_object", FieldValue::Uint(start_object.into_inner())));
                entries.push(("end_group", FieldValue::Uint(end_group.into_inner())));
                entries.push(("end_object", FieldValue::Uint(end_object.into_inner())));
            },
            FetchPayload::Joining { joining_request_id, joining_start } => {
                entries.push(("joining_request_id", FieldValue::Uint(joining_request_id.into_inner())));
                entries.push(("joining_start", FieldValue::Uint(joining_start.into_inner())));
            },
        }
    entries.push(("parameters", kvp_to_json(&m.parameters, false)));
    let r = FieldMap { entries };
    assert(r@ =~= spec_message_fields(msg@));
    r
}

#[verifier::rlimit(60)]
#[verifier::spinoff_prover]
fn fields_fetch_ok(msg: &ControlMessage) -> (r: FieldMap)
    requires
        msg is FetchOk,
    ensures
        r@ == spec_message_fields(msg@),
{
    let m = match msg { ControlMessage::FetchOk(m) => m, _ => { proof { assert(false); } return FieldMap { entries: Vec::new() }; } };
    let mut entries: Vec<(&'static str, FieldValue)> = Vec::new();
    entries.push(("request_id", FieldValue::Uint(m.request_id.into_inner())));
    entries.push(("group_order", FieldValue::Uint(order_byte(m.group_order) as u64)));
    entries.push(("end_of_track", FieldValue::Uint(m.end_of_track as u64)));
    entries.push(("end_location", loc_to_json(&m.end_location)));
    entries.push(("parameters", kvp_to_json(&m.parameters, false)));
    let r = FieldMap { entries };
    assert(r@ =~= spec_message_fields(msg@));
    r
}

fn fields_fetch_error(msg: &ControlMessage) -> (r: FieldMap)
    requires
        msg is FetchError,
    ensures
        r@ == spec_message_fields(msg@),
{
    let m = match msg { ControlMessage::FetchError(m) => m, _ => { proof { assert(false); } return FieldMap { entries: Vec::new() }; } };
    let mut entries: Vec<(&'static str, FieldValue)> = Vec::new();
    entries.push(("request_id", FieldValue::Uint(m.request_id.into_inner())));
    entries.push(("error_code", FieldValue::Uint(m.error_code.into_inner())));
    entries.push(("reason_phrase", FieldValue::Text(text_of(m.reason_phrase.as_slice()))));
    let r = FieldMap { entries };
    assert(r@ =~= spec_message_fields(msg@));
    r
}

fn fields_fetch_cancel(msg: &ControlMessage) -> (r: FieldMap)
    requires
        msg is FetchCancel,
    ensures
        r@ == spec_message_fields(msg@),
{
    let m = match msg { ControlMessage::FetchCancel(m) => m, _ => { proof { assert(false); } return FieldMap { entries: Vec::new() }; } };
    let mut entries: Vec<(&'static str, FieldValue)> = Vec::new();
    entries.push(("request_id", FieldValue::Uint(m.request_id.into_inner())));
    let r = FieldMap { entries };
    assert(r@ =~= spec_message_fields(msg@));
    r
}

#[verifier::rlimit(60)]
#[verifier::spinoff_prover]
fn fields_track_status(msg: &ControlMessage) -> (r: FieldMap)
    requires
        msg is TrackStatus,
    ensures
        r@ == spec_message_fields(msg@),
{
    let m = match msg { ControlMessage::TrackStatus(m) => m, _ => { proof { assert(false); } return FieldMap { entries: Vec::new() }; } };
    let mut entries: Vec<(&'static str, FieldValue)> = Vec::new();
    entries.push(("request_id", FieldValue::Uint(m.request_id.into_inner())));
    entries.push(("track_namespace", FieldValue::TextList(texts(&m.track_namespace.0))));
    entries.push(("track_name", FieldValue::Text(text_of(m.track_name.as_slice()))));
    entries.push(("subscriber_priority", FieldValue::Uint(m.subscriber_priority as u64)));
    entries.push(("group_order", FieldValue::Uint(order_byte(m.group_order) as u64)));
    entries.push(("forward", FieldValue::Uint(fwd_byte(m.forward) as u64)));
    entries.push(("filter_type", FieldValue::Uint(filter_value(m.filter_type))));
    match &m.start_location {
            Some(l) => {
                entries.push(("start_group", FieldValue::Uint(l.group.into_inner())));
                entries.push(("start_object", FieldValue::Uint(l.object.into_inner())));
            },
            None => {},
        }
    match &m.end_group {
            Some(g) => {
                entries.push(("end_group", FieldValue::Uint(g.into_inner())));
            },
            None => {},
        }
    entries.push(("parameters", kvp_to_json(&m.parameters, false)));
    let r = FieldMap { entries };
    assert(r@ =~= spec_message_fields(msg@));
    r
}

#[verifier::rlimit(60)]
#[verifier::spinoff_prover]
fn fields_track_status_ok(msg: &ControlMessage) -> (r: FieldMap)
    requires
        msg is TrackStatusOk,
    ensures
        r@ == spec_message_fields(msg@),
{
    let m = match msg { ControlMessage::TrackStatusOk(m) => m, _ => { proof { assert(false); } return FieldMap { entries: Vec::new() }; } };
    let mut entries: Vec<(&'static str, FieldValue)> = Vec::new();
    entries.push(("request_id", FieldValue::Uint(m.request_id.into_inner())));
    entries.push(("track_alias", FieldValue::Uint(m.track_alias.into_inner())));
    entries.push(("expires", FieldValue::Uint(m.expires.into_inner())));
    entries.push(("group_order", FieldValue::Uint(order_byte(m.group_order) as u64)));
    entries.push(("content_exists", FieldValue::Uint(exists_byte(m.content_exists) as u64)));
    match &m.largest_location {
            Some(l) => {
                entries.push(("largest_location", loc_to_json(l)));
            },
            None => {},
        }
    entries.push(("parameters", kvp_to_json(&m.parameters, false)));
    let r = FieldMap { entries };
    assert(r@ =~= spec_message_fields(msg@));
    r
}

fn fields_track_status_error(msg: &ControlMessage) -> (r: FieldMap)
    requires
        msg is TrackStatusError,
    ensures
        r@ == spec_message_fields(msg@),
{
    let m = match msg { ControlMessage::TrackStatusError(m) => m, _ => { proof { assert(false); } return FieldMap { entries: Vec::new() }; } };
    let mut entries: Vec<(&'static str, FieldValue)> = Vec::new();
    entries.push(("request_id", FieldValue::Uint(m.request_id.into_inner())));
    entries.push(("error_code", FieldValue::Uint(m.error_code.into_inner())));
    entries.push(("reason_phrase", FieldValue::Text(text_of(m.reason_phrase.as_slice()))));
    let r = FieldMap { entries };
    assert(r@ =~= spec_message_fields(msg@));
    r
}

/// This draft's field names for a decoded control message, with their
/// values, in the order the draft defines the fields. An optional field
/// the message does not carry is absent.
pub fn message_fields(msg: &ControlMessage) -> (r: FieldMap)
    ensures
        r@ == spec_message_fields(msg@),
{
    match msg {
        ControlMessage::ClientSetup(_) => fields_client_setup(msg),
        ControlMessage::ServerSetup(_) => fields_server_setup(msg),
        ControlMessage::GoAway(_) => fields_go_away(msg),
        ControlMessage::MaxRequestId(_) => fields_max_request_id(msg),
        ControlMessage::RequestsBlocked(_) => fields_requests_blocked(msg),
        ControlMessage::Subscribe(_) => fields_subscribe(msg),
        ControlMessage::SubscribeOk(_) => fields_subscribe_ok(msg),
        ControlMessage::SubscribeError(_) => fields_subscribe_error(msg),
        ControlMessage::SubscribeUpdate(_) => fields_subscribe_update(msg),
        ControlMessage::Unsubscribe(_) => fields_unsubscribe(msg),
        ControlMessage::Publish(_) => fields_publish(msg),
        ControlMessage::PublishOk(_) => fields_publish_ok(msg),
        ControlMessage::PublishError(_) => fields_publish_error(msg),
        ControlMessage::PublishDone(_) => fields_publish_done(msg),
        ControlMessage::PublishNamespace(_) => fields_publish_namespace(msg),
        ControlMessage::PublishNamespaceOk(_) => fields_publish_namespace_ok(msg),
        ControlMessage::PublishNamespaceError(_) => fields_publish_namespace_error(msg),
        ControlMessage::PublishNamespaceDone(_) => fields_publish_namespace_done(msg),
        ControlMessage::PublishNamespaceCancel(_) => fields_publish_namespace_cancel(msg),
        ControlMessage::SubscribeNamespace(_) => fields_subscribe_namespace(msg),
        ControlMessage::SubscribeNamespaceOk(_) => fields_subscribe_namespace_ok(msg),
        ControlMessage::SubscribeNamespaceError(_) => fields_subscribe_namespace_error(msg),
        ControlMessage::UnsubscribeNamespace(_) => fields_unsubscribe_namespace(msg),
        ControlMessage::Fetch(_) => fields_fetch(msg),
        ControlMessage::FetchOk(_) => fields_fetch_ok(msg),
        ControlMessage::FetchError(_) => fields_fetch_error(msg),
        ControlMessage::FetchCancel(_) => fields_fetch_cancel(msg),
        ControlMessage::TrackStatus(_) => fields_track_status(msg),
        ControlMessage::TrackStatusOk(_) => fields_track_status_ok(msg),
        ControlMessage::TrackStatusError(_) => fields_track_status_error(msg),
    }
}
} // verus!
