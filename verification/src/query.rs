//! The catalog of requests that a contract may send to its host chain, and
//! the record that answers each of them.

use crate::types::{
    BtcBlockHeaderInfo, BtcBlockHeaderInfoView, FinalizedEpochInfo,
};
use crate::value::{fits, members_view, Json, JsonValue};
use crate::wire::{
    as_record, field, field_record, field_text, field_u64, get, get_record, get_text, get_u64,
    from_json, key_views, keys_distinct, lemma_field_at, lemma_wire_round_trip, member, object,
    record, str_eq, to_json_vec, unsigned, wire_text, wire_value, write_text, write_unsigned,
    Wire,
};
use vstd::prelude::*;

verus! {

/// A request to the host chain. The set is closed: contract and host agree
/// on it beforehand.
#[derive(Clone, Debug, PartialEq)]
pub enum BabylonQuery {
    /// The number of the current epoch.
    Epoch {  },
    /// The latest finalized epoch.
    LatestFinalizedEpochInfo {  },
    /// The base header of the external chain, from which the host follows it.
    BtcBaseHeader {  },
    /// The tip header of the external chain as the host knows it.
    BtcTip {  },
    /// The header at a height, if the host has one there.
    BtcHeaderByHeight { height: u64 },
    /// The header with a hash, if the host knows it.
    BtcHeaderByHash { hash: String },
}

/// The mathematical value of a [`BabylonQuery`].
pub enum BabylonQueryView {
    Epoch,
    LatestFinalizedEpochInfo,
    BtcBaseHeader,
    BtcTip,
    BtcHeaderByHeight { height: u64 },
    BtcHeaderByHash { hash: Seq<char> },
}

impl View for BabylonQuery {
    type V = BabylonQueryView;

    open spec fn view(&self) -> BabylonQueryView {
        match self {
            BabylonQuery::Epoch {  } => BabylonQueryView::Epoch,
            BabylonQuery::LatestFinalizedEpochInfo {  } => BabylonQueryView::LatestFinalizedEpochInfo,
            BabylonQuery::BtcBaseHeader {  } => BabylonQueryView::BtcBaseHeader,
            BabylonQuery::BtcTip {  } => BabylonQueryView::BtcTip,
            BabylonQuery::BtcHeaderByHeight { height } => BabylonQueryView::BtcHeaderByHeight {
                height: *height,
            },
            BabylonQuery::BtcHeaderByHash { hash } => BabylonQueryView::BtcHeaderByHash {
                hash: hash@,
            },
        }
    }
}

/// The kinds of record that answer a request.
#[derive(Clone, Copy, Debug, PartialEq, Eq, Structural)]
pub enum ResponseKind {
    CurrentEpoch,
    LatestFinalizedEpochInfo,
    BtcBaseHeader,
    BtcTip,
    BtcHeaderQuery,
}

/// The kind of record that answers `query`. Every request has exactly one.
pub open spec fn response_kind(query: BabylonQueryView) -> ResponseKind {
    match query {
        BabylonQueryView::Epoch => ResponseKind::CurrentEpoch,
        BabylonQueryView::LatestFinalizedEpochInfo => ResponseKind::LatestFinalizedEpochInfo,
        BabylonQueryView::BtcBaseHeader => ResponseKind::BtcBaseHeader,
        BabylonQueryView::BtcTip => ResponseKind::BtcTip,
        BabylonQueryView::BtcHeaderByHeight { .. } => ResponseKind::BtcHeaderQuery,
        BabylonQueryView::BtcHeaderByHash { .. } => ResponseKind::BtcHeaderQuery,
    }
}

impl BabylonQuery {
    /// A copy of this request.
    pub fn clone_query(&self) -> (copy: BabylonQuery)
        ensures
            copy@ == self@,
    {
        match self {
            BabylonQuery::Epoch {  } => BabylonQuery::Epoch {  },
            BabylonQuery::LatestFinalizedEpochInfo {  } => BabylonQuery::LatestFinalizedEpochInfo {  },
            BabylonQuery::BtcBaseHeader {  } => BabylonQuery::BtcBaseHeader {  },
            BabylonQuery::BtcTip {  } => BabylonQuery::BtcTip {  },
            BabylonQuery::BtcHeaderByHeight { height } => BabylonQuery::BtcHeaderByHeight {
                height: *height,
            },
            BabylonQuery::BtcHeaderByHash { hash } => BabylonQuery::BtcHeaderByHash {
                hash: hash.clone(),
            },
        }
    }

    /// The kind of record that answers this request.
    pub fn response_kind(&self) -> (kind: ResponseKind)
        ensures
            kind == response_kind(self@),
    {
        match self {
            BabylonQuery::Epoch {  } => ResponseKind::CurrentEpoch,
            BabylonQuery::LatestFinalizedEpochInfo {  } => ResponseKind::LatestFinalizedEpochInfo,
            BabylonQuery::BtcBaseHeader {  } => ResponseKind::BtcBaseHeader,
            BabylonQuery::BtcTip {  } => ResponseKind::BtcTip,
            BabylonQuery::BtcHeaderByHeight { .. } => ResponseKind::BtcHeaderQuery,
            BabylonQuery::BtcHeaderByHash { .. } => ResponseKind::BtcHeaderQuery,
        }
    }
}

/// The answer to [`BabylonQuery::Epoch`].
#[derive(Clone, Copy, Debug, PartialEq, Eq)]
pub struct CurrentEpochResponse {
    pub epoch: u64,
}

/// The answer to [`BabylonQuery::LatestFinalizedEpochInfo`].
#[derive(Clone, Copy, Debug, PartialEq, Eq)]
pub struct LatestFinalizedEpochInfoResponse {
    pub epoch_info: FinalizedEpochInfo,
}

/// The answer to [`BabylonQuery::BtcTip`]. The host always has a tip.
#[derive(Clone, Debug, PartialEq)]
pub struct BtcTipResponse {
    pub header_info: BtcBlockHeaderInfo,
}

/// The answer to [`BabylonQuery::BtcBaseHeader`]. The host always has a
/// base header.
#[derive(Clone, Debug, PartialEq)]
pub struct BtcBaseHeaderResponse {
    pub header_info: BtcBlockHeaderInfo,
}

/// The answer to [`BabylonQuery::BtcHeaderByHeight`] and to
/// [`BabylonQuery::BtcHeaderByHash`]. Where the host has no such header,
/// `header_info` is `None`: that is an answer, not an error.
#[derive(Clone, Debug, PartialEq)]
pub struct BtcHeaderQueryResponse {
    pub header_info: Option<BtcBlockHeaderInfo>,
}

/// The mathematical value of a [`BtcTipResponse`].
pub struct BtcTipResponseView {
    pub header_info: BtcBlockHeaderInfoView,
}

/// The mathematical value of a [`BtcBaseHeaderResponse`].
pub struct BtcBaseHeaderResponseView {
    pub header_info: BtcBlockHeaderInfoView,
}

/// The mathematical value of a [`BtcHeaderQueryResponse`].
pub struct BtcHeaderQueryResponseView {
    pub header_info: Option<BtcBlockHeaderInfoView>,
}

impl View for CurrentEpochResponse {
    type V = CurrentEpochResponse;

    open spec fn view(&self) -> CurrentEpochResponse {
        *self
    }
}

impl View for LatestFinalizedEpochInfoResponse {
    type V = LatestFinalizedEpochInfoResponse;

    open spec fn view(&self) -> LatestFinalizedEpochInfoResponse {
        *self
    }
}

impl View for BtcTipResponse {
    type V = BtcTipResponseView;

    open spec fn view(&self) -> BtcTipResponseView {
        BtcTipResponseView { header_info: self.header_info@ }
    }
}

impl View for BtcBaseHeaderResponse {
    type V = BtcBaseHeaderResponseView;

    open spec fn view(&self) -> BtcBaseHeaderResponseView {
        BtcBaseHeaderResponseView { header_info: self.header_info@ }
    }
}

impl View for BtcHeaderQueryResponse {
    type V = BtcHeaderQueryResponseView;

    open spec fn view(&self) -> BtcHeaderQueryResponseView {
        BtcHeaderQueryResponseView {
            header_info: match self.header_info {
                Some(info) => Some(info@),
                None => None,
            },
        }
    }
}

/// The name and the body of `j`, if it is an object with exactly one member.
pub open spec fn variant(j: JsonValue) -> Option<(Seq<char>, JsonValue)> {
    match j {
        JsonValue::Object(m) => if m.len() == 1 {
            Some(m[0])
        } else {
            None
        },
        _ => None,
    }
}

/// The object with the one member `tag`, whose value is `body`.
pub open spec fn tagged(tag: Seq<char>, body: JsonValue) -> JsonValue {
    JsonValue::Object(seq![(tag, body)])
}

/// The object without members.
pub open spec fn empty_object() -> JsonValue {
    JsonValue::Object(Seq::empty())
}

/// Whether `j` is an object without members.
pub open spec fn is_empty_object(j: JsonValue) -> bool {
    j matches JsonValue::Object(m) && m.len() == 0
}

impl Wire for BabylonQuery {
    open spec fn to_json(v: BabylonQueryView) -> JsonValue {
        match v {
            BabylonQueryView::Epoch => tagged("epoch"@, empty_object()),
            BabylonQueryView::LatestFinalizedEpochInfo => tagged(
                "latest_finalized_epoch_info"@,
                empty_object(),
            ),
            BabylonQueryView::BtcBaseHeader => tagged("btc_base_header"@, empty_object()),
            BabylonQueryView::BtcTip => tagged("btc_tip"@, empty_object()),
            BabylonQueryView::BtcHeaderByHeight { height } => tagged(
                "btc_header_by_height"@,
                JsonValue::Object(seq![("height"@, unsigned(height))]),
            ),
            BabylonQueryView::BtcHeaderByHash { hash } => tagged(
                "btc_header_by_hash"@,
                JsonValue::Object(seq![("hash"@, JsonValue::Text(hash))]),
            ),
        }
    }

    open spec fn from_json(j: JsonValue) -> Option<BabylonQueryView> {
        match variant(j) {
            Some((tag, body)) => {
                if tag == "epoch"@ {
                    if is_empty_object(body) {
                        Some(BabylonQueryView::Epoch)
                    } else {
                        None
                    }
                } else if tag == "latest_finalized_epoch_info"@ {
                    if is_empty_object(body) {
                        Some(BabylonQueryView::LatestFinalizedEpochInfo)
                    } else {
                        None
                    }
                } else if tag == "btc_base_header"@ {
                    if is_empty_object(body) {
                        Some(BabylonQueryView::BtcBaseHeader)
                    } else {
                        None
                    }
                } else if tag == "btc_tip"@ {
                    if is_empty_object(body) {
                        Some(BabylonQueryView::BtcTip)
                    } else {
                        None
                    }
                } else if tag == "btc_header_by_height"@ {
                    match record(body, seq!["height"@]) {
                        Some(m) => match field_u64(m, "height"@) {
                            Some(height) => Some(BabylonQueryView::BtcHeaderByHeight { height }),
                            None => None,
                        },
                        None => None,
                    }
                } else if tag == "btc_header_by_hash"@ {
                    match record(body, seq!["hash"@]) {
                        Some(m) => match field_text(m, "hash"@) {
                            Some(hash) => Some(BabylonQueryView::BtcHeaderByHash { hash }),
                            None => None,
                        },
                        None => None,
                    }
                } else {
                    None
                }
            },
            None => None,
        }
    }

    open spec fn depth() -> nat {
        2
    }

    fn encode(&self) -> (j: Json) {
        match self {
            BabylonQuery::Epoch {  } => write_tagged("epoch", write_empty_object()),
            BabylonQuery::LatestFinalizedEpochInfo {  } => write_tagged(
                "latest_finalized_epoch_info",
                write_empty_object(),
            ),
            BabylonQuery::BtcBaseHeader {  } => write_tagged(
                "btc_base_header",
                write_empty_object(),
            ),
            BabylonQuery::BtcTip {  } => write_tagged("btc_tip", write_empty_object()),
            BabylonQuery::BtcHeaderByHeight { height } => {
                let mut members: Vec<(String, Json)> = Vec::new();
                members.push(member("height", write_unsigned(*height)));
                let body = object(members);
                assert(body.value()->Object_0 =~= seq![("height"@, unsigned(*height))]);
                write_tagged("btc_header_by_height", body)
            },
            BabylonQuery::BtcHeaderByHash { hash } => {
                let mut members: Vec<(String, Json)> = Vec::new();
                members.push(member("hash", write_text(hash.as_str())));
                let body = object(members);
                assert(body.value()->Object_0 =~= seq![("hash"@, JsonValue::Text(hash@))]);
                write_tagged("btc_header_by_hash", body)
            },
        }
    }

    fn decode(j: &Json) -> (r: Option<Self>) {
        let (tag, body) = match read_variant(j) {
            Some(pair) => pair,
            None => {
                return None;
            },
        };
        if str_eq(tag, "epoch") {
            if read_empty_object(body) {
                Some(BabylonQuery::Epoch {  })
            } else {
                None
            }
        } else if str_eq(tag, "latest_finalized_epoch_info") {
            if read_empty_object(body) {
                Some(BabylonQuery::LatestFinalizedEpochInfo {  })
            } else {
                None
            }
        } else if str_eq(tag, "btc_base_header") {
            if read_empty_object(body) {
                Some(BabylonQuery::BtcBaseHeader {  })
            } else {
                None
            }
        } else if str_eq(tag, "btc_tip") {
            if read_empty_object(body) {
                Some(BabylonQuery::BtcTip {  })
            } else {
                None
            }
        } else if str_eq(tag, "btc_header_by_height") {
            let allowed = vec!["height"];
            assert(key_views(allowed@) =~= seq!["height"@]);
            match as_record(body, &allowed) {
                Some(members) => match get_u64(members, "height") {
                    Some(height) => Some(BabylonQuery::BtcHeaderByHeight { height }),
                    None => None,
                },
                None => None,
            }
        } else if str_eq(tag, "btc_header_by_hash") {
            let allowed = vec!["hash"];
            assert(key_views(allowed@) =~= seq!["hash"@]);
            match as_record(body, &allowed) {
                Some(members) => match get_text(members, "hash") {
                    Some(hash) => Some(BabylonQuery::BtcHeaderByHash { hash }),
                    None => None,
                },
                None => None,
            }
        } else {
            None
        }
    }

    proof fn lemma_round_trip(v: BabylonQueryView) {
        lemma_tags_differ();
        let j = Self::to_json(v);
        let m = j->Object_0;
        assert(m.len() == 1);
        let body = m[0].1;
        match v {
            BabylonQueryView::BtcHeaderByHeight { height } => {
                let inner = body->Object_0;
                assert(seq!["height"@][0] == inner[0].0);
                assert(inner.len() == 1);
                assert(keys_distinct(inner));
                lemma_field_at(inner, 0);
                assert(fits(inner[0].1, 0));
                assert(fits(body, 1));
            },
            BabylonQueryView::BtcHeaderByHash { hash } => {
                let inner = body->Object_0;
                assert(seq!["hash"@][0] == inner[0].0);
                assert(inner.len() == 1);
                assert(keys_distinct(inner));
                lemma_field_at(inner, 0);
                assert(fits(inner[0].1, 0));
                assert(fits(body, 1));
            },
            _ => {
                assert(fits(body, 1));
            },
        }
    }
}

impl Wire for CurrentEpochResponse {
    open spec fn to_json(v: CurrentEpochResponse) -> JsonValue {
        JsonValue::Object(seq![("epoch"@, unsigned(v.epoch))])
    }

    open spec fn from_json(j: JsonValue) -> Option<CurrentEpochResponse> {
        match record(j, seq!["epoch"@]) {
            Some(m) => match field_u64(m, "epoch"@) {
                Some(epoch) => Some(CurrentEpochResponse { epoch }),
                None => None,
            },
            None => None,
        }
    }

    open spec fn depth() -> nat {
        1
    }

    fn encode(&self) -> (j: Json) {
        let mut members: Vec<(String, Json)> = Vec::new();
        members.push(member("epoch", write_unsigned(self.epoch)));
        let j = object(members);
        assert(j.value()->Object_0 =~= Self::to_json(self@)->Object_0);
        j
    }

    fn decode(j: &Json) -> (r: Option<Self>) {
        let allowed = vec!["epoch"];
        assert(key_views(allowed@) =~= seq!["epoch"@]);
        match as_record(j, &allowed) {
            Some(members) => match get_u64(members, "epoch") {
                Some(epoch) => Some(CurrentEpochResponse { epoch }),
                None => None,
            },
            None => None,
        }
    }

    proof fn lemma_round_trip(v: CurrentEpochResponse) {
        let m = Self::to_json(v)->Object_0;
        assert(seq!["epoch"@][0] == m[0].0);
        assert(m.len() == 1);
        assert(keys_distinct(m));
        lemma_field_at(m, 0);
        assert(fits(m[0].1, 0));
    }
}

impl Wire for LatestFinalizedEpochInfoResponse {
    open spec fn to_json(v: LatestFinalizedEpochInfoResponse) -> JsonValue {
        JsonValue::Object(seq![("epoch_info"@, FinalizedEpochInfo::to_json(v.epoch_info))])
    }

    open spec fn from_json(j: JsonValue) -> Option<LatestFinalizedEpochInfoResponse> {
        match record(j, seq!["epoch_info"@]) {
            Some(m) => match field_record::<FinalizedEpochInfo>(m, "epoch_info"@) {
                Some(epoch_info) => Some(LatestFinalizedEpochInfoResponse { epoch_info }),
                None => None,
            },
            None => None,
        }
    }

    open spec fn depth() -> nat {
        2
    }

    fn encode(&self) -> (j: Json) {
        let mut members: Vec<(String, Json)> = Vec::new();
        members.push(member("epoch_info", self.epoch_info.encode()));
        let j = object(members);
        assert(j.value()->Object_0 =~= Self::to_json(self@)->Object_0);
        j
    }

    fn decode(j: &Json) -> (r: Option<Self>) {
        let allowed = vec!["epoch_info"];
        assert(key_views(allowed@) =~= seq!["epoch_info"@]);
        match as_record(j, &allowed) {
            Some(members) => match get_record::<FinalizedEpochInfo>(members, "epoch_info") {
                Some(epoch_info) => Some(LatestFinalizedEpochInfoResponse { epoch_info }),
                None => None,
            },
            None => None,
        }
    }

    proof fn lemma_round_trip(v: LatestFinalizedEpochInfoResponse) {
        let m = Self::to_json(v)->Object_0;
        assert(seq!["epoch_info"@][0] == m[0].0);
        assert(m.len() == 1);
        assert(keys_distinct(m));
        lemma_field_at(m, 0);
        FinalizedEpochInfo::lemma_round_trip(v.epoch_info);
        assert(fits(m[0].1, 1));
    }
}

impl Wire for BtcTipResponse {
    open spec fn to_json(v: BtcTipResponseView) -> JsonValue {
        JsonValue::Object(seq![("header_info"@, BtcBlockHeaderInfo::to_json(v.header_info))])
    }

    open spec fn from_json(j: JsonValue) -> Option<BtcTipResponseView> {
        match record(j, seq!["header_info"@]) {
            Some(m) => match field_record::<BtcBlockHeaderInfo>(m, "header_info"@) {
                Some(header_info) => Some(BtcTipResponseView { header_info }),
                None => None,
            },
            None => None,
        }
    }

    open spec fn depth() -> nat {
        3
    }

    fn encode(&self) -> (j: Json) {
        let mut members: Vec<(String, Json)> = Vec::new();
        members.push(member("header_info", self.header_info.encode()));
        let j = object(members);
        assert(j.value()->Object_0 =~= Self::to_json(self@)->Object_0);
        j
    }

    fn decode(j: &Json) -> (r: Option<Self>) {
        let allowed = vec!["header_info"];
        assert(key_views(allowed@) =~= seq!["header_info"@]);
        match as_record(j, &allowed) {
            Some(members) => match get_record::<BtcBlockHeaderInfo>(members, "header_info") {
                Some(header_info) => Some(BtcTipResponse { header_info }),
                None => None,
            },
            None => None,
        }
    }

    proof fn lemma_round_trip(v: BtcTipResponseView) {
        let m = Self::to_json(v)->Object_0;
        assert(seq!["header_info"@][0] == m[0].0);
        assert(m.len() == 1);
        assert(keys_distinct(m));
        lemma_field_at(m, 0);
        BtcBlockHeaderInfo::lemma_round_trip(v.header_info);
        assert(fits(m[0].1, 2));
    }
}

impl Wire for BtcBaseHeaderResponse {
    open spec fn to_json(v: BtcBaseHeaderResponseView) -> JsonValue {
        JsonValue::Object(seq![("header_info"@, BtcBlockHeaderInfo::to_json(v.header_info))])
    }

    open spec fn from_json(j: JsonValue) -> Option<BtcBaseHeaderResponseView> {
        match record(j, seq!["header_info"@]) {
            Some(m) => match field_record::<BtcBlockHeaderInfo>(m, "header_info"@) {
                Some(header_info) => Some(BtcBaseHeaderResponseView { header_info }),
                None => None,
            },
            None => None,
        }
    }

    open spec fn depth() -> nat {
        3
    }

    fn encode(&self) -> (j: Json) {
        let mut members: Vec<(String, Json)> = Vec::new();
        members.push(member("header_info", self.header_info.encode()));
        let j = object(members);
        assert(j.value()->Object_0 =~= Self::to_json(self@)->Object_0);
        j
    }

    fn decode(j: &Json) -> (r: Option<Self>) {
        let allowed = vec!["header_info"];
        assert(key_views(allowed@) =~= seq!["header_info"@]);
        match as_record(j, &allowed) {
            Some(members) => match get_record::<BtcBlockHeaderInfo>(members, "header_info") {
                Some(header_info) => Some(BtcBaseHeaderResponse { header_info }),
                None => None,
            },
            None => None,
        }
    }

    proof fn lemma_round_trip(v: BtcBaseHeaderResponseView) {
        let m = Self::to_json(v)->Object_0;
        assert(seq!["header_info"@][0] == m[0].0);
        assert(m.len() == 1);
        assert(keys_distinct(m));
        lemma_field_at(m, 0);
        BtcBlockHeaderInfo::lemma_round_trip(v.header_info);
        assert(fits(m[0].1, 2));
    }
}

/// The wire value of a header that may be absent: `null` where it is.
pub open spec fn optional_header(v: Option<BtcBlockHeaderInfoView>) -> JsonValue {
    match v {
        Some(info) => BtcBlockHeaderInfo::to_json(info),
        None => JsonValue::Null,
    }
}

/// The header that a member stands for, where the member may be missing or
/// `null`: both stand for no header.
pub open spec fn read_optional_header(v: Option<JsonValue>) -> Option<
    Option<BtcBlockHeaderInfoView>,
> {
    match v {
        None => Some(None),
        Some(JsonValue::Null) => Some(None),
        Some(j) => match BtcBlockHeaderInfo::from_json(j) {
            Some(info) => Some(Some(info)),
            None => None,
        },
    }
}

impl Wire for BtcHeaderQueryResponse {
    open spec fn to_json(v: BtcHeaderQueryResponseView) -> JsonValue {
        JsonValue::Object(seq![("header_info"@, optional_header(v.header_info))])
    }

    open spec fn from_json(j: JsonValue) -> Option<BtcHeaderQueryResponseView> {
        match record(j, seq!["header_info"@]) {
            Some(m) => match read_optional_header(field(m, "header_info"@)) {
                Some(header_info) => Some(BtcHeaderQueryResponseView { header_info }),
                None => None,
            },
            None => None,
        }
    }

    open spec fn depth() -> nat {
        3
    }

    fn encode(&self) -> (j: Json) {
        let value = match &self.header_info {
            Some(info) => info.encode(),
            None => Json::Null,
        };
        let mut members: Vec<(String, Json)> = Vec::new();
        members.push(member("header_info", value));
        let j = object(members);
        assert(j.value()->Object_0 =~= Self::to_json(self@)->Object_0);
        j
    }

    fn decode(j: &Json) -> (r: Option<Self>) {
        let allowed = vec!["header_info"];
        assert(key_views(allowed@) =~= seq!["header_info"@]);
        let members = match as_record(j, &allowed) {
            Some(members) => members,
            None => {
                return None;
            },
        };
        match get(members, "header_info") {
            None => Some(BtcHeaderQueryResponse { header_info: None }),
            Some(Json::Null) => Some(BtcHeaderQueryResponse { header_info: None }),
            Some(value) => match BtcBlockHeaderInfo::decode(value) {
                Some(info) => Some(BtcHeaderQueryResponse { header_info: Some(info) }),
                None => None,
            },
        }
    }

    proof fn lemma_round_trip(v: BtcHeaderQueryResponseView) {
        let m = Self::to_json(v)->Object_0;
        assert(seq!["header_info"@][0] == m[0].0);
        assert(m.len() == 1);
        assert(keys_distinct(m));
        lemma_field_at(m, 0);
        match v.header_info {
            Some(info) => {
                BtcBlockHeaderInfo::lemma_round_trip(info);
            },
            None => {},
        }
        assert(fits(m[0].1, 2));
    }
}

/// A request as the host takes it: the query under the route `custom`, which
/// is the route of the requests that are the chain's own.
#[derive(Clone, Debug, PartialEq)]
pub struct CustomRequest {
    pub custom: BabylonQuery,
}

/// The mathematical value of a [`CustomRequest`].
pub struct CustomRequestView {
    pub custom: BabylonQueryView,
}

impl View for CustomRequest {
    type V = CustomRequestView;

    open spec fn view(&self) -> CustomRequestView {
        CustomRequestView { custom: self.custom@ }
    }
}

impl Wire for CustomRequest {
    open spec fn to_json(v: CustomRequestView) -> JsonValue {
        tagged("custom"@, BabylonQuery::to_json(v.custom))
    }

    open spec fn from_json(j: JsonValue) -> Option<CustomRequestView> {
        match variant(j) {
            Some((tag, body)) => if tag == "custom"@ {
                match BabylonQuery::from_json(body) {
                    Some(custom) => Some(CustomRequestView { custom }),
                    None => None,
                }
            } else {
                None
            },
            None => None,
        }
    }

    open spec fn depth() -> nat {
        3
    }

    fn encode(&self) -> (j: Json) {
        write_tagged("custom", self.custom.encode())
    }

    fn decode(j: &Json) -> (r: Option<Self>) {
        match read_variant(j) {
            Some((tag, body)) => if str_eq(tag, "custom") {
                match BabylonQuery::decode(body) {
                    Some(custom) => Some(CustomRequest { custom }),
                    None => None,
                }
            } else {
                None
            },
            None => None,
        }
    }

    proof fn lemma_round_trip(v: CustomRequestView) {
        let m = Self::to_json(v)->Object_0;
        assert(m.len() == 1);
        BabylonQuery::lemma_round_trip(v.custom);
        assert(fits(m[0].1, 2));
    }
}

/// An answer of the host, of whichever kind.
#[derive(Clone, Debug, PartialEq)]
pub enum BabylonResponse {
    CurrentEpoch(CurrentEpochResponse),
    LatestFinalizedEpochInfo(LatestFinalizedEpochInfoResponse),
    BtcBaseHeader(BtcBaseHeaderResponse),
    BtcTip(BtcTipResponse),
    BtcHeaderQuery(BtcHeaderQueryResponse),
}

/// The mathematical value of a [`BabylonResponse`].
pub enum BabylonResponseView {
    CurrentEpoch(CurrentEpochResponse),
    LatestFinalizedEpochInfo(LatestFinalizedEpochInfoResponse),
    BtcBaseHeader(BtcBaseHeaderResponseView),
    BtcTip(BtcTipResponseView),
    BtcHeaderQuery(BtcHeaderQueryResponseView),
}

impl View for BabylonResponse {
    type V = BabylonResponseView;

    open spec fn view(&self) -> BabylonResponseView {
        match self {
            BabylonResponse::CurrentEpoch(r) => BabylonResponseView::CurrentEpoch(*r),
            BabylonResponse::LatestFinalizedEpochInfo(r) => {
                BabylonResponseView::LatestFinalizedEpochInfo(*r)
            },
            BabylonResponse::BtcBaseHeader(r) => BabylonResponseView::BtcBaseHeader(r@),
            BabylonResponse::BtcTip(r) => BabylonResponseView::BtcTip(r@),
            BabylonResponse::BtcHeaderQuery(r) => BabylonResponseView::BtcHeaderQuery(r@),
        }
    }
}

impl BabylonResponseView {
    /// The kind of this answer.
    pub open spec fn kind(self) -> ResponseKind {
        match self {
            BabylonResponseView::CurrentEpoch(_) => ResponseKind::CurrentEpoch,
            BabylonResponseView::LatestFinalizedEpochInfo(_) => {
                ResponseKind::LatestFinalizedEpochInfo
            },
            BabylonResponseView::BtcBaseHeader(_) => ResponseKind::BtcBaseHeader,
            BabylonResponseView::BtcTip(_) => ResponseKind::BtcTip,
            BabylonResponseView::BtcHeaderQuery(_) => ResponseKind::BtcHeaderQuery,
        }
    }
}

impl BabylonResponse {
    /// The kind of this answer.
    pub fn kind(&self) -> (kind: ResponseKind)
        ensures
            kind == self@.kind(),
    {
        match self {
            BabylonResponse::CurrentEpoch(_) => ResponseKind::CurrentEpoch,
            BabylonResponse::LatestFinalizedEpochInfo(_) => ResponseKind::LatestFinalizedEpochInfo,
            BabylonResponse::BtcBaseHeader(_) => ResponseKind::BtcBaseHeader,
            BabylonResponse::BtcTip(_) => ResponseKind::BtcTip,
            BabylonResponse::BtcHeaderQuery(_) => ResponseKind::BtcHeaderQuery,
        }
    }
}

/// The answer of kind `kind` that the bytes `s` stand for, if they stand
/// for one.
pub open spec fn response_value(kind: ResponseKind, s: Seq<u8>) -> Option<BabylonResponseView> {
    match kind {
        ResponseKind::CurrentEpoch => match wire_value::<CurrentEpochResponse>(s) {
            Some(r) => Some(BabylonResponseView::CurrentEpoch(r)),
            None => None,
        },
        ResponseKind::LatestFinalizedEpochInfo => match wire_value::<
            LatestFinalizedEpochInfoResponse,
        >(s) {
            Some(r) => Some(BabylonResponseView::LatestFinalizedEpochInfo(r)),
            None => None,
        },
        ResponseKind::BtcBaseHeader => match wire_value::<BtcBaseHeaderResponse>(s) {
            Some(r) => Some(BabylonResponseView::BtcBaseHeader(r)),
            None => None,
        },
        ResponseKind::BtcTip => match wire_value::<BtcTipResponse>(s) {
            Some(r) => Some(BabylonResponseView::BtcTip(r)),
            None => None,
        },
        ResponseKind::BtcHeaderQuery => match wire_value::<BtcHeaderQueryResponse>(s) {
            Some(r) => Some(BabylonResponseView::BtcHeaderQuery(r)),
            None => None,
        },
    }
}

/// The bytes of an answer on the wire.
pub open spec fn response_text(r: BabylonResponseView) -> Seq<u8> {
    match r {
        BabylonResponseView::CurrentEpoch(r) => wire_text::<CurrentEpochResponse>(r),
        BabylonResponseView::LatestFinalizedEpochInfo(r) => wire_text::<
            LatestFinalizedEpochInfoResponse,
        >(r),
        BabylonResponseView::BtcBaseHeader(r) => wire_text::<BtcBaseHeaderResponse>(r),
        BabylonResponseView::BtcTip(r) => wire_text::<BtcTipResponse>(r),
        BabylonResponseView::BtcHeaderQuery(r) => wire_text::<BtcHeaderQueryResponse>(r),
    }
}

/// Reads an answer of kind `kind` from bytes. Gives `None` where the bytes
/// are not the wire form of such an answer.
pub fn read_response(kind: ResponseKind, bytes: &[u8]) -> (r: Option<BabylonResponse>)
    ensures
        match response_value(kind, bytes@) {
            Some(v) => r matches Some(x) && x@ == v,
            None => r is None,
        },
        r matches Some(x) ==> x@.kind() == kind,
{
    match kind {
        ResponseKind::CurrentEpoch => match from_json::<CurrentEpochResponse>(bytes) {
            Some(r) => Some(BabylonResponse::CurrentEpoch(r)),
            None => None,
        },
        ResponseKind::LatestFinalizedEpochInfo => match from_json::<
            LatestFinalizedEpochInfoResponse,
        >(bytes) {
            Some(r) => Some(BabylonResponse::LatestFinalizedEpochInfo(r)),
            None => None,
        },
        ResponseKind::BtcBaseHeader => match from_json::<BtcBaseHeaderResponse>(bytes) {
            Some(r) => Some(BabylonResponse::BtcBaseHeader(r)),
            None => None,
        },
        ResponseKind::BtcTip => match from_json::<BtcTipResponse>(bytes) {
            Some(r) => Some(BabylonResponse::BtcTip(r)),
            None => None,
        },
        ResponseKind::BtcHeaderQuery => match from_json::<BtcHeaderQueryResponse>(bytes) {
            Some(r) => Some(BabylonResponse::BtcHeaderQuery(r)),
            None => None,
        },
    }
}

/// Writes an answer as bytes.
pub fn write_response(response: &BabylonResponse) -> (bytes: Vec<u8>)
    ensures
        bytes@ == response_text(response@),
{
    match response {
        BabylonResponse::CurrentEpoch(r) => to_json_vec(r),
        BabylonResponse::LatestFinalizedEpochInfo(r) => to_json_vec(r),
        BabylonResponse::BtcBaseHeader(r) => to_json_vec(r),
        BabylonResponse::BtcTip(r) => to_json_vec(r),
        BabylonResponse::BtcHeaderQuery(r) => to_json_vec(r),
    }
}

/// Written to bytes and read back as an answer to the same request, every
/// answer is what it was.
pub proof fn lemma_response_round_trip(r: BabylonResponseView)
    ensures
        response_value(r.kind(), response_text(r)) == Some(r),
{
    match r {
        BabylonResponseView::CurrentEpoch(x) => {
            lemma_wire_round_trip::<CurrentEpochResponse>(x);
        },
        BabylonResponseView::LatestFinalizedEpochInfo(x) => {
            lemma_wire_round_trip::<LatestFinalizedEpochInfoResponse>(x);
        },
        BabylonResponseView::BtcBaseHeader(x) => {
            lemma_wire_round_trip::<BtcBaseHeaderResponse>(x);
        },
        BabylonResponseView::BtcTip(x) => {
            lemma_wire_round_trip::<BtcTipResponse>(x);
        },
        BabylonResponseView::BtcHeaderQuery(x) => {
            lemma_wire_round_trip::<BtcHeaderQueryResponse>(x);
        },
    }
}

/// Whatever bytes are read as the answer to a request, what comes out is of
/// the kind bound to that request and of no other.
pub proof fn lemma_response_kind(query: BabylonQueryView, s: Seq<u8>)
    ensures
        response_value(response_kind(query), s) matches Some(r) ==> r.kind() == response_kind(
            query,
        ),
{
}

/// Written to bytes and read back, every request is what it was, alone and
/// under the route by which the host takes it.
pub proof fn lemma_request_round_trip(query: BabylonQueryView)
    ensures
        wire_value::<BabylonQuery>(wire_text::<BabylonQuery>(query)) == Some(query),
        wire_value::<CustomRequest>(wire_text::<CustomRequest>(CustomRequestView { custom: query }))
            == Some(CustomRequestView { custom: query }),
{
    lemma_wire_round_trip::<BabylonQuery>(query);
    lemma_wire_round_trip::<CustomRequest>(CustomRequestView { custom: query });
}

/// The six names under which the requests travel are six different names.
pub proof fn lemma_tags_differ()
    ensures
        "epoch"@ != "latest_finalized_epoch_info"@,
        "epoch"@ != "btc_base_header"@,
        "epoch"@ != "btc_tip"@,
        "epoch"@ != "btc_header_by_height"@,
        "epoch"@ != "btc_header_by_hash"@,
        "latest_finalized_epoch_info"@ != "btc_base_header"@,
        "latest_finalized_epoch_info"@ != "btc_tip"@,
        "latest_finalized_epoch_info"@ != "btc_header_by_height"@,
        "latest_finalized_epoch_info"@ != "btc_header_by_hash"@,
        "btc_base_header"@ != "btc_tip"@,
        "btc_base_header"@ != "btc_header_by_height"@,
        "btc_base_header"@ != "btc_header_by_hash"@,
        "btc_tip"@ != "btc_header_by_height"@,
        "btc_tip"@ != "btc_header_by_hash"@,
        "btc_header_by_height"@ != "btc_header_by_hash"@,
{
    reveal_strlit("epoch");
    reveal_strlit("latest_finalized_epoch_info");
    reveal_strlit("btc_base_header");
    reveal_strlit("btc_tip");
    reveal_strlit("btc_header_by_height");
    reveal_strlit("btc_header_by_hash");
    assert("epoch"@.len() == 5);
    assert("latest_finalized_epoch_info"@.len() == 27);
    assert("btc_base_header"@.len() == 15);
    assert("btc_tip"@.len() == 7);
    assert("btc_header_by_height"@.len() == 20);
    assert("btc_header_by_hash"@.len() == 18);
}

/// The object with the one member `tag`, whose value is `body`.
pub fn write_tagged(tag: &str, body: Json) -> (j: Json)
    ensures
        j.value() == tagged(tag@, body.value()),
{
    let mut members: Vec<(String, Json)> = Vec::new();
    members.push(member(tag, body));
    let j = object(members);
    assert(j.value()->Object_0 =~= seq![(tag@, body.value())]);
    j
}

/// The object without members.
pub fn write_empty_object() -> (j: Json)
    ensures
        j.value() == empty_object(),
{
    let j = object(Vec::new());
    assert(j.value()->Object_0 =~= Seq::empty());
    j
}

/// The name and the body of `j`, if it is an object with exactly one member.
pub fn read_variant<'a>(j: &'a Json) -> (r: Option<(&'a str, &'a Json)>)
    ensures
        match variant(j.value()) {
            Some((tag, body)) => r matches Some((name, value)) && name@ == tag && value.value()
                == body,
            None => r is None,
        },
{
    match j {
        Json::Object(members) => {
            assert(j.value()->Object_0 =~= members_view(members@));
            if members.len() == 1 {
                Some((members[0].0.as_str(), &members[0].1))
            } else {
                None
            }
        },
        _ => None,
    }
}

/// Whether `j` is an object without members.
pub fn read_empty_object(j: &Json) -> (r: bool)
    ensures
        r == is_empty_object(j.value()),
{
    match j {
        Json::Object(members) => {
            assert(j.value()->Object_0 =~= members_view(members@));
            members.len() == 0
        },
        _ => false,
    }
}

} // verus!
