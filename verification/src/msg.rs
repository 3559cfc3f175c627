//! The messages of the example contract.

use crate::host::{base64_bytes, base64_text, from_base64, to_base64};
use crate::query::{empty_object, is_empty_object, read_empty_object, write_empty_object};
use crate::value::{
    fits, lemma_parse_value_text, parse, parse_text, to_text, value_text, Json, JsonValue,
    MAX_DEPTH,
};
use crate::wire::{
    as_record, field_text, get_text, key_views, keys_distinct, lemma_field_at,
    lemma_fits_deeper, member, object, record, write_text, Wire,
};
use vstd::prelude::*;

verus! {

/// The message that instantiates the contract. It holds nothing.
#[derive(Clone, Copy, Debug, PartialEq, Eq)]
pub struct InstantiateMsg {  }

/// A query to the contract.
#[derive(Clone, Debug, PartialEq, Eq)]
pub enum QueryMsg {
    /// Who owns the contract.
    Owner {  },
    /// Hands a request to the host chain and returns the reply untouched.
    /// The request stands here in its wire form, as the host takes it.
    Chain { request: Vec<u8> },
}

/// The mathematical value of a [`QueryMsg`].
pub enum QueryMsgView {
    Owner,
    Chain { request: Seq<u8> },
}

impl View for QueryMsg {
    type V = QueryMsgView;

    open spec fn view(&self) -> QueryMsgView {
        match self {
            QueryMsg::Owner {  } => QueryMsgView::Owner,
            QueryMsg::Chain { request } => QueryMsgView::Chain { request: request@ },
        }
    }
}

/// The answer to [`QueryMsg::Owner`].
#[derive(Clone, Debug, PartialEq, Eq)]
pub struct OwnerResponse {
    pub owner: String,
}

/// The mathematical value of an [`OwnerResponse`].
pub struct OwnerResponseView {
    pub owner: Seq<char>,
}

impl View for OwnerResponse {
    type V = OwnerResponseView;

    open spec fn view(&self) -> OwnerResponseView {
        OwnerResponseView { owner: self.owner@ }
    }
}

/// The answer to [`QueryMsg::Chain`]: the host's reply bytes, not decoded.
/// Who asked decodes them, against the record that they expect.
#[derive(Clone, Debug, PartialEq, Eq)]
pub struct ChainResponse {
    pub data: Vec<u8>,
}

impl View for InstantiateMsg {
    type V = InstantiateMsg;

    open spec fn view(&self) -> InstantiateMsg {
        *self
    }
}

impl Wire for InstantiateMsg {
    open spec fn to_json(v: InstantiateMsg) -> JsonValue {
        empty_object()
    }

    open spec fn from_json(j: JsonValue) -> Option<InstantiateMsg> {
        if is_empty_object(j) {
            Some(InstantiateMsg {  })
        } else {
            None
        }
    }

    open spec fn depth() -> nat {
        1
    }

    fn encode(&self) -> (j: Json) {
        write_empty_object()
    }

    fn decode(j: &Json) -> (r: Option<Self>) {
        if read_empty_object(j) {
            Some(InstantiateMsg {  })
        } else {
            None
        }
    }

    proof fn lemma_round_trip(v: InstantiateMsg) {
    }
}

impl Wire for OwnerResponse {
    open spec fn to_json(v: OwnerResponseView) -> JsonValue {
        JsonValue::Object(seq![("owner"@, JsonValue::Text(v.owner))])
    }

    open spec fn from_json(j: JsonValue) -> Option<OwnerResponseView> {
        match record(j, seq!["owner"@]) {
            Some(m) => match field_text(m, "owner"@) {
                Some(owner) => Some(OwnerResponseView { owner }),
                None => None,
            },
            None => None,
        }
    }

    open spec fn depth() -> nat {
        1
    }

    fn encode(&self) -> (j: Json) {
        let mut members: Vec<(String, Json)> = Vec::new();
        members.push(member("owner", write_text(self.owner.as_str())));
        let j = object(members);
        assert(j.value()->Object_0 =~= Self::to_json(self@)->Object_0);
        j
    }

    fn decode(j: &Json) -> (r: Option<Self>) {
        let allowed = vec!["owner"];
        assert(key_views(allowed@) =~= seq!["owner"@]);
        match as_record(j, &allowed) {
            Some(members) => match get_text(members, "owner") {
                Some(owner) => Some(OwnerResponse { owner }),
                None => None,
            },
            None => None,
        }
    }

    proof fn lemma_round_trip(v: OwnerResponseView) {
        let m = Self::to_json(v)->Object_0;
        assert(seq!["owner"@][0] == m[0].0);
        assert(m.len() == 1);
        assert(keys_distinct(m));
        lemma_field_at(m, 0);
        assert(fits(m[0].1, 0));
    }
}

/// The wire value of a [`ChainResponse`] that holds `data`: the base64 text
/// of the bytes, under the name `data`.
pub open spec fn chain_response_json(data: Seq<u8>) -> JsonValue {
    JsonValue::Object(seq![("data"@, JsonValue::Text(base64_text(data)))])
}

/// The bytes that the wire value `j` holds as a [`ChainResponse`], if it
/// holds one: the member `data`, read as base64 text.
pub open spec fn chain_response_data(j: JsonValue) -> Option<Seq<u8>> {
    match record(j, seq!["data"@]) {
        Some(m) => match field_text(m, "data"@) {
            Some(text) => base64_bytes(text),
            None => None,
        },
        None => None,
    }
}

impl ChainResponse {
    /// Writes the response as bytes. What is written reads back as the
    /// bytes that the response holds.
    pub fn to_json_vec(&self) -> (bytes: Vec<u8>)
        ensures
            bytes@ == value_text(chain_response_json(self.data@)),
            parse_text(bytes@) matches Some(j) && chain_response_data(j) == Some(self.data@),
    {
        let text = to_base64(self.data.as_slice());
        let mut members: Vec<(String, Json)> = Vec::new();
        members.push(member("data", write_text(text.as_str())));
        let j = object(members);
        proof {
            let v = chain_response_json(self.data@);
            let m = v->Object_0;
            assert(j.value()->Object_0 =~= m);
            assert(seq!["data"@][0] == m[0].0);
            assert(m.len() == 1);
            assert(keys_distinct(m));
            lemma_field_at(m, 0);
            assert(fits(m[0].1, 0));
            assert(fits(v, 1));
            lemma_fits_deeper(v, 1, MAX_DEPTH as nat);
            lemma_parse_value_text(v);
        }
        to_text(&j)
    }

    /// Reads a response from bytes. Gives `None` where the bytes are not the
    /// wire form of one.
    pub fn from_json(bytes: &[u8]) -> (r: Option<ChainResponse>)
        ensures
            match parse_text(bytes@) {
                Some(j) => match chain_response_data(j) {
                    Some(data) => r matches Some(x) && x.data@ == data,
                    None => r is None,
                },
                None => r is None,
            },
    {
        let j = match parse(bytes) {
            Some(j) => j,
            None => {
                return None;
            },
        };
        let allowed = vec!["data"];
        assert(key_views(allowed@) =~= seq!["data"@]);
        let members = match as_record(&j, &allowed) {
            Some(members) => members,
            None => {
                return None;
            },
        };
        match get_text(members, "data") {
            Some(text) => match from_base64(text.as_str()) {
                Some(data) => Some(ChainResponse { data }),
                None => None,
            },
            None => None,
        }
    }
}

} // verus!
