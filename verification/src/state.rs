//! What the example contract keeps in storage.

use crate::value::{fits, Json, JsonValue};
use crate::wire::{
    as_record, field_text, get_text, key_views, keys_distinct, lemma_field_at, member, object,
    record, write_text, Wire,
};
use vstd::prelude::*;
use vstd::utf8::*;

verus! {

/// The state of the example contract: the address that instantiated it.
#[derive(Clone, Debug, PartialEq, Eq)]
pub struct State {
    pub owner: String,
}

/// The mathematical value of a [`State`].
pub struct StateView {
    pub owner: Seq<char>,
}

impl View for State {
    type V = StateView;

    open spec fn view(&self) -> StateView {
        StateView { owner: self.owner@ }
    }
}

/// The key under which the state lies in storage: the bytes of `config`.
pub open spec fn config_key() -> Seq<u8> {
    encode_utf8("config"@)
}

/// The key under which the state lies in storage.
pub fn config_key_bytes() -> (key: &'static [u8])
    ensures
        key@ == config_key(),
{
    "config".as_bytes()
}

impl Wire for State {
    open spec fn to_json(v: StateView) -> JsonValue {
        JsonValue::Object(seq![("owner"@, JsonValue::Text(v.owner))])
    }

    open spec fn from_json(j: JsonValue) -> Option<StateView> {
        match record(j, seq!["owner"@]) {
            Some(m) => match field_text(m, "owner"@) {
                Some(owner) => Some(StateView { owner }),
                None => None,
            },
            None => None,
        }
    }

    open spec fn depth() -> nat {
        1
    }

    fn encode(&self) -> (j: Json) {
        let mut members: Vec<(String, Json)> = Vec::new();
        members.push(member("owner", write_text(self.owner.as_str())));
        let j = object(members);
        assert(j.value()->Object_0 =~= Self::to_json(self@)->Object_0);
        j
    }

    fn decode(j: &Json) -> (r: Option<Self>) {
        let allowed = vec!["owner"];
        assert(key_views(allowed@) =~= seq!["owner"@]);
        match as_record(j, &allowed) {
            Some(members) => match get_text(members, "owner") {
                Some(owner) => Some(State { owner }),
                None => None,
            },
            None => None,
        }
    }

    proof fn lemma_round_trip(v: StateView) {
        let m = Self::to_json(v)->Object_0;
        assert(seq!["owner"@][0] == m[0].0);
        assert(m.len() == 1);
        assert(keys_distinct(m));
        lemma_field_at(m, 0);
        assert(fits(m[0].1, 0));
    }
}

} // verus!
