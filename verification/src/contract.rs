//! The example contract: it records who instantiated it, says so when asked,
//! and hands requests through to the host chain.

use crate::error::{QueryError, QueryErrorView};
use crate::host::{
    empty_response, host_gave, lookup, raw_query, record_view, sender_of, sender_text,
    storage_get, storage_set, stored, HostQuerier, HostReply, HostReplyView, HostStorage,
};
use crate::msg::{
    chain_response_json, ChainResponse, InstantiateMsg, OwnerResponse, OwnerResponseView,
    QueryMsg, QueryMsgView,
};
use crate::state::{config_key, config_key_bytes, State, StateView};
use crate::value::{value_text, value_tokens};
use crate::wire::{from_json, lemma_wire_round_trip, to_json_vec, wire_text, wire_value, Wire};
use vstd::prelude::*;

verus! {

/// The record that the contract stores for the owner `sender`.
pub open spec fn state_text(sender: Seq<char>) -> Seq<u8> {
    wire_text::<State>(StateView { owner: sender })
}

/// What a stored record says of the owner: the owner that it names, an error
/// where nothing is stored, and another where what is stored is no state.
pub open spec fn owner_answer(record: Option<Seq<u8>>) -> Result<
    OwnerResponseView,
    QueryErrorView,
> {
    match record {
        None => Err(QueryErrorView::NotFound),
        Some(bytes) => match wire_value::<State>(bytes) {
            Some(state) => Ok(OwnerResponseView { owner: state.owner }),
            None => Err(QueryErrorView::Parse),
        },
    }
}

/// What the host's reply gives where it is handed through: the reply bytes,
/// untouched, or the host's error.
pub open spec fn chain_answer(reply: HostReplyView) -> Result<Seq<u8>, QueryErrorView> {
    match reply {
        HostReplyView::SystemError(text) => Err(QueryErrorView::System(text)),
        HostReplyView::ContractError(text) => Err(QueryErrorView::Contract(text)),
        HostReplyView::Data(bytes) => Ok(bytes),
    }
}

/// The bytes that answer a query for the owner, given the stored record.
pub open spec fn owner_route_answer(record: Option<Seq<u8>>) -> Result<Seq<u8>, QueryErrorView> {
    match owner_answer(record) {
        Ok(response) => Ok(wire_text::<OwnerResponse>(response)),
        Err(e) => Err(e),
    }
}

/// The bytes that answer a query handed through to the host, given the
/// host's reply.
pub open spec fn chain_route_answer(reply: HostReplyView) -> Result<Seq<u8>, QueryErrorView> {
    match chain_answer(reply) {
        Ok(data) => Ok(value_text(chain_response_json(data))),
        Err(e) => Err(e),
    }
}

/// The record to store for the owner `sender`.
pub fn state_record(sender: &str) -> (bytes: Vec<u8>)
    ensures
        bytes@ == state_text(sender@),
        bytes@.len() > 0,
{
    let state = State { owner: sender.to_owned() };
    proof {
        lemma_state_text_not_empty(sender@);
    }
    to_json_vec(&state)
}

/// The record of a state is never empty: it starts with an opening brace.
pub proof fn lemma_state_text_not_empty(sender: Seq<char>)
    ensures
        state_text(sender).len() > 0,
{
    let v = State::to_json(StateView { owner: sender });
    let ts = value_tokens(v);
    assert(ts.len() > 0);
    assert(ts[0] is BeginObject);
}

/// Reads the owner from the stored record.
pub fn owner_from_record(record: Option<Vec<u8>>) -> (r: Result<OwnerResponse, QueryError>)
    ensures
        match owner_answer(record_view(record)) {
            Ok(v) => r matches Ok(x) && x@ == v,
            Err(e) => r matches Err(f) && f@ == e,
        },
{
    match record {
        None => Err(QueryError::NotFound),
        Some(bytes) => match from_json::<State>(bytes.as_slice()) {
            Some(state) => Ok(OwnerResponse { owner: state.owner }),
            None => Err(QueryError::Parse),
        },
    }
}

/// Wraps the host's reply, untouched, or hands on the host's error.
pub fn chain_response_from(reply: HostReply) -> (r: Result<ChainResponse, QueryError>)
    ensures
        match chain_answer(reply@) {
            Ok(data) => r matches Ok(x) && x.data@ == data,
            Err(e) => r matches Err(f) && f@ == e,
        },
{
    match reply {
        HostReply::SystemError(text) => Err(QueryError::System(text)),
        HostReply::ContractError(text) => Err(QueryError::Contract(text)),
        HostReply::Data(data) => Ok(ChainResponse { data }),
    }
}

/// Records `sender` as the owner: writes the record of a state with that
/// owner under the key of the state, and leaves every other record as it
/// was.
pub fn record_owner(storage: &mut HostStorage<'_>, sender: &str)
    ensures
        stored(*final(storage)) == stored(*old(storage)).insert(config_key(), state_text(sender@)),
{
    let record = state_record(sender);
    storage_set(storage, config_key_bytes(), record.as_slice());
}

/// Instantiates the contract: records the sender of `info` as the owner,
/// under the key of the state, leaves every other record as it was, and
/// gives the empty response of the host's making. It always succeeds.
pub fn instantiate(
    storage: &mut HostStorage<'_>,
    _env: cosmwasm_std::Env,
    info: cosmwasm_std::MessageInfo,
    _msg: InstantiateMsg,
) -> (r: Result<cosmwasm_std::Response<cosmwasm_std::Empty>, QueryError>)
    ensures
        r is Ok,
        stored(*final(storage)) == stored(*old(storage)).insert(
            config_key(),
            state_text(sender_text(info)),
        ),
{
    let sender = sender_of(&info);
    record_owner(storage, sender.as_str());
    Ok(empty_response())
}

/// Answers a query for the owner: reads the record under the key of the
/// state and names its owner. The result is what [`owner_answer`] makes of
/// that record.
pub fn query_owner(storage: &HostStorage<'_>) -> (r: Result<OwnerResponse, QueryError>)
    ensures
        match owner_answer(lookup(stored(*storage), config_key())) {
            Ok(v) => r matches Ok(x) && x@ == v,
            Err(e) => r matches Err(f) && f@ == e,
        },
{
    let record = storage_get(storage, config_key_bytes());
    owner_from_record(record)
}

/// Hands `request`, a request in its wire form, to the host and wraps the
/// reply untouched. The host decides the reply; the result is what
/// [`chain_answer`] makes of what the host gave to this request.
pub fn query_chain(querier: &HostQuerier<'_>, request: &[u8]) -> (r: Result<
    ChainResponse,
    QueryError,
>)
    ensures
        exists|reply: HostReplyView|
            host_gave(request@, reply) && match #[trigger] chain_answer(reply) {
                Ok(data) => r matches Ok(x) && x.data@ == data,
                Err(e) => r matches Err(f) && f@ == e,
            },
{
    let reply = raw_query(querier, request);
    let ghost seen = reply@;
    let r = chain_response_from(reply);
    assert(host_gave(request@, seen) && match chain_answer(seen) {
        Ok(data) => r matches Ok(x) && x.data@ == data,
        Err(e) => r matches Err(f) && f@ == e,
    });
    r
}

/// Answers a query to the contract, as bytes. For [`QueryMsg::Owner`] the
/// result is what [`owner_route_answer`] makes of the record under the key
/// of the state. For [`QueryMsg::Chain`] the host decides the reply, and the
/// result is what [`chain_route_answer`] makes of what the host gave to the
/// request of the message.
pub fn query(
    storage: &HostStorage<'_>,
    querier: &HostQuerier<'_>,
    _env: cosmwasm_std::Env,
    msg: QueryMsg,
) -> (r: Result<Vec<u8>, QueryError>)
    ensures
        match msg@ {
            QueryMsgView::Owner => match owner_route_answer(
                lookup(stored(*storage), config_key()),
            ) {
                Ok(bytes) => r matches Ok(x) && x@ == bytes,
                Err(e) => r matches Err(f) && f@ == e,
            },
            QueryMsgView::Chain { request } => exists|reply: HostReplyView|
                host_gave(request, reply) && match #[trigger] chain_route_answer(reply) {
                    Ok(bytes) => r matches Ok(x) && x@ == bytes,
                    Err(e) => r matches Err(f) && f@ == e,
                },
        },
{
    match msg {
        QueryMsg::Owner {  } => {
            match query_owner(storage) {
                Ok(response) => Ok(to_json_vec(&response)),
                Err(e) => Err(e),
            }
        },
        QueryMsg::Chain { request } => {
            let chain = query_chain(querier, request.as_slice());
            let ghost seen = choose|reply: HostReplyView|
                host_gave(request@, reply) && match #[trigger] chain_answer(reply) {
                    Ok(data) => chain matches Ok(x) && x.data@ == data,
                    Err(e) => chain matches Err(f) && f@ == e,
                };
            let r = match chain {
                Ok(response) => Ok(response.to_json_vec()),
                Err(e) => Err(e),
            };
            assert(host_gave(request@, seen) && match chain_route_answer(seen) {
                Ok(bytes) => r matches Ok(x) && x@ == bytes,
                Err(e) => r matches Err(f) && f@ == e,
            });
            r
        },
    }
}

/// What the host answers is handed through untouched: the bytes of the
/// reply are the bytes of the response.
pub proof fn lemma_pass_through_is_untouched(bytes: Seq<u8>)
    ensures
        chain_answer(HostReplyView::Data(bytes)) == Ok::<Seq<u8>, QueryErrorView>(bytes),
{
}

/// Once an owner is recorded, the record under the key of the state names
/// that owner, whatever the storage held before.
pub proof fn lemma_recorded_owner_is_read_back(records: Map<Seq<u8>, Seq<u8>>, sender: Seq<char>)
    ensures
        owner_answer(lookup(records.insert(config_key(), state_text(sender)), config_key()))
            == Ok::<OwnerResponseView, QueryErrorView>(OwnerResponseView { owner: sender }),
{
    lemma_wire_round_trip::<State>(StateView { owner: sender });
}

/// The record that is stored for an owner names that owner when it is read
/// back.
pub proof fn lemma_stored_owner_is_read_back(sender: Seq<char>)
    ensures
        owner_answer(Some(state_text(sender))) == Ok::<OwnerResponseView, QueryErrorView>(
            OwnerResponseView { owner: sender },
        ),
{
    lemma_wire_round_trip::<State>(StateView { owner: sender });
}

} // verus!
