//! The boundary to the host chain: the querier that answers a serialized
//! request in one of three ways, and the contract's storage. Both are the
//! host's. Nothing here claims what the querier answers; of the storage it
//! is claimed that it keeps what is set.

use vstd::prelude::*;

verus! {

/// A handle on the host chain's querier. What stands behind it is the
/// host's: nothing of it is visible to the verifier.
#[verifier::external_body]
pub struct HostQuerier<'a> {
    inner: &'a dyn cosmwasm_std::Querier,
}

/// A handle on the contract's storage, for reading and for writing. What
/// it holds is named by [`stored`].
#[verifier::external_body]
pub struct HostStorage<'a> {
    inner: &'a mut dyn cosmwasm_std::Storage,
}

/// `Env` of `cosmwasm_std`: the block, the transaction and the contract at
/// the time of a call. It is carried through, never looked into.
#[verifier::external_type_specification]
#[verifier::external_body]
pub struct ExEnv(cosmwasm_std::Env);

/// `MessageInfo` of `cosmwasm_std`: who sent a message, and with what
/// funds.
#[verifier::external_type_specification]
#[verifier::external_body]
pub struct ExMessageInfo(cosmwasm_std::MessageInfo);

/// `Empty` of `cosmwasm_std`: the custom message of a contract that has
/// none.
#[verifier::external_type_specification]
#[verifier::external_body]
pub struct ExEmpty(cosmwasm_std::Empty);

/// `Response` of `cosmwasm_std`: what a contract hands back to the host
/// after a call that may change state.
#[verifier::external_type_specification]
#[verifier::external_body]
#[verifier::reject_recursive_types(T)]
pub struct ExResponse<T>(cosmwasm_std::Response<T>);

/// What the host answered to one request.
#[derive(Clone, Debug, PartialEq, Eq)]
pub enum HostReply {
    /// The host could not process the call itself; the text is its diagnostic.
    SystemError(String),
    /// The host processed the call and the logic behind it refused it.
    ContractError(String),
    /// The host answered, with these bytes.
    Data(Vec<u8>),
}

/// The mathematical value of a [`HostReply`].
pub enum HostReplyView {
    SystemError(Seq<char>),
    ContractError(Seq<char>),
    Data(Seq<u8>),
}

impl View for HostReply {
    type V = HostReplyView;

    open spec fn view(&self) -> HostReplyView {
        match self {
            HostReply::SystemError(text) => HostReplyView::SystemError(text@),
            HostReply::ContractError(text) => HostReplyView::ContractError(text@),
            HostReply::Data(bytes) => HostReplyView::Data(bytes@),
        }
    }
}

impl<'a> HostQuerier<'a> {
    /// Takes a querier of `cosmwasm_std` as the host's. Nothing is claimed of
    /// the handle.
    #[verifier::external_body]
    pub fn new<Q: cosmwasm_std::Querier>(querier: &'a Q) -> (handle: Self) {
        HostQuerier { inner: querier }
    }
}

impl<'a> HostStorage<'a> {
    /// Takes a storage of `cosmwasm_std` as the contract's. The handle is
    /// for a storage that keeps what is set, as the storages of
    /// `cosmwasm_std` do: what `set` puts under a key is what `get` gives
    /// for that key, and the other keys are left alone. Nothing is claimed
    /// of the handle itself.
    #[verifier::external_body]
    pub fn new<S: cosmwasm_std::Storage>(storage: &'a mut S) -> (handle: Self) {
        HostStorage { inner: storage }
    }
}

/// Whether the host gave `reply` when it was asked `request`. The relation
/// only ties a reply to the request that it answers: nothing is claimed of
/// what the host answers to which request.
pub uninterp spec fn host_gave(request: Seq<u8>, reply: HostReplyView) -> bool;

/// Calls `Querier::raw_query` of `cosmwasm_std` with `request` as the
/// serialized request. Nothing is claimed of the answer but that it is what
/// the host gave to this request: it is the host's. A system error is
/// handed on as its display text.
#[verifier::external_body]
pub(crate) fn raw_query(querier: &HostQuerier<'_>, request: &[u8]) -> (reply: HostReply)
    ensures
        host_gave(request@, reply@),
{
    match querier.inner.raw_query(request) {
        cosmwasm_std::SystemResult::Err(e) => HostReply::SystemError(e.to_string()),
        cosmwasm_std::SystemResult::Ok(cosmwasm_std::ContractResult::Err(e)) => {
            HostReply::ContractError(e)
        },
        cosmwasm_std::SystemResult::Ok(cosmwasm_std::ContractResult::Ok(data)) => {
            HostReply::Data(data.0)
        },
    }
}

/// The records that the storage behind a handle holds, each under its key.
pub uninterp spec fn stored(storage: HostStorage<'_>) -> Map<Seq<u8>, Seq<u8>>;

/// The record under `key` in `records`, if there is one.
pub open spec fn lookup(records: Map<Seq<u8>, Seq<u8>>, key: Seq<u8>) -> Option<Seq<u8>> {
    if records.contains_key(key) {
        Some(records[key])
    } else {
        None
    }
}

/// The content of a record that may be absent.
pub open spec fn record_view(record: Option<Vec<u8>>) -> Option<Seq<u8>> {
    match record {
        Some(bytes) => Some(bytes@),
        None => None,
    }
}

/// Calls `Storage::get` of `cosmwasm_std`. As the in-memory storage of
/// `cosmwasm_std` does it, the result is the record under `key`, and `None`
/// where there is none.
#[verifier::external_body]
pub(crate) fn storage_get(storage: &HostStorage<'_>, key: &[u8]) -> (record: Option<Vec<u8>>)
    ensures
        record_view(record) == lookup(stored(*storage), key@),
{
    storage.inner.get(key)
}

/// Calls `Storage::set` of `cosmwasm_std`. As the in-memory storage of
/// `cosmwasm_std` does it, the record under `key` is `value` afterwards and
/// every other record is as it was. That storage panics on an empty value,
/// so none is admitted.
#[verifier::external_body]
pub(crate) fn storage_set(storage: &mut HostStorage<'_>, key: &[u8], value: &[u8])
    requires
        value@.len() > 0,
    ensures
        stored(*final(storage)) == stored(*old(storage)).insert(key@, value@),
{
    storage.inner.set(key, value)
}

/// The address in the field `sender` of a `MessageInfo` of `cosmwasm_std`,
/// as text: who started the action.
pub uninterp spec fn sender_text(info: cosmwasm_std::MessageInfo) -> Seq<char>;

/// Reads the field `sender` of a `MessageInfo` of `cosmwasm_std` and writes
/// the address as a string, through its `Display`. The result is a function
/// of `info` alone, and carries the name [`sender_text`].
#[verifier::external_body]
pub(crate) fn sender_of(info: &cosmwasm_std::MessageInfo) -> (sender: String)
    ensures
        sender@ == sender_text(*info),
{
    info.sender.to_string()
}

/// `Response::default` of `cosmwasm_std`: the response without messages,
/// attributes, events or data. Nothing is claimed of it.
#[verifier::external_body]
pub(crate) fn empty_response() -> (response: cosmwasm_std::Response<cosmwasm_std::Empty>) {
    cosmwasm_std::Response::default()
}

/// The base64 text of `bytes`, as `Binary::to_base64` of `cosmwasm_std`
/// writes it.
pub uninterp spec fn base64_text(bytes: Seq<u8>) -> Seq<char>;

/// The bytes that `Binary::from_base64` of `cosmwasm_std` reads from `text`,
/// or `None` where it refuses the text.
pub uninterp spec fn base64_bytes(text: Seq<char>) -> Option<Seq<u8>>;

/// Calls `Binary::to_base64` of `cosmwasm_std` on `bytes`. The result is a
/// function of the bytes alone, and carries the name [`base64_text`]. It is
/// written by the engine by which `Binary::from_base64` reads, so that one
/// reads it back as the bytes.
#[verifier::external_body]
pub(crate) fn to_base64(bytes: &[u8]) -> (text: String)
    ensures
        text@ == base64_text(bytes@),
        base64_bytes(text@) == Some(bytes@),
{
    cosmwasm_std::Binary::from(bytes).to_base64()
}

/// Calls `Binary::from_base64` of `cosmwasm_std` on `text`. The result is a
/// function of the text alone, and carries the name [`base64_bytes`]; an
/// error of the outside function is handed on as `None`.
#[verifier::external_body]
pub(crate) fn from_base64(text: &str) -> (r: Option<Vec<u8>>)
    ensures
        match base64_bytes(text@) {
            Some(bytes) => r matches Some(v) && v@ == bytes,
            None => r is None,
        },
{
    match cosmwasm_std::Binary::from_base64(text) {
        Ok(binary) => Some(binary.0),
        Err(_) => None,
    }
}

} // verus!
