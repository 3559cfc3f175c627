//! The client that dispatches a request of the catalog to the host chain and
//! reads the answer as the record bound to that request.

use crate::error::{QueryError, QueryErrorView};
use crate::host::{host_gave, raw_query, HostQuerier, HostReply, HostReplyView};
use crate::query::{
    read_response, response_kind, response_value, BabylonQuery, BabylonQueryView,
    BabylonResponse, BabylonResponseView, BtcBaseHeaderResponse, BtcHeaderQueryResponse,
    BtcHeaderQueryResponseView, BtcTipResponse, CurrentEpochResponse, CustomRequest,
    CustomRequestView, LatestFinalizedEpochInfoResponse,
};
use crate::types::{BtcBlockHeaderInfo, BtcBlockHeaderInfoView, FinalizedEpochInfo};
use crate::wire::{from_json, lemma_wire_round_trip, to_json_vec, wire_text, wire_value, Wire};
use vstd::prelude::*;
use vstd::string::*;

verus! {

/// The bytes that carry `query` to the host: the query under the route
/// `custom`.
pub open spec fn request_text(query: BabylonQueryView) -> Seq<u8> {
    wire_text::<CustomRequest>(CustomRequestView { custom: query })
}

/// What the host's reply means where a record `R` is expected: the host's
/// system error, the error of the logic behind it, the record that the reply
/// bytes stand for, or a parse error where they stand for none.
pub open spec fn typed_answer<R: Wire>(reply: HostReplyView) -> Result<R::V, QueryErrorView> {
    match reply {
        HostReplyView::SystemError(text) => Err(QueryErrorView::System(text)),
        HostReplyView::ContractError(text) => Err(QueryErrorView::Contract(text)),
        HostReplyView::Data(bytes) => match wire_value::<R>(bytes) {
            Some(record) => Ok(record),
            None => Err(QueryErrorView::Parse),
        },
    }
}

/// What the host's reply means as the answer to `query`.
pub open spec fn answer(query: BabylonQueryView, reply: HostReplyView) -> Result<
    BabylonResponseView,
    QueryErrorView,
> {
    match reply {
        HostReplyView::SystemError(text) => Err(QueryErrorView::System(text)),
        HostReplyView::ContractError(text) => Err(QueryErrorView::Contract(text)),
        HostReplyView::Data(bytes) => match response_value(response_kind(query), bytes) {
            Some(response) => Ok(response),
            None => Err(QueryErrorView::Parse),
        },
    }
}

/// The current epoch that a reply reports.
pub open spec fn epoch_answer(reply: HostReplyView) -> Result<u64, QueryErrorView> {
    match typed_answer::<CurrentEpochResponse>(reply) {
        Ok(response) => Ok(response.epoch),
        Err(e) => Err(e),
    }
}

/// The finalized epoch that a reply reports.
pub open spec fn epoch_info_answer(reply: HostReplyView) -> Result<
    FinalizedEpochInfo,
    QueryErrorView,
> {
    match typed_answer::<LatestFinalizedEpochInfoResponse>(reply) {
        Ok(response) => Ok(response.epoch_info),
        Err(e) => Err(e),
    }
}

/// The tip header that a reply reports.
pub open spec fn tip_answer(reply: HostReplyView) -> Result<
    BtcBlockHeaderInfoView,
    QueryErrorView,
> {
    match typed_answer::<BtcTipResponse>(reply) {
        Ok(response) => Ok(response.header_info),
        Err(e) => Err(e),
    }
}

/// The base header that a reply reports.
pub open spec fn base_header_answer(reply: HostReplyView) -> Result<
    BtcBlockHeaderInfoView,
    QueryErrorView,
> {
    match typed_answer::<BtcBaseHeaderResponse>(reply) {
        Ok(response) => Ok(response.header_info),
        Err(e) => Err(e),
    }
}

/// The header that a reply reports, or `None` where it reports that there
/// is none.
pub open spec fn header_answer(reply: HostReplyView) -> Result<
    Option<BtcBlockHeaderInfoView>,
    QueryErrorView,
> {
    match typed_answer::<BtcHeaderQueryResponse>(reply) {
        Ok(response) => Ok(response.header_info),
        Err(e) => Err(e),
    }
}

/// The mathematical value of a header that may be absent.
pub open spec fn header_view(header: Option<BtcBlockHeaderInfo>) -> Option<
    BtcBlockHeaderInfoView,
> {
    match header {
        Some(info) => Some(info@),
        None => None,
    }
}

/// The bytes that carry `query` to the host.
pub fn request_bytes(query: &BabylonQuery) -> (bytes: Vec<u8>)
    ensures
        bytes@ == request_text(query@),
{
    let request = CustomRequest { custom: query.clone_query() };
    to_json_vec(&request)
}

/// Reads the host's reply where a record `R` is expected.
pub fn read_reply<R: Wire>(reply: HostReply) -> (r: Result<R, QueryError>)
    ensures
        match typed_answer::<R>(reply@) {
            Ok(v) => r matches Ok(x) && x@ == v,
            Err(e) => r matches Err(f) && f@ == e,
        },
{
    match reply {
        HostReply::SystemError(text) => Err(QueryError::System(text)),
        HostReply::ContractError(text) => Err(QueryError::Contract(text)),
        HostReply::Data(bytes) => match from_json::<R>(bytes.as_slice()) {
            Some(record) => Ok(record),
            None => Err(QueryError::Parse),
        },
    }
}

/// Reads the host's reply as the answer to `query`. An answer that comes
/// out is of the kind bound to `query`, never of another.
pub fn interpret(query: &BabylonQuery, reply: HostReply) -> (r: Result<
    BabylonResponse,
    QueryError,
>)
    ensures
        match answer(query@, reply@) {
            Ok(v) => r matches Ok(x) && x@ == v,
            Err(e) => r matches Err(f) && f@ == e,
        },
        r matches Ok(x) ==> x@.kind() == response_kind(query@),
{
    match reply {
        HostReply::SystemError(text) => Err(QueryError::System(text)),
        HostReply::ContractError(text) => Err(QueryError::Contract(text)),
        HostReply::Data(bytes) => match read_response(query.response_kind(), bytes.as_slice()) {
            Some(response) => Ok(response),
            None => Err(QueryError::Parse),
        },
    }
}

/// Reads the host's reply to a request for the current epoch.
pub fn current_epoch_from(reply: HostReply) -> (r: Result<u64, QueryError>)
    ensures
        match epoch_answer(reply@) {
            Ok(v) => r == Ok::<u64, QueryError>(v),
            Err(e) => r matches Err(f) && f@ == e,
        },
{
    match read_reply::<CurrentEpochResponse>(reply) {
        Ok(response) => Ok(response.epoch),
        Err(e) => Err(e),
    }
}

/// Reads the host's reply to a request for the latest finalized epoch.
pub fn latest_finalized_epoch_info_from(reply: HostReply) -> (r: Result<
    FinalizedEpochInfo,
    QueryError,
>)
    ensures
        match epoch_info_answer(reply@) {
            Ok(v) => r == Ok::<FinalizedEpochInfo, QueryError>(v),
            Err(e) => r matches Err(f) && f@ == e,
        },
{
    match read_reply::<LatestFinalizedEpochInfoResponse>(reply) {
        Ok(response) => Ok(response.epoch_info),
        Err(e) => Err(e),
    }
}

/// Reads the host's reply to a request for the tip header.
pub fn btc_tip_from(reply: HostReply) -> (r: Result<BtcBlockHeaderInfo, QueryError>)
    ensures
        match tip_answer(reply@) {
            Ok(v) => r matches Ok(x) && x@ == v,
            Err(e) => r matches Err(f) && f@ == e,
        },
{
    match read_reply::<BtcTipResponse>(reply) {
        Ok(response) => Ok(response.header_info),
        Err(e) => Err(e),
    }
}

/// Reads the host's reply to a request for the base header.
pub fn btc_base_header_from(reply: HostReply) -> (r: Result<BtcBlockHeaderInfo, QueryError>)
    ensures
        match base_header_answer(reply@) {
            Ok(v) => r matches Ok(x) && x@ == v,
            Err(e) => r matches Err(f) && f@ == e,
        },
{
    match read_reply::<BtcBaseHeaderResponse>(reply) {
        Ok(response) => Ok(response.header_info),
        Err(e) => Err(e),
    }
}

/// Reads the host's reply to a request for a header by height or by hash.
/// Where the host reports no such header the result is `Ok(None)`.
pub fn btc_header_from(reply: HostReply) -> (r: Result<Option<BtcBlockHeaderInfo>, QueryError>)
    ensures
        match header_answer(reply@) {
            Ok(v) => r matches Ok(x) && header_view(x) == v,
            Err(e) => r matches Err(f) && f@ == e,
        },
{
    match read_reply::<BtcHeaderQueryResponse>(reply) {
        Ok(response) => Ok(response.header_info),
        Err(e) => Err(e),
    }
}

/// The client of a contract for the requests of the catalog.
pub struct BabylonQuerier<'a> {
    querier: &'a HostQuerier<'a>,
}

impl<'a> BabylonQuerier<'a> {
    /// The host that this client asks.
    pub closed spec fn host(self) -> HostQuerier<'a> {
        *self.querier
    }

    /// A client that asks the host behind `querier`.
    pub fn new(querier: &'a HostQuerier<'a>) -> (client: Self)
        ensures
            client.host() == *querier,
    {
        BabylonQuerier { querier }
    }

    /// Sends `request` to the host, as the bytes of [`request_text`], and
    /// reads the reply as the answer bound to it. The host decides the
    /// reply; the result is what [`answer`] makes of what the host gave to
    /// these bytes, and an answer is of the kind bound to `request`.
    pub fn query(&self, request: &BabylonQuery) -> (r: Result<BabylonResponse, QueryError>)
        ensures
            exists|reply: HostReplyView|
                host_gave(request_text(request@), reply)
                    && match #[trigger] answer(request@, reply) {
                    Ok(v) => r matches Ok(x) && x@ == v,
                    Err(e) => r matches Err(f) && f@ == e,
                },
            r matches Ok(x) ==> x@.kind() == response_kind(request@),
    {
        let bytes = request_bytes(request);
        let reply = raw_query(self.querier, bytes.as_slice());
        let ghost seen = reply@;
        let r = interpret(request, reply);
        assert(host_gave(request_text(request@), seen));
        assert(match answer(request@, seen) {
            Ok(v) => r matches Ok(x) && x@ == v,
            Err(e) => r matches Err(f) && f@ == e,
        });
        r
    }

    /// Asks the host for the number of the current epoch. The host decides
    /// the reply; the result is what [`epoch_answer`] makes of it.
    pub fn current_epoch(&self) -> (r: Result<u64, QueryError>)
        ensures
            exists|reply: HostReplyView|
                host_gave(request_text(BabylonQueryView::Epoch), reply)
                    && match #[trigger] epoch_answer(reply) {
                    Ok(v) => r == Ok::<u64, QueryError>(v),
                    Err(e) => r matches Err(f) && f@ == e,
                },
    {
        let bytes = request_bytes(&BabylonQuery::Epoch {  });
        let reply = raw_query(self.querier, bytes.as_slice());
        let ghost seen = reply@;
        let r = current_epoch_from(reply);
        assert(host_gave(request_text(BabylonQueryView::Epoch), seen));
        assert(match epoch_answer(seen) {
            Ok(v) => r == Ok::<u64, QueryError>(v),
            Err(e) => r matches Err(f) && f@ == e,
        });
        r
    }

    /// Asks the host for the latest finalized epoch. The host decides the
    /// reply; the result is what [`epoch_info_answer`] makes of it.
    pub fn latest_finalized_epoch_info(&self) -> (r: Result<FinalizedEpochInfo, QueryError>)
        ensures
            exists|reply: HostReplyView|
                host_gave(request_text(BabylonQueryView::LatestFinalizedEpochInfo), reply)
                    && match #[trigger] epoch_info_answer(reply) {
                    Ok(v) => r == Ok::<FinalizedEpochInfo, QueryError>(v),
                    Err(e) => r matches Err(f) && f@ == e,
                },
    {
        let bytes = request_bytes(&BabylonQuery::LatestFinalizedEpochInfo {  });
        let reply = raw_query(self.querier, bytes.as_slice());
        let ghost seen = reply@;
        let r = latest_finalized_epoch_info_from(reply);
        assert(host_gave(request_text(BabylonQueryView::LatestFinalizedEpochInfo), seen));
        assert(match epoch_info_answer(seen) {
            Ok(v) => r == Ok::<FinalizedEpochInfo, QueryError>(v),
            Err(e) => r matches Err(f) && f@ == e,
        });
        r
    }

    /// Asks the host for the tip header of the external chain. The host
    /// decides the reply; the result is what [`tip_answer`] makes of it.
    pub fn btc_tip(&self) -> (r: Result<BtcBlockHeaderInfo, QueryError>)
        ensures
            exists|reply: HostReplyView|
                host_gave(request_text(BabylonQueryView::BtcTip), reply)
                    && match #[trigger] tip_answer(reply) {
                    Ok(v) => r matches Ok(x) && x@ == v,
                    Err(e) => r matches Err(f) && f@ == e,
                },
    {
        let bytes = request_bytes(&BabylonQuery::BtcTip {  });
        let reply = raw_query(self.querier, bytes.as_slice());
        let ghost seen = reply@;
        let r = btc_tip_from(reply);
        assert(host_gave(request_text(BabylonQueryView::BtcTip), seen));
        assert(match tip_answer(seen) {
            Ok(v) => r matches Ok(x) && x@ == v,
            Err(e) => r matches Err(f) && f@ == e,
        });
        r
    }

    /// Asks the host for the base header of the external chain. The host
    /// decides the reply; the result is what [`base_header_answer`] makes of
    /// it.
    pub fn btc_base_header(&self) -> (r: Result<BtcBlockHeaderInfo, QueryError>)
        ensures
            exists|reply: HostReplyView|
                host_gave(request_text(BabylonQueryView::BtcBaseHeader), reply)
                    && match #[trigger] base_header_answer(reply) {
                    Ok(v) => r matches Ok(x) && x@ == v,
                    Err(e) => r matches Err(f) && f@ == e,
                },
    {
        let bytes = request_bytes(&BabylonQuery::BtcBaseHeader {  });
        let reply = raw_query(self.querier, bytes.as_slice());
        let ghost seen = reply@;
        let r = btc_base_header_from(reply);
        assert(host_gave(request_text(BabylonQueryView::BtcBaseHeader), seen));
        assert(match base_header_answer(seen) {
            Ok(v) => r matches Ok(x) && x@ == v,
            Err(e) => r matches Err(f) && f@ == e,
        });
        r
    }

    /// Asks the host for the header at `height`. The host decides the reply;
    /// the result is what [`header_answer`] makes of it.
    pub fn btc_header_by_height(&self, height: u64) -> (r: Result<
        Option<BtcBlockHeaderInfo>,
        QueryError,
    >)
        ensures
            exists|reply: HostReplyView|
                host_gave(request_text(BabylonQueryView::BtcHeaderByHeight { height }), reply)
                    && match #[trigger] header_answer(reply) {
                    Ok(v) => r matches Ok(x) && header_view(x) == v,
                    Err(e) => r matches Err(f) && f@ == e,
                },
    {
        let bytes = request_bytes(&BabylonQuery::BtcHeaderByHeight { height });
        let reply = raw_query(self.querier, bytes.as_slice());
        let ghost seen = reply@;
        let r = btc_header_from(reply);
        assert(host_gave(request_text(BabylonQueryView::BtcHeaderByHeight { height }), seen));
        assert(match header_answer(seen) {
            Ok(v) => r matches Ok(x) && header_view(x) == v,
            Err(e) => r matches Err(f) && f@ == e,
        });
        r
    }

    /// Asks the host for the header with the hash `hash`. The host decides
    /// the reply; the result is what [`header_answer`] makes of it.
    pub fn btc_header_by_hash(&self, hash: &str) -> (r: Result<
        Option<BtcBlockHeaderInfo>,
        QueryError,
    >)
        ensures
            exists|reply: HostReplyView|
                host_gave(request_text(BabylonQueryView::BtcHeaderByHash { hash: hash@ }), reply)
                    && match #[trigger] header_answer(reply) {
                    Ok(v) => r matches Ok(x) && header_view(x) == v,
                    Err(e) => r matches Err(f) && f@ == e,
                },
    {
        let bytes = request_bytes(&BabylonQuery::BtcHeaderByHash { hash: String::from_str(hash) });
        let reply = raw_query(self.querier, bytes.as_slice());
        let ghost seen = reply@;
        let r = btc_header_from(reply);
        assert(host_gave(request_text(BabylonQueryView::BtcHeaderByHash { hash: hash@ }), seen));
        assert(match header_answer(seen) {
            Ok(v) => r matches Ok(x) && header_view(x) == v,
            Err(e) => r matches Err(f) && f@ == e,
        });
        r
    }
}

/// Where the host reports that it has no such header, the answer is "none",
/// not an error; where the host could not process the call, the answer is
/// the system error.
pub proof fn lemma_absent_header_is_an_answer(diagnostic: Seq<char>)
    ensures
        header_answer(
            HostReplyView::Data(
                wire_text::<BtcHeaderQueryResponse>(
                    BtcHeaderQueryResponseView { header_info: None },
                ),
            ),
        ) == Ok::<Option<BtcBlockHeaderInfoView>, QueryErrorView>(None),
        header_answer(HostReplyView::SystemError(diagnostic)) == Err::<
            Option<BtcBlockHeaderInfoView>,
            QueryErrorView,
        >(QueryErrorView::System(diagnostic)),
{
    lemma_wire_round_trip::<BtcHeaderQueryResponse>(
        BtcHeaderQueryResponseView { header_info: None },
    );
}

/// A reply that the host gives as a system error and one that it gives as a
/// contract error never come out as the same error, whatever record is
/// expected and whatever the texts.
pub proof fn lemma_error_kinds_stay_apart<R: Wire>(system_text: Seq<char>, contract_text: Seq<char>)
    ensures
        typed_answer::<R>(HostReplyView::SystemError(system_text)) == Err::<R::V, QueryErrorView>(
            QueryErrorView::System(system_text),
        ),
        typed_answer::<R>(HostReplyView::ContractError(contract_text)) == Err::<
            R::V,
            QueryErrorView,
        >(QueryErrorView::Contract(contract_text)),
        typed_answer::<R>(HostReplyView::SystemError(system_text)) != typed_answer::<R>(
            HostReplyView::ContractError(contract_text),
        ),
{
}

} // verus!
