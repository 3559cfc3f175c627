use std::cell::RefCell;

use babylon_bindings::error::QueryError;
use babylon_bindings::host::{HostQuerier, HostReply};
use babylon_bindings::querier::{
    btc_base_header_from, btc_header_from, btc_tip_from, current_epoch_from, interpret,
    latest_finalized_epoch_info_from, read_reply, request_bytes, BabylonQuerier,
};
use babylon_bindings::query::{
    BabylonQuery, BabylonResponse, BtcBaseHeaderResponse, BtcHeaderQueryResponse, BtcTipResponse,
    CurrentEpochResponse, LatestFinalizedEpochInfoResponse, ResponseKind,
};
use babylon_bindings::types::{BtcBlockHeader, BtcBlockHeaderInfo, FinalizedEpochInfo};
use cosmwasm_std::testing::MockQuerier;
use cosmwasm_std::{
    Binary, ContractResult, Empty, Querier, QuerierResult, SystemError, SystemResult,
};

/// A host that answers with what it was given, in order, and keeps what it
/// was asked.
struct CannedHost {
    replies: RefCell<Vec<QuerierResult>>,
    seen: RefCell<Vec<Vec<u8>>>,
}

impl CannedHost {
    fn new(replies: Vec<QuerierResult>) -> Self {
        CannedHost {
            replies: RefCell::new(replies),
            seen: RefCell::new(Vec::new()),
        }
    }

    fn answering(bytes: &[u8]) -> Self {
        CannedHost::new(vec![data(bytes)])
    }

    fn asked(&self) -> Vec<String> {
        self.seen
            .borrow()
            .iter()
            .map(|r| String::from_utf8(r.clone()).unwrap())
            .collect()
    }
}

impl Querier for CannedHost {
    fn raw_query(&self, bin_request: &[u8]) -> QuerierResult {
        self.seen.borrow_mut().push(bin_request.to_vec());
        self.replies.borrow_mut().remove(0)
    }
}

fn data(bytes: &[u8]) -> QuerierResult {
    SystemResult::Ok(ContractResult::Ok(Binary::from(bytes)))
}

fn sample_header() -> BtcBlockHeaderInfo {
    BtcBlockHeaderInfo {
        header: BtcBlockHeader {
            version: 536870912,
            prev_blockhash: "00000000000000000002a7c4c1e48d76c5a37902165a270156b7a8d72728a054"
                .to_string(),
            merkle_root: "7dac2c5666815c17a3b36427de37bb9d2e2c5ccec3f8633eb91a4205cb4c10ff"
                .to_string(),
            time: 1231006505,
            bits: 486604799,
            nonce: 2083236893,
        },
        height: 840000,
    }
}

const SAMPLE_HEADER_JSON: &str = "{\"header\":{\"version\":536870912,\"prev_blockhash\":\"00000000000000000002a7c4c1e48d76c5a37902165a270156b7a8d72728a054\",\"merkle_root\":\"7dac2c5666815c17a3b36427de37bb9d2e2c5ccec3f8633eb91a4205cb4c10ff\",\"time\":1231006505,\"bits\":486604799,\"nonce\":2083236893},\"height\":840000}";

fn header_reply() -> Vec<u8> {
    format!("{{\"header_info\":{}}}", SAMPLE_HEADER_JSON).into_bytes()
}

#[test]
fn current_epoch_asks_under_the_custom_route_and_reads_the_epoch() {
    let host = CannedHost::answering(b"{\"epoch\":17}");
    let handle = HostQuerier::new(&host);
    let client = BabylonQuerier::new(&handle);
    assert_eq!(client.current_epoch(), Ok(17));
    assert_eq!(host.asked(), vec!["{\"custom\":{\"epoch\":{}}}".to_string()]);
}

#[test]
fn latest_finalized_epoch_info_reads_the_record() {
    let host =
        CannedHost::answering(b"{\"epoch_info\":{\"epoch_number\":3,\"last_block_height\":120}}");
    let handle = HostQuerier::new(&host);
    let client = BabylonQuerier::new(&handle);
    assert_eq!(
        client.latest_finalized_epoch_info(),
        Ok(FinalizedEpochInfo {
            epoch_number: 3,
            last_block_height: 120
        })
    );
    assert_eq!(
        host.asked(),
        vec!["{\"custom\":{\"latest_finalized_epoch_info\":{}}}".to_string()]
    );
}

#[test]
fn btc_tip_reads_the_header() {
    let host = CannedHost::answering(&header_reply());
    let handle = HostQuerier::new(&host);
    let client = BabylonQuerier::new(&handle);
    assert_eq!(client.btc_tip(), Ok(sample_header()));
    assert_eq!(host.asked(), vec!["{\"custom\":{\"btc_tip\":{}}}".to_string()]);
}

#[test]
fn btc_base_header_reads_the_header() {
    let host = CannedHost::answering(&header_reply());
    let handle = HostQuerier::new(&host);
    let client = BabylonQuerier::new(&handle);
    assert_eq!(client.btc_base_header(), Ok(sample_header()));
    assert_eq!(
        host.asked(),
        vec!["{\"custom\":{\"btc_base_header\":{}}}".to_string()]
    );
}

#[test]
fn btc_header_by_height_reads_the_header() {
    let host = CannedHost::answering(&header_reply());
    let handle = HostQuerier::new(&host);
    let client = BabylonQuerier::new(&handle);
    assert_eq!(client.btc_header_by_height(840000), Ok(Some(sample_header())));
    assert_eq!(
        host.asked(),
        vec!["{\"custom\":{\"btc_header_by_height\":{\"height\":840000}}}".to_string()]
    );
}

#[test]
fn btc_header_by_hash_reads_the_header() {
    let host = CannedHost::answering(&header_reply());
    let handle = HostQuerier::new(&host);
    let client = BabylonQuerier::new(&handle);
    assert_eq!(client.btc_header_by_hash("00ab"), Ok(Some(sample_header())));
    assert_eq!(
        host.asked(),
        vec!["{\"custom\":{\"btc_header_by_hash\":{\"hash\":\"00ab\"}}}".to_string()]
    );
}

#[test]
fn header_beyond_the_tip_is_absent_not_an_error() {
    let host = CannedHost::new(vec![
        data(b"{\"header_info\":null}"),
        data(b"{\"header_info\":null}"),
        data(b"{}"),
    ]);
    let handle = HostQuerier::new(&host);
    let client = BabylonQuerier::new(&handle);
    assert_eq!(client.btc_header_by_height(u64::MAX), Ok(None));
    assert_eq!(client.btc_header_by_hash("ffff"), Ok(None));
    assert_eq!(client.btc_header_by_height(1), Ok(None));
    assert_eq!(
        host.asked()[0],
        "{\"custom\":{\"btc_header_by_height\":{\"height\":18446744073709551615}}}"
    );
}

#[test]
fn unroutable_request_is_a_system_error() {
    let host: MockQuerier<Empty> = MockQuerier::new(&[]).with_custom_handler(|_| {
        SystemResult::Err(SystemError::InvalidRequest {
            error: "not implemented".to_string(),
            request: Default::default(),
        })
    });
    let handle = HostQuerier::new(&host);
    let client = BabylonQuerier::new(&handle);
    let result = client.btc_header_by_height(5);
    assert_eq!(
        result,
        Err(QueryError::System(
            "Cannot parse request: not implemented in: ".to_string()
        ))
    );
    assert_eq!(
        result.unwrap_err().message(),
        "Querier system error: Cannot parse request: not implemented in: "
    );
}

#[test]
fn system_and_contract_errors_stay_apart() {
    let host = CannedHost::new(vec![
        SystemResult::Err(SystemError::Unknown {}),
        SystemResult::Ok(ContractResult::Err("Unknown system error".to_string())),
    ]);
    let handle = HostQuerier::new(&host);
    let client = BabylonQuerier::new(&handle);
    let first = client.current_epoch().unwrap_err();
    let second = client.current_epoch().unwrap_err();
    assert_eq!(first, QueryError::System("Unknown system error".to_string()));
    assert_eq!(
        second,
        QueryError::Contract("Unknown system error".to_string())
    );
    assert_ne!(first, second);
    assert_eq!(first.message(), "Querier system error: Unknown system error");
    assert_eq!(
        second.message(),
        "Querier contract error: Unknown system error"
    );
}

#[test]
fn reply_of_another_shape_is_a_parse_error() {
    let host = CannedHost::new(vec![
        data(b"{\"epoch\":\"17\"}"),
        data(b"{\"header_info\":null}"),
        data(b"{\"epoch\":17}"),
        data(b""),
    ]);
    let handle = HostQuerier::new(&host);
    let client = BabylonQuerier::new(&handle);
    assert_eq!(client.current_epoch(), Err(QueryError::Parse));
    assert_eq!(client.btc_tip(), Err(QueryError::Parse));
    assert_eq!(client.btc_header_by_height(1), Err(QueryError::Parse));
    assert_eq!(client.btc_base_header(), Err(QueryError::Parse));
    assert_eq!(QueryError::Parse.message(), "Error parsing reply");
}

#[test]
fn every_request_is_answered_by_its_own_kind() {
    let header = header_reply();
    let cases: Vec<(BabylonQuery, Vec<u8>, ResponseKind)> = vec![
        (
            BabylonQuery::Epoch {},
            b"{\"epoch\":1}".to_vec(),
            ResponseKind::CurrentEpoch,
        ),
        (
            BabylonQuery::LatestFinalizedEpochInfo {},
            b"{\"epoch_info\":{\"epoch_number\":1,\"last_block_height\":2}}".to_vec(),
            ResponseKind::LatestFinalizedEpochInfo,
        ),
        (
            BabylonQuery::BtcBaseHeader {},
            header.clone(),
            ResponseKind::BtcBaseHeader,
        ),
        (BabylonQuery::BtcTip {}, header.clone(), ResponseKind::BtcTip),
        (
            BabylonQuery::BtcHeaderByHeight { height: 7 },
            header.clone(),
            ResponseKind::BtcHeaderQuery,
        ),
        (
            BabylonQuery::BtcHeaderByHash {
                hash: "ab".to_string(),
            },
            b"{\"header_info\":null}".to_vec(),
            ResponseKind::BtcHeaderQuery,
        ),
    ];
    for (query, reply, kind) in cases {
        assert_eq!(query.response_kind(), kind);
        let response = interpret(&query, HostReply::Data(reply)).unwrap();
        assert_eq!(response.kind(), kind);
    }
}

#[test]
fn interpret_gives_the_record_of_the_bound_kind() {
    assert_eq!(
        interpret(
            &BabylonQuery::Epoch {},
            HostReply::Data(b"{\"epoch\":9}".to_vec())
        ),
        Ok(BabylonResponse::CurrentEpoch(CurrentEpochResponse {
            epoch: 9
        }))
    );
    assert_eq!(
        interpret(&BabylonQuery::BtcTip {}, HostReply::Data(header_reply())),
        Ok(BabylonResponse::BtcTip(BtcTipResponse {
            header_info: sample_header()
        }))
    );
    // an epoch reply does not answer a request for the tip
    assert_eq!(
        interpret(
            &BabylonQuery::BtcTip {},
            HostReply::Data(b"{\"epoch\":9}".to_vec())
        ),
        Err(QueryError::Parse)
    );
    assert_eq!(
        interpret(
            &BabylonQuery::Epoch {},
            HostReply::SystemError("down".to_string())
        ),
        Err(QueryError::System("down".to_string()))
    );
    assert_eq!(
        interpret(
            &BabylonQuery::Epoch {},
            HostReply::ContractError("refused".to_string())
        ),
        Err(QueryError::Contract("refused".to_string()))
    );
}

#[test]
fn replies_are_read_by_the_function_of_their_request() {
    assert_eq!(
        current_epoch_from(HostReply::Data(b" { \"epoch\" : 4 } ".to_vec())),
        Ok(4)
    );
    assert_eq!(
        latest_finalized_epoch_info_from(HostReply::Data(
            b"{\"epoch_info\":{\"last_block_height\":8,\"epoch_number\":2}}".to_vec()
        )),
        Ok(FinalizedEpochInfo {
            epoch_number: 2,
            last_block_height: 8
        })
    );
    assert_eq!(
        btc_tip_from(HostReply::Data(header_reply())),
        Ok(sample_header())
    );
    assert_eq!(
        btc_base_header_from(HostReply::Data(header_reply())),
        Ok(sample_header())
    );
    assert_eq!(
        btc_header_from(HostReply::Data(header_reply())),
        Ok(Some(sample_header()))
    );
    assert_eq!(
        btc_header_from(HostReply::Data(b"{\"header_info\":null}".to_vec())),
        Ok(None)
    );
    assert_eq!(
        btc_header_from(HostReply::SystemError("x".to_string())),
        Err(QueryError::System("x".to_string()))
    );
    assert_eq!(
        btc_tip_from(HostReply::Data(b"{\"header_info\":null}".to_vec())),
        Err(QueryError::Parse)
    );
}

#[test]
fn read_reply_reads_each_record() {
    assert_eq!(
        read_reply::<LatestFinalizedEpochInfoResponse>(HostReply::Data(
            b"{\"epoch_info\":{\"epoch_number\":5,\"last_block_height\":6}}".to_vec()
        )),
        Ok(LatestFinalizedEpochInfoResponse {
            epoch_info: FinalizedEpochInfo {
                epoch_number: 5,
                last_block_height: 6
            }
        })
    );
    assert_eq!(
        read_reply::<BtcBaseHeaderResponse>(HostReply::Data(header_reply())),
        Ok(BtcBaseHeaderResponse {
            header_info: sample_header()
        })
    );
    assert_eq!(
        read_reply::<BtcHeaderQueryResponse>(HostReply::ContractError("no".to_string())),
        Err(QueryError::Contract("no".to_string()))
    );
}

#[test]
fn request_bytes_are_the_query_under_custom() {
    assert_eq!(
        request_bytes(&BabylonQuery::BtcHeaderByHash {
            hash: "a\"b".to_string()
        }),
        b"{\"custom\":{\"btc_header_by_hash\":{\"hash\":\"a\\\"b\"}}}".to_vec()
    );
}

#[test]
fn generic_query_dispatches_and_reads() {
    let host = CannedHost::answering(b"{\"epoch\":21}");
    let handle = HostQuerier::new(&host);
    let client = BabylonQuerier::new(&handle);
    assert_eq!(
        client.query(&BabylonQuery::Epoch {}),
        Ok(BabylonResponse::CurrentEpoch(CurrentEpochResponse {
            epoch: 21
        }))
    );
    assert_eq!(host.asked(), vec!["{\"custom\":{\"epoch\":{}}}".to_string()]);
}
