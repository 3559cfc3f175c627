use babylon_bindings::contract::{
    chain_response_from, instantiate, owner_from_record, query, query_chain, query_owner,
    record_owner, state_record,
};
use babylon_bindings::error::QueryError;
use babylon_bindings::host::{HostQuerier, HostReply, HostStorage};
use babylon_bindings::msg::{ChainResponse, InstantiateMsg, OwnerResponse, QueryMsg};
use cosmwasm_std::testing::{mock_env, mock_info, MockQuerier, MockStorage, MOCK_CONTRACT_ADDR};
use cosmwasm_std::{
    coins, from_json, to_json_vec, AllBalanceResponse, BankQuery, Coin, Empty, QueryRequest,
    Storage, SystemError, SystemResult,
};

fn mock_querier(contract_balance: &[Coin]) -> MockQuerier<Empty> {
    MockQuerier::new(&[(MOCK_CONTRACT_ADDR, contract_balance)]).with_custom_handler(|_| {
        SystemResult::Err(SystemError::InvalidRequest {
            error: "not implemented".to_string(),
            request: Default::default(),
        })
    })
}

#[test]
fn proper_instantialization() {
    let mut storage = MockStorage::default();
    let mut deps = HostStorage::new(&mut storage);

    let msg = InstantiateMsg {};
    let info = mock_info("creator", &coins(1000, "earth"));

    // we can just call .unwrap() to assert this was a success
    let res = instantiate(&mut deps, mock_env(), info, msg).unwrap();
    assert_eq!(0, res.messages.len());

    // it worked, let's query the state
    let value = query_owner(&deps).unwrap();
    assert_eq!("creator", value.owner.as_str());
}

#[test]
fn chain_query_works() {
    let mut storage = MockStorage::default();
    let querier = mock_querier(&coins(123, "ucosm"));
    let deps = HostStorage::new(&mut storage);
    let host = HostQuerier::new(&querier);

    // with bank query
    let request: QueryRequest<Empty> = BankQuery::AllBalances {
        address: MOCK_CONTRACT_ADDR.to_string(),
    }
    .into();
    let msg = QueryMsg::Chain {
        request: to_json_vec(&request).unwrap(),
    };
    let response = query(&deps, &host, mock_env(), msg).unwrap();
    let outer: ChainResponse = ChainResponse::from_json(&response).unwrap();
    let inner: AllBalanceResponse = from_json(outer.data).unwrap();
    assert_eq!(inner.amount, coins(123, "ucosm"));
}

#[test]
fn owner_query_without_state_is_not_found() {
    let mut storage = MockStorage::default();
    let deps = HostStorage::new(&mut storage);
    assert_eq!(query_owner(&deps), Err(QueryError::NotFound));
}

#[test]
fn owner_query_answers_in_bytes() {
    let mut storage = MockStorage::default();
    {
        let mut deps = HostStorage::new(&mut storage);
        instantiate(
            &mut deps,
            mock_env(),
            mock_info("creator", &[]),
            InstantiateMsg {},
        )
        .unwrap();
    }
    assert_eq!(
        storage.get(b"config"),
        Some(b"{\"owner\":\"creator\"}".to_vec())
    );
    let querier = mock_querier(&[]);
    let deps = HostStorage::new(&mut storage);
    let host = HostQuerier::new(&querier);
    let response = query(&deps, &host, mock_env(), QueryMsg::Owner {}).unwrap();
    assert_eq!(response, b"{\"owner\":\"creator\"}".to_vec());
}

#[test]
fn the_sender_is_recorded_as_it_is_written() {
    for sender in ["creator", "", "a \"quoted\" one", "\u{e9}\u{1F600}", "cosmos1\n"] {
        let mut storage = MockStorage::default();
        let mut deps = HostStorage::new(&mut storage);
        instantiate(
            &mut deps,
            mock_env(),
            mock_info(sender, &[]),
            InstantiateMsg {},
        )
        .unwrap();
        assert_eq!(query_owner(&deps).unwrap().owner, sender);
    }
}

#[test]
fn stored_state_that_is_no_state_is_a_parse_error() {
    let mut storage = MockStorage::default();
    storage.set(b"config", b"{\"owner\":5}");
    let deps = HostStorage::new(&mut storage);
    assert_eq!(query_owner(&deps), Err(QueryError::Parse));
    assert_eq!(QueryError::NotFound.message(), "State not found");
}

#[test]
fn chain_query_hands_errors_on() {
    let mut storage = MockStorage::default();
    let querier = mock_querier(&[]);
    let deps = HostStorage::new(&mut storage);
    let host = HostQuerier::new(&querier);
    // not a request that the host can read
    let msg = QueryMsg::Chain {
        request: b"{\"nonsense\":1}".to_vec(),
    };
    match query(&deps, &host, mock_env(), msg) {
        Err(QueryError::System(text)) => assert!(text.starts_with("Cannot parse request: ")),
        other => panic!("unexpected: {:?}", other),
    }
    // a request under the custom route, which this host does not serve
    let msg = QueryMsg::Chain {
        request: b"{\"custom\":{}}".to_vec(),
    };
    assert_eq!(
        query(&deps, &host, mock_env(), msg),
        Err(QueryError::System(
            "Cannot parse request: not implemented in: ".to_string()
        ))
    );
}

#[test]
fn query_chain_wraps_the_reply_untouched() {
    let querier = mock_querier(&coins(5, "ucosm"));
    let host = HostQuerier::new(&querier);
    let request: QueryRequest<Empty> = BankQuery::Balance {
        address: MOCK_CONTRACT_ADDR.to_string(),
        denom: "ucosm".to_string(),
    }
    .into();
    let response = query_chain(&host, &to_json_vec(&request).unwrap()).unwrap();
    assert_eq!(
        response.data,
        b"{\"amount\":{\"denom\":\"ucosm\",\"amount\":\"5\"}}".to_vec()
    );
}

#[test]
fn replies_and_records_are_read_for_every_outcome() {
    assert_eq!(
        chain_response_from(HostReply::Data(vec![1, 2, 3])),
        Ok(ChainResponse {
            data: vec![1, 2, 3]
        })
    );
    assert_eq!(
        chain_response_from(HostReply::Data(vec![])),
        Ok(ChainResponse { data: vec![] })
    );
    assert_eq!(
        chain_response_from(HostReply::SystemError("s".to_string())),
        Err(QueryError::System("s".to_string()))
    );
    assert_eq!(
        chain_response_from(HostReply::ContractError("c".to_string())),
        Err(QueryError::Contract("c".to_string()))
    );
    assert_eq!(owner_from_record(None), Err(QueryError::NotFound));
    assert_eq!(
        owner_from_record(Some(b"not a record".to_vec())),
        Err(QueryError::Parse)
    );
    assert_eq!(
        owner_from_record(Some(state_record("any\"one"))),
        Ok(OwnerResponse {
            owner: "any\"one".to_string()
        })
    );
    assert_eq!(state_record("creator"), b"{\"owner\":\"creator\"}".to_vec());
}

#[test]
fn recording_an_owner_writes_one_record_and_leaves_the_others() {
    let mut storage = MockStorage::default();
    storage.set(b"other", b"kept");
    storage.set(b"config", b"{\"owner\":\"before\"}");
    {
        let mut deps = HostStorage::new(&mut storage);
        assert_eq!(query_owner(&deps).unwrap().owner, "before");
        record_owner(&mut deps, "after");
        assert_eq!(query_owner(&deps).unwrap().owner, "after");
    }
    assert_eq!(
        storage.get(b"config"),
        Some(b"{\"owner\":\"after\"}".to_vec())
    );
    assert_eq!(storage.get(b"other"), Some(b"kept".to_vec()));
    assert_eq!(storage.get(b"confi"), None);
}

#[test]
fn instantiating_twice_keeps_the_last_sender() {
    let mut storage = MockStorage::default();
    let mut deps = HostStorage::new(&mut storage);
    instantiate(
        &mut deps,
        mock_env(),
        mock_info("first", &[]),
        InstantiateMsg {},
    )
    .unwrap();
    instantiate(
        &mut deps,
        mock_env(),
        mock_info("second", &coins(2, "earth")),
        InstantiateMsg {},
    )
    .unwrap();
    assert_eq!(query_owner(&deps).unwrap().owner, "second");
}
