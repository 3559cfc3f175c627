use babylon_bindings::msg::{ChainResponse, InstantiateMsg, OwnerResponse};
use babylon_bindings::number::Number;
use babylon_bindings::query::{
    read_response, write_response, BabylonQuery, BabylonResponse, BtcBaseHeaderResponse,
    BtcHeaderQueryResponse, BtcTipResponse, CurrentEpochResponse, CustomRequest,
    LatestFinalizedEpochInfoResponse, ResponseKind,
};
use babylon_bindings::state::State;
use babylon_bindings::types::{BtcBlockHeader, BtcBlockHeaderInfo, FinalizedEpochInfo};
use babylon_bindings::value::{parse, to_text, Json};
use babylon_bindings::wire::{from_json, to_json_vec};

fn header(version: i32) -> BtcBlockHeader {
    BtcBlockHeader {
        version,
        prev_blockhash: "00aa".to_string(),
        merkle_root: "ff11".to_string(),
        time: 1,
        bits: 2,
        nonce: u32::MAX,
    }
}

fn info(version: i32, height: u64) -> BtcBlockHeaderInfo {
    BtcBlockHeaderInfo {
        header: header(version),
        height,
    }
}

fn text(bytes: Vec<u8>) -> String {
    String::from_utf8(bytes).unwrap()
}

#[test]
fn requests_have_their_wire_form() {
    assert_eq!(text(to_json_vec(&BabylonQuery::Epoch {})), "{\"epoch\":{}}");
    assert_eq!(
        text(to_json_vec(&BabylonQuery::LatestFinalizedEpochInfo {})),
        "{\"latest_finalized_epoch_info\":{}}"
    );
    assert_eq!(
        text(to_json_vec(&BabylonQuery::BtcBaseHeader {})),
        "{\"btc_base_header\":{}}"
    );
    assert_eq!(text(to_json_vec(&BabylonQuery::BtcTip {})), "{\"btc_tip\":{}}");
    assert_eq!(
        text(to_json_vec(&BabylonQuery::BtcHeaderByHeight { height: 0 })),
        "{\"btc_header_by_height\":{\"height\":0}}"
    );
    assert_eq!(
        text(to_json_vec(&BabylonQuery::BtcHeaderByHeight { height: 1234567890 })),
        "{\"btc_header_by_height\":{\"height\":1234567890}}"
    );
    assert_eq!(
        text(to_json_vec(&BabylonQuery::BtcHeaderByHash {
            hash: "deadbeef".to_string()
        })),
        "{\"btc_header_by_hash\":{\"hash\":\"deadbeef\"}}"
    );
}

#[test]
fn every_request_survives_the_wire() {
    let requests = vec![
        BabylonQuery::Epoch {},
        BabylonQuery::LatestFinalizedEpochInfo {},
        BabylonQuery::BtcBaseHeader {},
        BabylonQuery::BtcTip {},
        BabylonQuery::BtcHeaderByHeight { height: 0 },
        BabylonQuery::BtcHeaderByHeight { height: u64::MAX },
        BabylonQuery::BtcHeaderByHash {
            hash: String::new(),
        },
        BabylonQuery::BtcHeaderByHash {
            hash: "tab\there \"quoted\" back\\slash \u{1}\u{1f} \u{e9}\u{4e2d}\u{1F600}".to_string(),
        },
    ];
    for request in requests {
        let bytes = to_json_vec(&request);
        assert_eq!(from_json::<BabylonQuery>(&bytes), Some(request.clone()));
        let wrapped = CustomRequest {
            custom: request.clone(),
        };
        let bytes = to_json_vec(&wrapped);
        assert_eq!(from_json::<CustomRequest>(&bytes), Some(wrapped));
    }
}

#[test]
fn every_response_survives_the_wire() {
    let responses = vec![
        BabylonResponse::CurrentEpoch(CurrentEpochResponse { epoch: u64::MAX }),
        BabylonResponse::LatestFinalizedEpochInfo(LatestFinalizedEpochInfoResponse {
            epoch_info: FinalizedEpochInfo {
                epoch_number: 12,
                last_block_height: 0,
            },
        }),
        BabylonResponse::BtcBaseHeader(BtcBaseHeaderResponse {
            header_info: info(i32::MIN, 1),
        }),
        BabylonResponse::BtcTip(BtcTipResponse {
            header_info: info(i32::MAX, u64::MAX),
        }),
        BabylonResponse::BtcHeaderQuery(BtcHeaderQueryResponse {
            header_info: Some(info(-1, 5)),
        }),
        BabylonResponse::BtcHeaderQuery(BtcHeaderQueryResponse { header_info: None }),
    ];
    for response in responses {
        let bytes = write_response(&response);
        assert_eq!(read_response(response.kind(), &bytes), Some(response));
    }
}

#[test]
fn responses_have_their_wire_form() {
    assert_eq!(
        text(to_json_vec(&CurrentEpochResponse { epoch: 42 })),
        "{\"epoch\":42}"
    );
    assert_eq!(
        text(to_json_vec(&LatestFinalizedEpochInfoResponse {
            epoch_info: FinalizedEpochInfo {
                epoch_number: 7,
                last_block_height: 700
            }
        })),
        "{\"epoch_info\":{\"epoch_number\":7,\"last_block_height\":700}}"
    );
    assert_eq!(
        text(to_json_vec(&BtcTipResponse {
            header_info: info(-2, 3)
        })),
        "{\"header_info\":{\"header\":{\"version\":-2,\"prev_blockhash\":\"00aa\",\"merkle_root\":\"ff11\",\"time\":1,\"bits\":2,\"nonce\":4294967295},\"height\":3}}"
    );
    assert_eq!(
        text(to_json_vec(&BtcHeaderQueryResponse { header_info: None })),
        "{\"header_info\":null}"
    );
    assert_eq!(
        text(to_json_vec(&header(i32::MIN))),
        "{\"version\":-2147483648,\"prev_blockhash\":\"00aa\",\"merkle_root\":\"ff11\",\"time\":1,\"bits\":2,\"nonce\":4294967295}"
    );
    assert_eq!(text(to_json_vec(&InstantiateMsg {})), "{}");
    assert_eq!(
        text(to_json_vec(&OwnerResponse {
            owner: "creator".to_string()
        })),
        "{\"owner\":\"creator\"}"
    );
    assert_eq!(
        text(to_json_vec(&State {
            owner: "creator".to_string()
        })),
        "{\"owner\":\"creator\"}"
    );
}

#[test]
fn response_kinds_do_not_read_each_other() {
    let epoch = to_json_vec(&CurrentEpochResponse { epoch: 1 });
    assert_eq!(read_response(ResponseKind::BtcTip, &epoch), None);
    assert_eq!(read_response(ResponseKind::BtcHeaderQuery, &epoch), None);
    assert_eq!(
        read_response(ResponseKind::LatestFinalizedEpochInfo, &epoch),
        None
    );
    assert_eq!(
        read_response(ResponseKind::CurrentEpoch, &epoch),
        Some(BabylonResponse::CurrentEpoch(CurrentEpochResponse {
            epoch: 1
        }))
    );
}

#[test]
fn blanks_and_member_order_do_not_matter() {
    let bytes = b" {\n\t\"height\" : 9 ,\r\n \"header\" : { \"nonce\":4294967295, \"bits\":2 ,\"time\":1, \"merkle_root\":\"ff11\", \"prev_blockhash\":\"00aa\", \"version\": 0 } } ";
    assert_eq!(from_json::<BtcBlockHeaderInfo>(bytes), Some(info(0, 9)));
}

#[test]
fn unknown_double_and_missing_members_are_refused() {
    assert_eq!(
        from_json::<CurrentEpochResponse>(b"{\"epoch\":1,\"extra\":2}"),
        None
    );
    assert_eq!(
        from_json::<CurrentEpochResponse>(b"{\"epoch\":1,\"epoch\":1}"),
        None
    );
    assert_eq!(from_json::<CurrentEpochResponse>(b"{}"), None);
    assert_eq!(
        from_json::<FinalizedEpochInfo>(b"{\"epoch_number\":1}"),
        None
    );
    assert_eq!(
        from_json::<BtcHeaderQueryResponse>(b"{\"header_info\":null,\"header_info\":null}"),
        None
    );
    assert_eq!(
        from_json::<BtcHeaderQueryResponse>(b"{}"),
        Some(BtcHeaderQueryResponse { header_info: None })
    );
    assert_eq!(from_json::<BtcTipResponse>(b"{\"header_info\":null}"), None);
    assert_eq!(from_json::<InstantiateMsg>(b"{}"), Some(InstantiateMsg {}));
    assert_eq!(from_json::<InstantiateMsg>(b"{\"a\":1}"), None);
}

#[test]
fn requests_of_another_shape_are_refused() {
    assert_eq!(from_json::<BabylonQuery>(b"{\"ping\":{}}"), None);
    assert_eq!(from_json::<BabylonQuery>(b"\"epoch\""), None);
    assert_eq!(from_json::<BabylonQuery>(b"{\"epoch\":{\"x\":1}}"), None);
    assert_eq!(from_json::<BabylonQuery>(b"{\"epoch\":null}"), None);
    assert_eq!(
        from_json::<BabylonQuery>(b"{\"epoch\":{},\"btc_tip\":{}}"),
        None
    );
    assert_eq!(
        from_json::<BabylonQuery>(b"{\"btc_header_by_height\":{}}"),
        None
    );
    assert_eq!(
        from_json::<BabylonQuery>(b"{\"btc_header_by_height\":{\"height\":\"1\"}}"),
        None
    );
    assert_eq!(
        from_json::<BabylonQuery>(b"{\"btc_header_by_hash\":{\"hash\":1}}"),
        None
    );
    assert_eq!(from_json::<CustomRequest>(b"{\"epoch\":{}}"), None);
    assert_eq!(
        from_json::<CustomRequest>(b"{\"bank\":{\"epoch\":{}}}"),
        None
    );
    assert_eq!(
        from_json::<CustomRequest>(b"{\"custom\":{\"btc_tip\":{}}}"),
        Some(CustomRequest {
            custom: BabylonQuery::BtcTip {}
        })
    );
}

#[test]
fn malformed_text_is_refused() {
    for bad in [
        &b""[..],
        b" ",
        b"{",
        b"}",
        b"{\"epoch\":1",
        b"{\"epoch\":1}}",
        b"{\"epoch\":1} x",
        b"{\"epoch\":1,}",
        b"{,\"epoch\":1}",
        b"{\"epoch\" 1}",
        b"{\"epoch\":}",
        b"{epoch:1}",
        b"{\"epoch\":1 \"epoch\":1}",
        b"[1]",
        b"{\"epoch\":true}",
        b"{\"epoch\":nul}",
        b"{\"epoch\":1.0}",
        b"{\"epoch\":1e3}",
        b"{\"epoch\":01}",
        b"{\"epoch\":+1}",
        b"{\"epoch\":-}",
        b"{\"epoch\":-1}",
        b"{\"epoch\":-0}",
        b"{\"epoch\":18446744073709551616}",
        b"{\"epoch\":99999999999999999999999999}",
    ] {
        assert_eq!(from_json::<CurrentEpochResponse>(bad), None, "{:?}", bad);
    }
    assert_eq!(
        from_json::<CurrentEpochResponse>(b"{\"epoch\":18446744073709551615}"),
        Some(CurrentEpochResponse { epoch: u64::MAX })
    );
    assert_eq!(
        from_json::<CurrentEpochResponse>(b"{\"epoch\":0}"),
        Some(CurrentEpochResponse { epoch: 0 })
    );
}

fn header_with(version: &str, nonce: &str) -> Vec<u8> {
    format!(
        "{{\"version\":{},\"prev_blockhash\":\"00aa\",\"merkle_root\":\"ff11\",\"time\":1,\"bits\":2,\"nonce\":{}}}",
        version, nonce
    )
    .into_bytes()
}

#[test]
fn integers_of_32_bits_keep_their_range() {
    assert_eq!(
        from_json::<BtcBlockHeader>(&header_with("2147483647", "4294967295")),
        Some(header(i32::MAX))
    );
    assert_eq!(
        from_json::<BtcBlockHeader>(&header_with("-2147483648", "4294967295")),
        Some(header(i32::MIN))
    );
    assert_eq!(
        from_json::<BtcBlockHeader>(&header_with("-0", "4294967295")),
        Some(header(0))
    );
    assert_eq!(
        from_json::<BtcBlockHeader>(&header_with("2147483648", "4294967295")),
        None
    );
    assert_eq!(
        from_json::<BtcBlockHeader>(&header_with("-2147483649", "4294967295")),
        None
    );
    assert_eq!(
        from_json::<BtcBlockHeader>(&header_with("1", "4294967296")),
        None
    );
    assert_eq!(from_json::<BtcBlockHeader>(&header_with("1", "-1")), None);
}

fn owner_text(owner: &str) -> Vec<u8> {
    to_json_vec(&State {
        owner: owner.to_string(),
    })
}

#[test]
fn strings_are_escaped_as_the_serializer_of_the_host_format_does() {
    let samples = [
        "",
        "plain",
        "quote\" backslash\\ slash/",
        "\u{8}\u{9}\u{a}\u{c}\u{d}",
        "\u{0}\u{1}\u{b}\u{e}\u{1f}\u{7f}",
        "\u{e9}\u{df}\u{4e2d}\u{6587}\u{1F600}\u{10FFFF}",
    ];
    for sample in samples {
        let theirs = cosmwasm_std::to_json_vec(&sample.to_string()).unwrap();
        let mut expected = b"{\"owner\":".to_vec();
        expected.extend_from_slice(&theirs);
        expected.push(b'}');
        assert_eq!(owner_text(sample), expected, "{:?}", sample);
        assert_eq!(
            from_json::<State>(&expected),
            Some(State {
                owner: sample.to_string()
            })
        );
        assert_eq!(
            cosmwasm_std::from_json::<String>(&theirs).unwrap(),
            sample.to_string()
        );
    }
    assert_eq!(
        text(owner_text("a\u{1}\n\"")),
        "{\"owner\":\"a\\u0001\\n\\\"\"}"
    );
}

fn owner_of(literal: &str) -> Option<String> {
    let bytes = format!("{{\"owner\":{}}}", literal).into_bytes();
    from_json::<State>(&bytes).map(|s| s.owner)
}

#[test]
fn escapes_are_read() {
    assert_eq!(owner_of("\"\\\"\\\\\\/\\b\\f\\n\\r\\t\""), Some("\"\\/\u{8}\u{c}\n\r\t".to_string()));
    assert_eq!(owner_of("\"\\u0041\\u00e9\\u00E9\\u4e2d\""), Some("A\u{e9}\u{e9}\u{4e2d}".to_string()));
    assert_eq!(owner_of("\"\\ud83d\\ude00\""), Some("\u{1F600}".to_string()));
    assert_eq!(owner_of("\"\\uDBFF\\uDFFF\""), Some("\u{10FFFF}".to_string()));
    assert_eq!(owner_of("\"\\u0000\""), Some("\u{0}".to_string()));
    assert_eq!(owner_of("\"\u{e9}\u{1F600}\""), Some("\u{e9}\u{1F600}".to_string()));
}

#[test]
fn broken_strings_are_refused() {
    assert_eq!(owner_of("\"abc"), None);
    assert_eq!(owner_of("\"a\\\""), None);
    assert_eq!(owner_of("\"\\x\""), None);
    assert_eq!(owner_of("\"\\u12\""), None);
    assert_eq!(owner_of("\"\\u12g4\""), None);
    assert_eq!(owner_of("\"\\ud83d\""), None);
    assert_eq!(owner_of("\"\\ud83dx\""), None);
    assert_eq!(owner_of("\"\\ud83d\\u0041\""), None);
    assert_eq!(owner_of("\"\\ude00\""), None);
    assert_eq!(owner_of("\"a\nb\""), None);
    assert_eq!(owner_of("\"a\u{1}b\""), None);
    assert_eq!(from_json::<State>(b"{\"owner\":\"\xff\"}"), None);
    assert_eq!(from_json::<State>(b"{\"owner\":\"\xc3\"}"), None);
    assert_eq!(from_json::<State>(b"{\"owner\":\"\xed\xa0\x80\"}"), None);
    assert_eq!(
        from_json::<State>(b"{\"owner\":\"\xc3\xa9\"}"),
        Some(State {
            owner: "\u{e9}".to_string()
        })
    );
}

#[test]
fn values_are_read_and_written() {
    let value = Json::Object(vec![
        ("a".to_string(), Json::Null),
        (
            "b".to_string(),
            Json::Number(Number {
                negative: true,
                magnitude: 12,
            }),
        ),
        ("c".to_string(), Json::Text("x".to_string())),
        ("d".to_string(), Json::Object(vec![])),
        (
            "a".to_string(),
            Json::Number(Number {
                negative: false,
                magnitude: 0,
            }),
        ),
    ]);
    let bytes = to_text(&value);
    assert_eq!(
        text(bytes.clone()),
        "{\"a\":null,\"b\":-12,\"c\":\"x\",\"d\":{},\"a\":0}"
    );
    assert_eq!(parse(&bytes), Some(value));
    assert_eq!(parse(b" null "), Some(Json::Null));
    assert_eq!(
        parse(b"-0"),
        Some(Json::Number(Number {
            negative: true,
            magnitude: 0
        }))
    );
    assert_eq!(parse(b"\"s\""), Some(Json::Text("s".to_string())));
    assert_eq!(parse(b"1 2"), None);
    assert_eq!(parse(b"12null"), None);
}

fn nested(depth: usize) -> Vec<u8> {
    let mut bytes = Vec::new();
    for _ in 0..depth {
        bytes.extend_from_slice(b"{\"a\":");
    }
    bytes.extend_from_slice(b"null");
    for _ in 0..depth {
        bytes.push(b'}');
    }
    bytes
}

#[test]
fn objects_are_read_to_a_limit_of_depth() {
    assert!(parse(&nested(1)).is_some());
    assert!(parse(&nested(127)).is_some());
    assert_eq!(parse(&nested(128)), None);
    assert_eq!(parse(&nested(100_000)), None);
    let deep = parse(&nested(127)).unwrap();
    assert_eq!(to_text(&deep), nested(127));
    // the deserializer of the host format draws the line at the same depth
    let theirs = cosmwasm_std::from_json::<cosmwasm_std::Empty>(&nested(127));
    assert!(theirs.is_ok());
    let theirs = cosmwasm_std::from_json::<cosmwasm_std::Empty>(&nested(128));
    assert!(theirs.is_err());
}

#[test]
fn chain_response_carries_its_bytes_as_base64() {
    let response = ChainResponse {
        data: b"hello, world".to_vec(),
    };
    let bytes = response.to_json_vec();
    assert_eq!(text(bytes.clone()), "{\"data\":\"aGVsbG8sIHdvcmxk\"}");
    assert_eq!(ChainResponse::from_json(&bytes), Some(response));
    let empty = ChainResponse { data: vec![] };
    assert_eq!(text(empty.to_json_vec()), "{\"data\":\"\"}");
    assert_eq!(ChainResponse::from_json(b"{\"data\":\"\"}"), Some(empty));
    assert_eq!(
        ChainResponse::from_json(b"{\"data\":\"aGk\"}"),
        Some(ChainResponse {
            data: b"hi".to_vec()
        })
    );
    assert_eq!(ChainResponse::from_json(b"{\"data\":\"a*b\"}"), None);
    assert_eq!(ChainResponse::from_json(b"{\"data\":1}"), None);
    assert_eq!(ChainResponse::from_json(b"{\"datum\":\"\"}"), None);
    assert_eq!(ChainResponse::from_json(b"{\"data\":\"\""), None);
    let theirs = cosmwasm_std::to_json_vec(&cosmwasm_std::Binary::from(&[0u8, 255, 16][..])).unwrap();
    let ours = ChainResponse {
        data: vec![0, 255, 16],
    }
    .to_json_vec();
    let mut expected = b"{\"data\":".to_vec();
    expected.extend_from_slice(&theirs);
    expected.push(b'}');
    assert_eq!(ours, expected);
}
