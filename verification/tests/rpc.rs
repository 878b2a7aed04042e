use audio_backend::json::decode::{decode, decode_response, Response};
use audio_backend::json::types::{
    check_type, request_kind, ErrReq, FileInfo, FileList, ParamGetFileInfo, Params, RpcError,
    RpcResult, Version, GET_FILE_INFO, GET_FILE_LIST, GET_VERSION,
};
use audio_backend::json::{Message, Request, Rpc, RPC_VERSION};

fn version() -> RpcResult {
    RpcResult::Version(Version {
        project: "audio".to_string(),
        version: "1.2.3".to_string(),
        esp_idf: "v4.4".to_string(),
    })
}

const VERSION_REPLY: &str =
    r#"{"jsonrpc":"2.0","result":{"project":"audio","version":"1.2.3","esp-idf":"v4.4"},"id":1}"#;

#[test]
fn requests_are_written_in_order_of_their_members() {
    let mut rpc = Rpc::new();
    assert_eq!(rpc.get_version(), r#"{"jsonrpc":"2.0","method":"get-version","id":1}"#);
    assert_eq!(
        rpc.get_file_list(true),
        r#"{"jsonrpc":"2.0","method":"get-file-list","params":{"start":true},"id":2}"#
    );
    assert_eq!(
        rpc.get_file_list(false),
        r#"{"jsonrpc":"2.0","method":"get-file-list","params":{"start":false},"id":3}"#
    );
    assert_eq!(
        rpc.get_file_info("a/1.ogg".to_string()),
        r#"{"jsonrpc":"2.0","method":"get-file-info","params":{"filename":"a/1.ogg"},"id":4}"#
    );
    assert_eq!(rpc.pending(), 4);
}

#[test]
fn file_names_are_escaped() {
    let mut rpc = Rpc::new();
    let text = rpc.get_file_info("a \"b\"\\c\n\u{e9}.ogg".to_string());
    assert_eq!(
        text,
        "{\"jsonrpc\":\"2.0\",\"method\":\"get-file-info\",\"params\":{\"filename\":\"a \\\"b\\\"\\\\c\\n\u{e9}.ogg\"},\"id\":1}"
    );
    let value: serde_json::Value = serde_json::from_str(&text).unwrap();
    assert_eq!(value["params"]["filename"].as_str(), Some("a \"b\"\\c\n\u{e9}.ogg"));
    assert_eq!(value["id"].as_u64(), Some(1));
    assert_eq!(value["method"].as_str(), Some("get-file-info"));
}

#[test]
fn request_text_reads_back_as_the_request() {
    let request = Request {
        jsonrpc: RPC_VERSION,
        method: GET_FILE_INFO,
        params: Some(Params::FileInfo(ParamGetFileInfo { filename: "x/y.ogg".to_string() })),
        id: 4294967295,
    };
    let value: serde_json::Value = serde_json::from_str(&request.to_json()).unwrap();
    assert_eq!(value["jsonrpc"].as_str(), Some("2.0"));
    assert_eq!(value["method"].as_str(), Some("get-file-info"));
    assert_eq!(value["params"]["filename"].as_str(), Some("x/y.ogg"));
    assert_eq!(value["id"].as_u64(), Some(4294967295));
    assert_eq!(value.as_object().unwrap().len(), 4);
}

#[test]
fn identifiers_are_distinct() {
    let mut rpc = Rpc::new();
    let a = rpc.request(GET_VERSION, None);
    let b = rpc.request(GET_VERSION, None);
    let c = rpc.request(GET_FILE_LIST, None);
    assert_eq!((a.id, b.id, c.id), (1, 2, 3));
    assert_eq!(a.jsonrpc, "2.0");
    assert_eq!(c.method, "get-file-list");
    assert_eq!(rpc.pending(), 3);
    assert!(rpc.can_request());
}

#[test]
fn result_is_matched_to_its_request() {
    let mut rpc = Rpc::new();
    rpc.get_version();
    assert_eq!(rpc.parse(VERSION_REPLY), Some(Message::Response(Ok(version()))));
    assert_eq!(rpc.pending(), 0);
    // The entry is used up: the same reply again is dropped.
    assert_eq!(rpc.parse(VERSION_REPLY), None);
}

#[test]
fn unknown_identifier_is_dropped() {
    let mut rpc = Rpc::new();
    rpc.get_version();
    let reply =
        r#"{"jsonrpc":"2.0","result":{"project":"audio","version":"1.2.3","esp-idf":"v4.4"},"id":7}"#;
    assert_eq!(rpc.parse(reply), None);
    assert_eq!(rpc.pending(), 1);
    assert_eq!(rpc.parse(VERSION_REPLY), Some(Message::Response(Ok(version()))));
}

#[test]
fn missing_identifier_is_dropped() {
    let mut rpc = Rpc::new();
    rpc.get_version();
    for reply in [
        r#"{"jsonrpc":"2.0","result":{"project":"audio","version":"1.2.3","esp-idf":"v4.4"}}"#,
        r#"{"jsonrpc":"2.0","result":{"project":"audio","version":"1.2.3","esp-idf":"v4.4"},"id":null}"#,
        r#"{"jsonrpc":"2.0","error":{"code":1,"message":"no"}}"#,
    ] {
        assert_eq!(rpc.parse(reply), None);
        assert_eq!(rpc.pending(), 1);
    }
}

#[test]
fn result_of_another_shape_is_dropped_and_uses_the_entry_up() {
    let mut rpc = Rpc::new();
    rpc.get_file_list(true);
    assert_eq!(rpc.parse(VERSION_REPLY), None);
    assert_eq!(rpc.pending(), 0);
    let list = r#"{"jsonrpc":"2.0","result":{"first":true,"last":true,"files":[]},"id":1}"#;
    assert_eq!(rpc.parse(list), None);
}

#[test]
fn file_list_is_read() {
    let mut rpc = Rpc::new();
    rpc.get_file_list(true);
    let reply =
        r#"{"jsonrpc":"2.0","result":{"first":true,"last":false,"files":["a/1.ogg","b"]},"id":1}"#;
    assert_eq!(
        rpc.parse(reply),
        Some(Message::Response(Ok(RpcResult::FileList(FileList {
            first: true,
            last: false,
            files: vec!["a/1.ogg".to_string(), "b".to_string()],
        }))))
    );
}

#[test]
fn file_info_is_read_with_and_without_date() {
    let mut rpc = Rpc::new();
    rpc.get_file_info("a/1.ogg".to_string());
    rpc.get_file_info("a/2.ogg".to_string());
    rpc.get_file_info("a/3.ogg".to_string());
    let with_date = r#"{"id":1,"jsonrpc":"2.0","result":{"filename":"a/1.ogg","genre":"g","artist":"a","album":"l","title":"t","date":2001,"track":3,"duration":65535}}"#;
    assert_eq!(
        rpc.parse(with_date),
        Some(Message::Response(Ok(RpcResult::FileInfo(FileInfo {
            filename: "a/1.ogg".to_string(),
            genre: "g".to_string(),
            artist: "a".to_string(),
            album: "l".to_string(),
            title: "t".to_string(),
            date: Some(2001),
            track: 3,
            duration: 65535,
        }))))
    );
    let without = r#"{"id":2,"jsonrpc":"2.0","result":{"filename":"a/2.ogg","genre":"","artist":"","album":"","title":"","track":0,"duration":0}}"#;
    let null_date = r#"{"id":3,"jsonrpc":"2.0","result":{"filename":"a/3.ogg","genre":"","artist":"","album":"","title":"","date":null,"track":0,"duration":0}}"#;
    for (reply, name) in [(without, "a/2.ogg"), (null_date, "a/3.ogg")] {
        assert_eq!(
            rpc.parse(reply),
            Some(Message::Response(Ok(RpcResult::FileInfo(FileInfo {
                filename: name.to_string(),
                genre: String::new(),
                artist: String::new(),
                album: String::new(),
                title: String::new(),
                date: None,
                track: 0,
                duration: 0,
            }))))
        );
    }
}

#[test]
fn error_is_tagged_with_its_request() {
    let mut rpc = Rpc::new();
    rpc.get_version();
    rpc.get_file_list(true);
    rpc.get_file_info("a".to_string());
    let cases = [
        (1, "get-version", ErrReq::Version),
        (2, "get-file-list", ErrReq::FileList),
        (3, "get-file-info", ErrReq::FileInfo),
    ];
    for (id, method, request) in cases {
        let reply =
            format!(r#"{{"jsonrpc":"2.0","error":{{"code":-32601,"message":"nope"}},"id":{}}}"#, id);
        assert_eq!(
            rpc.parse(&reply),
            Some(Message::Response(Err(RpcError {
                request,
                method: method.to_string(),
                code: -32601,
                message: "nope".to_string(),
            })))
        );
    }
    assert_eq!(rpc.pending(), 0);
}

#[test]
fn error_under_unknown_identifier_is_dropped() {
    let mut rpc = Rpc::new();
    rpc.get_version();
    let reply = r#"{"jsonrpc":"2.0","error":{"code":1,"message":"no"},"id":2}"#;
    assert_eq!(rpc.parse(reply), None);
    assert_eq!(rpc.pending(), 1);
}

#[test]
fn error_for_an_unknown_method_is_dropped_and_uses_the_entry_up() {
    let mut rpc = Rpc::new();
    rpc.request("reboot", None);
    let reply = r#"{"jsonrpc":"2.0","error":{"code":1,"message":"no"},"id":1}"#;
    assert_eq!(rpc.parse(reply), None);
    assert_eq!(rpc.pending(), 0);
}

#[test]
fn error_goes_before_result() {
    let mut rpc = Rpc::new();
    rpc.get_version();
    let reply = r#"{"jsonrpc":"2.0","result":{"project":"audio","version":"1.2.3","esp-idf":"v4.4"},"error":{"code":5,"message":"both"},"id":1}"#;
    assert_eq!(
        rpc.parse(reply),
        Some(Message::Response(Err(RpcError {
            request: ErrReq::Version,
            method: "get-version".to_string(),
            code: 5,
            message: "both".to_string(),
        })))
    );
}

#[test]
fn other_protocol_version_is_dropped() {
    let mut rpc = Rpc::new();
    rpc.get_version();
    let reply =
        r#"{"jsonrpc":"1.0","result":{"project":"audio","version":"1.2.3","esp-idf":"v4.4"},"id":1}"#;
    assert_eq!(rpc.parse(reply), None);
    assert_eq!(rpc.pending(), 1);
}

#[test]
fn reply_with_neither_result_nor_error_is_dropped() {
    let mut rpc = Rpc::new();
    rpc.get_version();
    assert_eq!(rpc.parse(r#"{"jsonrpc":"2.0","id":1}"#), None);
    assert_eq!(rpc.parse(r#"{"jsonrpc":"2.0","result":null,"error":null,"id":1}"#), None);
    assert_eq!(rpc.pending(), 1);
}

#[test]
fn malformed_replies_are_dropped() {
    let mut rpc = Rpc::new();
    rpc.get_version();
    let replies = [
        "",
        "not json",
        "[]",
        "42",
        r#"{"jsonrpc":"2.0","result":{"project":"audio","version":"1.2.3","esp-idf":"v4.4"},"id":1"#,
        // A member that the envelope does not name.
        r#"{"jsonrpc":"2.0","result":{"project":"audio","version":"1.2.3","esp-idf":"v4.4"},"id":1,"extra":0}"#,
        // A member that the result does not name.
        r#"{"jsonrpc":"2.0","result":{"project":"audio","version":"1.2.3","esp-idf":"v4.4","more":1},"id":1}"#,
        // A member of the result is missing.
        r#"{"jsonrpc":"2.0","result":{"project":"audio","version":"1.2.3"},"id":1}"#,
        // A member of the wrong type.
        r#"{"jsonrpc":"2.0","result":{"project":"audio","version":123,"esp-idf":"v4.4"},"id":1}"#,
        r#"{"jsonrpc":2.0,"result":{"project":"audio","version":"1.2.3","esp-idf":"v4.4"},"id":1}"#,
        r#"{"result":{"project":"audio","version":"1.2.3","esp-idf":"v4.4"},"id":1}"#,
        // Identifiers that are no 32-bit number.
        r#"{"jsonrpc":"2.0","result":{"project":"audio","version":"1.2.3","esp-idf":"v4.4"},"id":"1"}"#,
        r#"{"jsonrpc":"2.0","result":{"project":"audio","version":"1.2.3","esp-idf":"v4.4"},"id":1.0}"#,
        r#"{"jsonrpc":"2.0","result":{"project":"audio","version":"1.2.3","esp-idf":"v4.4"},"id":-1}"#,
        r#"{"jsonrpc":"2.0","result":{"project":"audio","version":"1.2.3","esp-idf":"v4.4"},"id":4294967296}"#,
        // Errors of the wrong shape.
        r#"{"jsonrpc":"2.0","error":{"code":1,"message":"no","method":"x"},"id":1}"#,
        r#"{"jsonrpc":"2.0","error":{"code":40000,"message":"no"},"id":1}"#,
        r#"{"jsonrpc":"2.0","error":{"code":1},"id":1}"#,
        r#"{"jsonrpc":"2.0","error":"no","id":1}"#,
        // Results of no known shape.
        r#"{"jsonrpc":"2.0","result":{},"id":1}"#,
        r#"{"jsonrpc":"2.0","result":[1,2],"id":1}"#,
        r#"{"jsonrpc":"2.0","result":{"first":true,"last":true,"files":[1]},"id":1}"#,
        r#"{"jsonrpc":"2.0","result":{"filename":"a","genre":"","artist":"","album":"","title":"","track":70000,"duration":0},"id":1}"#,
        r#"{"jsonrpc":"2.0","result":{"filename":"a","genre":"","artist":"","album":"","title":"","date":"x","track":1,"duration":0},"id":1}"#,
    ];
    for reply in replies {
        assert_eq!(rpc.parse(reply), None, "{}", reply);
        assert_eq!(rpc.pending(), 1, "{}", reply);
    }
    assert_eq!(rpc.parse(VERSION_REPLY), Some(Message::Response(Ok(version()))));
}

#[test]
fn envelope_is_decoded() {
    assert_eq!(
        decode(VERSION_REPLY),
        Some(Response {
            jsonrpc: "2.0".to_string(),
            result: Some(version()),
            error: None,
            id: Some(1),
        })
    );
    assert_eq!(
        decode(r#"{"jsonrpc":"x","error":{"code":-32768,"message":"m"}}"#),
        Some(Response {
            jsonrpc: "x".to_string(),
            result: None,
            error: Some(RpcError {
                request: ErrReq::Unknown,
                method: String::new(),
                code: -32768,
                message: "m".to_string(),
            }),
            id: None,
        })
    );
    assert_eq!(decode("{"), None);
}

#[test]
fn envelope_is_decoded_from_a_value() {
    let mut object = serde_json::Map::new();
    object.insert("jsonrpc".to_string(), serde_json::Value::String("2.0".to_string()));
    object.insert("id".to_string(), serde_json::Value::from(9u32));
    let value = serde_json::Value::Object(object);
    assert_eq!(
        decode_response(&value),
        Some(Response { jsonrpc: "2.0".to_string(), result: None, error: None, id: Some(9) })
    );
    assert_eq!(decode_response(&serde_json::Value::Null), None);
}

#[test]
fn dispatch_takes_a_decoded_reply() {
    let mut rpc = Rpc::new();
    rpc.get_version();
    let reply =
        Response { jsonrpc: "2.0".to_string(), result: Some(version()), error: None, id: Some(1) };
    assert_eq!(rpc.dispatch(reply), Some(Message::Response(Ok(version()))));
    assert_eq!(rpc.pending(), 0);
}

#[test]
fn shape_is_checked_against_the_method() {
    assert!(check_type(&version(), "get-version"));
    assert!(!check_type(&version(), "get-file-list"));
    assert!(!check_type(&version(), ""));
    let list = RpcResult::FileList(FileList { first: true, last: true, files: vec![] });
    assert!(check_type(&list, GET_FILE_LIST));
    assert!(!check_type(&list, GET_FILE_INFO));
    assert_eq!(request_kind(GET_VERSION), ErrReq::Version);
    assert_eq!(request_kind("get-file-list"), ErrReq::FileList);
    assert_eq!(request_kind("get-file-info"), ErrReq::FileInfo);
    assert_eq!(request_kind("other"), ErrReq::Unknown);
    assert_eq!(ErrReq::default(), ErrReq::Unknown);
}
