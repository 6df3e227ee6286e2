use wrr_proxy::config::{
    address_from, configure, configure_document, entry_from, EMPTY_SERVERS_VEC,
    INCORRECT_JSON_FORMAT, IPV4_KEY, NO_IPV4_KEY, NO_LISTEN_TO_KEY, NO_PORT_KEY, NO_SERVERS_KEY,
    NO_WEIGHT_KEY, PORT_KEY, SERVERS_KEY, SERVER_SOCADDR_KEY, WEIGHT_KEY,
};
use wrr_proxy::json::Json;
use wrr_proxy::socket_address::{IPV4_ERROR, PORT_NUMBER_ERROR};

const GOOD: &str = r#"{
    "Listen_to": { "ipv4": "127.0.0.1", "port": "8080" },
    "Servers": [
        { "ipv4": "10.0.0.1", "port": "80", "weight": 2 },
        { "ipv4": "10.0.0.2", "port": "81", "weight": 1 },
        { "ipv4": "10.0.0.3", "port": "82", "weight": 0 }
    ]
}"#;

fn error_of(text: &str) -> &'static str {
    match configure(text) {
        Ok(_) => panic!("the configuration was accepted"),
        Err(e) => e,
    }
}

#[test]
fn good_document_gives_listener_and_servers_in_order() {
    let (listen, servers) = configure(GOOD).unwrap();
    assert_eq!(listen.get(), "127.0.0.1:8080");
    assert_eq!(servers.len(), 3);
    assert_eq!(servers[0].0.get(), "10.0.0.1:80");
    assert_eq!(servers[0].1, 2);
    assert_eq!(servers[1].0.get(), "10.0.0.2:81");
    assert_eq!(servers[1].1, 1);
    assert_eq!(servers[2].0.get(), "10.0.0.3:82");
    assert_eq!(servers[2].1, 0);
}

#[test]
fn text_that_is_no_json_is_refused() {
    assert_eq!(error_of("{ \"Listen_to\": "), INCORRECT_JSON_FORMAT);
    assert_eq!(error_of(""), INCORRECT_JSON_FORMAT);
    assert_eq!(INCORRECT_JSON_FORMAT, "The json format isn't correct");
}

#[test]
fn missing_listen_to_is_refused() {
    let text = r#"{ "Servers": [ { "ipv4": "10.0.0.1", "port": "80", "weight": 2 } ] }"#;
    assert_eq!(error_of(text), NO_LISTEN_TO_KEY);
    assert_eq!(NO_LISTEN_TO_KEY, "The is no \"Listen_to\" key in the json");
}

#[test]
fn listen_to_that_is_no_object_is_refused() {
    let text = r#"{ "Listen_to": "127.0.0.1:80", "Servers": [] }"#;
    assert_eq!(error_of(text), NO_LISTEN_TO_KEY);
    assert_eq!(error_of("[1, 2]"), NO_LISTEN_TO_KEY);
    assert_eq!(error_of("null"), NO_LISTEN_TO_KEY);
}

#[test]
fn listener_without_host_is_refused() {
    let text = r#"{ "Listen_to": { "port": "8080" }, "Servers": [] }"#;
    assert_eq!(error_of(text), NO_IPV4_KEY);
    let text = r#"{ "Listen_to": { "ipv4": 127, "port": "8080" }, "Servers": [] }"#;
    assert_eq!(error_of(text), NO_IPV4_KEY);
    assert_eq!(NO_IPV4_KEY, "The is no \"ipv4\" key in the json");
}

#[test]
fn listener_without_port_is_refused() {
    let text = r#"{ "Listen_to": { "ipv4": "127.0.0.1" }, "Servers": [] }"#;
    assert_eq!(error_of(text), NO_PORT_KEY);
    assert_eq!(NO_PORT_KEY, "The is no \"port\" key in the json");
}

#[test]
fn listener_port_that_is_a_number_is_reported_as_host() {
    let text = r#"{ "Listen_to": { "ipv4": "127.0.0.1", "port": 8080 }, "Servers": [] }"#;
    assert_eq!(error_of(text), NO_IPV4_KEY);
}

#[test]
fn listener_with_invalid_address_is_refused() {
    let text = r#"{ "Listen_to": { "ipv4": "127.0.0.256", "port": "8080" }, "Servers": [] }"#;
    assert_eq!(error_of(text), IPV4_ERROR);
    let text = r#"{ "Listen_to": { "ipv4": "127.0.0.1", "port": "80800" }, "Servers": [] }"#;
    assert_eq!(error_of(text), PORT_NUMBER_ERROR);
}

#[test]
fn listener_is_looked_at_before_servers() {
    let text = r#"{ "Listen_to": { "ipv4": "x", "port": "8080" } }"#;
    assert_eq!(error_of(text), IPV4_ERROR);
}

#[test]
fn missing_servers_is_refused() {
    let text = r#"{ "Listen_to": { "ipv4": "127.0.0.1", "port": "8080" } }"#;
    assert_eq!(error_of(text), NO_SERVERS_KEY);
    let text = r#"{ "Listen_to": { "ipv4": "127.0.0.1", "port": "8080" }, "Servers": {} }"#;
    assert_eq!(error_of(text), NO_SERVERS_KEY);
    assert_eq!(NO_SERVERS_KEY, "The is no \"Servers\" key in the json");
}

#[test]
fn empty_servers_is_refused() {
    let text = r#"{ "Listen_to": { "ipv4": "127.0.0.1", "port": "8080" }, "Servers": [] }"#;
    assert_eq!(error_of(text), EMPTY_SERVERS_VEC);
    assert_eq!(EMPTY_SERVERS_VEC, "Empty Servers key");
}

fn with_servers(servers: &str) -> String {
    format!(
        "{{ \"Listen_to\": {{ \"ipv4\": \"127.0.0.1\", \"port\": \"8080\" }}, \"Servers\": {} }}",
        servers
    )
}

#[test]
fn server_without_host_port_or_weight_is_refused() {
    assert_eq!(error_of(&with_servers(r#"[ { "port": "80", "weight": 1 } ]"#)), NO_IPV4_KEY);
    assert_eq!(error_of(&with_servers(r#"[ { "ipv4": "1.1.1.1", "weight": 1 } ]"#)), NO_PORT_KEY);
    assert_eq!(
        error_of(&with_servers(r#"[ { "ipv4": "1.1.1.1", "port": 80, "weight": 1 } ]"#)),
        NO_PORT_KEY
    );
    assert_eq!(
        error_of(&with_servers(r#"[ { "ipv4": "1.1.1.1", "port": "80" } ]"#)),
        NO_WEIGHT_KEY
    );
    assert_eq!(NO_WEIGHT_KEY, "The is no \"weight\" key in the json");
    assert_eq!(error_of(&with_servers("[ 7 ]")), NO_IPV4_KEY);
}

#[test]
fn weight_has_to_be_a_whole_number_that_is_not_negative() {
    let one = r#"[ { "ipv4": "1.1.1.1", "port": "80", "weight": -1 } ]"#;
    assert_eq!(error_of(&with_servers(one)), NO_WEIGHT_KEY);
    let two = r#"[ { "ipv4": "1.1.1.1", "port": "80", "weight": 1.5 } ]"#;
    assert_eq!(error_of(&with_servers(two)), NO_WEIGHT_KEY);
    let three = r#"[ { "ipv4": "1.1.1.1", "port": "80", "weight": "1" } ]"#;
    assert_eq!(error_of(&with_servers(three)), NO_WEIGHT_KEY);
}

#[test]
fn invalid_address_is_reported_before_missing_weight() {
    let text = with_servers(r#"[ { "ipv4": "1.1.1", "port": "80" } ]"#);
    assert_eq!(error_of(&text), IPV4_ERROR);
    let text = with_servers(r#"[ { "ipv4": "1.1.1.1", "port": "-80" } ]"#);
    assert_eq!(error_of(&text), PORT_NUMBER_ERROR);
}

#[test]
fn first_bad_server_decides_the_error() {
    let text = with_servers(
        r#"[ { "ipv4": "1.1.1.1", "port": "80", "weight": 1 },
             { "ipv4": "1.1.1.2", "port": "80" },
             { "port": "80", "weight": 1 } ]"#,
    );
    assert_eq!(error_of(&text), NO_WEIGHT_KEY);
}

#[test]
fn address_from_reports_lookups_in_order() {
    assert_eq!(address_from(Err("a"), Err("b")).unwrap_err(), "a");
    assert_eq!(address_from(Ok("1.1.1.1"), Err("b")).unwrap_err(), "b");
    assert_eq!(address_from(Ok("1.1.1"), Err("b")).unwrap_err(), "b");
    assert_eq!(address_from(Ok("1.1.1"), Ok("80")).unwrap_err(), IPV4_ERROR);
    assert_eq!(address_from(Ok("1.1.1.1"), Ok("x")).unwrap_err(), PORT_NUMBER_ERROR);
    assert_eq!(address_from(Ok("1.1.1.1"), Ok("80")).unwrap().get(), "1.1.1.1:80");
}

#[test]
fn entry_from_keeps_the_weight() {
    let (address, weight) = entry_from(Ok("1.1.1.1"), Ok("80"), Some(7)).unwrap();
    assert_eq!(address.get(), "1.1.1.1:80");
    assert_eq!(weight, 7);
    assert_eq!(entry_from(Ok("1.1.1.1"), Ok("80"), None).unwrap_err(), NO_WEIGHT_KEY);
    assert_eq!(entry_from(Err("a"), Ok("80"), None).unwrap_err(), "a");
}

fn text(t: &str) -> Json {
    Json::Text(String::from(t))
}

fn object(members: Vec<(&str, Json)>) -> Json {
    Json::Object(members.into_iter().map(|(k, v)| (String::from(k), v)).collect())
}

fn server(ipv4: &str, port: &str, weight: u64) -> Json {
    object(vec![
        ("ipv4", text(ipv4)),
        ("port", text(port)),
        ("weight", Json::Number(Some(weight))),
    ])
}

fn document(listen_to: Json, servers: Json) -> Json {
    object(vec![("Listen_to", listen_to), ("Servers", servers)])
}

fn listen() -> Json {
    object(vec![("ipv4", text("127.0.0.1")), ("port", text("8080"))])
}

fn document_error(d: &Json) -> &'static str {
    match configure_document(d) {
        Ok(_) => panic!("the document was accepted"),
        Err(e) => e,
    }
}

#[test]
fn key_texts() {
    assert_eq!(SERVERS_KEY, "Servers");
    assert_eq!(SERVER_SOCADDR_KEY, "Listen_to");
    assert_eq!(IPV4_KEY, "ipv4");
    assert_eq!(PORT_KEY, "port");
    assert_eq!(WEIGHT_KEY, "weight");
}

#[test]
fn document_of_plain_data_is_read() {
    let d = document(
        listen(),
        Json::Array(vec![server("10.0.0.1", "80", 2), server("10.0.0.2", "81", 7)]),
    );
    let (listener, servers) = configure_document(&d).unwrap();
    assert_eq!(listener.get(), "127.0.0.1:8080");
    assert_eq!(servers.len(), 2);
    assert_eq!(servers[0].0.get(), "10.0.0.1:80");
    assert_eq!(servers[0].1, 2);
    assert_eq!(servers[1].0.get(), "10.0.0.2:81");
    assert_eq!(servers[1].1, 7);
}

#[test]
fn document_that_is_no_object_has_no_listener() {
    assert_eq!(document_error(&Json::Null), NO_LISTEN_TO_KEY);
    assert_eq!(document_error(&Json::Bool(true)), NO_LISTEN_TO_KEY);
    assert_eq!(document_error(&Json::Array(vec![])), NO_LISTEN_TO_KEY);
    assert_eq!(document_error(&text("Listen_to")), NO_LISTEN_TO_KEY);
    assert_eq!(document_error(&object(vec![])), NO_LISTEN_TO_KEY);
}

#[test]
fn listener_of_plain_data_is_checked_in_order() {
    let servers = || Json::Array(vec![server("10.0.0.1", "80", 2)]);
    let d = document(text("x"), servers());
    assert_eq!(document_error(&d), NO_LISTEN_TO_KEY);
    let d = document(object(vec![("port", Json::Null)]), servers());
    assert_eq!(document_error(&d), NO_IPV4_KEY);
    let d = document(object(vec![("ipv4", Json::Number(Some(1)))]), servers());
    assert_eq!(document_error(&d), NO_IPV4_KEY);
    let d = document(object(vec![("ipv4", text("1.1.1"))]), servers());
    assert_eq!(document_error(&d), NO_PORT_KEY);
    let d = document(object(vec![("ipv4", text("1.1.1")), ("port", Json::Null)]), servers());
    assert_eq!(document_error(&d), NO_IPV4_KEY);
    let d = document(object(vec![("ipv4", text("1.1.1")), ("port", text("80"))]), servers());
    assert_eq!(document_error(&d), IPV4_ERROR);
    let d = document(object(vec![("ipv4", text("1.1.1.1")), ("port", text("x"))]), servers());
    assert_eq!(document_error(&d), PORT_NUMBER_ERROR);
}

#[test]
fn servers_of_plain_data_are_checked_in_order() {
    assert_eq!(document_error(&object(vec![("Listen_to", listen())])), NO_SERVERS_KEY);
    assert_eq!(document_error(&document(listen(), object(vec![]))), NO_SERVERS_KEY);
    assert_eq!(document_error(&document(listen(), Json::Array(vec![]))), EMPTY_SERVERS_VEC);
    let d = document(listen(), Json::Array(vec![server("10.0.0.1", "80", 2), Json::Null]));
    assert_eq!(document_error(&d), NO_IPV4_KEY);
    let unweighted = object(vec![("ipv4", text("1.1.1.1")), ("port", text("80"))]);
    let d = document(listen(), Json::Array(vec![unweighted, Json::Null]));
    assert_eq!(document_error(&d), NO_WEIGHT_KEY);
    let no_number = object(vec![
        ("ipv4", text("1.1.1.1")),
        ("port", text("80")),
        ("weight", Json::Number(None)),
    ]);
    let d = document(listen(), Json::Array(vec![no_number]));
    assert_eq!(document_error(&d), NO_WEIGHT_KEY);
}

#[test]
fn first_member_with_a_key_counts() {
    let o = object(vec![("port", text("1")), ("ipv4", text("a")), ("port", text("2"))]);
    assert_eq!(o.get("port").unwrap().as_str(), Some("1"));
    assert_eq!(o.get("ipv4").unwrap().as_str(), Some("a"));
    assert!(o.get("weight").is_none());
    assert!(o.get("").is_none());
    assert!(text("port").get("port").is_none());
}

#[test]
fn plain_data_tells_its_kind() {
    assert!(object(vec![]).is_object());
    assert!(!Json::Array(vec![]).is_object());
    assert_eq!(text("x").as_str(), Some("x"));
    assert_eq!(Json::Null.as_str(), None);
    assert_eq!(Json::Number(Some(7)).as_u64(), Some(7));
    assert_eq!(Json::Number(None).as_u64(), None);
    assert_eq!(text("7").as_u64(), None);
    assert_eq!(Json::Array(vec![Json::Null, Json::Bool(false)]).as_array().unwrap().len(), 2);
    assert!(object(vec![]).as_array().is_none());
}

#[test]
fn text_with_a_last_member_of_the_same_key() {
    // of two members with one key the parser keeps the last
    let t = r#"{ "Listen_to": { "ipv4": "1.1.1.1", "port": "1", "port": "2" },
                 "Servers": [ { "ipv4": "10.0.0.1", "port": "80", "weight": 2 } ] }"#;
    let (listener, _) = configure(t).unwrap();
    assert_eq!(listener.get(), "1.1.1.1:2");
}

#[test]
fn weight_that_no_u64_holds_is_no_weight() {
    let big = r#"[ { "ipv4": "1.1.1.1", "port": "80", "weight": 18446744073709551616 } ]"#;
    assert_eq!(error_of(&with_servers(big)), NO_WEIGHT_KEY);
    let most = r#"[ { "ipv4": "1.1.1.1", "port": "80", "weight": 4294967295 } ]"#;
    let (_, servers) = configure(&with_servers(most)).unwrap();
    assert_eq!(servers[0].1, 4294967295);
}

#[test]
fn deep_document_is_read() {
    let t = r#"{ "Listen_to": { "ipv4": "127.0.0.1", "port": "8080", "more": [[[{"a": [1, 2.5, -3, null, true]}]]] },
                 "Servers": [ { "ipv4": "10.0.0.1", "port": "80", "weight": 2, "note": {"x": "y"} } ] }"#;
    let (listener, servers) = configure(t).unwrap();
    assert_eq!(listener.get(), "127.0.0.1:8080");
    assert_eq!(servers.len(), 1);
}
