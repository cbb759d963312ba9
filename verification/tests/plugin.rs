use thucra::setup::{generation_outcome, store_step, AppPaths, StoreStep};
use thucra::vnpt::plugin::check as plugin_check;
use thucra::vnpt::plugin::license::check;
use thucra::vnpt::plugin::{session_step, PluginCommands, SessionStep};
use thucra::vnpt::schema::client_request::ClientRequest;
use thucra::vnpt::schema::json::{decimal_string, json_string};
use thucra::vnpt::schema::server_response::ServerJsonResponse;
use thucra::vnpt::service::{PortScan, ServeOutcome, StartAction};
use thucra::vnpt::AppState;

fn request(function_id: i32, args: &[&str], callback: &str) -> ClientRequest {
    ClientRequest {
        args: args.iter().map(|a| a.to_string()).collect(),
        domain: "https://example.vn".to_string(),
        function_callback: callback.to_string(),
        function_id,
    }
}

#[test]
fn license_check_without_arguments_finds_no_license() {
    let reply = check::invoke(&request(6, &[], "cb"));
    assert_eq!(reply.code(), -1);
    assert_eq!(reply.data(), "");
    assert_eq!(reply.description(), "License not found");
}

#[test]
fn license_check_with_empty_first_argument_finds_no_license() {
    let reply = check::invoke(&request(6, &["", "key"], "cb"));
    assert_eq!(reply.code(), -1);
    assert_eq!(reply.description(), "License not found");
}

#[test]
fn license_check_with_license_sets_it() {
    let reply = check::invoke(&request(6, &["LICENSE-KEY"], "cb"));
    assert_eq!(reply.code(), 1);
    assert_eq!(reply.data(), "");
    assert_eq!(reply.description(), "Set license successfully");
}

#[test]
fn invoke_license_check_answers_the_callback() {
    let commands = PluginCommands {};
    let message = commands.invoke(request(6, &[], "onLicense")).unwrap();
    assert_eq!(
        message,
        "{\"code\":-1,\"data\":\"\",\"error\":\"License not found\"}*onLicense"
    );
    let message = commands.invoke(request(6, &["abc"], "f")).unwrap();
    assert_eq!(
        message,
        "{\"code\":1,\"data\":\"\",\"error\":\"Set license successfully\"}*f"
    );
}

#[test]
fn invoke_plugin_check_answers_that_the_plugin_runs() {
    let commands = PluginCommands {};
    let message = commands.invoke(request(7, &[], "ready")).unwrap();
    assert_eq!(message, "{\"code\":1,\"data\":\"\",\"error\":\"\"}*ready");
}

#[test]
fn plugin_check_reply_has_code_one_and_nothing_else() {
    let reply = plugin_check::invoke();
    assert_eq!(reply.code(), 1);
    assert_eq!(reply.data(), "");
    assert_eq!(reply.description(), "");
}

#[test]
fn session_sends_answers_and_closes_on_refusal() {
    match session_step(Ok("m*cb".to_string())) {
        SessionStep::Send(m) => assert_eq!(m, "m*cb"),
        SessionStep::Close => panic!("a reply must be sent"),
    }
    assert!(matches!(session_step(Err(())), SessionStep::Close));
    let commands = PluginCommands {};
    assert!(matches!(session_step(commands.invoke(request(9, &[], "cb"))), SessionStep::Close));
}

#[test]
fn invoke_refuses_other_functions() {
    let commands = PluginCommands {};
    assert_eq!(commands.invoke(request(5, &[], "cb")), Err(()));
    assert_eq!(commands.invoke(request(8, &["x"], "cb")), Err(()));
    assert_eq!(commands.invoke(request(-1, &[], "cb")), Err(()));
}

#[test]
fn compose_message_puts_a_star_before_the_callback() {
    let commands = PluginCommands {};
    let message = commands.compose_message("[1,2]", request(6, &[], "a*b"));
    assert_eq!(message, "[1,2]*a*b");
    let message = commands.compose_message("", request(6, &[], ""));
    assert_eq!(message, "*");
}

#[test]
fn app_state_holds_the_plugin() {
    let state = AppState { plugin: PluginCommands {} };
    let message = state.plugin.invoke(request(7, &[], "c")).unwrap();
    assert_eq!(message, "{\"code\":1,\"data\":\"\",\"error\":\"\"}*c");
}

#[test]
fn new_response_encodes_its_data_in_base64() {
    let reply = ServerJsonResponse::new(1, b"hello", "ok".to_string());
    assert_eq!(reply.data(), "aGVsbG8=");
    let reply = ServerJsonResponse::new(0, b"hell", String::new());
    assert_eq!(reply.data(), "aGVsbA==");
    let reply = ServerJsonResponse::new(0, b"hel", String::new());
    assert_eq!(reply.data(), "aGVs");
    let reply = ServerJsonResponse::new(0, &[0xfb, 0xff], String::new());
    assert_eq!(reply.data(), "+/8=");
    assert_eq!(reply.data().len(), 4);
}

#[test]
fn response_json_lists_code_data_and_error() {
    let reply = ServerJsonResponse::new(200, b"hi", "done".to_string());
    assert_eq!(reply.to_value(), "{\"code\":200,\"data\":\"aGk=\",\"error\":\"done\"}");
    let reply = ServerJsonResponse::new(i32::MIN, b"", "a \"quoted\"\nline".to_string());
    assert_eq!(
        reply.to_value(),
        "{\"code\":-2147483648,\"data\":\"\",\"error\":\"a \\\"quoted\\\"\\nline\"}"
    );
}

#[test]
fn response_json_reads_back_with_serde_json() {
    let reply = ServerJsonResponse::new(-7, b"\x00\xff data", "tab\there \u{1} \"q\" \\".to_string());
    let value: serde_json::Value = serde_json::from_str(&reply.to_value()).unwrap();
    assert_eq!(value["code"], -7);
    assert_eq!(value["data"], reply.data());
    assert_eq!(value["error"], reply.description());
}

#[test]
fn response_from_encoded_keeps_its_parts() {
    let reply = ServerJsonResponse::from_encoded(-1, "AA==".to_string(), "x".to_string());
    assert_eq!(reply.code(), -1);
    assert_eq!(reply.data(), "AA==");
    assert_eq!(reply.description(), "x");
}

#[test]
fn decimal_string_writes_json_integers() {
    assert_eq!(decimal_string(0), "0");
    assert_eq!(decimal_string(7), "7");
    assert_eq!(decimal_string(-1), "-1");
    assert_eq!(decimal_string(120), "120");
    assert_eq!(decimal_string(i32::MAX), "2147483647");
    assert_eq!(decimal_string(i32::MIN), "-2147483648");
}

#[test]
fn json_string_quotes_and_escapes() {
    assert_eq!(json_string("abc"), "\"abc\"");
    assert_eq!(json_string(""), "\"\"");
    assert_eq!(json_string("a\"b\\c"), "\"a\\\"b\\\\c\"");
    assert_eq!(json_string("\t\u{1}"), "\"\\t\\u0001\"");
    assert_eq!(json_string("Thực ra"), "\"Thực ra\"");
    assert_eq!(json_string("\u{8}\u{c}\n\r\u{1f}/"), "\"\\b\\f\\n\\r\\u001f/\"");
    assert_eq!(json_string("\u{7f}"), "\"\u{7f}\"");
}

#[test]
fn port_scan_tries_each_port_in_turn() {
    let (mut scan, action) = PortScan::new(4433, 4436);
    assert_eq!(action, StartAction::Serve(4433));
    assert_eq!(scan.on_outcome(ServeOutcome::Failed), StartAction::Serve(4434));
    assert_eq!(scan.on_outcome(ServeOutcome::Failed), StartAction::Serve(4435));
    assert_eq!(scan.on_outcome(ServeOutcome::Failed), StartAction::Exhausted);
}

#[test]
fn port_scan_ends_when_the_server_stops() {
    let (mut scan, action) = PortScan::new(8000, 8010);
    assert_eq!(action, StartAction::Serve(8000));
    assert_eq!(scan.on_outcome(ServeOutcome::Failed), StartAction::Serve(8001));
    assert_eq!(scan.on_outcome(ServeOutcome::Stopped), StartAction::Stopped);
}

#[test]
fn port_scan_over_an_empty_range_is_exhausted() {
    let (_, action) = PortScan::new(5000, 5000);
    assert_eq!(action, StartAction::Exhausted);
    let (_, action) = PortScan::new(65535, 1);
    assert_eq!(action, StartAction::Exhausted);
    let (mut scan, action) = PortScan::new(65534, 65535);
    assert_eq!(action, StartAction::Serve(65534));
    assert_eq!(scan.on_outcome(ServeOutcome::Failed), StartAction::Exhausted);
}

#[test]
fn app_paths_lie_under_the_home_folder() {
    let paths = AppPaths::from_home("/home/an");
    assert_eq!(paths.app_folder, "/home/an/.local/share/com.kemolumi.thucra");
    assert_eq!(paths.log_dir, "/home/an/.local/share/com.kemolumi.thucra/logs");
    assert_eq!(paths.certs_dir, "/home/an/.local/share/com.kemolumi.thucra/certs");
    assert_eq!(paths.key_file, "/home/an/.local/share/com.kemolumi.thucra/certs/key.pem");
    assert_eq!(paths.cert_file, "/home/an/.local/share/com.kemolumi.thucra/certs/cert.pem");
}

#[test]
fn openssl_args_make_a_localhost_certificate() {
    let paths = AppPaths::from_home("/h");
    let args = paths.openssl_args();
    let expected = [
        "req",
        "-x509",
        "-newkey",
        "rsa:4096",
        "-sha256",
        "-days",
        "3650",
        "-nodes",
        "-keyout",
        "/h/.local/share/com.kemolumi.thucra/certs/key.pem",
        "-out",
        "/h/.local/share/com.kemolumi.thucra/certs/cert.pem",
        "-subj",
        "/CN=localhost",
        "-addext",
        "subjectAltName=DNS:localhost,IP:127.0.0.1",
    ];
    assert_eq!(args, expected);
}

#[test]
fn store_is_used_only_when_both_files_exist() {
    assert_eq!(store_step(true, true), StoreStep::Ready);
    assert_eq!(store_step(true, false), StoreStep::Generate);
    assert_eq!(store_step(false, true), StoreStep::Generate);
    assert_eq!(store_step(false, false), StoreStep::Generate);
}

#[test]
fn generation_succeeds_only_on_a_successful_exit() {
    assert_eq!(generation_outcome(Some(true)), Ok(()));
    assert_eq!(generation_outcome(Some(false)), Err(()));
    assert_eq!(generation_outcome(None), Err(()));
}
