use bridge_ls::config::Builtin;
use bridge_ls::config::Config;
use bridge_ls::config::Custom;
use bridge_ls::config::FormatterConfig;
use bridge_ls::format::finish_format;
use bridge_ls::format::FormatError;
use bridge_ls::format::FormatResponse;
use bridge_ls::server::BridgeServer;
use bridge_ls::server::FormatPlan;

fn lua_server() -> BridgeServer {
    let config = Config::new(
        Builtin { formatters: vec![] },
        Custom {
            formatters: vec![(
                "stylua".to_string(),
                FormatterConfig {
                    command: "stylua".to_string(),
                    args: vec!["--stdin-filepath".to_string(), "$filepath".to_string()],
                    filetypes: vec!["lua".to_string()],
                    to_stdin: true,
                    cleanup: None,
                },
            )],
        },
    );
    let mut server = BridgeServer::new(config);
    assert!(server.initialize(Some("0.1.0".to_string())).is_some());
    assert_eq!(server.initialized(), Some("Server initialized".to_string()));
    server
}

#[test]
fn initialize_declares_capabilities_once() {
    let config = Config::new(Builtin { formatters: vec![] }, Custom { formatters: vec![] });
    let mut server = BridgeServer::new(config);
    let outcome = server.initialize(None).expect("first initialize must answer");
    assert!(outcome.full_document_sync);
    assert!(outcome.formatting_provider);
    assert_eq!(outcome.server_name, "bridge_ls");
    assert!(server.initialize(None).is_none());
}

#[test]
fn sync_events_are_ignored_before_initialized() {
    let config = Config::new(Builtin { formatters: vec![] }, Custom { formatters: vec![] });
    let mut server = BridgeServer::new(config);
    assert!(server.did_open("file:///tmp/a.lua", "x".to_string()).is_none());
    assert!(matches!(server.formatting("file:///tmp/a.lua", "/tmp/a.lua"), FormatPlan::NoEdit));
}

#[test]
fn formatting_round_trip_with_identity_tool() {
    let mut server = lua_server();
    let text = "local x = 1\nprint(x)\n";
    let log = server.did_open("file:///tmp/a.lua", text.to_string());
    assert_eq!(log, Some("File opened: file:///tmp/a.lua".to_string()));

    let job = match server.formatting("file:///tmp/a.lua", "/tmp/a.lua") {
        FormatPlan::Run(job) => job,
        FormatPlan::NoEdit => panic!("a stored lua document must resolve to a plan"),
    };
    assert_eq!(job.command, "stylua");
    assert_eq!(job.args, vec!["--stdin-filepath", "/tmp/a.lua"]);
    assert!(job.to_stdin);
    assert_eq!(job.text, text);
    assert_eq!(job.end_line, 2);

    // an identity tool echoes exactly the bytes it was handed
    let echoed = job.text.as_bytes().to_vec();
    match finish_format(job.end_line, Ok(echoed)) {
        FormatResponse::Edit(edit) => {
            assert_eq!(edit.new_text, text);
            assert_eq!(edit.range.start.line, 0);
            assert_eq!(edit.range.start.character, 0);
            assert_eq!(edit.range.end.line, 2);
            assert_eq!(edit.range.end.character, 0);
        }
        FormatResponse::Failed(msg) => panic!("identity output must decode: {msg}"),
    }
}

#[test]
fn formatting_reflects_the_latest_update() {
    let mut server = lua_server();
    server.did_open("file:///tmp/a.lua", "old".to_string());
    server.did_change("file:///tmp/a.lua", &vec!["new text".to_string()]);
    match server.formatting("file:///tmp/a.lua", "/tmp/a.lua") {
        FormatPlan::Run(job) => assert_eq!(job.text, "new text"),
        FormatPlan::NoEdit => panic!("a stored lua document must resolve to a plan"),
    }
}

#[test]
fn no_edit_for_unknown_document_or_unmatched_extension() {
    let mut server = lua_server();
    // no stored text for this identity
    assert!(matches!(server.formatting("file:///tmp/a.lua", "/tmp/a.lua"), FormatPlan::NoEdit));
    // stored text, but the extension matches no definition
    server.did_open("file:///tmp/b.rs", "fn main() {}".to_string());
    assert!(matches!(server.formatting("file:///tmp/b.rs", "/tmp/b.rs"), FormatPlan::NoEdit));
    // stored text, but the path has no extension
    server.did_open("file:///tmp/script", "x".to_string());
    assert!(matches!(server.formatting("file:///tmp/script", "/tmp/script"), FormatPlan::NoEdit));
    // closed documents no longer format
    server.did_open("file:///tmp/c.lua", "x".to_string());
    server.did_close("file:///tmp/c.lua");
    assert!(matches!(server.formatting("file:///tmp/c.lua", "/tmp/c.lua"), FormatPlan::NoEdit));
}

#[test]
fn launch_failure_is_isolated_from_later_requests() {
    let mut server = lua_server();
    server.did_open("file:///tmp/a.lua", "print(1)\n".to_string());
    let job = match server.formatting("file:///tmp/a.lua", "/tmp/a.lua") {
        FormatPlan::Run(job) => job,
        FormatPlan::NoEdit => panic!("a stored lua document must resolve to a plan"),
    };
    // the runner could not launch the configured command
    let response = finish_format(
        job.end_line,
        Err(FormatError::Launch("No such file or directory".to_string())),
    );
    match response {
        FormatResponse::Failed(msg) => {
            assert_eq!(msg, "cannot launch formatter: No such file or directory");
        }
        FormatResponse::Edit(_) => panic!("a launch failure must not yield an edit"),
    }
    // an unrelated, valid request still succeeds afterwards
    server.did_open("file:///tmp/b.lua", "print(2)\n".to_string());
    let job = match server.formatting("file:///tmp/b.lua", "/tmp/b.lua") {
        FormatPlan::Run(job) => job,
        FormatPlan::NoEdit => panic!("the second request must still resolve"),
    };
    match finish_format(job.end_line, Ok(job.text.as_bytes().to_vec())) {
        FormatResponse::Edit(edit) => assert_eq!(edit.new_text, "print(2)\n"),
        FormatResponse::Failed(msg) => panic!("the second request must succeed: {msg}"),
    }
}

#[test]
fn undecodable_output_is_a_decode_failure() {
    match finish_format(1, Ok(vec![0xff, 0xfe, 0xfd])) {
        FormatResponse::Failed(msg) => assert_eq!(msg, "formatter output is not valid text"),
        FormatResponse::Edit(_) => panic!("invalid bytes must not yield an edit"),
    }
}

#[test]
fn multibyte_output_decodes_to_its_characters() {
    // é is two bytes; the decoded edit must hold the character, not the bytes
    match finish_format(1, Ok("caf\u{e9}\n".as_bytes().to_vec())) {
        FormatResponse::Edit(edit) => assert_eq!(edit.new_text, "caf\u{e9}\n"),
        FormatResponse::Failed(msg) => panic!("valid text must decode: {msg}"),
    }
}

#[test]
fn scratch_io_failure_maps_to_its_message() {
    match finish_format(0, Err(FormatError::Io("permission denied".to_string()))) {
        FormatResponse::Failed(msg) => {
            assert_eq!(msg, "formatter scratch storage failure: permission denied");
        }
        FormatResponse::Edit(_) => panic!("an io failure must not yield an edit"),
    }
}

#[test]
fn shutdown_stops_document_mutation() {
    let mut server = lua_server();
    server.did_open("file:///tmp/a.lua", "x".to_string());
    server.shutdown();
    assert!(server.did_open("file:///tmp/b.lua", "y".to_string()).is_none());
    assert!(matches!(server.formatting("file:///tmp/a.lua", "/tmp/a.lua"), FormatPlan::NoEdit));
}
