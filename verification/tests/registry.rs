use bridge_ls::config::Builtin;
use bridge_ls::config::Config;
use bridge_ls::config::Custom;
use bridge_ls::config::FormatterConfig;

fn def(command: &str, args: &[&str], filetypes: &[&str], to_stdin: bool) -> FormatterConfig {
    FormatterConfig {
        command: command.to_string(),
        args: args.iter().map(|a| a.to_string()).collect(),
        filetypes: filetypes.iter().map(|f| f.to_string()).collect(),
        to_stdin,
        cleanup: None,
    }
}

fn catalog() -> Vec<(String, FormatterConfig)> {
    vec![
        (
            "prettierd".to_string(),
            def("prettierd", &["$filename"], &["js", "ts", "json"], true),
        ),
        ("rustfmt".to_string(), def("rustfmt", &["--emit=stdout"], &["rs"], true)),
    ]
}

#[test]
fn resolves_custom_definition_by_extension() {
    let config = Config::new(
        Builtin { formatters: vec![] },
        Custom {
            formatters: vec![("stylua".to_string(), def("stylua", &["-"], &["lua"], true))],
        },
    );
    let found = config.get_formatter("lua").expect("lua should resolve");
    assert_eq!(found.command, "stylua");
    assert!(found.filetypes.iter().any(|e| e == "lua"));
}

#[test]
fn unregistered_extension_resolves_to_none() {
    let config = Config::new(
        Builtin { formatters: vec![] },
        Custom {
            formatters: vec![("stylua".to_string(), def("stylua", &["-"], &["lua"], true))],
        },
    );
    assert!(config.get_formatter("zig").is_none());
}

#[test]
fn opted_in_builtin_resolves() {
    let config = Config::new(
        Builtin { formatters: vec!["prettierd".to_string()] },
        Custom { formatters: vec![] },
    )
    .register_builtins(catalog())
    .expect("registration should succeed");
    let found = config.get_formatter("json").expect("json should resolve");
    assert_eq!(found.command, "prettierd");
}

#[test]
fn builtin_not_opted_in_never_resolves() {
    // the catalog knows rustfmt, but the deployment did not opt into it
    let config = Config::new(
        Builtin { formatters: vec!["prettierd".to_string()] },
        Custom { formatters: vec![] },
    )
    .register_builtins(catalog())
    .expect("registration should succeed");
    assert!(config.get_formatter("rs").is_none());
}

#[test]
fn builtins_resolve_before_customs() {
    // both claim "js": the opted-in builtin wins
    let config = Config::new(
        Builtin { formatters: vec!["prettierd".to_string()] },
        Custom {
            formatters: vec![("deno".to_string(), def("deno", &["fmt", "-"], &["js"], true))],
        },
    )
    .register_builtins(catalog())
    .expect("registration should succeed");
    let found = config.get_formatter("js").expect("js should resolve");
    assert_eq!(found.command, "prettierd");
}

#[test]
fn register_builtins_appends_to_existing_entries() {
    let config = Config {
        builtins: Builtin { formatters: vec!["rustfmt".to_string()] },
        customs: Custom { formatters: vec![] },
        builtin_formatters: vec![(
            "gofmt".to_string(),
            def("gofmt", &[], &["go"], true),
        )],
    };
    let config = config.register_builtins(catalog()).expect("registration should succeed");
    // the entry registered earlier still resolves, and the new one follows it
    assert_eq!(config.get_formatter("go").expect("go should resolve").command, "gofmt");
    assert_eq!(config.get_formatter("rs").expect("rs should resolve").command, "rustfmt");
}

#[test]
fn unknown_builtin_name_is_fatal() {
    let err = Config::new(
        Builtin { formatters: vec!["prettierd".to_string(), "mysteryfmt".to_string()] },
        Custom { formatters: vec![] },
    )
    .register_builtins(catalog())
    .err()
    .expect("an unknown built-in name must fail registration");
    assert_eq!(err.name, "mysteryfmt");
    assert_eq!(err.message(), "unknown built-in formatter: mysteryfmt");
}
