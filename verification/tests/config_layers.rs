use sstatic::config::{Config, ConfigBuilder, EnvSettings, MainArgs};

fn empty_builder() -> ConfigBuilder {
    ConfigBuilder {
        html: None,
        css: None,
        js: None,
        unsafe_inline: None,
        host: None,
        port: None,
        static_path: None,
        static_content: None,
        mime_types: None,
    }
}

fn empty_args() -> MainArgs {
    MainArgs {
        html: None,
        css: None,
        js: None,
        unsafe_inline: false,
        host: None,
        port: None,
        static_path: None,
        static_content: None,
        mime_types: None,
    }
}

fn empty_env() -> EnvSettings {
    EnvSettings {
        html: None,
        css: None,
        js: None,
        unsafe_inline: None,
        host: None,
        port: None,
        static_path: None,
        static_content: None,
        mime_types: None,
    }
}

#[test]
fn defaults_build_a_complete_config() {
    let config = ConfigBuilder::default().build().expect("defaults are complete");
    assert_eq!(config.html, "index.html");
    assert_eq!(config.css, None);
    assert_eq!(config.js, None);
    assert!(!config.unsafe_inline);
    assert_eq!(config.host, "0.0.0.0");
    assert_eq!(config.port, 3333);
    assert_eq!(config.static_path, None);
    assert_eq!(config.static_content, "static");
    assert_eq!(config.mime_types, "/etc/mime.types");
}

#[test]
fn cli_overrides_every_other_layer() {
    let mut env = empty_env();
    env.host = Some(String::from("127.0.0.1"));
    env.port = Some(String::from("8080"));
    let mut file_layer = empty_builder();
    file_layer.host = Some(String::from("10.0.0.1"));
    file_layer.html = Some(String::from("file.html"));
    let mut args = empty_args();
    args.host = Some(String::from("192.168.0.1"));
    args.port = Some(9000);

    let config = ConfigBuilder::default()
        .or_from_env(env)
        .or_rather(file_layer)
        .or_from_cmd(args)
        .build()
        .expect("complete");
    assert_eq!(config.host, "192.168.0.1");
    assert_eq!(config.port, 9000);
    assert_eq!(config.html, "file.html");
}

#[test]
fn file_layer_overrides_env_and_defaults() {
    let mut env = empty_env();
    env.html = Some(String::from("env.html"));
    let mut file_layer = empty_builder();
    file_layer.html = Some(String::from("file.html"));
    let config = ConfigBuilder::default()
        .or_from_env(env)
        .or_rather(file_layer)
        .or_from_cmd(empty_args())
        .build()
        .expect("complete");
    assert_eq!(config.html, "file.html");
}

#[test]
fn env_presence_sets_unsafe_inline() {
    let mut env = empty_env();
    env.unsafe_inline = Some(String::new());
    let config = ConfigBuilder::default().or_from_env(env).build().expect("complete");
    assert!(config.unsafe_inline);
}

#[test]
fn cmd_switch_sets_unsafe_inline() {
    let mut args = empty_args();
    args.unsafe_inline = true;
    let config = ConfigBuilder::default().or_from_cmd(args).build().expect("complete");
    assert!(config.unsafe_inline);
}

#[test]
fn missing_required_field_fails_build() {
    let mut layer = empty_builder();
    layer.css = Some(String::from("style.css"));
    assert!(layer.build().is_err());
}

#[test]
fn invalid_env_port_falls_back_to_default() {
    let mut env = empty_env();
    env.port = Some(String::from("not-a-number"));
    let config = ConfigBuilder::default().or_from_env(env).build().expect("complete");
    assert_eq!(config.port, 3333);
}

#[test]
fn port_parsing_cases() {
    assert_eq!(sstatic::config::parse_port("8080"), 8080);
    assert_eq!(sstatic::config::parse_port("65535"), 65535);
    assert_eq!(sstatic::config::parse_port("65536"), 3333);
    assert_eq!(sstatic::config::parse_port("0"), 0);
    assert_eq!(sstatic::config::parse_port(""), 3333);
    assert_eq!(sstatic::config::parse_port("12a"), 3333);
    assert_eq!(sstatic::config::parse_port("007"), 7);
}

#[test]
fn static_path_separator_violates_invariant() {
    let config = Config {
        html: String::from("index.html"),
        css: None,
        js: None,
        unsafe_inline: false,
        host: String::from("0.0.0.0"),
        port: 3333,
        static_path: Some(String::from("a/b")),
        static_content: String::from("static"),
        mime_types: String::from("/etc/mime.types"),
    };
    assert!(!config.static_path_ok());
    let ok = Config { static_path: Some(String::from("files")), ..config };
    assert!(ok.static_path_ok());
}

#[test]
fn path_error_describe_names_path_and_text() {
    let e = sstatic::errors::PathError::new(
        String::from("index.html"),
        String::from("must not be a directory"),
    );
    assert_eq!(e.describe(), "path index.html: must not be a directory");
}

#[test]
fn generic_error_describe_carries_the_message() {
    let e = sstatic::errors::GenericError::StrError(String::from("went wrong"));
    assert_eq!(e.describe(), "went wrong");
    let p = sstatic::errors::GenericError::PathError(sstatic::errors::PathError::new(
        String::from("a"),
        String::from("b"),
    ));
    assert_eq!(p.describe(), "path a: b");
}
