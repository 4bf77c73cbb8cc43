use terraps::json::JsonValue;
use terraps::parse::parse_json;
use terraps::resolver::{
    apply_version, build_network_config, config_sanitize, effective_version, fallback_response,
    get_server_address, needs_remote_refresh, refresh_config_response, resolve_remote_passthrough,
    resolve_version, ConfigError,
};
use terraps::text::chars_of;

fn st(s: &str) -> JsonValue {
    JsonValue::Str(chars_of(s))
}

fn obj(fields: Vec<(&str, JsonValue)>) -> JsonValue {
    JsonValue::Obj(fields.into_iter().map(|(k, v)| (chars_of(k), v)).collect())
}

fn sample_config(mode: Option<&str>, auto_update: bool) -> JsonValue {
    let mut server_fields = vec![("host", st("127.0.0.1")), ("port", JsonValue::Int(8080))];
    if let Some(m) = mode {
        server_fields.insert(0, ("mode", st(m)));
    }
    obj(vec![
        ("server", obj(server_fields)),
        ("version", obj(vec![("android", st("1.0.0"))])),
        ("versionGlobal", obj(vec![("android", st("9.9.9"))])),
        ("assets", obj(vec![("autoUpdate", JsonValue::Bool(auto_update))])),
        (
            "networkConfig",
            obj(vec![(
                "cn",
                obj(vec![(
                    "content",
                    obj(vec![
                        ("funcVer", st("1")),
                        (
                            "configs",
                            obj(vec![(
                                "1",
                                obj(vec![("network", obj(vec![("hu", st("{server}/hu"))]))]),
                            )]),
                        ),
                    ]),
                )]),
            )]),
        ),
        ("remote", obj(vec![("enable", JsonValue::Bool(false))])),
    ])
}

#[test]
fn version_for_cn_mode() {
    let c = sample_config(Some("cn"), false);
    assert_eq!(resolve_version(&c), st("1.0.0"));
}

#[test]
fn version_for_global_mode() {
    let c = sample_config(Some("global"), false);
    assert_eq!(resolve_version(&c), st("9.9.9"));
}

#[test]
fn version_mode_absent_defaults_to_cn_branch() {
    let c = sample_config(None, false);
    assert_eq!(resolve_version(&c), st("1.0.0"));
}

#[test]
fn no_refresh_when_auto_update_off() {
    let c = sample_config(Some("cn"), false);
    assert!(!needs_remote_refresh(&c));
    assert_eq!(effective_version(&c, None), st("1.0.0"));
}

#[test]
fn refresh_when_auto_update_on() {
    let c = sample_config(Some("cn"), true);
    assert!(needs_remote_refresh(&c));
    assert_eq!(effective_version(&c, Some(st("2.0.0"))), st("2.0.0"));
}

#[test]
fn refresh_flag_absent_means_off() {
    let c = obj(vec![("version", obj(vec![("android", st("1"))]))]);
    assert!(!needs_remote_refresh(&c));
}

#[test]
fn apply_version_updates_stored_field() {
    let c = sample_config(Some("cn"), false);
    let c2 = apply_version(&c, st("3.3.3"));
    assert_eq!(resolve_version(&c2), st("3.3.3"));
}

#[test]
fn remote_passthrough_returns_stored_subdocument() {
    let c = sample_config(Some("cn"), false);
    assert_eq!(
        resolve_remote_passthrough(&c),
        obj(vec![("enable", JsonValue::Bool(false))])
    );
}

#[test]
fn refresh_config_shape() {
    assert_eq!(
        refresh_config_response(),
        obj(vec![("resVersion", JsonValue::Null)])
    );
}

#[test]
fn fallback_is_empty_delta_envelope() {
    assert_eq!(
        fallback_response(),
        obj(vec![(
            "playerDataDelta",
            obj(vec![
                ("deleted", JsonValue::Obj(vec![])),
                ("modified", JsonValue::Obj(vec![])),
            ])
        )])
    );
}

#[test]
fn network_config_scenario() {
    let c = sample_config(Some("cn"), false);
    let branch = build_network_config(&c).expect("well-formed config must resolve");
    let envelope = config_sanitize(&branch);
    let sign = envelope.index_or_null(&chars_of("sign"));
    assert_eq!(*sign, st("sign"));
    let content_text = match envelope.index_or_null(&chars_of("content")) {
        JsonValue::Str(cs) => cs.iter().collect::<String>(),
        other => panic!("content must be a string, got {:?}", other),
    };
    let decoded = parse_json(content_text.as_str()).expect("embedded text must parse");
    let expected = obj(vec![
        ("funcVer", st("1")),
        (
            "configs",
            obj(vec![(
                "1",
                obj(vec![("network", obj(vec![("hu", st("http://127.0.0.1:8080/hu"))]))]),
            )]),
        ),
    ]);
    assert_eq!(decoded, expected);
}

#[test]
fn network_config_missing_mode_is_missing_key() {
    let c = sample_config(None, false);
    assert_eq!(build_network_config(&c), Err(ConfigError::MissingKey));
}

#[test]
fn network_config_missing_branch_is_missing_key() {
    let c = sample_config(Some("global"), false);
    assert_eq!(build_network_config(&c), Err(ConfigError::MissingKey));
}

#[test]
fn network_config_leaves_non_matching_entries_alone() {
    let mut c = sample_config(Some("cn"), false);
    // add an entry without the placeholder and a non-string entry
    let extra = obj(vec![
        ("hu", st("{server}/hu")),
        ("as", st("https://static.example/as")),
        ("n", JsonValue::Int(7)),
    ]);
    c = {
        let network_path = c
            .index_or_null(&chars_of("networkConfig"))
            .index_or_null(&chars_of("cn"))
            .index_or_null(&chars_of("content"))
            .index_or_null(&chars_of("configs"))
            .index_or_null(&chars_of("1"))
            .obj_set(&chars_of("network"), extra);
        let configs = c
            .index_or_null(&chars_of("networkConfig"))
            .index_or_null(&chars_of("cn"))
            .index_or_null(&chars_of("content"))
            .index_or_null(&chars_of("configs"))
            .obj_set(&chars_of("1"), network_path);
        let content = c
            .index_or_null(&chars_of("networkConfig"))
            .index_or_null(&chars_of("cn"))
            .index_or_null(&chars_of("content"))
            .obj_set(&chars_of("configs"), configs);
        let branch = c
            .index_or_null(&chars_of("networkConfig"))
            .index_or_null(&chars_of("cn"))
            .obj_set(&chars_of("content"), content);
        let network_config = c
            .index_or_null(&chars_of("networkConfig"))
            .obj_set(&chars_of("cn"), branch);
        c.obj_set(&chars_of("networkConfig"), network_config)
    };
    let branch = build_network_config(&c).unwrap();
    let network = branch
        .index_or_null(&chars_of("content"))
        .index_or_null(&chars_of("configs"))
        .index_or_null(&chars_of("1"))
        .index_or_null(&chars_of("network"));
    assert_eq!(
        *network.index_or_null(&chars_of("hu")),
        st("http://127.0.0.1:8080/hu")
    );
    assert_eq!(
        *network.index_or_null(&chars_of("as")),
        st("https://static.example/as")
    );
    assert_eq!(*network.index_or_null(&chars_of("n")), JsonValue::Int(7));
}

#[test]
fn server_address_present() {
    let c = sample_config(Some("cn"), false);
    let (host, port) = get_server_address(&c).unwrap();
    assert_eq!(host, "127.0.0.1".to_string());
    assert_eq!(port, 8080);
}

#[test]
fn server_address_rejects_bad_port() {
    let c = obj(vec![(
        "server",
        obj(vec![("host", st("h")), ("port", JsonValue::Int(-1))]),
    )]);
    assert!(get_server_address(&c).is_none());
}

#[test]
fn server_address_rejects_missing_host() {
    let c = obj(vec![("server", obj(vec![("port", JsonValue::Int(1))]))]);
    assert!(get_server_address(&c).is_none());
}
