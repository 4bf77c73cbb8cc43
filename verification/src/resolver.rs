//! Network-manifest resolution: effective-version selection, server
//! addressing, `{server}` placeholder substitution over the active
//! network mapping, and envelope assembly. Every function here is pure:
//! the surrounding application loads and stores the configuration
//! document and performs the remote fetch, and hands plain values in.

use vstd::prelude::*;
use crate::json::{
    deep_clone, fields_model, group_json_model_axioms, jm_get, jm_get2, jm_set, JsonModel,
    JsonValue,
};
use crate::text::{chars_of, contains_pat, replace_spec, string_from_chars, u64_to_chars, dec_rep};

verus! {

/// The deployment mode named by `server.mode`, with the `cn` branch as
/// the default wherever the field is missing or not a string.
pub open spec fn mode_of(c: JsonModel) -> Seq<char> {
    match jm_get2(c, "server"@, "mode"@) {
        JsonModel::Str(s) => s,
        _ => "cn"@,
    }
}

/// The stored client version for the mode: `versionGlobal.android`
/// under mode `global`, `version.android` under `cn` and anything else.
pub open spec fn stored_version(c: JsonModel) -> JsonModel {
    if mode_of(c) == "global"@ {
        jm_get2(c, "versionGlobal"@, "android"@)
    } else {
        jm_get2(c, "version"@, "android"@)
    }
}

/// Whether `assets.autoUpdate` asks for a remote version refresh.
pub open spec fn auto_update(c: JsonModel) -> bool {
    jm_get2(c, "assets"@, "autoUpdate"@) == JsonModel::Bool(true)
}

/// The version the manifest serves: the remote answer when the
/// document asks for a refresh, the stored `version.android` otherwise.
pub open spec fn effective_version_spec(c: JsonModel, remote: Option<JsonModel>) -> JsonModel {
    if auto_update(c) {
        match remote {
            Some(v) => v,
            None => JsonModel::Null,
        }
    } else {
        jm_get2(c, "version"@, "android"@)
    }
}

/// With automatic updates off, the resolved version is the stored one
/// and no remote value is consulted: resolution coincides with the
/// per-mode stored read for every document.
pub proof fn lemma_version_resolution_local(c: JsonModel, remote: Option<JsonModel>)
    requires
        !auto_update(c),
    ensures
        effective_version_spec(c, remote) == jm_get2(c, "version"@, "android"@),
        mode_of(c) == "global"@ ==> stored_version(c) == jm_get2(c, "versionGlobal"@, "android"@),
        mode_of(c) != "global"@ ==> stored_version(c) == jm_get2(c, "version"@, "android"@),
{
}

/// The version value served by the version endpoint.
pub fn resolve_version(config: &JsonValue) -> (r: JsonValue)
    ensures
        r.model() == stored_version(config.model()),
{
    let key_server = chars_of("server");
    let key_mode = chars_of("mode");
    let key_android = chars_of("android");
    let mode = config.index_or_null(&key_server).index_or_null(&key_mode);
    let global = match mode.as_str() {
        Some(s) => crate::text::chars_eq(s, &chars_of("global")),
        None => false,
    };
    let r = if global {
        let key = chars_of("versionGlobal");
        deep_clone(config.index_or_null(&key).index_or_null(&key_android))
    } else {
        let key = chars_of("version");
        deep_clone(config.index_or_null(&key).index_or_null(&key_android))
    };
    proof {
        reveal_strlit("cn");
        reveal_strlit("global");
        assert("cn"@.len() == 2);
        assert("global"@.len() == 6);
        assert("cn"@ != "global"@);
        assert(r.model() == stored_version(config.model()));
    }
    r
}

/// Whether serving the manifest must first refresh the version from
/// the remote source.
pub fn needs_remote_refresh(config: &JsonValue) -> (r: bool)
    ensures
        r == auto_update(config.model()),
{
    let key_assets = chars_of("assets");
    let key_auto = chars_of("autoUpdate");
    let flag = config.index_or_null(&key_assets).index_or_null(&key_auto);
    match flag {
        JsonValue::Bool(b) => *b,
        _ => false,
    }
}

/// The version to serve, given the stored document and the remote
/// answer (present exactly when the document asks for a refresh).
pub fn effective_version(config: &JsonValue, remote: Option<JsonValue>) -> (r: JsonValue)
    requires
        remote is Some <==> auto_update(config.model()),
    ensures
        r.model() == effective_version_spec(
            config.model(),
            match remote {
                Some(v) => Some(v.model()),
                None => None,
            },
        ),
{
    match remote {
        Some(v) => v,
        None => {
            let key_version = chars_of("version");
            let key_android = chars_of("android");
            deep_clone(config.index_or_null(&key_version).index_or_null(&key_android))
        },
    }
}

/// The document with `version.android` set to `version`: the stored
/// state after a refresh.
pub fn apply_version(config: &JsonValue, version: JsonValue) -> (r: JsonValue)
    ensures
        r.model() == jm_set(
            config.model(),
            "version"@,
            jm_set(jm_get(config.model(), "version"@), "android"@, version.model()),
        ),
{
    let key_version = chars_of("version");
    let key_android = chars_of("android");
    let ver_obj = config.index_or_null(&key_version);
    let new_ver = ver_obj.obj_set(&key_android, version);
    config.obj_set(&key_version, new_ver)
}

/// The stored `remote` sub-document, served verbatim.
pub fn resolve_remote_passthrough(config: &JsonValue) -> (r: JsonValue)
    ensures
        r.model() == jm_get(config.model(), "remote"@),
{
    let key_remote = chars_of("remote");
    deep_clone(config.index_or_null(&key_remote))
}

/// The constant answer of the refresh endpoint.
pub open spec fn refresh_config_model() -> JsonModel {
    JsonModel::Obj(seq![("resVersion"@, JsonModel::Null)])
}

/// The refresh endpoint's answer: `{"resVersion": null}`.
pub fn refresh_config_response() -> (r: JsonValue)
    ensures
        r.model() == refresh_config_model(),
{
    broadcast use group_json_model_axioms;

    let mut fields: Vec<(Vec<char>, JsonValue)> = Vec::new();
    let entry = (chars_of("resVersion"), JsonValue::Null);
    fields.push(entry);
    proof {
        assert(fields_model(fields@) =~= seq![("resVersion"@, JsonModel::Null)]);
    }
    JsonValue::Obj(fields)
}

/// The constant shape of the terminal fallback route: an empty player
/// delta, so an unrecognised-but-expected client call does not fail.
pub open spec fn fallback_model() -> JsonModel {
    JsonModel::Obj(
        seq![
            (
                "playerDataDelta"@,
                JsonModel::Obj(
                    seq![
                        ("deleted"@, JsonModel::Obj(Seq::empty())),
                        ("modified"@, JsonModel::Obj(Seq::empty())),
                    ],
                ),
            ),
        ],
    )
}

/// The fallback route's answer: an empty delta envelope. This library
/// fixes that policy (rather than an explicit not-found error) for
/// every environment.
pub fn fallback_response() -> (r: JsonValue)
    ensures
        r.model() == fallback_model(),
{
    broadcast use group_json_model_axioms;

    let empty1: Vec<(Vec<char>, JsonValue)> = Vec::new();
    let empty2: Vec<(Vec<char>, JsonValue)> = Vec::new();
    proof {
        assert(fields_model(empty1@) =~= Seq::<(Seq<char>, JsonModel)>::empty());
        assert(fields_model(empty2@) =~= Seq::<(Seq<char>, JsonModel)>::empty());
    }
    let mut delta: Vec<(Vec<char>, JsonValue)> = Vec::new();
    let entry_deleted = (chars_of("deleted"), JsonValue::Obj(empty1));
    delta.push(entry_deleted);
    let entry_modified = (chars_of("modified"), JsonValue::Obj(empty2));
    delta.push(entry_modified);
    let mut top: Vec<(Vec<char>, JsonValue)> = Vec::new();
    proof {
        assert(fields_model(delta@) =~= seq![
            ("deleted"@, JsonModel::Obj(Seq::empty())),
            ("modified"@, JsonModel::Obj(Seq::empty())),
        ]);
    }
    let entry_top = (chars_of("playerDataDelta"), JsonValue::Obj(delta));
    top.push(entry_top);
    proof {
        assert(fields_model(top@) =~= match fallback_model() {
            JsonModel::Obj(fs) => fs,
            _ => seq![],
        });
    }
    JsonValue::Obj(top)
}

/// The host and port the process binds, read from `server.host` and
/// `server.port`; `None` when either is missing or of the wrong shape.
pub fn get_server_address(config: &JsonValue) -> (r: Option<(String, u64)>)
    ensures
        match r {
            Some(hp) => jm_get2(config.model(), "server"@, "host"@) == JsonModel::Str(hp.0@)
                && jm_get2(config.model(), "server"@, "port"@) == JsonModel::Int(hp.1 as int),
            None => !(exists|h: Seq<char>, p: int|
                jm_get2(config.model(), "server"@, "host"@) == JsonModel::Str(h) && jm_get2(
                    config.model(),
                    "server"@,
                    "port"@,
                ) == JsonModel::Int(p) && 0 <= p),
        },
{
    let key_server = chars_of("server");
    let key_host = chars_of("host");
    let key_port = chars_of("port");
    let server = config.index_or_null(&key_server);
    let host = match server.index_or_null(&key_host).as_str() {
        Some(h) => h,
        None => {
            return None;
        },
    };
    let port = match server.index_or_null(&key_port).as_int() {
        Some(p) => p,
        None => {
            return None;
        },
    };
    if port < 0 {
        return None;
    }
    Some((string_from_chars(host), port as u64))
}


/// The placeholder token rewritten to the active server address.
pub open spec fn server_pat() -> Seq<char> {
    "{server}"@
}

/// One manifest entry after substitution: a string containing the
/// placeholder has every occurrence replaced, everything else passes
/// through unchanged.
pub open spec fn patch_value(m: JsonModel, pat: Seq<char>, rep: Seq<char>) -> JsonModel {
    match m {
        JsonModel::Str(s) => if contains_pat(s, pat) {
            JsonModel::Str(replace_spec(s, pat, rep))
        } else {
            m
        },
        _ => m,
    }
}

/// The network mapping after substitution, keys and order kept.
pub open spec fn patch_fields(fs: Seq<(Seq<char>, JsonModel)>, pat: Seq<char>, rep: Seq<char>) -> Seq<
    (Seq<char>, JsonModel),
> {
    Seq::new(fs.len(), |i: int| (fs[i].0, patch_value(fs[i].1, pat, rep)))
}

/// Substitution patches exactly the string entries that contain the
/// placeholder: each such value becomes its full left-to-right
/// replacement, and every other entry is identical to its input.
pub proof fn lemma_patch_exact(
    fs: Seq<(Seq<char>, JsonModel)>,
    pat: Seq<char>,
    rep: Seq<char>,
    i: int,
)
    requires
        0 <= i < fs.len(),
    ensures
        patch_fields(fs, pat, rep).len() == fs.len(),
        patch_fields(fs, pat, rep)[i].0 == fs[i].0,
        forall|s: Seq<char>|
            fs[i].1 == JsonModel::Str(s) && contains_pat(s, pat) ==> patch_fields(fs, pat, rep)[i].1
                == JsonModel::Str(replace_spec(s, pat, rep)),
        !(fs[i].1 matches JsonModel::Str(_)) ==> patch_fields(fs, pat, rep)[i].1 == fs[i].1,
        forall|s: Seq<char>|
            fs[i].1 == JsonModel::Str(s) && !contains_pat(s, pat) ==> patch_fields(
                fs,
                pat,
                rep,
            )[i].1 == fs[i].1,
{
}

/// The mode string that the manifest uses, without the `cn` default:
/// building the manifest demands a stored mode.
pub open spec fn branch_of(c: JsonModel) -> JsonModel {
    jm_get(jm_get(c, "networkConfig"@), mode_of(c))
}

pub open spec fn content_of(c: JsonModel) -> JsonModel {
    jm_get(branch_of(c), "content"@)
}

/// The active version key under `content.funcVer`.
pub open spec fn func_ver_of(c: JsonModel) -> Seq<char> {
    match jm_get(content_of(c), "funcVer"@) {
        JsonModel::Str(s) => s,
        _ => Seq::empty(),
    }
}

/// The config entry selected by the active version key.
pub open spec fn config_entry_of(c: JsonModel) -> JsonModel {
    jm_get(jm_get(content_of(c), "configs"@), func_ver_of(c))
}

/// The service-name-to-URL mapping of the active entry.
pub open spec fn network_of(c: JsonModel) -> JsonModel {
    jm_get(config_entry_of(c), "network"@)
}

/// Everything manifest resolution reads must be present and of the
/// right shape; a document failing any part is a configuration
/// authoring error.
pub open spec fn manifest_ready(c: JsonModel) -> bool {
    &&& jm_get2(c, "server"@, "mode"@) is Str
    &&& jm_get2(c, "server"@, "host"@) is Str
    &&& (jm_get2(c, "server"@, "port"@) matches JsonModel::Int(p) && 0 <= p)
    &&& jm_get(content_of(c), "funcVer"@) is Str
    &&& network_of(c) is Obj
}

/// The active server address, `http://{host}:{port}`.
pub open spec fn server_addr_of(c: JsonModel) -> Seq<char> {
    let h = match jm_get2(c, "server"@, "host"@) {
        JsonModel::Str(s) => s,
        _ => Seq::empty(),
    };
    let p = match jm_get2(c, "server"@, "port"@) {
        JsonModel::Int(n) => n,
        _ => 0,
    };
    "http://"@ + h + seq![':'] + dec_rep(if p >= 0 {
        p as nat
    } else {
        0nat
    })
}

/// The manifest branch after substitution: the stored branch with the
/// active network mapping patched in place.
pub open spec fn patched_branch(c: JsonModel) -> JsonModel {
    let network_fs = match network_of(c) {
        JsonModel::Obj(fs) => fs,
        _ => Seq::empty(),
    };
    let pn = JsonModel::Obj(patch_fields(network_fs, server_pat(), server_addr_of(c)));
    let new_entry = jm_set(config_entry_of(c), "network"@, pn);
    let new_configs = jm_set(jm_get(content_of(c), "configs"@), func_ver_of(c), new_entry);
    let new_content = jm_set(content_of(c), "configs"@, new_configs);
    jm_set(branch_of(c), "content"@, new_content)
}

/// A failed manifest resolution: some key the resolver needs is
/// missing or of the wrong shape.
#[derive(PartialEq, Eq, Structural, Clone, Copy, Debug)]
pub enum ConfigError {
    MissingKey,
}

/// Builds the manifest branch for the stored document: reads the
/// addressing, selects the active network mapping, and substitutes the
/// placeholder. Fails, with `MissingKey`, exactly on documents that are
/// not `manifest_ready`.
pub fn build_network_config(config: &JsonValue) -> (r: Result<JsonValue, ConfigError>)
    ensures
        match r {
            Ok(v) => manifest_ready(config.model()) && v.model() == patched_branch(config.model()),
            Err(e) => !manifest_ready(config.model()) && e == ConfigError::MissingKey,
        },
{
    broadcast use group_json_model_axioms;

    let key_server = chars_of("server");
    let key_mode = chars_of("mode");
    let key_host = chars_of("host");
    let key_port = chars_of("port");
    let server = config.index_or_null(&key_server);
    let mode = match server.index_or_null(&key_mode).as_str() {
        Some(m) => m,
        None => {
            return Err(ConfigError::MissingKey);
        },
    };
    let host = match server.index_or_null(&key_host).as_str() {
        Some(h) => h,
        None => {
            return Err(ConfigError::MissingKey);
        },
    };
    let port = match server.index_or_null(&key_port).as_int() {
        Some(p) => p,
        None => {
            return Err(ConfigError::MissingKey);
        },
    };
    if port < 0 {
        return Err(ConfigError::MissingKey);
    }
    let mut addr = chars_of("http://");
    crate::ser::append_chars(&mut addr, host);
    addr.push(':');
    let digits = u64_to_chars(port as u64);
    crate::ser::append_chars(&mut addr, &digits);
    proof {
        assert(addr@ =~= server_addr_of(config.model()));
    }
    let key_network_config = chars_of("networkConfig");
    let key_content = chars_of("content");
    let key_func_ver = chars_of("funcVer");
    let key_configs = chars_of("configs");
    let key_network = chars_of("network");
    let branch = config.index_or_null(&key_network_config).index_or_null(mode);
    let content = branch.index_or_null(&key_content);
    let func_ver = match content.index_or_null(&key_func_ver).as_str() {
        Some(f) => f,
        None => {
            return Err(ConfigError::MissingKey);
        },
    };
    let configs = content.index_or_null(&key_configs);
    let entry = configs.index_or_null(func_ver);
    let network = entry.index_or_null(&key_network);
    let pat = chars_of("{server}");
    let patched: Vec<(Vec<char>, JsonValue)> = match network {
        JsonValue::Obj(fs) => {
            let n = fs.len();
            let mut out: Vec<(Vec<char>, JsonValue)> = Vec::new();
            let mut i: usize = 0;
            while i < n
                invariant
                    n == fs@.len(),
                    network == JsonValue::Obj(*fs),
                    i <= n,
                    out@.len() == i,
                    forall|j: int| 0 <= j < i ==> #[trigger] out@[j].0@ == fs@[j].0@,
                    forall|j: int|
                        0 <= j < i ==> #[trigger] out@[j].1.model() == patch_value(
                            fields_model(fs@)[j].1,
                            pat@,
                            addr@,
                        ),
                decreases n - i,
            {
                let new_val = match &fs[i].1 {
                    JsonValue::Str(url) => {
                        if crate::text::contains(url, &pat) {
                            JsonValue::Str(crate::text::replace_all(url, &pat, &addr))
                        } else {
                            deep_clone(&fs[i].1)
                        }
                    },
                    _ => deep_clone(&fs[i].1),
                };
                let entry_out = (crate::json::clone_chars(&fs[i].0), new_val);
                out.push(entry_out);
                i = i + 1;
            }
            proof {
                let fsm = fields_model(fs@);
                assert(fields_model(out@) =~= patch_fields(fsm, pat@, addr@));
            }
            out
        },
        _ => {
            return Err(ConfigError::MissingKey);
        },
    };
    let new_entry = entry.obj_set(&key_network, JsonValue::Obj(patched));
    let new_configs = configs.obj_set(func_ver, new_entry);
    let new_content = content.obj_set(&key_configs, new_configs);
    let result = branch.obj_set(&key_content, new_content);
    proof {
        assert(result.model() == patched_branch(config.model()));
    }
    Ok(result)
}

/// The envelope the wire expects: a fixed signature next to the
/// manifest content re-serialised as a string.
pub open spec fn envelope_model(m: JsonModel) -> JsonModel {
    JsonModel::Obj(
        seq![
            ("sign"@, JsonModel::Str("sign"@)),
            ("content"@, JsonModel::Str(crate::ser::ser(jm_get(m, "content"@)))),
        ],
    )
}

/// Wraps a manifest branch in the wire envelope, embedding the
/// `content` sub-document as canonical JSON text.
pub fn config_sanitize(config: &JsonValue) -> (r: JsonValue)
    ensures
        r.model() == envelope_model(config.model()),
{
    broadcast use group_json_model_axioms;

    let key_content = chars_of("content");
    let content = config.index_or_null(&key_content);
    let text = crate::ser::to_json_chars(content);
    let mut fields: Vec<(Vec<char>, JsonValue)> = Vec::new();
    let entry_sign = (chars_of("sign"), JsonValue::Str(chars_of("sign")));
    fields.push(entry_sign);
    let entry_content = (chars_of("content"), JsonValue::Str(text));
    fields.push(entry_content);
    proof {
        assert(fields_model(fields@) =~= match envelope_model(config.model()) {
            JsonModel::Obj(fs) => fs,
            _ => seq![],
        });
    }
    JsonValue::Obj(fields)
}



/// The embedded manifest text round-trips: parsing the string that the
/// envelope carries yields a document structurally equal to the
/// `content` sub-document it was made from, for every content whose
/// strings hold no raw control characters.
pub proof fn lemma_envelope_round_trip(m: JsonModel)
    requires
        crate::parse::wf_model(jm_get(m, "content"@)),
    ensures
        envelope_model(m) matches JsonModel::Obj(fs) && fs[1] == (
            "content"@,
            JsonModel::Str(crate::ser::ser(jm_get(m, "content"@))),
        ),
        crate::parse::parse_spec(crate::ser::ser(jm_get(m, "content"@))) == Some(
            jm_get(m, "content"@),
        ),
{
    crate::parse::lemma_parse_round_trip(jm_get(m, "content"@));
}


} // verus!
