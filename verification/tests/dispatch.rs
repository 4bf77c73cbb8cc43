use terraps::routes::{dispatch, path_matches, routes, HandlerId, Method};
use terraps::text::chars_of;

#[test]
fn dispatch_config_routes() {
    let t = routes();
    assert_eq!(
        dispatch(&t, Method::Get, &chars_of("/config/prod/official/network_config")),
        HandlerId::ProdNetworkConfig
    );
    assert_eq!(
        dispatch(&t, Method::Get, &chars_of("/config/prod/official/Android/version")),
        HandlerId::ProdAndroidVersion
    );
    assert_eq!(
        dispatch(&t, Method::Get, &chars_of("/config/prod/official/remote_config")),
        HandlerId::ProdRemoteConfig
    );
    assert_eq!(
        dispatch(&t, Method::Get, &chars_of("/config/prod/official/refresh_config")),
        HandlerId::ProdRefreshConfig
    );
    assert_eq!(
        dispatch(&t, Method::Post, &chars_of("/account/login")),
        HandlerId::AccountLogin
    );
}

#[test]
fn dispatch_unregistered_path_falls_back() {
    let t = routes();
    assert_eq!(
        dispatch(&t, Method::Get, &chars_of("/foo/bar")),
        HandlerId::Fallback
    );
    assert_eq!(
        dispatch(&t, Method::Post, &chars_of("/foo/bar")),
        HandlerId::Fallback
    );
}

#[test]
fn dispatch_method_mismatch_falls_back() {
    let t = routes();
    assert_eq!(
        dispatch(&t, Method::Post, &chars_of("/config/prod/official/network_config")),
        HandlerId::Fallback
    );
    assert_eq!(
        dispatch(&t, Method::Get, &chars_of("/account/login")),
        HandlerId::Fallback
    );
}

#[test]
fn dispatch_asset_pattern_route() {
    let t = routes();
    assert_eq!(
        dispatch(
            &t,
            Method::Get,
            &chars_of("/assetbundle/official/Android/assets/abc123/pack.dat")
        ),
        HandlerId::GetFile
    );
}

#[test]
fn dispatch_asset_pattern_needs_nonempty_segments() {
    let t = routes();
    assert_eq!(
        dispatch(
            &t,
            Method::Get,
            &chars_of("/assetbundle/official/Android/assets//pack.dat")
        ),
        HandlerId::Fallback
    );
}

#[test]
fn pattern_matching_cases() {
    assert!(path_matches(&chars_of("/a/:x/c"), &chars_of("/a/b/c")));
    assert!(!path_matches(&chars_of("/a/:x/c"), &chars_of("/a//c")));
    assert!(!path_matches(&chars_of("/a/:x/c"), &chars_of("/a/b/d")));
    assert!(path_matches(&chars_of("/exact"), &chars_of("/exact")));
    assert!(!path_matches(&chars_of("/exact"), &chars_of("/exact/more")));
}

#[test]
fn dispatch_is_deterministic() {
    let t = routes();
    let first = dispatch(&t, Method::Post, &chars_of("/building/sync"));
    let second = dispatch(&t, Method::Post, &chars_of("/building/sync"));
    assert_eq!(first, second);
    assert_eq!(first, HandlerId::BuildingSync);
    let miss1 = dispatch(&t, Method::Get, &chars_of("/no/such/route"));
    let miss2 = dispatch(&t, Method::Get, &chars_of("/no/such/route"));
    assert_eq!(miss1, miss2);
}
