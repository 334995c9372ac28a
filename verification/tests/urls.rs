use physics_mujoco_frontend::protocol::SceneChoice;
use physics_mujoco_frontend::text::{
    contains, directory_of, hex, push_decimal, same_text, trim_end_slashes,
};
use physics_mujoco_frontend::urls::{
    app_base, has_parameter, join, model_url, page_base, AppUrls, BundleUrls, OverlayToggles,
};

#[test]
fn app_base_is_the_pages_directory() {
    assert_eq!(app_base("http://host", "/"), "http://host");
    assert_eq!(app_base("http://host", "/sub/index.html"), "http://host/sub");
    assert_eq!(app_base("http://host", "/sub/"), "http://host/sub");
    assert_eq!(app_base("http://host", ""), "http://host");
    assert_eq!(app_base("http://host", "index.html"), "http://host");
    assert_eq!(app_base("", "/ä/ö/x"), "/ä/ö");
}

#[test]
fn media_base_is_asked_for_then_built_in_then_the_app() {
    let app = || "http://host/sub".to_string();
    assert_eq!(page_base(Some("http://m//"), Some("http://b/"), app()), "http://m");
    assert_eq!(page_base(None, Some("http://b/"), app()), "http://b");
    assert_eq!(page_base(None, None, app()), "http://host/sub");
    assert_eq!(page_base(Some(""), Some("http://b/"), app()), "");
}

#[test]
fn trailing_slashes_do_not_matter() {
    assert_eq!(join("http://m", "a"), "http://m/a");
    assert_eq!(join("http://m/", "a"), "http://m/a");
    assert_eq!(join("http://m///", "a"), "http://m/a");
    assert_eq!(join("", "a"), "/a");
}

#[test]
fn files_under_the_app_base() {
    let urls = AppUrls::new("http://host/sub/");
    assert_eq!(urls.basis_worker, "http://host/sub/workers/basis-worker.js");
    assert_eq!(urls.basis_transcoder, "http://host/sub/vendor/basis/basis_transcoder.js");
    assert_eq!(urls.mujoco_worker, "http://host/sub/workers/mujoco-worker.js");
    assert_eq!(urls.mujoco_js, "http://host/sub/vendor/mujoco/mujoco.js");
    assert_eq!(urls.mujoco_wasm, "http://host/sub/vendor/mujoco/mujoco.wasm");
}

#[test]
fn files_under_the_media_base() {
    assert_eq!(model_url("http://m", SceneChoice::Humanoid), "http://m/mujoco/humanoid.xml");
    assert_eq!(model_url("http://m/", SceneChoice::Flag), "http://m/mujoco/flag.xml");
    let plain = BundleUrls::new("http://m/", None);
    assert_eq!(plain.base, "http://m/bundle");
    assert_eq!(plain.scene, "http://m/bundle/scene.toml");
    let named = BundleUrls::new("http://m", Some("cloth"));
    assert_eq!(named.scene, "http://m/cloth/scene.toml");
}

#[test]
fn overlays_are_opt_in_and_stack() {
    assert_eq!(OverlayToggles::from_search(""), OverlayToggles::default());
    assert_eq!(
        OverlayToggles::from_search("?contacts&joints"),
        OverlayToggles { contacts: true, joints: true, inertia: false }
    );
    assert_eq!(
        OverlayToggles::from_search("?scene=flag&inertia"),
        OverlayToggles { contacts: false, joints: false, inertia: true }
    );
    assert_eq!(
        OverlayToggles::from_search("?contact&joint"),
        OverlayToggles { contacts: false, joints: false, inertia: false }
    );
}

#[test]
fn overlay_names_in_values_turn_nothing_on() {
    assert_eq!(
        OverlayToggles::from_search("?media=http://m.io/joints"),
        OverlayToggles::default()
    );
    assert_eq!(
        OverlayToggles::from_search("?media=http://m.io/joints&joints"),
        OverlayToggles { contacts: false, joints: true, inertia: false }
    );
    assert_eq!(
        OverlayToggles::from_search("?scene=contacts&xinertia&joints2"),
        OverlayToggles::default()
    );
}

#[test]
fn parameters_are_told_by_their_whole_name() {
    assert!(has_parameter("?contacts", "contacts"));
    assert!(has_parameter("?contacts=1", "contacts"));
    assert!(has_parameter("?a=b&contacts=", "contacts"));
    assert!(has_parameter("?contacts&b", "contacts"));
    assert!(!has_parameter("contacts", "contacts"));
    assert!(!has_parameter("?a=?contacts", "contacts"));
    assert!(!has_parameter("?a=contacts", "contacts"));
    assert!(!has_parameter("?contactsx", "contacts"));
    assert!(!has_parameter("?", "contacts"));
    assert!(!has_parameter("", "contacts"));
}

#[test]
fn hashes_are_lowercase_hexadecimal() {
    assert_eq!(hex(&vec![]), "");
    assert_eq!(hex(&vec![0x00, 0x9f, 0xab, 0xff]), "009fabff");
}

#[test]
fn text_helpers() {
    assert_eq!(trim_end_slashes("a/b//"), "a/b");
    assert_eq!(trim_end_slashes("//"), "");
    assert_eq!(directory_of("a/b/c"), "a/b");
    assert!(contains("abc", ""));
    assert!(contains("", ""));
    assert!(contains("abc", "bc"));
    assert!(!contains("abc", "abcd"));
    assert!(!contains("abc", "cb"));
    assert!(same_text("…", "…"));
    assert!(!same_text("a", "b"));
    let mut out = "n=".to_string();
    push_decimal(&mut out, 0);
    out.push(',');
    push_decimal(&mut out, 9007);
    assert_eq!(out, "n=0,9007");
    let mut most = String::new();
    push_decimal(&mut most, usize::MAX);
    assert_eq!(most, format!("{}", usize::MAX));
}
