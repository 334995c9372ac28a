use physics_mujoco_frontend::scene::{load_error, parse_scene, parsed_line, Stage};

const TWO_NODES: &str = r#"
name = "demo"

[[nodes]]
id = "00000000-0000-0000-0000-000000000001"
name = "floor"
kind = "group"

[[nodes]]
id = "00000000-0000-0000-0000-000000000002"
name = "robot"
kind = "group"
"#;

#[test]
fn empty_document_has_no_nodes() {
    let parsed = parse_scene("");
    assert!(matches!(parsed, Ok(ref document) if document.nodes == 0));
}

#[test]
fn top_level_nodes_are_counted() {
    let document = match parse_scene(TWO_NODES) {
        Ok(document) => document,
        Err(error) => panic!("{error}"),
    };
    assert_eq!(document.nodes, 2);
    assert_eq!(document.scene.nodes.len(), 2);
    assert_eq!(document.scene.name, "demo");
    assert_eq!(document.scene.nodes[1].name, "robot");
}

#[test]
fn broken_document_is_reported_as_the_parser_words_it() {
    let text = "nodes = 3";
    let complaint = match awsm_renderer_scene::project_dir::scene_from_toml(text) {
        Ok(_) => panic!("parsed"),
        Err(error) => format!("{error}"),
    };
    match parse_scene(text) {
        Ok(_) => panic!("parsed"),
        Err(message) => assert_eq!(message, format!("parse: {complaint}")),
    }
    assert!(parse_scene("[").is_err());
}

#[test]
fn errors_name_their_stage() {
    assert_eq!(Stage::Fetch.error("offline"), "fetch: offline");
    assert_eq!(Stage::Read.error("cut short"), "read: cut short");
    assert_eq!(Stage::Parse.error("line 1"), "parse: line 1");
    assert_eq!(
        load_error("http://m/bundle/scene.toml", "fetch: offline"),
        "load scene http://m/bundle/scene.toml: fetch: offline"
    );
}

#[test]
fn parsed_scene_is_announced() {
    assert_eq!(
        parsed_line(12, 40),
        "core pipelines ready (12) · scene parsed (40 nodes)"
    );
}

fn morph_track(index: u64) -> String {
    format!(
        r#"
[[animations]]
id = "00000000-0000-0000-0000-000000000003"
name = "smile"
duration = 1.0
loop_style = "once"
speed = 1.0
direction = "forward"

[[animations.tracks]]
sampler = "linear"
target = {{ target = "morph", node = "00000000-0000-0000-0000-000000000001", index = {index} }}
"#
    )
}

#[test]
fn index_has_to_fit_the_machine() {
    assert!(parse_scene(&morph_track(0)).is_ok());
    assert!(parse_scene(&morph_track(u32::MAX as u64)).is_ok());
    let wide = usize::BITS > 32;
    assert_eq!(parse_scene(&morph_track(u32::MAX as u64 + 1)).is_ok(), wide);
}
