//! The scene document of the player bundle: from the fetched text to a parsed
//! document, and what is reported on the way.

use vstd::prelude::*;

use crate::text::{decimal, push_decimal};

verus! {

/// `awsm_renderer_scene::Scene`, the parsed document. It is carried to the
/// loader and not looked into.
#[verifier::external_type_specification]
#[verifier::external_body]
pub struct ExScene(awsm_renderer_scene::Scene);

/// What `awsm_renderer_scene::project_dir::scene_from_toml` makes of a text where
/// `usize` goes up to `usize_max`: the number of nodes at the top of the document's
/// hierarchy, or the parser's complaint. The width matters because a document may
/// hold an index, and one that `usize` cannot hold is an error.
pub uninterp spec fn scene_document(text: Seq<char>, usize_max: nat) -> Result<nat, Seq<char>>;

/// `awsm_renderer_scene::project_dir::scene_from_toml` may give this document for
/// this text. It is no function of the text: an entry that leaves its id out gets
/// a fresh one with every parse.
pub uninterp spec fn parsed_from(text: Seq<char>, scene: awsm_renderer_scene::Scene) -> bool;

/// Calls `awsm_renderer_scene::project_dir::scene_from_toml`. Claims that whether
/// the text parses, how many top-level nodes the document then has, and how the
/// complaint reads otherwise depend on the text and the width of `usize`, and that
/// the document is one that the text parses to. What the document holds beyond
/// that is left unsaid.
#[verifier::external_body]
fn scene_from_toml(text: &str) -> (parsed: Result<(awsm_renderer_scene::Scene, usize), String>)
    ensures
        match parsed {
            Ok((scene, nodes)) => scene_document(text@, usize::MAX as nat) == Ok::<
                nat,
                Seq<char>,
            >(nodes as nat) && parsed_from(text@, scene),
            Err(complaint) => scene_document(text@, usize::MAX as nat) == Err::<nat, Seq<char>>(
                complaint@,
            ),
        },
{
    match awsm_renderer_scene::project_dir::scene_from_toml(text) {
        Ok(scene) => {
            let nodes: usize = scene.nodes.len();
            Ok((scene, nodes))
        },
        Err(error) => Err(error.to_string()),
    }
}

/// A step of loading the scene document.
#[derive(Clone, Copy, Debug, PartialEq, Eq, Structural)]
pub enum Stage {
    Fetch,
    Read,
    Parse,
}

impl Stage {
    /// What an error of this step begins with.
    pub open spec fn prefix(self) -> Seq<char> {
        match self {
            Stage::Fetch => "fetch: "@,
            Stage::Read => "read: "@,
            Stage::Parse => "parse: "@,
        }
    }

    /// The error of this step.
    pub fn error(&self, cause: &str) -> (message: String)
        ensures
            message@ == self.prefix() + cause@,
    {
        let mut message: String = match self {
            Stage::Fetch => "fetch: ".to_string(),
            Stage::Read => "read: ".to_string(),
            Stage::Parse => "parse: ".to_string(),
        };
        message.append(cause);
        message
    }
}

/// A parsed scene document.
pub struct SceneDocument {
    pub scene: awsm_renderer_scene::Scene,
    /// How many nodes stand at the top of its hierarchy.
    pub nodes: usize,
}

/// Parse the text of a `scene.toml`.
pub fn parse_scene(text: &str) -> (parsed: Result<SceneDocument, String>)
    ensures
        match scene_document(text@, usize::MAX as nat) {
            Ok(nodes) => parsed is Ok && parsed->Ok_0.nodes == nodes && parsed_from(
                text@,
                parsed->Ok_0.scene,
            ),
            Err(complaint) => parsed is Err && parsed->Err_0@ == Stage::Parse.prefix() + complaint,
        },
{
    match scene_from_toml(text) {
        Ok((scene, nodes)) => Ok(SceneDocument { scene, nodes }),
        Err(complaint) => Err(Stage::Parse.error(complaint.as_str())),
    }
}

/// What the worker reports when the scene document at `url` cannot be had.
pub fn load_error(url: &str, cause: &str) -> (message: String)
    ensures
        message@ == "load scene "@ + url@ + ": "@ + cause@,
{
    let mut message: String = "load scene ".to_string();
    message.append(url);
    message.append(": ");
    message.append(cause);
    message
}

/// The progress line once the pipelines are compiled and the scene is parsed.
pub fn parsed_line(compiled: usize, nodes: usize) -> (line: String)
    ensures
        line@ == "core pipelines ready ("@ + decimal(compiled as nat) + ") · scene parsed ("@
            + decimal(nodes as nat) + " nodes)"@,
{
    let mut line: String = "core pipelines ready (".to_string();
    push_decimal(&mut line, compiled);
    line.append(") · scene parsed (");
    push_decimal(&mut line, nodes);
    line.append(" nodes)");
    line
}

/// An error names its step and keeps its cause word for word.
pub proof fn law_error_keeps_its_cause(stage: Stage, cause: &str, message: String)
    requires
        call_ensures(Stage::error, (&stage, cause), message),
    ensures
        message@ == (match stage {
            Stage::Fetch => "fetch: "@,
            Stage::Read => "read: "@,
            Stage::Parse => "parse: "@,
        }) + cause@,
{
}

/// A text that the parser takes gives its document, with all its top-level nodes
/// counted; one that it does not take gives its complaint word for word.
pub proof fn law_parse_reports_what_the_parser_found(
    text: &str,
    parsed: Result<SceneDocument, String>,
)
    requires
        call_ensures(parse_scene, (text,), parsed),
    ensures
        parsed matches Ok(document) ==> scene_document(text@, usize::MAX as nat) == Ok::<
            nat,
            Seq<char>,
        >(document.nodes as nat) && parsed_from(text@, document.scene),
        parsed matches Err(message) ==> scene_document(text@, usize::MAX as nat) is Err
            && message@ == "parse: "@ + scene_document(text@, usize::MAX as nat)->Err_0,
{
}

/// Parsing a text again counts the same nodes, or fails in the same words.
pub proof fn law_parsing_again_agrees(
    text: &str,
    first: Result<SceneDocument, String>,
    second: Result<SceneDocument, String>,
)
    requires
        call_ensures(parse_scene, (text,), first),
        call_ensures(parse_scene, (text,), second),
    ensures
        first is Ok <==> second is Ok,
        first matches Ok(a) ==> a.nodes == second->Ok_0.nodes,
        first matches Err(a) ==> a@ == second->Err_0@,
{
}

/// The report of a scene that cannot be had names the address and the cause, both word
/// for word.
pub proof fn law_load_error_names_address_and_cause(url: &str, cause: &str, message: String)
    requires
        call_ensures(load_error, (url, cause), message),
    ensures
        message@ == "load scene "@ + url@ + ": "@ + cause@,
{
}

/// The progress line names both counts.
pub proof fn law_parsed_line_names_both_counts(compiled: usize, nodes: usize, line: String)
    requires
        call_ensures(parsed_line, (compiled, nodes), line),
    ensures
        line@ == "core pipelines ready ("@ + decimal(compiled as nat) + ") · scene parsed ("@
            + decimal(nodes as nat) + " nodes)"@,
{
}

} // verus!
