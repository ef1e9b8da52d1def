//! The storyboard that the generation service writes: what it is asked, and
//! what is read out of its answer.

use vstd::prelude::*;
use crate::json::{items_of, member, text_of, Json};
use crate::openai::types::{ContentPart, Input};

verus! {

/// One scene of a storyboard.
#[derive(Debug, Clone, PartialEq, Eq)]
pub struct Scene {
    pub id: String,
    pub title: String,
    pub description: String,
    pub duration: String,
}

/// A storyboard: its scenes in order, and the style they share.
#[derive(Debug, Clone, PartialEq, Eq)]
pub struct StoryboardData {
    pub scenes: Vec<Scene>,
    pub global_style: String,
}

/// A [`Scene`] as text.
pub struct SceneView {
    pub id: Seq<char>,
    pub title: Seq<char>,
    pub description: Seq<char>,
    pub duration: Seq<char>,
}

impl View for Scene {
    type V = SceneView;

    open spec fn view(&self) -> SceneView {
        SceneView {
            id: self.id@,
            title: self.title@,
            description: self.description@,
            duration: self.duration@,
        }
    }
}

/// The views of a list of scenes.
pub open spec fn scene_views(scenes: Seq<Scene>) -> Seq<SceneView> {
    Seq::new(scenes.len(), |i: int| scenes[i]@)
}

/// The text of the member `key` of `value`, if it has one that is a string.
pub open spec fn text_member(value: Json, key: Seq<char>) -> Option<Seq<char>> {
    match member(value, key) {
        Some(v) => text_of(v),
        None => None,
    }
}

/// The scene that `value` describes. Title and description must be there;
/// the id stands in for `1` and the duration for `3s` where they are not.
pub open spec fn scene_from(value: Json) -> Result<SceneView, Seq<char>> {
    match text_member(value, "title"@) {
        None => Err("Missing 'title'"@),
        Some(title) => match text_member(value, "description"@) {
            None => Err("Missing 'description'"@),
            Some(description) => Ok(
                SceneView {
                    id: match text_member(value, "id"@) {
                        Some(id) => id,
                        None => "1"@,
                    },
                    title,
                    description,
                    duration: match text_member(value, "duration"@) {
                        Some(d) => d,
                        None => "3s"@,
                    },
                },
            ),
        },
    }
}

/// The scenes that the first `k` of `items` describe, or the failure of the
/// first that describes none.
pub open spec fn scenes_upto(items: Seq<Json>, k: int) -> Result<Seq<SceneView>, Seq<char>>
    decreases k,
{
    if k <= 0 {
        Ok(Seq::<SceneView>::empty())
    } else {
        match scenes_upto(items, k - 1) {
            Err(e) => Err(e),
            Ok(scenes) => match scene_from(items[k - 1]) {
                Ok(scene) => Ok(scenes.push(scene)),
                Err(e) => Err(e),
            },
        }
    }
}

/// The style of a storyboard that names none.
pub open spec fn default_style() -> Seq<char> {
    "Cinematic global with smooth transitions"@
}

/// The storyboard that `json` describes: the scenes of its member `scenes`,
/// which must be an array, and its `global_style`.
pub open spec fn storyboard_from(json: Json) -> Result<(Seq<SceneView>, Seq<char>), Seq<char>> {
    match member(json, "scenes"@) {
        None => Err("Missing 'scenes' field"@),
        Some(scenes) => match items_of(scenes) {
            None => Err("Missing 'scenes' field"@),
            Some(items) => match scenes_upto(items, items.len() as int) {
                Err(e) => Err(e),
                Ok(list) => Ok(
                    (
                        list,
                        match text_member(json, "global_style"@) {
                            Some(style) => style,
                            None => default_style(),
                        },
                    ),
                ),
            },
        },
    }
}

/// A failure among the scenes stays the failure, however many follow.
pub proof fn lemma_scenes_failure_stays(items: Seq<Json>, k: int, n: int)
    requires
        scenes_upto(items, k) is Err,
        k <= n,
    ensures
        scenes_upto(items, n) == scenes_upto(items, k),
    decreases n - k,
{
    if k < n {
        lemma_scenes_failure_stays(items, k, n - 1);
    }
}

/// Reads the text of a member: see [`text_member`].
fn get_text<'a>(value: &'a Json, key: &str) -> (text: Option<&'a str>)
    ensures
        text matches Some(s) ==> text_member(*value, key@) == Some(s@),
        text is None ==> text_member(*value, key@) is None,
{
    match value.get(key) {
        Some(v) => v.as_str(),
        None => None,
    }
}

/// Reads a scene: see [`scene_from`].
fn parse_scene(value: &Json) -> (r: Result<Scene, String>)
    ensures
        match scene_from(*value) {
            Ok(scene) => r is Ok && r->Ok_0@ == scene,
            Err(e) => r is Err && r->Err_0@ == e,
        },
{
    let title = match get_text(value, "title") {
        Some(t) => t,
        None => {
            return Err(String::from_str("Missing 'title'"));
        },
    };
    let description = match get_text(value, "description") {
        Some(d) => d,
        None => {
            return Err(String::from_str("Missing 'description'"));
        },
    };
    let id = match get_text(value, "id") {
        Some(id) => id,
        None => "1",
    };
    let duration = match get_text(value, "duration") {
        Some(d) => d,
        None => "3s",
    };
    Ok(
        Scene {
            id: String::from_str(id),
            title: String::from_str(title),
            description: String::from_str(description),
            duration: String::from_str(duration),
        },
    )
}

/// Reads a storyboard: see [`storyboard_from`].
pub fn parse_storyboard_from_json(json: &Json) -> (r: Result<StoryboardData, String>)
    ensures
        match storyboard_from(*json) {
            Ok((scenes, style)) => r is Ok && scene_views(r->Ok_0.scenes@) == scenes
                && r->Ok_0.global_style@ == style,
            Err(e) => r is Err && r->Err_0@ == e,
        },
{
    let items = match json.get("scenes") {
        Some(scenes) => match scenes.as_array() {
            Some(items) => items,
            None => {
                return Err(String::from_str("Missing 'scenes' field"));
            },
        },
        None => {
            return Err(String::from_str("Missing 'scenes' field"));
        },
    };
    let mut scenes: Vec<Scene> = Vec::new();
    let mut k: usize = 0;
    assert(scene_views(scenes@) =~= Seq::<SceneView>::empty());
    while k < items.len()
        invariant
            k <= items.len(),
            member(*json, "scenes"@) is Some,
            items_of(member(*json, "scenes"@)->Some_0) == Some(items@),
            scenes_upto(items@, k as int) == Ok::<Seq<SceneView>, Seq<char>>(scene_views(scenes@)),
        decreases items.len() - k,
    {
        match parse_scene(&items[k]) {
            Ok(scene) => {
                let ghost before = scene_views(scenes@);
                scenes.push(scene);
                assert(scene_views(scenes@) =~= before.push(scene@));
            },
            Err(e) => {
                proof {
                    assert(scenes_upto(items@, k + 1) is Err);
                    lemma_scenes_failure_stays(items@, k + 1, items@.len() as int);
                }
                return Err(e);
            },
        }
        k = k + 1;
    }
    let global_style = match get_text(json, "global_style") {
        Some(style) => style,
        None => "Cinematic global with smooth transitions",
    };
    Ok(StoryboardData { scenes, global_style: String::from_str(global_style) })
}

/// Whether the member `type` of `item` is the text `kind`.
pub open spec fn is_of_type(item: Json, kind: Seq<char>) -> bool {
    text_member(item, "type"@) == Some(kind)
}

/// Position of the first of `items` at or after `from` that is of the type
/// `kind`.
pub open spec fn first_of_type(items: Seq<Json>, kind: Seq<char>, from: int) -> Option<int>
    decreases items.len() - from,
{
    if from < 0 || from >= items.len() {
        None
    } else if is_of_type(items[from], kind) {
        Some(from)
    } else {
        first_of_type(items, kind, from + 1)
    }
}

/// The text of an answer. Of an array, it is the text of the first
/// `output_text` in the content of the first `message`; of anything else,
/// its member `text`.
pub open spec fn response_text(output: Json) -> Result<Seq<char>, Seq<char>> {
    match items_of(output) {
        Some(items) => match first_of_type(items, "message"@, 0) {
            Some(m) => match member(items[m], "content"@) {
                Some(content) => match items_of(content) {
                    Some(parts) => match first_of_type(parts, "output_text"@, 0) {
                        Some(p) => match text_member(parts[p], "text"@) {
                            Some(text) => Ok(text),
                            None => Err("No output_text found in response"@),
                        },
                        None => Err("No output_text found in response"@),
                    },
                    None => Err("No output_text found in response"@),
                },
                None => Err("No output_text found in response"@),
            },
            None => Err("No output_text found in response"@),
        },
        None => match text_member(output, "text"@) {
            Some(text) => Ok(text),
            None => Err("Unexpected response format"@),
        },
    }
}

/// Finds the first of `items` that is of the type `kind`.
fn find_of_type<'a>(items: &'a Vec<Json>, kind: &str) -> (found: Option<&'a Json>)
    ensures
        match first_of_type(items@, kind@, 0) {
            Some(i) => found is Some && *found->Some_0 == items@[i],
            None => found is None,
        },
{
    let wanted = String::from_str(kind);
    let mut i: usize = 0;
    while i < items.len()
        invariant
            i <= items.len(),
            wanted@ == kind@,
            first_of_type(items@, kind@, 0) == first_of_type(items@, kind@, i as int),
        decreases items.len() - i,
    {
        let matches = match get_text(&items[i], "type") {
            Some(t) => String::from_str(t) == wanted,
            None => false,
        };
        if matches {
            assert(first_of_type(items@, kind@, i as int) == Some(i as int));
            return Some(&items[i]);
        }
        i = i + 1;
    }
    None
}

/// Reads the text of an answer: see [`response_text`].
pub fn extract_response_text(output: &Json) -> (r: Result<&str, String>)
    ensures
        match response_text(*output) {
            Ok(text) => r is Ok && r->Ok_0@ == text,
            Err(e) => r is Err && r->Err_0@ == e,
        },
{
    match output.as_array() {
        Some(items) => {
            let found = match find_of_type(items, "message") {
                Some(message) => match message.get("content") {
                    Some(content) => match content.as_array() {
                        Some(parts) => match find_of_type(parts, "output_text") {
                            Some(part) => get_text(part, "text"),
                            None => None,
                        },
                        None => None,
                    },
                    None => None,
                },
                None => None,
            };
            match found {
                Some(text) => Ok(text),
                None => Err(String::from_str("No output_text found in response")),
            }
        },
        None => match get_text(output, "text") {
            Some(text) => Ok(text),
            None => Err(String::from_str("Unexpected response format")),
        },
    }
}

/// What the service is told by the user: the prompt; or, where a storyboard
/// is refined, the storyboard as it is and then the prompt.
pub open spec fn storyboard_message(prompt: Seq<char>, current: Option<Seq<char>>) -> Seq<char> {
    match current {
        Some(json) => "Current storyboard:\n\n"@ + json + "\n\nRefine based on: "@ + prompt,
        None => prompt,
    }
}

/// Builds [`storyboard_message`].
pub fn build_storyboard_message(prompt: &str, current: Option<&str>) -> (message: String)
    ensures
        message@ == storyboard_message(
            prompt@,
            match current {
                Some(json) => Some(json@),
                None => None,
            },
        ),
{
    match current {
        Some(json) => {
            let mut message = String::from_str("Current storyboard:\n\n");
            message.append(json);
            message.append("\n\nRefine based on: ");
            message.append(prompt);
            message
        },
        None => String::from_str(prompt),
    }
}

/// The model that writes a storyboard where none is asked for.
pub fn storyboard_model(model: Option<String>) -> (chosen: String)
    ensures
        model is Some ==> chosen == model->Some_0,
        model is None ==> chosen@ == "gpt-4o"@,
{
    match model {
        Some(m) => m,
        None => String::from_str("gpt-4o"),
    }
}

/// What is sent for a storyboard: the instruction in the name of the system,
/// then in the name of the user the reference image, if there is one, and
/// the message.
pub fn storyboard_input(system_instruction: String, image_url: Option<String>, message: String) -> (input:
    Vec<Input>)
    ensures
        input@.len() == 2,
        input@[0].role is Some && input@[0].role->Some_0@ == "system"@,
        input@[0].content@ == seq![ContentPart::InputText { text: system_instruction }],
        input@[1].role is Some && input@[1].role->Some_0@ == "user"@,
        input@[1].content@ == (match image_url {
            Some(url) => seq![
                ContentPart::InputImage { image_url: url },
                ContentPart::InputText { text: message },
            ],
            None => seq![ContentPart::InputText { text: message }],
        }),
{
    let mut system_content: Vec<ContentPart> = Vec::new();
    system_content.push(ContentPart::InputText { text: system_instruction });
    let mut user_content: Vec<ContentPart> = Vec::new();
    match image_url {
        Some(url) => {
            user_content.push(ContentPart::InputImage { image_url: url });
        },
        None => {},
    }
    user_content.push(ContentPart::InputText { text: message });
    let mut input: Vec<Input> = Vec::new();
    input.push(Input { role: Some(String::from_str("system")), content: system_content });
    input.push(Input { role: Some(String::from_str("user")), content: user_content });
    assert(input@[0].content@ =~= seq![ContentPart::InputText { text: system_instruction }]);
    assert(input@[1].content@ =~= (match image_url {
        Some(url) => seq![
            ContentPart::InputImage { image_url: url },
            ContentPart::InputText { text: message },
        ],
        None => seq![ContentPart::InputText { text: message }],
    }));
    input
}

} // verus!
