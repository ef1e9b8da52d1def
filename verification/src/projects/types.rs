//! What is recorded of a project, of its videos and of its storyboard scenes.

use vstd::prelude::*;

verus! {

/// A project as it is listed.
#[derive(Debug, Clone, PartialEq, Eq)]
pub struct ProjectSummary {
    pub name: String,
    pub path: String,
    pub created_at: i64,
}

/// The metadata kept with a project.
#[derive(Debug, Clone, PartialEq, Eq)]
pub struct ProjectMeta {
    pub videos: Vec<VideoMeta>,
    pub path: String,
    pub created_at: i64,
    pub storyboard_response_id: Option<String>,
}

/// One generated video of a project.
#[derive(Debug, Clone, PartialEq, Eq)]
pub struct VideoMeta {
    pub id: String,
    pub prompt: String,
    pub model: String,
    pub resolution: String,
    pub duration: i32,
    pub created_at: i64,
    pub scene_number: Option<i32>,
    pub scene_title: Option<String>,
    pub sample_number: Option<i32>,
    pub remixed_from_video_id: Option<String>,
    pub remix_prompt: Option<String>,
}

/// A scene as the index of scenes lists it.
#[derive(Debug, Clone, PartialEq, Eq)]
pub struct SceneSummary {
    pub id: String,
    pub title: String,
    pub duration: String,
    pub has_reference_image: bool,
    pub order: i32,
}

/// A scene with its description.
#[derive(Debug, Clone, PartialEq, Eq)]
pub struct SceneDetails {
    pub id: String,
    pub title: String,
    pub duration: String,
    pub description: String,
    pub has_reference_image: bool,
    pub order: i32,
}

/// A [`SceneSummary`] as text.
pub struct SceneSummaryView {
    pub id: Seq<char>,
    pub title: Seq<char>,
    pub duration: Seq<char>,
    pub has_reference_image: bool,
    pub order: i32,
}

impl View for SceneSummary {
    type V = SceneSummaryView;

    open spec fn view(&self) -> SceneSummaryView {
        SceneSummaryView {
            id: self.id@,
            title: self.title@,
            duration: self.duration@,
            has_reference_image: self.has_reference_image,
            order: self.order,
        }
    }
}

/// A [`SceneDetails`] as text.
pub struct SceneDetailsView {
    pub id: Seq<char>,
    pub title: Seq<char>,
    pub duration: Seq<char>,
    pub description: Seq<char>,
    pub has_reference_image: bool,
    pub order: i32,
}

impl View for SceneDetails {
    type V = SceneDetailsView;

    open spec fn view(&self) -> SceneDetailsView {
        SceneDetailsView {
            id: self.id@,
            title: self.title@,
            duration: self.duration@,
            description: self.description@,
            has_reference_image: self.has_reference_image,
            order: self.order,
        }
    }
}

/// The views of a list of summaries.
pub open spec fn summary_views(summaries: Seq<SceneSummary>) -> Seq<SceneSummaryView> {
    Seq::new(summaries.len(), |i: int| summaries[i]@)
}

/// A copy of `summary`.
pub fn clone_summary(summary: &SceneSummary) -> (copy: SceneSummary)
    ensures
        copy@ == summary@,
{
    SceneSummary {
        id: summary.id.clone(),
        title: summary.title.clone(),
        duration: summary.duration.clone(),
        has_reference_image: summary.has_reference_image,
        order: summary.order,
    }
}

} // verus!
