//! Viewers: what is done with a content is decided by the viewer that is
//! registered under a name, and a file is shown by the viewers that its
//! extension calls for.
use vstd::prelude::*;

use crate::node::opt_view;
use crate::text::{lowercase, str_is, to_lowercase};
use crate::utils::shared::{distinct_keys, index_of_key, lemma_index_of_key_is, lemma_store, store};

verus! {

/// What a viewer asks to be done.
#[derive(Clone, PartialEq, Eq, Debug)]
pub enum ViewAction {
    /// Parse the content as Markdown and render the tree.
    Markdown { content: String },
    /// Show the content as source code of the file at the path, if there is
    /// one.
    Code { content: String, file_path: Option<String> },
    /// Draw the image at the path.
    Image { path: String },
}

/// `ViewAction` as plain values.
pub enum ViewActionView {
    Markdown { content: Seq<char> },
    Code { content: Seq<char>, file_path: Option<Seq<char>> },
    Image { path: Seq<char> },
}

impl View for ViewAction {
    type V = ViewActionView;

    open spec fn view(&self) -> ViewActionView {
        match self {
            ViewAction::Markdown { content } => ViewActionView::Markdown { content: content@ },
            ViewAction::Code { content, file_path } => ViewActionView::Code {
                content: content@,
                file_path: opt_view(*file_path),
            },
            ViewAction::Image { path } => ViewActionView::Image { path: path@ },
        }
    }
}

/// Why a viewer cannot show a content.
#[derive(Clone, Copy, PartialEq, Eq, Debug, Structural)]
pub enum ViewError {
    /// An image is shown from a file, and no path was given.
    MissingImagePath,
}

/// The view of what a viewer hands back.
pub open spec fn outcome_view(r: Result<ViewAction, ViewError>) -> Result<ViewActionView, ViewError> {
    match r {
        Ok(action) => Ok(action@),
        Err(e) => Err(e),
    }
}

/// The view of an optional string slice.
pub open spec fn opt_str_view(o: Option<&str>) -> Option<Seq<char>> {
    match o {
        Some(s) => Some(s@),
        None => None,
    }
}

/// Something that decides how a content is shown.
pub trait Viewer {
    /// What this viewer asks to be done with a content.
    spec fn outcome(&self, content: Seq<char>, file_path: Option<Seq<char>>) -> Result<
        ViewActionView,
        ViewError,
    >;

    /// What is to be done with `content`, which was read from `file_path` if
    /// there is one.
    fn visualize(&self, content: &str, file_path: Option<&str>) -> (r: Result<
        ViewAction,
        ViewError,
    >)
        ensures
            outcome_view(r) == self.outcome(content@, opt_str_view(file_path)),
    ;
}

/// The viewers that are there from the start.
#[derive(Clone, Copy, PartialEq, Eq, Debug, Structural)]
pub enum BuiltinViewer {
    MarkdownViewer,
    CodeViewer,
    ImageViewer,
}

impl Viewer for BuiltinViewer {
    open spec fn outcome(&self, content: Seq<char>, file_path: Option<Seq<char>>) -> Result<
        ViewActionView,
        ViewError,
    > {
        match self {
            BuiltinViewer::MarkdownViewer => Ok(ViewActionView::Markdown { content }),
            BuiltinViewer::CodeViewer => Ok(ViewActionView::Code { content, file_path }),
            BuiltinViewer::ImageViewer => match file_path {
                Some(path) => Ok(ViewActionView::Image { path }),
                None => Err(ViewError::MissingImagePath),
            },
        }
    }

    fn visualize(&self, content: &str, file_path: Option<&str>) -> (r: Result<
        ViewAction,
        ViewError,
    >) {
        match self {
            BuiltinViewer::MarkdownViewer => Ok(
                ViewAction::Markdown { content: String::from_str(content) },
            ),
            BuiltinViewer::CodeViewer => Ok(
                ViewAction::Code {
                    content: String::from_str(content),
                    file_path: match file_path {
                        Some(path) => Some(String::from_str(path)),
                        None => None,
                    },
                },
            ),
            BuiltinViewer::ImageViewer => match file_path {
                Some(path) => Ok(ViewAction::Image { path: String::from_str(path) }),
                None => Err(ViewError::MissingImagePath),
            },
        }
    }
}

/// One step of showing a content with several viewers.
#[derive(Clone, PartialEq, Eq, Debug)]
pub enum ViewStep {
    /// An empty line between two viewers.
    Separator,
    /// What a viewer asks to be done.
    Show(ViewAction),
    /// A report that no viewer is registered under the name.
    UnknownViewer(String),
}

/// `ViewStep` as plain values.
pub enum ViewStepView {
    Separator,
    Show(ViewActionView),
    UnknownViewer(Seq<char>),
}

impl View for ViewStep {
    type V = ViewStepView;

    open spec fn view(&self) -> ViewStepView {
        match self {
            ViewStep::Separator => ViewStepView::Separator,
            ViewStep::Show(action) => ViewStepView::Show(action@),
            ViewStep::UnknownViewer(name) => ViewStepView::UnknownViewer(name@),
        }
    }
}

/// What showing a content comes to: the steps to take, in order, and the
/// error that ended them, if one did.
#[derive(Clone, PartialEq, Eq, Debug)]
pub struct ViewPlan {
    pub steps: Vec<ViewStep>,
    pub failure: Option<ViewError>,
}

/// `ViewPlan` as plain values.
#[verifier::ext_equal]
pub struct ViewPlanView {
    pub steps: Seq<ViewStepView>,
    pub failure: Option<ViewError>,
}

impl View for ViewPlan {
    type V = ViewPlanView;

    open spec fn view(&self) -> ViewPlanView {
        ViewPlanView {
            steps: Seq::new(self.steps@.len(), |i: int| self.steps@[i]@),
            failure: self.failure,
        }
    }
}

/// A viewer with the name that it is registered under.
pub struct Registered<V> {
    pub name: String,
    pub viewer: V,
}

/// The viewers, each under its name.
pub struct ViewerManager<V: Viewer> {
    pub viewers: Vec<Registered<V>>,
}

/// The steps that the viewer named by `names[i]` adds: an empty line in
/// front of every viewer but the first, then what the viewer asks for, or a
/// report where no viewer has that name.
pub open spec fn steps_of<V: Viewer>(
    viewers: Seq<(Seq<char>, V)>,
    names: Seq<String>,
    i: int,
    content: Seq<char>,
    file_path: Option<Seq<char>>,
) -> ViewPlanView {
    let lead = if i > 0 {
        seq![ViewStepView::Separator]
    } else {
        Seq::empty()
    };
    match index_of_key(viewers, names[i]@) {
        Some(at) => match viewers[at].1.outcome(content, file_path) {
            Ok(action) => ViewPlanView { steps: lead + seq![ViewStepView::Show(action)], failure: None },
            Err(e) => ViewPlanView { steps: lead, failure: Some(e) },
        },
        None => ViewPlanView {
            steps: lead + seq![ViewStepView::UnknownViewer(names[i]@)],
            failure: None,
        },
    }
}

/// The plan for the first `k` names: the steps of each name in turn, up to
/// the first viewer that fails.
pub open spec fn plan_of<V: Viewer>(
    viewers: Seq<(Seq<char>, V)>,
    names: Seq<String>,
    k: nat,
    content: Seq<char>,
    file_path: Option<Seq<char>>,
) -> ViewPlanView
    decreases k,
{
    if k == 0 || k > names.len() {
        ViewPlanView { steps: Seq::empty(), failure: None }
    } else {
        let before = plan_of(viewers, names, (k - 1) as nat, content, file_path);
        if before.failure.is_some() {
            before
        } else {
            let next = steps_of(viewers, names, k - 1, content, file_path);
            ViewPlanView { steps: before.steps + next.steps, failure: next.failure }
        }
    }
}

impl<V: Viewer> View for ViewerManager<V> {
    type V = Seq<(Seq<char>, V)>;

    open spec fn view(&self) -> Seq<(Seq<char>, V)> {
        Seq::new(self.viewers@.len(), |i: int| (self.viewers@[i].name@, self.viewers@[i].viewer))
    }
}

impl ViewerManager<BuiltinViewer> {
    /// The viewers that are there from the start: `markdown`, `code` and
    /// `image`.
    pub fn new() -> (manager: ViewerManager<BuiltinViewer>)
        ensures
            manager.wf(),
            manager@ == seq![
                ("markdown"@, BuiltinViewer::MarkdownViewer),
                ("code"@, BuiltinViewer::CodeViewer),
                ("image"@, BuiltinViewer::ImageViewer),
            ],
    {
        let mut manager = ViewerManager { viewers: Vec::new() };
        proof {
            assert(manager@ =~= Seq::empty());
            reveal_strlit("markdown");
            reveal_strlit("code");
            reveal_strlit("image");
            assert("markdown"@.len() != "code"@.len());
            assert("markdown"@.len() != "image"@.len());
            assert("code"@.len() != "image"@.len());
        }
        manager.register_viewer("markdown", BuiltinViewer::MarkdownViewer);
        proof {
            assert(manager@ =~= seq![("markdown"@, BuiltinViewer::MarkdownViewer)]);
            assert(index_of_key(manager@, "code"@).is_none()) by {
                lemma_index_of_key_is(manager@, "code"@, 1);
            }
        }
        manager.register_viewer("code", BuiltinViewer::CodeViewer);
        proof {
            assert(manager@ =~= seq![
                ("markdown"@, BuiltinViewer::MarkdownViewer),
                ("code"@, BuiltinViewer::CodeViewer),
            ]);
            assert(index_of_key(manager@, "image"@).is_none()) by {
                lemma_index_of_key_is(manager@, "image"@, 2);
            }
        }
        manager.register_viewer("image", BuiltinViewer::ImageViewer);
        manager
    }
}

impl<V: Viewer> ViewerManager<V> {
    /// No name is registered twice.
    pub open spec fn wf(&self) -> bool {
        distinct_keys(self@)
    }

    /// A manager without viewers.
    pub fn empty() -> (manager: ViewerManager<V>)
        ensures
            manager.wf(),
            manager@ == Seq::<(Seq<char>, V)>::empty(),
    {
        let manager = ViewerManager { viewers: Vec::new() };
        assert(manager@ =~= Seq::empty());
        manager
    }

    /// Position of the viewer registered under `name`.
    pub fn position(&self, name: &str) -> (r: Option<usize>)
        ensures
            match r {
                Some(i) => index_of_key(self@, name@) == Some(i as int) && i < self.viewers.len(),
                None => index_of_key(self@, name@).is_none(),
            },
    {
        let mut i: usize = 0;
        while i < self.viewers.len()
            invariant
                i <= self.viewers.len(),
                forall|k: int| 0 <= k < i ==> (#[trigger] self@[k]).0 != name@,
            decreases self.viewers.len() - i,
        {
            if str_is(self.viewers[i].name.as_str(), name) {
                proof {
                    lemma_index_of_key_is(self@, name@, i as int);
                }
                return Some(i);
            }
            i = i + 1;
        }
        proof {
            lemma_index_of_key_is(self@, name@, i as int);
        }
        None
    }

    /// Registers `viewer` under `name`, in place of a viewer that is
    /// registered under that name already.
    pub fn register_viewer(&mut self, name: &str, viewer: V)
        ensures
            final(self)@ == store(old(self)@, name@, viewer),
            old(self).wf() ==> final(self).wf(),
    {
        proof {
            if self.wf() {
                lemma_store(self@, name@, viewer);
            }
        }
        match self.position(name) {
            Some(i) => {
                self.viewers.set(i, Registered { name: String::from_str(name), viewer });
            },
            None => {
                self.viewers.push(Registered { name: String::from_str(name), viewer });
            },
        }
        assert(self@ =~= store(old(self)@, name@, viewer));
    }

    /// Plans the showing of `content` by the viewers that `viewer_names`
    /// names, in that order. A name without a viewer is reported and passed
    /// over; a viewer that fails ends the plan.
    pub fn visualize(&self, viewer_names: &[String], content: &str, file_path: Option<&str>) -> (plan:
        ViewPlan)
        ensures
            plan@ == plan_of(
                self@,
                viewer_names@,
                viewer_names@.len(),
                content@,
                opt_str_view(file_path),
            ),
    {
        let mut plan = ViewPlan { steps: Vec::new(), failure: None };
        let mut i: usize = 0;
        proof {
            assert(plan@.steps =~= Seq::empty());
        }
        while i < viewer_names.len()
            invariant
                i <= viewer_names.len(),
                plan.failure.is_none(),
                plan@ == plan_of(
                    self@,
                    viewer_names@,
                    i as nat,
                    content@,
                    opt_str_view(file_path),
                ),
            decreases viewer_names.len() - i,
        {
            let ghost before = plan@;
            let ghost next = steps_of(
                self@,
                viewer_names@,
                i as int,
                content@,
                opt_str_view(file_path),
            );
            if i > 0 {
                plan.steps.push(ViewStep::Separator);
            }
            match self.position(viewer_names[i].as_str()) {
                Some(at) => {
                    match self.viewers[at].viewer.visualize(content, file_path) {
                        Ok(action) => {
                            plan.steps.push(ViewStep::Show(action));
                            proof {
                                assert(plan@.steps =~= before.steps + next.steps);
                            }
                        },
                        Err(e) => {
                            plan.failure = Some(e);
                            proof {
                                assert(plan@.steps =~= before.steps + next.steps);
                                lemma_plan_stays(
                                    self@,
                                    viewer_names@,
                                    (i + 1) as nat,
                                    viewer_names@.len(),
                                    content@,
                                    opt_str_view(file_path),
                                );
                            }
                            return plan;
                        },
                    }
                },
                None => {
                    plan.steps.push(ViewStep::UnknownViewer(viewer_names[i].clone()));
                    proof {
                        assert(plan@.steps =~= before.steps + next.steps);
                    }
                },
            }
            i = i + 1;
        }
        plan
    }
}

/// A plan that has failed stays as it is, whatever names follow.
pub proof fn lemma_plan_stays<V: Viewer>(
    viewers: Seq<(Seq<char>, V)>,
    names: Seq<String>,
    j: nat,
    k: nat,
    content: Seq<char>,
    file_path: Option<Seq<char>>,
)
    requires
        j <= k <= names.len(),
        plan_of(viewers, names, j, content, file_path).failure.is_some(),
    ensures
        plan_of(viewers, names, k, content, file_path) == plan_of(
            viewers,
            names,
            j,
            content,
            file_path,
        ),
    decreases k - j,
{
    if j < k {
        lemma_plan_stays(viewers, names, j, (k - 1) as nat, content, file_path);
    }
}

/// The names of the viewers that show a file whose extension, in lower
/// case, is `extension`.
pub open spec fn viewers_for(extension: Seq<char>) -> Seq<Seq<char>> {
    if extension == "md"@ {
        seq!["markdown"@]
    } else if extension == "jpg"@ || extension == "jpeg"@ || extension == "png"@ || extension
        == "gif"@ || extension == "bmp"@ || extension == "webp"@ {
        seq!["image"@]
    } else {
        seq!["code"@]
    }
}

/// The views of the strings of `names`.
pub open spec fn names_view(names: Seq<String>) -> Seq<Seq<char>> {
    Seq::new(names.len(), |i: int| names[i]@)
}

/// The names of the viewers that show a file with the extension
/// `extension`, which is in lower case: `markdown` for `md`, `image` for the
/// image formats, `code` for anything else.
pub fn viewer_for_extension(extension: &str) -> (names: Vec<String>)
    ensures
        names_view(names@) == viewers_for(extension@),
{
    let name = if str_is(extension, "md") {
        "markdown"
    } else if str_is(extension, "jpg") || str_is(extension, "jpeg") || str_is(extension, "png")
        || str_is(extension, "gif") || str_is(extension, "bmp") || str_is(extension, "webp") {
        "image"
    } else {
        "code"
    };
    let mut names: Vec<String> = Vec::new();
    names.push(String::from_str(name));
    proof {
        assert(names_view(names@) =~= seq![name@]);
    }
    names
}

/// Asks `std::path::Path::extension` for the extension of a path, and hands
/// it back where it is valid Unicode. What counts as a path separator
/// depends on the platform, so the contract says nothing of the result.
#[verifier::external_body]
pub(crate) fn path_extension(path: &str) -> (r: Option<String>) {
    match std::path::Path::new(path).extension() {
        Some(extension) => extension.to_str().map(String::from),
        None => None,
    }
}

/// The names of the viewers that show the file at `file_path`, by the
/// extension of its name, whatever the case of its letters. A path without an
/// extension is shown as one with an empty extension is.
pub fn determine_viewer(file_path: &str) -> (names: Vec<String>)
    ensures
        exists|extension: Seq<char>| names_view(names@) == viewers_for(lowercase(extension)),
{
    let extension = match path_extension(file_path) {
        Some(e) => e,
        None => String::from_str(""),
    };
    viewer_for_extension(to_lowercase(extension.as_str()).as_str())
}

} // verus!
