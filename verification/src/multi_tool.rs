//! Tools: like viewers, but each tool announces itself above what it shows,
//! and a rule is drawn between two tools.
use vstd::prelude::*;

use crate::output::{Color, OpView, RenderOp, Style};
use crate::text::{lowercase, push_str, str_is, string_of, to_lowercase};
use crate::utils::shared::{distinct_keys, index_of_key, lemma_index_of_key_is, lemma_store, store};
use crate::viewers::{
    names_view, opt_str_view, outcome_view, ViewAction, ViewActionView, ViewError,
};

verus! {

/// Something that decides how a content is shown.
pub trait Tool {
    /// What this tool asks to be done with a content.
    spec fn outcome(&self, content: Seq<char>, file_path: Option<Seq<char>>) -> Result<
        ViewActionView,
        ViewError,
    >;

    /// What is to be done with `content`, which was read from `file_path` if
    /// there is one.
    fn visualize(&self, content: &str, file_path: Option<&str>) -> (r: Result<
        ViewAction,
        ViewError,
    >)
        ensures
            outcome_view(r) == self.outcome(content@, opt_str_view(file_path)),
    ;
}

/// The tools that are there from the start.
#[derive(Clone, Copy, PartialEq, Eq, Debug, Structural)]
pub enum BuiltinTool {
    MarkdownTool,
    CodeTool,
    ImageTool,
}

impl Tool for BuiltinTool {
    open spec fn outcome(&self, content: Seq<char>, file_path: Option<Seq<char>>) -> Result<
        ViewActionView,
        ViewError,
    > {
        match self {
            BuiltinTool::MarkdownTool => Ok(ViewActionView::Markdown { content }),
            BuiltinTool::CodeTool => Ok(ViewActionView::Code { content, file_path }),
            BuiltinTool::ImageTool => match file_path {
                Some(path) => Ok(ViewActionView::Image { path }),
                None => Err(ViewError::MissingImagePath),
            },
        }
    }

    fn visualize(&self, content: &str, file_path: Option<&str>) -> (r: Result<
        ViewAction,
        ViewError,
    >) {
        match self {
            BuiltinTool::MarkdownTool => Ok(
                ViewAction::Markdown { content: String::from_str(content) },
            ),
            BuiltinTool::CodeTool => Ok(
                ViewAction::Code {
                    content: String::from_str(content),
                    file_path: match file_path {
                        Some(path) => Some(String::from_str(path)),
                        None => None,
                    },
                },
            ),
            BuiltinTool::ImageTool => match file_path {
                Some(path) => Ok(ViewAction::Image { path: String::from_str(path) }),
                None => Err(ViewError::MissingImagePath),
            },
        }
    }
}

/// One step of showing a content with several tools.
#[derive(Clone, PartialEq, Eq, Debug)]
pub enum ToolStep {
    /// Something to write to the terminal.
    Write(RenderOp),
    /// What a tool asks to be done.
    Show(ViewAction),
    /// A report that no tool is registered under the name.
    UnknownTool(String),
}

/// `ToolStep` as plain values.
pub enum ToolStepView {
    Write(OpView),
    Show(ViewActionView),
    UnknownTool(Seq<char>),
}

impl View for ToolStep {
    type V = ToolStepView;

    open spec fn view(&self) -> ToolStepView {
        match self {
            ToolStep::Write(op) => ToolStepView::Write(op@),
            ToolStep::Show(action) => ToolStepView::Show(action@),
            ToolStep::UnknownTool(name) => ToolStepView::UnknownTool(name@),
        }
    }
}

/// What showing a content comes to: the steps to take, in order, and the
/// error that ended them, if one did.
#[derive(Clone, PartialEq, Eq, Debug)]
pub struct ToolPlan {
    pub steps: Vec<ToolStep>,
    pub failure: Option<ViewError>,
}

/// `ToolPlan` as plain values.
#[verifier::ext_equal]
pub struct ToolPlanView {
    pub steps: Seq<ToolStepView>,
    pub failure: Option<ViewError>,
}

impl View for ToolPlan {
    type V = ToolPlanView;

    open spec fn view(&self) -> ToolPlanView {
        ToolPlanView {
            steps: Seq::new(self.steps@.len(), |i: int| self.steps@[i]@),
            failure: self.failure,
        }
    }
}

/// A tool with the name that it is registered under.
pub struct RegisteredTool<T> {
    pub name: String,
    pub tool: T,
}

/// The tools, each under its name.
pub struct MultiTool<T: Tool> {
    pub tools: Vec<RegisteredTool<T>>,
}

/// The rule between two tools.
pub open spec fn rule_steps() -> Seq<ToolStepView> {
    seq![
        ToolStepView::Write(OpView::Text("\n"@)),
        ToolStepView::Write(OpView::SetStyle(Style::fg(Color::Cyan))),
        ToolStepView::Write(OpView::Text("---\n"@)),
        ToolStepView::Write(OpView::Reset),
        ToolStepView::Write(OpView::Text("\n"@)),
    ]
}

/// The line by which the tool `name` announces itself.
pub open spec fn banner_steps(name: Seq<char>) -> Seq<ToolStepView> {
    seq![
        ToolStepView::Write(OpView::SetStyle(Style::fg(Color::Green))),
        ToolStepView::Write(OpView::Text("Visualization with "@ + name + "\n"@)),
        ToolStepView::Write(OpView::Reset),
        ToolStepView::Write(OpView::Text("\n"@)),
    ]
}

/// The steps that the tool named by `names[i]` adds: a rule in front of
/// every tool but the first, then the tool's banner and what it asks for, or
/// a report where no tool has that name.
pub open spec fn tool_steps_of<T: Tool>(
    tools: Seq<(Seq<char>, T)>,
    names: Seq<String>,
    i: int,
    content: Seq<char>,
    file_path: Option<Seq<char>>,
) -> ToolPlanView {
    let lead = if i > 0 {
        rule_steps()
    } else {
        Seq::empty()
    };
    match index_of_key(tools, names[i]@) {
        Some(at) => match tools[at].1.outcome(content, file_path) {
            Ok(action) => ToolPlanView {
                steps: lead + banner_steps(names[i]@) + seq![ToolStepView::Show(action)],
                failure: None,
            },
            Err(e) => ToolPlanView { steps: lead + banner_steps(names[i]@), failure: Some(e) },
        },
        None => ToolPlanView {
            steps: lead + seq![ToolStepView::UnknownTool(names[i]@)],
            failure: None,
        },
    }
}

/// The plan for the first `k` names: the steps of each name in turn, up to
/// the first tool that fails.
pub open spec fn tool_plan_of<T: Tool>(
    tools: Seq<(Seq<char>, T)>,
    names: Seq<String>,
    k: nat,
    content: Seq<char>,
    file_path: Option<Seq<char>>,
) -> ToolPlanView
    decreases k,
{
    if k == 0 || k > names.len() {
        ToolPlanView { steps: Seq::empty(), failure: None }
    } else {
        let before = tool_plan_of(tools, names, (k - 1) as nat, content, file_path);
        if before.failure.is_some() {
            before
        } else {
            let next = tool_steps_of(tools, names, k - 1, content, file_path);
            ToolPlanView { steps: before.steps + next.steps, failure: next.failure }
        }
    }
}

/// A plan that has failed stays as it is, whatever names follow.
pub proof fn lemma_tool_plan_stays<T: Tool>(
    tools: Seq<(Seq<char>, T)>,
    names: Seq<String>,
    j: nat,
    k: nat,
    content: Seq<char>,
    file_path: Option<Seq<char>>,
)
    requires
        j <= k <= names.len(),
        tool_plan_of(tools, names, j, content, file_path).failure.is_some(),
    ensures
        tool_plan_of(tools, names, k, content, file_path) == tool_plan_of(
            tools,
            names,
            j,
            content,
            file_path,
        ),
    decreases k - j,
{
    if j < k {
        lemma_tool_plan_stays(tools, names, j, (k - 1) as nat, content, file_path);
    }
}

impl<T: Tool> View for MultiTool<T> {
    type V = Seq<(Seq<char>, T)>;

    open spec fn view(&self) -> Seq<(Seq<char>, T)> {
        Seq::new(self.tools@.len(), |i: int| (self.tools@[i].name@, self.tools@[i].tool))
    }
}

impl MultiTool<BuiltinTool> {
    /// The tools that are there from the start: `markdown`, `code` and
    /// `image`.
    pub fn new() -> (multi_tool: MultiTool<BuiltinTool>)
        ensures
            multi_tool.wf(),
            multi_tool@ == seq![
                ("markdown"@, BuiltinTool::MarkdownTool),
                ("code"@, BuiltinTool::CodeTool),
                ("image"@, BuiltinTool::ImageTool),
            ],
    {
        let mut multi_tool = MultiTool { tools: Vec::new() };
        proof {
            assert(multi_tool@ =~= Seq::empty());
            reveal_strlit("markdown");
            reveal_strlit("code");
            reveal_strlit("image");
            assert("markdown"@.len() != "code"@.len());
            assert("markdown"@.len() != "image"@.len());
            assert("code"@.len() != "image"@.len());
        }
        multi_tool.register_tool("markdown", BuiltinTool::MarkdownTool);
        proof {
            assert(multi_tool@ =~= seq![("markdown"@, BuiltinTool::MarkdownTool)]);
            assert(index_of_key(multi_tool@, "code"@).is_none()) by {
                lemma_index_of_key_is(multi_tool@, "code"@, 1);
            }
        }
        multi_tool.register_tool("code", BuiltinTool::CodeTool);
        proof {
            assert(multi_tool@ =~= seq![
                ("markdown"@, BuiltinTool::MarkdownTool),
                ("code"@, BuiltinTool::CodeTool),
            ]);
            assert(index_of_key(multi_tool@, "image"@).is_none()) by {
                lemma_index_of_key_is(multi_tool@, "image"@, 2);
            }
        }
        multi_tool.register_tool("image", BuiltinTool::ImageTool);
        multi_tool
    }
}

impl<T: Tool> MultiTool<T> {
    /// No name is registered twice.
    pub open spec fn wf(&self) -> bool {
        distinct_keys(self@)
    }

    /// Position of the tool registered under `name`.
    pub fn position(&self, name: &str) -> (r: Option<usize>)
        ensures
            match r {
                Some(i) => index_of_key(self@, name@) == Some(i as int) && i < self.tools.len(),
                None => index_of_key(self@, name@).is_none(),
            },
    {
        let mut i: usize = 0;
        while i < self.tools.len()
            invariant
                i <= self.tools.len(),
                forall|k: int| 0 <= k < i ==> (#[trigger] self@[k]).0 != name@,
            decreases self.tools.len() - i,
        {
            if str_is(self.tools[i].name.as_str(), name) {
                proof {
                    lemma_index_of_key_is(self@, name@, i as int);
                }
                return Some(i);
            }
            i = i + 1;
        }
        proof {
            lemma_index_of_key_is(self@, name@, i as int);
        }
        None
    }

    /// Registers `tool` under `name`, in place of a tool that is registered
    /// under that name already.
    pub fn register_tool(&mut self, name: &str, tool: T)
        ensures
            final(self)@ == store(old(self)@, name@, tool),
            old(self).wf() ==> final(self).wf(),
    {
        proof {
            if self.wf() {
                lemma_store(self@, name@, tool);
            }
        }
        match self.position(name) {
            Some(i) => {
                self.tools.set(i, RegisteredTool { name: String::from_str(name), tool });
            },
            None => {
                self.tools.push(RegisteredTool { name: String::from_str(name), tool });
            },
        }
        assert(self@ =~= store(old(self)@, name@, tool));
    }

    /// Plans the showing of `content` by the tools that `tool_names` names,
    /// in that order. A name without a tool is reported and passed over; a
    /// tool that fails ends the plan.
    pub fn visualize(&self, tool_names: &[String], content: &str, file_path: Option<&str>) -> (plan:
        ToolPlan)
        ensures
            plan@ == tool_plan_of(
                self@,
                tool_names@,
                tool_names@.len(),
                content@,
                opt_str_view(file_path),
            ),
    {
        let mut plan = ToolPlan { steps: Vec::new(), failure: None };
        let mut i: usize = 0;
        proof {
            assert(plan@.steps =~= Seq::empty());
        }
        while i < tool_names.len()
            invariant
                i <= tool_names.len(),
                plan.failure.is_none(),
                plan@ == tool_plan_of(
                    self@,
                    tool_names@,
                    i as nat,
                    content@,
                    opt_str_view(file_path),
                ),
            decreases tool_names.len() - i,
        {
            let ghost before = plan@;
            let ghost next = tool_steps_of(
                self@,
                tool_names@,
                i as int,
                content@,
                opt_str_view(file_path),
            );
            if i > 0 {
                plan.steps.push(ToolStep::Write(RenderOp::Text(String::from_str("\n"))));
                plan.steps.push(ToolStep::Write(RenderOp::SetStyle(Style::with_fg(Color::Cyan))));
                plan.steps.push(ToolStep::Write(RenderOp::Text(String::from_str("---\n"))));
                plan.steps.push(ToolStep::Write(RenderOp::Reset));
                plan.steps.push(ToolStep::Write(RenderOp::Text(String::from_str("\n"))));
            }
            let name = tool_names[i].as_str();
            match self.position(name) {
                Some(at) => {
                    let mut banner: Vec<char> = Vec::new();
                    push_str(&mut banner, "Visualization with ");
                    push_str(&mut banner, name);
                    push_str(&mut banner, "\n");
                    plan.steps.push(
                        ToolStep::Write(RenderOp::SetStyle(Style::with_fg(Color::Green))),
                    );
                    plan.steps.push(ToolStep::Write(RenderOp::Text(string_of(&banner))));
                    plan.steps.push(ToolStep::Write(RenderOp::Reset));
                    plan.steps.push(ToolStep::Write(RenderOp::Text(String::from_str("\n"))));
                    match self.tools[at].tool.visualize(content, file_path) {
                        Ok(action) => {
                            plan.steps.push(ToolStep::Show(action));
                            proof {
                                assert(plan@.steps =~= before.steps + next.steps);
                            }
                        },
                        Err(e) => {
                            plan.failure = Some(e);
                            proof {
                                assert(plan@.steps =~= before.steps + next.steps);
                                lemma_tool_plan_stays(
                                    self@,
                                    tool_names@,
                                    (i + 1) as nat,
                                    tool_names@.len(),
                                    content@,
                                    opt_str_view(file_path),
                                );
                            }
                            return plan;
                        },
                    }
                },
                None => {
                    plan.steps.push(ToolStep::UnknownTool(tool_names[i].clone()));
                    proof {
                        assert(plan@.steps =~= before.steps + next.steps);
                    }
                },
            }
            i = i + 1;
        }
        plan
    }
}

/// The names of the tools that show a file whose extension, in lower case,
/// is `extension`.
pub open spec fn tools_for(extension: Seq<char>) -> Seq<Seq<char>> {
    if extension == "md"@ {
        seq!["markdown"@]
    } else if extension == "jpg"@ || extension == "jpeg"@ || extension == "png"@ || extension
        == "gif"@ || extension == "bmp"@ {
        seq!["image"@]
    } else {
        seq!["code"@]
    }
}

/// The names of the tools that show a file with the extension `extension`,
/// which is in lower case: `markdown` for `md`, `image` for the image
/// formats, `code` for anything else.
pub fn tools_for_extension(extension: &str) -> (names: Vec<String>)
    ensures
        names_view(names@) == tools_for(extension@),
{
    let name = if str_is(extension, "md") {
        "markdown"
    } else if str_is(extension, "jpg") || str_is(extension, "jpeg") || str_is(extension, "png")
        || str_is(extension, "gif") || str_is(extension, "bmp") {
        "image"
    } else {
        "code"
    };
    let mut names: Vec<String> = Vec::new();
    names.push(String::from_str(name));
    proof {
        assert(names_view(names@) =~= seq![name@]);
    }
    names
}

/// The names of the tools that show the file at `file_path`, by the
/// extension of its name, whatever the case of its letters.
pub fn determine_tool_names(file_path: &str) -> (names: Vec<String>)
    ensures
        exists|extension: Seq<char>| names_view(names@) == tools_for(lowercase(extension)),
{
    let extension = match crate::viewers::path_extension(file_path) {
        Some(e) => e,
        None => String::from_str(""),
    };
    tools_for_extension(to_lowercase(extension.as_str()).as_str())
}

} // verus!
