use see::multi_tool::{
    determine_tool_names, tools_for_extension, BuiltinTool, MultiTool, Tool, ToolStep,
};
use see::output::{Color, RenderOp, Style};
use see::utils::detect_language::{detect_language, fallback_language, language_for};
use see::viewers::{
    determine_viewer, viewer_for_extension, BuiltinViewer, ViewAction, ViewError, ViewStep,
    Viewer, ViewerManager,
};

fn names(list: &[&str]) -> Vec<String> {
    list.iter().map(|s| s.to_string()).collect()
}

#[test]
fn builtin_viewers_decide_actions() {
    assert_eq!(
        BuiltinViewer::MarkdownViewer.visualize("# hi", Some("a.md")),
        Ok(ViewAction::Markdown { content: "# hi".to_string() })
    );
    assert_eq!(
        BuiltinViewer::CodeViewer.visualize("fn main() {}", Some("main.rs")),
        Ok(ViewAction::Code {
            content: "fn main() {}".to_string(),
            file_path: Some("main.rs".to_string())
        })
    );
    assert_eq!(
        BuiltinViewer::CodeViewer.visualize("x", None),
        Ok(ViewAction::Code { content: "x".to_string(), file_path: None })
    );
    assert_eq!(
        BuiltinViewer::ImageViewer.visualize("", Some("cat.png")),
        Ok(ViewAction::Image { path: "cat.png".to_string() })
    );
    assert_eq!(
        BuiltinViewer::ImageViewer.visualize("", None),
        Err(ViewError::MissingImagePath)
    );
}

#[test]
fn viewer_manager_plans_in_order() {
    let manager = ViewerManager::new();
    assert_eq!(manager.viewers.len(), 3);
    let plan = manager.visualize(&names(&["markdown", "nope", "code"]), "text", Some("f.txt"));
    assert_eq!(plan.failure, None);
    assert_eq!(
        plan.steps,
        vec![
            ViewStep::Show(ViewAction::Markdown { content: "text".to_string() }),
            ViewStep::Separator,
            ViewStep::UnknownViewer("nope".to_string()),
            ViewStep::Separator,
            ViewStep::Show(ViewAction::Code {
                content: "text".to_string(),
                file_path: Some("f.txt".to_string())
            }),
        ]
    );
    let empty = manager.visualize(&names(&[]), "text", None);
    assert!(empty.steps.is_empty());
    assert_eq!(empty.failure, None);
}

#[test]
fn viewer_manager_stops_at_failure() {
    let manager = ViewerManager::new();
    let plan = manager.visualize(&names(&["code", "image", "markdown"]), "text", None);
    assert_eq!(plan.failure, Some(ViewError::MissingImagePath));
    assert_eq!(
        plan.steps,
        vec![
            ViewStep::Show(ViewAction::Code { content: "text".to_string(), file_path: None }),
            ViewStep::Separator,
        ]
    );
}

#[test]
fn registering_under_a_taken_name_replaces_the_viewer() {
    let mut manager = ViewerManager::new();
    manager.register_viewer("markdown", BuiltinViewer::CodeViewer);
    manager.register_viewer("raw", BuiltinViewer::CodeViewer);
    assert_eq!(manager.viewers.len(), 4);
    assert_eq!(manager.viewers[0].name, "markdown");
    assert_eq!(manager.viewers[0].viewer, BuiltinViewer::CodeViewer);
    assert_eq!(manager.viewers[3].name, "raw");
    let plan = manager.visualize(&names(&["markdown"]), "x", None);
    assert_eq!(
        plan.steps,
        vec![ViewStep::Show(ViewAction::Code { content: "x".to_string(), file_path: None })]
    );
    let mut own: ViewerManager<BuiltinViewer> = ViewerManager::empty();
    assert_eq!(own.position("markdown"), None);
    own.register_viewer("only", BuiltinViewer::ImageViewer);
    assert_eq!(own.position("only"), Some(0));
}

#[test]
fn viewers_by_extension() {
    assert_eq!(viewer_for_extension("md"), names(&["markdown"]));
    for ext in ["jpg", "jpeg", "png", "gif", "bmp", "webp"] {
        assert_eq!(viewer_for_extension(ext), names(&["image"]));
    }
    assert_eq!(viewer_for_extension("rs"), names(&["code"]));
    assert_eq!(viewer_for_extension(""), names(&["code"]));
    assert_eq!(viewer_for_extension("MD"), names(&["code"]));
    assert_eq!(determine_viewer("docs/README.MD"), names(&["markdown"]));
    assert_eq!(determine_viewer("a/b/photo.JPeG"), names(&["image"]));
    assert_eq!(determine_viewer("photo.webp"), names(&["image"]));
    assert_eq!(determine_viewer("Makefile"), names(&["code"]));
    assert_eq!(determine_viewer(".md"), names(&["code"]));
    assert_eq!(determine_viewer("archive.tar.gz"), names(&["code"]));
}

#[test]
fn tools_by_extension() {
    assert_eq!(tools_for_extension("md"), names(&["markdown"]));
    assert_eq!(tools_for_extension("bmp"), names(&["image"]));
    assert_eq!(tools_for_extension("webp"), names(&["code"]));
    assert_eq!(determine_tool_names("x.PNG"), names(&["image"]));
    assert_eq!(determine_tool_names("x.webp"), names(&["code"]));
    assert_eq!(determine_tool_names("notes.md"), names(&["markdown"]));
}

#[test]
fn multi_tool_announces_tools_and_draws_rules() {
    let tools = MultiTool::new();
    let plan = tools.visualize(&names(&["markdown", "code", "missing"]), "c", None);
    let w = |op: RenderOp| ToolStep::Write(op);
    let t = |s: &str| ToolStep::Write(RenderOp::Text(s.to_string()));
    let fg = |c: Color| Style { fg: Some(c), bg: None, bold: false, italic: false, underline: false };
    assert_eq!(plan.failure, None);
    assert_eq!(
        plan.steps,
        vec![
            w(RenderOp::SetStyle(fg(Color::Green))),
            t("Visualization with markdown\n"),
            w(RenderOp::Reset),
            t("\n"),
            ToolStep::Show(ViewAction::Markdown { content: "c".to_string() }),
            t("\n"),
            w(RenderOp::SetStyle(fg(Color::Cyan))),
            t("---\n"),
            w(RenderOp::Reset),
            t("\n"),
            w(RenderOp::SetStyle(fg(Color::Green))),
            t("Visualization with code\n"),
            w(RenderOp::Reset),
            t("\n"),
            ToolStep::Show(ViewAction::Code { content: "c".to_string(), file_path: None }),
            t("\n"),
            w(RenderOp::SetStyle(fg(Color::Cyan))),
            t("---\n"),
            w(RenderOp::Reset),
            t("\n"),
            ToolStep::UnknownTool("missing".to_string()),
        ]
    );
}

#[test]
fn multi_tool_failure_and_registration() {
    let mut tools = MultiTool::new();
    let plan = tools.visualize(&names(&["image", "code"]), "c", None);
    assert_eq!(plan.failure, Some(ViewError::MissingImagePath));
    assert_eq!(plan.steps.len(), 4);
    tools.register_tool("image", BuiltinTool::MarkdownTool);
    assert_eq!(tools.tools.len(), 3);
    let plan = tools.visualize(&names(&["image"]), "c", None);
    assert_eq!(plan.failure, None);
    assert_eq!(
        plan.steps[4],
        ToolStep::Show(ViewAction::Markdown { content: "c".to_string() })
    );
    assert_eq!(
        BuiltinTool::ImageTool.visualize("", Some("p.png")),
        Ok(ViewAction::Image { path: "p.png".to_string() })
    );
}

#[test]
fn language_detection() {
    assert_eq!(language_for(Some("md"), Some("Rust")), "md");
    assert_eq!(language_for(Some("rs"), Some("Rust")), "rust");
    assert_eq!(language_for(Some("zzz"), Some("Emacs Lisp")), "emacs lisp");
    assert_eq!(language_for(Some("rs"), None), "rust");
    assert_eq!(language_for(Some("py"), None), "python");
    assert_eq!(language_for(Some("js"), None), "javascript");
    assert_eq!(language_for(Some("html"), None), "html");
    assert_eq!(language_for(Some("css"), None), "css");
    assert_eq!(language_for(Some("json"), None), "json");
    assert_eq!(language_for(Some("MD"), None), "txt");
    assert_eq!(language_for(None, None), "txt");
    assert_eq!(fallback_language(Some("toml")), "txt");
    assert_eq!(detect_language("src/main.rs", None), "rust");
    assert_eq!(detect_language("README.md", Some("Markdown")), "md");
    assert_eq!(detect_language("script", Some("Shell")), "shell");
    assert_eq!(detect_language("script", None), "txt");
}
