use see::app::{
    decide_show, get_config, image_data_uri, image_markdown, initialize_app,
    parse_and_process_markdown, AppState, ShowDecision,
};
use see::cli::{handle_cli_result, parse_args, CliOptions, CliRequest, ParseResult};
use see::config::{
    bool_from_lowercase, parse_bool, parse_cli_arg, parse_decimal_u32, parse_u32, AppConfig,
    CliStep,
};
use see::context::RenderContext;
use see::node::{AstNode, Kind};

fn args(list: &[&str]) -> Vec<String> {
    list.iter().map(|s| s.to_string()).collect()
}

#[test]
fn default_config_values() {
    let config = AppConfig::default_config();
    assert_eq!(config.max_image_width, Some(100));
    assert_eq!(config.max_image_height, Some(13));
    assert!(config.render_images);
    assert!(config.render_links);
    assert!(!config.render_table_borders);
    assert!(config.show_line_numbers);
    assert!(!config.show_filename);
    assert!(!config.debug_mode);
    assert!(config.use_colors);
    assert!(config.convert_html);
}

#[test]
fn load_with_defaults_prefers_the_file() {
    let mut from_file = AppConfig::default_config();
    from_file.render_table_borders = true;
    from_file.max_image_width = None;
    assert_eq!(AppConfig::load_with_defaults(Some(from_file)), from_file);
    assert_eq!(AppConfig::load_with_defaults(None), AppConfig::default_config());
}

#[test]
fn parse_bool_values() {
    assert!(parse_bool(None));
    assert!(parse_bool(Some("true")));
    assert!(parse_bool(Some("1")));
    assert!(parse_bool(Some("TRUE")));
    assert!(!parse_bool(Some("false")));
    assert!(!parse_bool(Some("False")));
    assert!(!parse_bool(Some("FALSE")));
    assert!(!parse_bool(Some("0")));
    assert!(parse_bool(Some("maybe")));
    assert!(parse_bool(Some("")));
    assert!(bool_from_lowercase("yes"));
    assert!(!bool_from_lowercase("false"));
    assert!(bool_from_lowercase("False"));
}

#[test]
fn parse_u32_values() {
    assert_eq!(parse_u32(None), None);
    assert_eq!(parse_u32(Some("80")), Some(80));
    assert_eq!(parse_u32(Some("+80")), Some(80));
    assert_eq!(parse_u32(Some("007")), Some(7));
    assert_eq!(parse_u32(Some("0")), Some(0));
    assert_eq!(parse_u32(Some("4294967295")), Some(4294967295));
    assert_eq!(parse_u32(Some("4294967296")), None);
    assert_eq!(parse_u32(Some("99999999999999999999999999")), None);
    assert_eq!(parse_u32(Some("")), None);
    assert_eq!(parse_u32(Some("+")), None);
    assert_eq!(parse_u32(Some("-1")), None);
    assert_eq!(parse_u32(Some("1a")), None);
    assert_eq!(parse_u32(Some(" 1")), None);
    assert_eq!(parse_u32(Some("++1")), None);
    assert_eq!(parse_decimal_u32("12"), "12".parse::<u32>().ok());
    assert_eq!(parse_decimal_u32("42949672950"), "42949672950".parse::<u32>().ok());
}

#[test]
fn cli_arguments_set_options() {
    let mut config = AppConfig::default_config();
    assert_eq!(parse_cli_arg(&mut config, "--debug"), CliStep::Applied);
    assert!(config.debug_mode);
    assert_eq!(parse_cli_arg(&mut config, "--render-images=false"), CliStep::Applied);
    assert!(!config.render_images);
    assert_eq!(parse_cli_arg(&mut config, "--render-links=0"), CliStep::Applied);
    assert!(!config.render_links);
    assert_eq!(parse_cli_arg(&mut config, "--render-table-borders"), CliStep::Applied);
    assert!(config.render_table_borders);
    assert_eq!(parse_cli_arg(&mut config, "--show-line-numbers=False"), CliStep::Applied);
    assert!(!config.show_line_numbers);
    assert_eq!(parse_cli_arg(&mut config, "--convert-html=false=true"), CliStep::Applied);
    assert!(!config.convert_html);
    assert_eq!(parse_cli_arg(&mut config, "--show-filename=1"), CliStep::Applied);
    assert!(config.show_filename);
    assert_eq!(parse_cli_arg(&mut config, "--use-colors=false"), CliStep::Applied);
    assert!(!config.use_colors);
    assert_eq!(parse_cli_arg(&mut config, "--max-image-width=40"), CliStep::Applied);
    assert_eq!(config.max_image_width, Some(40));
    assert_eq!(parse_cli_arg(&mut config, "--max-image-height"), CliStep::Applied);
    assert_eq!(config.max_image_height, None);
    assert_eq!(parse_cli_arg(&mut config, "--max-image-width=wide"), CliStep::Applied);
    assert_eq!(config.max_image_width, None);
}

#[test]
fn cli_arguments_that_ask_for_something_else() {
    let mut config = AppConfig::default_config();
    let before = config;
    assert_eq!(parse_cli_arg(&mut config, "README.md"), CliStep::FilePath("README.md".to_string()));
    assert_eq!(parse_cli_arg(&mut config, "-x"), CliStep::FilePath("-x".to_string()));
    assert_eq!(
        parse_cli_arg(&mut config, "--config=my.toml"),
        CliStep::LoadConfig(Some("my.toml".to_string()))
    );
    assert_eq!(parse_cli_arg(&mut config, "--config"), CliStep::LoadConfig(None));
    assert_eq!(parse_cli_arg(&mut config, "--help"), CliStep::Help);
    assert_eq!(parse_cli_arg(&mut config, "--version"), CliStep::Version);
    assert_eq!(parse_cli_arg(&mut config, "--generate-config"), CliStep::GenerateConfig);
    assert_eq!(parse_cli_arg(&mut config, "--frobnicate=1"), CliStep::Unknown);
    assert_eq!(parse_cli_arg(&mut config, "--"), CliStep::Unknown);
    assert_eq!(parse_cli_arg(&mut config, "--Debug"), CliStep::Unknown);
    assert_eq!(config, before);
}

#[test]
fn parse_args_reads_switches_and_file() {
    let result = parse_args(&args(&["see", "--debug", "a.md", "--line-numbers", "b.md"]));
    assert_eq!(
        result,
        ParseResult::Options(CliOptions {
            debug_mode: true,
            file_path: Some("b.md".to_string()),
            show_line_numbers: true,
        })
    );
    assert_eq!(
        parse_args(&args(&["see"])),
        ParseResult::Options(CliOptions {
            debug_mode: false,
            file_path: None,
            show_line_numbers: false
        })
    );
    assert_eq!(
        parse_args(&args(&[])),
        ParseResult::Options(CliOptions {
            debug_mode: false,
            file_path: None,
            show_line_numbers: false
        })
    );
    assert_eq!(
        parse_args(&args(&["--debug"])),
        ParseResult::Options(CliOptions {
            debug_mode: false,
            file_path: None,
            show_line_numbers: false
        })
    );
}

#[test]
fn parse_args_stops_at_requests() {
    assert_eq!(parse_args(&args(&["see", "x", "--help", "--version"])), ParseResult::Help);
    assert_eq!(parse_args(&args(&["see", "--version", "--help"])), ParseResult::Version);
    assert_eq!(parse_args(&args(&["see", "--generate-config"])), ParseResult::Config);
}

#[test]
fn handle_cli_result_splits_options_and_requests() {
    let options = CliOptions { debug_mode: true, file_path: None, show_line_numbers: false };
    assert_eq!(
        handle_cli_result(ParseResult::Options(options.clone())),
        (Some(options), None)
    );
    assert_eq!(handle_cli_result(ParseResult::Help), (None, Some(CliRequest::Help)));
    assert_eq!(handle_cli_result(ParseResult::Version), (None, Some(CliRequest::Version)));
    assert_eq!(handle_cli_result(ParseResult::Config), (None, Some(CliRequest::Config)));
}

#[test]
fn app_state_and_terminal_adjustment() {
    let config = AppConfig::default_config();
    let state = AppState::new(config, "/tmp/images".to_string());
    assert_eq!(*get_config(&state), config);
    assert_eq!(state.image_folder, "/tmp/images");
    let piped = initialize_app(config, false, "dir".to_string());
    assert!(!piped.config.use_colors);
    assert!(piped.config.render_images);
    let terminal = initialize_app(config, true, "dir".to_string());
    assert_eq!(terminal.config, config);
    let ctx = RenderContext::new(config);
    assert_eq!(*see::config::get_config(&ctx), config);
}

#[test]
fn processing_runs_all_four_passes_once() {
    let tree = AstNode::new(
        Kind::Root,
        vec![
            AstNode::new(Kind::Heading { depth: 1 }, vec![AstNode::text("Title")]),
            AstNode::new(
                Kind::List { ordered: false },
                vec![AstNode::new(
                    Kind::ListItem { checked: None },
                    vec![AstNode::new(Kind::Paragraph, vec![AstNode::text("item")])],
                )],
            ),
            AstNode::new(
                Kind::Definition {
                    identifier: "r".to_string(),
                    url: "u".to_string(),
                    title: None,
                },
                vec![],
            ),
            AstNode::new(
                Kind::FootnoteDefinition { identifier: "n".to_string() },
                vec![AstNode::new(Kind::Paragraph, vec![AstNode::text("note")])],
            ),
        ],
    );
    let mut ctx = RenderContext::new(AppConfig::default_config());
    let prepared = parse_and_process_markdown(tree, &mut ctx);
    assert_eq!(prepared.children[0].children[0], AstNode::text("Title:"));
    assert_eq!(prepared.children[1].children[0].children, vec![AstNode::text("item")]);
    assert_eq!(
        see::utils::shared::get_link_definition(&ctx.links, "r"),
        Some(("u".to_string(), None))
    );
    assert_eq!(ctx.footnotes.get("n"), Some("note".to_string()));
}

#[test]
fn show_decisions() {
    let image = vec!["image".to_string()];
    let code = vec!["code".to_string()];
    assert_eq!(decide_show(true, &image, true), ShowDecision::ListDirectory);
    assert_eq!(decide_show(false, &image, true), ShowDecision::ViewImage);
    assert_eq!(decide_show(false, &image, false), ShowDecision::EmbedImage);
    assert_eq!(decide_show(false, &code, true), ShowDecision::ViewContent);
    assert_eq!(decide_show(false, &code, false), ShowDecision::PassThrough);
    assert_eq!(
        decide_show(false, &vec!["code".to_string(), "image".to_string()], false),
        ShowDecision::EmbedImage
    );
    assert_eq!(decide_show(false, &vec![], true), ShowDecision::ViewContent);
}

#[test]
fn image_data_uri_and_markdown() {
    assert_eq!(
        image_data_uri("png", &b"hello".to_vec()),
        Some("data:image/png;base64,aGVsbG8=".to_string())
    );
    assert_eq!(image_data_uri("gif", &vec![]), Some("data:image/gif;base64,".to_string()));
    assert_eq!(image_markdown("cat.png", "data:x"), "![cat.png](data:x)");
}
