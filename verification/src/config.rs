//! The options that steer rendering, and how they are read from the command
//! line.
use vstd::prelude::*;

use crate::context::RenderContext;
use crate::node::opt_view;
use crate::text::{
    chars_of, find, find_char, find_from, lowercase, parse_decimal, parsed_u32, slice_chars,
    starts_with, str_is, string_of, to_lowercase,
};

verus! {

/// The options that steer rendering.
#[derive(Clone, Copy, PartialEq, Eq, Debug)]
pub struct AppConfig {
    pub max_image_width: Option<u32>,
    pub max_image_height: Option<u32>,
    pub render_images: bool,
    pub render_links: bool,
    pub render_table_borders: bool,
    pub show_line_numbers: bool,
    pub show_filename: bool,
    pub debug_mode: bool,
    pub use_colors: bool,
    pub convert_html: bool,
}

/// The options that hold where nothing else is said.
pub open spec fn default_options() -> AppConfig {
    AppConfig {
        max_image_width: Some(100u32),
        max_image_height: Some(13u32),
        render_images: true,
        render_links: true,
        render_table_borders: false,
        show_line_numbers: true,
        show_filename: false,
        debug_mode: false,
        use_colors: true,
        convert_html: true,
    }
}

impl AppConfig {
    /// The options that hold where nothing else is said.
    pub fn default_config() -> (config: AppConfig)
        ensures
            config == default_options(),
    {
        AppConfig {
            max_image_width: Some(100),
            max_image_height: Some(13),
            render_images: true,
            render_links: true,
            render_table_borders: false,
            show_line_numbers: true,
            show_filename: false,
            debug_mode: false,
            use_colors: true,
            convert_html: true,
        }
    }

    /// The options to start from: those read from the configuration file
    /// where it was there and could be read, else the defaults.
    pub fn load_with_defaults(loaded: Option<AppConfig>) -> (config: AppConfig)
        ensures
            config == match loaded {
                Some(from_file) => from_file,
                None => default_options(),
            },
    {
        match loaded {
            Some(from_file) => from_file,
            None => AppConfig::default_config(),
        }
    }
}

/// The options of a render pass.
pub fn get_config(ctx: &RenderContext) -> (config: &AppConfig)
    ensures
        *config == ctx.config,
{
    &ctx.config
}

/// What a switch is set to by a value in lower case: off by `false` and `0`,
/// on by anything else.
pub open spec fn switch_of(lower: Seq<char>) -> bool {
    !(lower == "false"@ || lower == "0"@)
}

/// What a switch is set to by the value that an argument gives it, if it
/// gives one: on where it gives none.
pub open spec fn switch_value(value: Option<Seq<char>>) -> bool {
    match value {
        Some(v) => switch_of(lowercase(v)),
        None => true,
    }
}

/// Whether the value `lower`, in lower case, switches an option on: `false`
/// and `0` switch it off, anything else switches it on.
pub fn bool_from_lowercase(lower: &str) -> (b: bool)
    ensures
        b == switch_of(lower@),
{
    !(str_is(lower, "false") || str_is(lower, "0"))
}

/// Whether the value of an argument switches an option on. The case of its
/// letters does not count, and a missing value switches the option on.
pub fn parse_bool(value: Option<&str>) -> (b: bool)
    ensures
        b == switch_value(
            match value {
                Some(v) => Some(v@),
                None => None,
            },
        ),
{
    match value {
        Some(v) => bool_from_lowercase(to_lowercase(v).as_str()),
        None => true,
    }
}

/// The number that `text` writes in base ten, where it fits in 32 bits.
pub fn parse_decimal_u32(text: &str) -> (r: Option<u32>)
    ensures
        r == parsed_u32(text@),
{
    match parse_decimal(&chars_of(text), 0xffff_ffff) {
        Some(n) => Some(n as u32),
        None => None,
    }
}

/// The number that the value of an argument gives, if it gives one.
pub fn parse_u32(value: Option<&str>) -> (r: Option<u32>)
    ensures
        r == match value {
            Some(v) => parsed_u32(v@),
            None => None,
        },
{
    match value {
        Some(v) => parse_decimal_u32(v),
        None => None,
    }
}

/// What one argument of the command line asks for.
#[derive(Clone, PartialEq, Eq, Debug)]
pub enum CliStep {
    /// An option was set; there is nothing else to do.
    Applied,
    /// The argument names a file to show.
    FilePath(String),
    /// The options are to be read from the file of this name, if it names one.
    LoadConfig(Option<String>),
    /// The help text is to be shown.
    Help,
    /// The version is to be shown.
    Version,
    /// A configuration file with the defaults is to be written.
    GenerateConfig,
    /// The argument is an option that is not known.
    Unknown,
}

/// `CliStep` as plain values.
pub enum CliStepView {
    Applied,
    FilePath(Seq<char>),
    LoadConfig(Option<Seq<char>>),
    Help,
    Version,
    GenerateConfig,
    Unknown,
}

impl View for CliStep {
    type V = CliStepView;

    open spec fn view(&self) -> CliStepView {
        match self {
            CliStep::Applied => CliStepView::Applied,
            CliStep::FilePath(path) => CliStepView::FilePath(path@),
            CliStep::LoadConfig(path) => CliStepView::LoadConfig(opt_view(*path)),
            CliStep::Help => CliStepView::Help,
            CliStep::Version => CliStepView::Version,
            CliStep::GenerateConfig => CliStepView::GenerateConfig,
            CliStep::Unknown => CliStepView::Unknown,
        }
    }
}

/// The name of the option that `body` sets: what stands before its first
/// equals sign.
pub open spec fn option_name(body: Seq<char>) -> Seq<char> {
    match find(body, '=') {
        Some(i) => body.take(i),
        None => body,
    }
}

/// The value that `body` gives its option: what stands between its first
/// equals sign and its second, or behind the first where there is no second.
pub open spec fn option_value(body: Seq<char>) -> Option<Seq<char>> {
    match find(body, '=') {
        Some(i) => match find_from(body, '=', i + 1) {
            Some(j) => Some(body.subrange(i + 1, j)),
            None => Some(body.skip(i + 1)),
        },
        None => None,
    }
}

/// The options after the option `name` is set by `value`; options that
/// `name` does not name stay as they are.
pub open spec fn with_option(config: AppConfig, name: Seq<char>, value: Option<Seq<char>>) -> AppConfig {
    if name == "debug"@ {
        AppConfig { debug_mode: switch_value(value), ..config }
    } else if name == "max-image-width"@ {
        AppConfig {
            max_image_width: match value {
                Some(v) => parsed_u32(v),
                None => None,
            },
            ..config
        }
    } else if name == "max-image-height"@ {
        AppConfig {
            max_image_height: match value {
                Some(v) => parsed_u32(v),
                None => None,
            },
            ..config
        }
    } else if name == "render-images"@ {
        AppConfig { render_images: switch_value(value), ..config }
    } else if name == "render-links"@ {
        AppConfig { render_links: switch_value(value), ..config }
    } else if name == "render-table-borders"@ {
        AppConfig { render_table_borders: switch_value(value), ..config }
    } else if name == "show-line-numbers"@ {
        AppConfig { show_line_numbers: switch_value(value), ..config }
    } else if name == "convert-html"@ {
        AppConfig { convert_html: switch_value(value), ..config }
    } else if name == "show-filename"@ {
        AppConfig { show_filename: switch_value(value), ..config }
    } else if name == "use-colors"@ {
        AppConfig { use_colors: switch_value(value), ..config }
    } else {
        config
    }
}

/// Whether `name` names an option that an argument can set.
pub open spec fn is_setting(name: Seq<char>) -> bool {
    ||| name == "debug"@
    ||| name == "max-image-width"@
    ||| name == "max-image-height"@
    ||| name == "render-images"@
    ||| name == "render-links"@
    ||| name == "render-table-borders"@
    ||| name == "show-line-numbers"@
    ||| name == "convert-html"@
    ||| name == "show-filename"@
    ||| name == "use-colors"@
}

/// What the argument `arg` asks for.
pub open spec fn cli_step(arg: Seq<char>) -> CliStepView {
    if !"--"@.is_prefix_of(arg) {
        CliStepView::FilePath(arg)
    } else {
        let body = arg.skip("--"@.len() as int);
        let name = option_name(body);
        if is_setting(name) {
            CliStepView::Applied
        } else if name == "config"@ {
            CliStepView::LoadConfig(option_value(body))
        } else if name == "help"@ {
            CliStepView::Help
        } else if name == "version"@ {
            CliStepView::Version
        } else if name == "generate-config"@ {
            CliStepView::GenerateConfig
        } else {
            CliStepView::Unknown
        }
    }
}

/// The options after the argument `arg` is taken in.
pub open spec fn cli_config(config: AppConfig, arg: Seq<char>) -> AppConfig {
    if !"--"@.is_prefix_of(arg) {
        config
    } else {
        let body = arg.skip("--"@.len() as int);
        with_option(config, option_name(body), option_value(body))
    }
}

/// The name and the value of the option that `body` sets.
fn split_option(body: &Vec<char>) -> (r: (String, Option<String>))
    ensures
        r.0@ == option_name(body@),
        opt_view(r.1) == option_value(body@),
{
    match find_char(body, '=', 0) {
        Some(i) => {
            let name = string_of(&slice_chars(body, 0, i));
            let value = match find_char(body, '=', i + 1) {
                Some(j) => string_of(&slice_chars(body, i + 1, j)),
                None => string_of(&slice_chars(body, i + 1, body.len())),
            };
            (name, Some(value))
        },
        None => (string_of(&slice_chars(body, 0, body.len())), None),
    }
}

/// The value of an optional string as a string slice.
fn opt_str(o: &Option<String>) -> (r: Option<&str>)
    ensures
        match r {
            Some(s) => opt_view(*o) == Some(s@),
            None => o.is_none(),
        },
{
    match o {
        Some(s) => Some(s.as_str()),
        None => None,
    }
}

/// Takes in one argument of the command line: an option that it sets is set
/// in `config`; anything else that it asks for is handed back, to be done by
/// the caller.
pub fn parse_cli_arg(config: &mut AppConfig, arg: &str) -> (step: CliStep)
    ensures
        step@ == cli_step(arg@),
        *final(config) == cli_config(*old(config), arg@),
{
    let chars = chars_of(arg);
    let dashes = chars_of("--");
    if !starts_with(&chars, &dashes) {
        return CliStep::FilePath(String::from_str(arg));
    }
    let body = slice_chars(&chars, dashes.len(), chars.len());
    let (name, value) = split_option(&body);
    let key = name.as_str();
    if str_is(key, "debug") {
        config.debug_mode = parse_bool(opt_str(&value));
        CliStep::Applied
    } else if str_is(key, "max-image-width") {
        config.max_image_width = parse_u32(opt_str(&value));
        CliStep::Applied
    } else if str_is(key, "max-image-height") {
        config.max_image_height = parse_u32(opt_str(&value));
        CliStep::Applied
    } else if str_is(key, "render-images") {
        config.render_images = parse_bool(opt_str(&value));
        CliStep::Applied
    } else if str_is(key, "render-links") {
        config.render_links = parse_bool(opt_str(&value));
        CliStep::Applied
    } else if str_is(key, "render-table-borders") {
        config.render_table_borders = parse_bool(opt_str(&value));
        CliStep::Applied
    } else if str_is(key, "show-line-numbers") {
        config.show_line_numbers = parse_bool(opt_str(&value));
        CliStep::Applied
    } else if str_is(key, "convert-html") {
        config.convert_html = parse_bool(opt_str(&value));
        CliStep::Applied
    } else if str_is(key, "show-filename") {
        config.show_filename = parse_bool(opt_str(&value));
        CliStep::Applied
    } else if str_is(key, "use-colors") {
        config.use_colors = parse_bool(opt_str(&value));
        CliStep::Applied
    } else if str_is(key, "config") {
        CliStep::LoadConfig(value)
    } else if str_is(key, "help") {
        CliStep::Help
    } else if str_is(key, "version") {
        CliStep::Version
    } else if str_is(key, "generate-config") {
        CliStep::GenerateConfig
    } else {
        CliStep::Unknown
    }
}

} // verus!
