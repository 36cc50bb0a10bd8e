//! What a run of the program holds from start to end, and what it decides
//! before anything is shown.
use base64::Engine;
use vstd::prelude::*;

use crate::config::AppConfig;
use crate::context::{RenderContext, RenderState};
use crate::node::AstNode;
use crate::text::{push_str, str_is, string_of};
use crate::utils::ast::{
    definitions_in, footnotes_in, modify_heading_ast, modify_list_item_ast, process_definitions,
    process_footnotes, with_heading_colons, with_unwrapped_items,
};

verus! {

/// What a run of the program holds from start to end: its options, and the
/// directory that fetched images are kept in.
#[derive(Clone, PartialEq, Eq, Debug)]
pub struct AppState {
    pub image_folder: String,
    pub config: AppConfig,
}

impl AppState {
    /// The state of a run with the given options that keeps its images in
    /// `image_folder`.
    pub fn new(config: AppConfig, image_folder: String) -> (state: AppState)
        ensures
            state.config == config,
            state.image_folder == image_folder,
    {
        AppState { image_folder, config }
    }
}

/// The options of a run.
pub fn get_config(state: &AppState) -> (config: &AppConfig)
    ensures
        *config == state.config,
{
    &state.config
}

/// The state of a run whose options come from the command line: colours
/// are switched off where the output is not a terminal.
pub fn initialize_app(config: AppConfig, is_terminal: bool, image_folder: String) -> (state:
    AppState)
    ensures
        state.image_folder == image_folder,
        state.config == (AppConfig { use_colors: config.use_colors && is_terminal, ..config }),
{
    let mut config = config;
    if !is_terminal {
        config.use_colors = false;
    }
    AppState::new(config, image_folder)
}

/// Prepares a parsed document for rendering: its link definitions and its
/// footnotes are stored in the tables of `ctx`, its headings get their colon
/// and its tight list items lose their paragraph. Each of the four is done
/// once.
pub fn parse_and_process_markdown(tree: AstNode, ctx: &mut RenderContext) -> (prepared: AstNode)
    ensures
        prepared@ == with_unwrapped_items(with_heading_colons(tree@)),
        final(ctx)@ == (RenderState {
            links: definitions_in(tree@, old(ctx)@.links),
            footnotes: footnotes_in(tree@, old(ctx)@.footnotes),
            ..old(ctx)@
        }),
        final(ctx).config == old(ctx).config,
        old(ctx)@.wf() ==> final(ctx)@.wf(),
{
    let mut tree = tree;
    process_definitions(&tree, &mut ctx.links);
    process_footnotes(&tree, &mut ctx.footnotes);
    modify_heading_ast(&mut tree);
    modify_list_item_ast(&mut tree);
    tree
}

/// What is done with one path of the command line.
#[derive(Clone, Copy, PartialEq, Eq, Debug, Structural)]
pub enum ShowDecision {
    /// List the directory.
    ListDirectory,
    /// Write the image out as a Markdown image that carries its own data.
    EmbedImage,
    /// Read the file and write it out as it is.
    PassThrough,
    /// Hand the image to the viewers, as a `data:` URI.
    ViewImage,
    /// Read the file and hand its content to the viewers.
    ViewContent,
}

/// Whether `name` is among `names`.
pub open spec fn names_contain(names: Seq<String>, name: Seq<char>) -> bool {
    exists|i: int| 0 <= i < names.len() && (#[trigger] names[i])@ == name
}

/// What is done with a path: a directory is listed; a file is handed to its
/// viewers where the output is a terminal, and written out where it is not,
/// an image as Markdown that carries its data.
pub open spec fn show_decision(is_dir: bool, viewers: Seq<String>, is_terminal: bool) -> ShowDecision {
    if is_dir {
        ShowDecision::ListDirectory
    } else if names_contain(viewers, "image"@) {
        if is_terminal {
            ShowDecision::ViewImage
        } else {
            ShowDecision::EmbedImage
        }
    } else if is_terminal {
        ShowDecision::ViewContent
    } else {
        ShowDecision::PassThrough
    }
}

/// Decides what is done with a path, given whether it is a directory, the
/// viewers that its extension calls for, and whether the output is a
/// terminal.
pub fn decide_show(is_dir: bool, viewers: &Vec<String>, is_terminal: bool) -> (d: ShowDecision)
    ensures
        d == show_decision(is_dir, viewers@, is_terminal),
{
    if is_dir {
        return ShowDecision::ListDirectory;
    }
    let mut is_image = false;
    let mut i: usize = 0;
    while i < viewers.len()
        invariant
            i <= viewers.len(),
            is_image == names_contain(viewers@.take(i as int), "image"@),
        decreases viewers.len() - i,
    {
        let ghost seen = viewers@.take(i as int);
        let ghost next = viewers@.take(i + 1);
        let hit = str_is(viewers[i].as_str(), "image");
        proof {
            if names_contain(seen, "image"@) {
                let w = choose|k: int| 0 <= k < seen.len() && (#[trigger] seen[k])@ == "image"@;
                assert(next[w] == seen[w]);
            }
            if hit {
                assert(next[i as int]@ == "image"@);
            }
            if names_contain(next, "image"@) && !hit {
                let w = choose|k: int| 0 <= k < next.len() && (#[trigger] next[k])@ == "image"@;
                assert(seen[w] == next[w]);
            }
        }
        if hit {
            is_image = true;
        }
        i = i + 1;
    }
    proof {
        assert(viewers@.take(viewers.len() as int) =~= viewers@);
    }
    if is_image {
        if is_terminal {
            ShowDecision::ViewImage
        } else {
            ShowDecision::EmbedImage
        }
    } else if is_terminal {
        ShowDecision::ViewContent
    } else {
        ShowDecision::PassThrough
    }
}

/// What the standard base64 alphabet with padding encodes `bytes` to.
pub uninterp spec fn base64_encoded(bytes: Seq<u8>) -> Seq<char>;

/// Whether the base64 text of `len` bytes has a length that fits the
/// machine.
pub open spec fn encodable(len: nat) -> bool {
    (len / 3) * 4 + 4 <= usize::MAX
}

/// Encodes `bytes` with `base64`'s `STANDARD` engine, which panics where
/// the length of the text does not fit the machine; such input is kept out.
/// The contract gives the text its name.
#[verifier::external_body]
fn encode_base64(bytes: &[u8]) -> (s: String)
    requires
        encodable(bytes@.len()),
    ensures
        s@ == base64_encoded(bytes@),
{
    base64::engine::general_purpose::STANDARD.encode(bytes)
}

/// The `data:` URI that carries an image whose file has the given
/// extension, or nothing where the image is too large to be written so.
pub fn image_data_uri(extension: &str, bytes: &Vec<u8>) -> (r: Option<String>)
    ensures
        match r {
            Some(uri) => encodable(bytes@.len()) && uri@ == "data:image/"@ + extension@
                + ";base64,"@ + base64_encoded(bytes@),
            None => !encodable(bytes@.len()),
        },
{
    if bytes.len() / 3 > (usize::MAX - 4) / 4 {
        return None;
    }
    let mut uri: Vec<char> = Vec::new();
    push_str(&mut uri, "data:image/");
    push_str(&mut uri, extension);
    push_str(&mut uri, ";base64,");
    push_str(&mut uri, encode_base64(bytes.as_slice()).as_str());
    Some(string_of(&uri))
}

/// The Markdown that shows the image at `address` under the name
/// `file_name`.
pub fn image_markdown(file_name: &str, address: &str) -> (s: String)
    ensures
        s@ == "!["@ + file_name@ + "]("@ + address@ + ")"@,
{
    let mut text: Vec<char> = Vec::new();
    push_str(&mut text, "![");
    push_str(&mut text, file_name);
    push_str(&mut text, "](");
    push_str(&mut text, address);
    push_str(&mut text, ")");
    string_of(&text)
}

} // verus!
