use vstd::prelude::*;

verus! {

/// Largest width of an atlas page.
pub const DEFAULT_TEXTURE_MAX_WIDTH: u32 = 4096;

/// Largest height of an atlas page.
pub const DEFAULT_TEXTURE_MAX_HEIGHT: u32 = 4096;

/// Manifest template used by default: a Rust module that lists every atlas
/// page, with its file path and size, and the frames of each sequence on it.
pub const DEFAULT_TEMPLATE: &'static str = r#"// Atlas pages and their sprite sequences.

pub struct AtlasFrame {
    pub index: u32,
    pub x: u32,
    pub y: u32,
    pub w: u32,
    pub h: u32,
}

pub struct AtlasSequence {
    pub name: &'static str,
    pub frames: &'static [AtlasFrame],
}

pub struct AtlasPage {
    pub name: &'static str,
    pub path: &'static str,
    pub width: u32,
    pub height: u32,
    pub sequences: &'static [AtlasSequence],
}

pub const PAGES: &[AtlasPage] = &[
{{#each pages}}
    AtlasPage {
        name: "{{name}}",
        path: "{{path}}",
        width: {{w}},
        height: {{h}},
        sequences: &[
{{#each items}}
            AtlasSequence {
                name: "{{name}}",
                frames: &[
{{#each frames}}
                    AtlasFrame { index: {{i}}, x: {{x}}, y: {{y}}, w: {{w}}, h: {{h}} },
{{/each}}
                ],
            },
{{/each}}
        ],
    },
{{/each}}
];
"#;

/// One frame of a sequence: its index and where it sits on its page.
#[derive(Debug, Clone, Copy, PartialEq, Eq)]
pub struct Frame {
    pub i: u32,
    pub x: u32,
    pub y: u32,
    pub w: u32,
    pub h: u32,
}

/// A named sequence of frames on one page, ordered by frame index.
#[derive(Debug, Clone)]
pub struct PageItem {
    pub name: String,
    pub frames: Vec<Frame>,
}

/// One atlas page of the manifest.
#[derive(Debug, Clone)]
pub struct PackedPage {
    pub name: String,
    pub path: String,
    pub w: u32,
    pub h: u32,
    pub items: Vec<PageItem>,
}

/// Where the manifest template comes from.
#[derive(Debug, Clone)]
pub enum Template {
    /// Template text built into the program.
    Str(&'static str),
    /// Template text given at run time.
    String(String),
    /// A file that holds the template text, as path components.
    Path(Vec<String>),
    /// No manifest is rendered.
    Disabled,
}

impl Template {
    /// Whether a manifest is to be rendered at all.
    pub fn is_some(&self) -> (r: bool)
        ensures
            r == !(self is Disabled),
    {
        match self {
            Template::Disabled => false,
            _ => true,
        }
    }
}

/// Every way a run of the pipeline can fail.
#[derive(Debug, Clone, PartialEq, Eq)]
pub enum Error {
    /// Reading or writing a file failed.
    IoError(String),
    /// Walking the input tree failed.
    WalkDirError(String),
    /// A scanned path did not lie under the input root.
    StripPrefixError,
    /// The image codec failed.
    PngError(String),
    /// The manifest template did not compile.
    TemplateError(String),
    /// The manifest template failed to render.
    RenderError(String),
    /// The frame pattern matched a name but lacks the `name` or `frame` group;
    /// holds the name.
    RegexCaptureError(String),
    /// The text captured as frame index is no `u32`; holds that text.
    FrameParseError(String),
    /// A path cannot be written as text; holds what could be shown of it.
    NonUnicodeFilename(String),
}

} // verus!
