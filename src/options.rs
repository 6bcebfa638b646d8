use vstd::prelude::*;
use crate::model::{Template, DEFAULT_TEMPLATE, DEFAULT_TEXTURE_MAX_HEIGHT, DEFAULT_TEXTURE_MAX_WIDTH};
use crate::paths::path_view;
use crate::pattern::{pattern_compiles, pattern_view, FramePattern, DEFAULT_FRAME_REGEX};

verus! {

/// Options of one run of the pipeline. Paths are lists of components.
pub struct Options {
    /// Root of the tree scanned for images.
    pub input_path: Vec<String>,
    /// Root of the optimized copies; excluded from the scan where it lies
    /// under the input root.
    pub optimized_path: Vec<String>,
    /// Root of the packed pages; excluded from the scan where it lies under
    /// the input root.
    pub packed_path: Vec<String>,
    /// Where the manifest template comes from, if one is rendered.
    pub template: Template,
    /// Where the rendered manifest is written.
    pub template_out_path: Vec<String>,
    /// Largest page width.
    pub texture_max_width: u32,
    /// Largest page height.
    pub texture_max_height: u32,
    /// Recompress and repack every source, whatever the modification times.
    pub skip_fresh_checks: bool,
    /// Pattern giving the sequence name and frame index of an image name;
    /// `None` makes each image a sequence of one frame.
    pub frame_regex: Option<FramePattern>,
}

/// `base` followed by the given components.
fn sub_path(base: &Vec<String>, first: &str, second: Option<&str>) -> (r: Vec<String>)
    ensures
        path_view(r) == match second {
            Some(s) => path_view(*base).push(first@).push(s@),
            None => path_view(*base).push(first@),
        },
{
    let mut r: Vec<String> = Vec::new();
    let mut i: usize = 0;
    while i < base.len()
        invariant
            i <= base@.len(),
            path_view(r) == path_view(*base).take(i as int),
        decreases base@.len() - i,
    {
        let c = base[i].clone();
        let ghost before = r@;
        r.push(c);
        assert(path_view(r) =~= before.map_values(|c: String| c@).push(c@));
        assert(path_view(r) =~= path_view(*base).take(i + 1));
        i = i + 1;
    }
    assert(path_view(*base).take(i as int) =~= path_view(*base));
    let ghost before = r@;
    r.push(String::from_str(first));
    assert(path_view(r) =~= before.map_values(|c: String| c@).push(first@));
    match second {
        Some(s) => {
            let ghost before = r@;
            r.push(String::from_str(s));
            assert(path_view(r) =~= before.map_values(|c: String| c@).push(s@));
        },
        None => {},
    }
    r
}

impl Options {
    /// The conventional layout under a base directory: sources in
    /// `textures`, optimized copies in `textures/optimized`, pages in
    /// `textures/packed`, the manifest at `src/packed_assets.rs`, pages of at
    /// most 4096 by 4096, freshness checks on, the default frame pattern and
    /// the default manifest template.
    pub fn from_base_path(base: &Vec<String>) -> (r: Options)
        ensures
            path_view(r.input_path) == path_view(*base).push("textures"@),
            path_view(r.optimized_path) == path_view(*base).push("textures"@).push("optimized"@),
            path_view(r.packed_path) == path_view(*base).push("textures"@).push("packed"@),
            path_view(r.template_out_path) == path_view(*base).push("src"@).push("packed_assets.rs"@),
            r.template == Template::Str(DEFAULT_TEMPLATE),
            r.texture_max_width == 4096,
            r.texture_max_height == 4096,
            !r.skip_fresh_checks,
            r.frame_regex is Some == pattern_compiles(DEFAULT_FRAME_REGEX@),
            r.frame_regex is Some ==> pattern_view(r.frame_regex) == Some(DEFAULT_FRAME_REGEX@),
    {
        Options {
            input_path: sub_path(base, "textures", None),
            optimized_path: sub_path(base, "textures", Some("optimized")),
            packed_path: sub_path(base, "textures", Some("packed")),
            template: Template::Str(DEFAULT_TEMPLATE),
            template_out_path: sub_path(base, "src", Some("packed_assets.rs")),
            texture_max_width: DEFAULT_TEXTURE_MAX_WIDTH,
            texture_max_height: DEFAULT_TEXTURE_MAX_HEIGHT,
            skip_fresh_checks: false,
            frame_regex: FramePattern::new(DEFAULT_FRAME_REGEX),
        }
    }
}

impl Default for Options {
    /// The conventional layout under `assets`, as `from_base_path` gives it.
    fn default() -> (r: Options)
        ensures
            path_view(r.input_path) == seq!["assets"@, "textures"@],
            path_view(r.optimized_path) == seq!["assets"@, "textures"@, "optimized"@],
            path_view(r.packed_path) == seq!["assets"@, "textures"@, "packed"@],
            path_view(r.template_out_path) == seq!["assets"@, "src"@, "packed_assets.rs"@],
            r.template == Template::Str(DEFAULT_TEMPLATE),
            r.texture_max_width == 4096,
            r.texture_max_height == 4096,
            !r.skip_fresh_checks,
            r.frame_regex is Some == pattern_compiles(DEFAULT_FRAME_REGEX@),
            r.frame_regex is Some ==> pattern_view(r.frame_regex) == Some(DEFAULT_FRAME_REGEX@),
    {
        let mut base: Vec<String> = Vec::new();
        base.push(String::from_str("assets"));
        assert(path_view(base) =~= seq!["assets"@]);
        let r = Options::from_base_path(&base);
        assert(path_view(r.input_path) =~= seq!["assets"@, "textures"@]);
        assert(path_view(r.packed_path) =~= seq!["assets"@, "textures"@, "packed"@]);
        assert(path_view(r.optimized_path) =~= seq!["assets"@, "textures"@, "optimized"@]);
        assert(path_view(r.template_out_path) =~= seq!["assets"@, "src"@, "packed_assets.rs"@]);
        r
    }
}

} // verus!
