use optipacker::freshness::{is_stale, plan_run, FileTimes};
use optipacker::grouping::{group_frames, group_page, name_less, KeyedFrame, PlacedImage};
use optipacker::manifest::{
    build_manifest, decimal_text, manifest_page_path, page_file_name, page_name, page_path,
    parent_dir, PageLayout,
};
use optipacker::model::{Error, Frame, Template, DEFAULT_TEMPLATE};
use optipacker::options::Options;
use optipacker::paths::{file_stem, is_png_name, path_starts_with, select_sources};
use optipacker::pattern::{
    extract_frame, frame_from_match, parse_frame_index, CaptureMatch, FramePattern,
    DEFAULT_FRAME_REGEX,
};
use optipacker::stats::Stats;

fn path(parts: &[&str]) -> Vec<String> {
    parts.iter().map(|p| p.to_string()).collect()
}

fn placed(name: &str, x: u32) -> PlacedImage {
    PlacedImage { name: name.to_string(), x, y: 1, w: 8, h: 9 }
}

fn default_pattern() -> Option<FramePattern> {
    Some(FramePattern::new(DEFAULT_FRAME_REGEX).expect("default pattern compiles"))
}

#[test]
fn template_is_some_only_when_configured() {
    assert!(Template::Str("x").is_some());
    assert!(Template::String("x".to_string()).is_some());
    assert!(Template::Path(path(&["a", "t.tmpl"])).is_some());
    assert!(!Template::Disabled.is_some());
}

#[test]
fn freshness_skips_only_strictly_newer_outputs() {
    assert!(!is_stale(false, &FileTimes { source: 10, optimized: Some(11) }));
    assert!(is_stale(false, &FileTimes { source: 10, optimized: Some(10) }));
    assert!(is_stale(false, &FileTimes { source: 12, optimized: Some(10) }));
    assert!(is_stale(false, &FileTimes { source: 10, optimized: None }));
    assert!(is_stale(true, &FileTimes { source: 10, optimized: Some(11) }));
}

#[test]
fn second_run_without_changes_does_nothing() {
    let first = vec![
        FileTimes { source: 5, optimized: None },
        FileTimes { source: 7, optimized: Some(3) },
    ];
    let plan = plan_run(false, &first);
    assert_eq!(plan.recompress, vec![0, 1]);
    assert!(plan.packing_needed);
    let second = vec![
        FileTimes { source: 5, optimized: Some(20) },
        FileTimes { source: 7, optimized: Some(21) },
    ];
    let plan = plan_run(false, &second);
    assert!(plan.recompress.is_empty());
    assert!(!plan.packing_needed);
}

#[test]
fn plan_lists_only_stale_sources() {
    let times = vec![
        FileTimes { source: 5, optimized: Some(9) },
        FileTimes { source: 9, optimized: Some(9) },
        FileTimes { source: 1, optimized: Some(2) },
        FileTimes { source: 1, optimized: None },
    ];
    let plan = plan_run(false, &times);
    assert_eq!(plan.recompress, vec![1, 3]);
    assert!(plan.packing_needed);
    let all = plan_run(true, &times);
    assert_eq!(all.recompress, vec![0, 1, 2, 3]);
    let none = plan_run(false, &Vec::new());
    assert!(none.recompress.is_empty());
    assert!(!none.packing_needed);
}

#[test]
fn png_names() {
    assert!(is_png_name(&"hero_0.png".to_string()));
    assert!(is_png_name(&"a.png".to_string()));
    assert!(!is_png_name(&".png".to_string()));
    assert!(!is_png_name(&"hero.PNG".to_string()));
    assert!(!is_png_name(&"hero.jpg".to_string()));
    assert!(!is_png_name(&"png".to_string()));
}

#[test]
fn prefix_is_component_wise() {
    assert!(path_starts_with(&path(&["a", "b", "c"]), &path(&["a", "b"])));
    assert!(path_starts_with(&path(&["a"]), &path(&[])));
    assert!(!path_starts_with(&path(&["a", "bc"]), &path(&["a", "b"])));
    assert!(!path_starts_with(&path(&["a"]), &path(&["a", "b"])));
}

#[test]
fn scan_keeps_sources_outside_output_trees() {
    let input = path(&["assets", "textures"]);
    let optimized = path(&["assets", "textures", "optimized"]);
    let packed = path(&["assets", "textures", "packed"]);
    let found = vec![
        path(&["assets", "textures"]),
        path(&["assets", "textures", "hero_0.png"]),
        path(&["assets", "textures", "notes.txt"]),
        path(&["assets", "textures", "optimized", "hero_0.png"]),
        path(&["assets", "textures", "packed", "page_0.png"]),
        path(&["assets", "textures", "ui", "button.png"]),
    ];
    let r = select_sources(&found, &input, &optimized, &packed).unwrap();
    assert_eq!(r, vec![path(&["hero_0.png"]), path(&["ui", "button.png"])]);
}

#[test]
fn scan_fails_on_source_outside_input_root() {
    let found = vec![path(&["assets", "textures", "a.png"]), path(&["elsewhere", "b.png"])];
    let r = select_sources(
        &found,
        &path(&["assets", "textures"]),
        &path(&["assets", "textures", "optimized"]),
        &path(&["assets", "textures", "packed"]),
    );
    assert_eq!(r, Err(Error::StripPrefixError));
}

#[test]
fn frame_index_parsing() {
    assert_eq!(parse_frame_index(&"0".to_string()), Some(0));
    assert_eq!(parse_frame_index(&"007".to_string()), Some(7));
    assert_eq!(parse_frame_index(&"+12".to_string()), Some(12));
    assert_eq!(parse_frame_index(&"4294967295".to_string()), Some(4294967295));
    assert_eq!(parse_frame_index(&"4294967296".to_string()), None);
    assert_eq!(parse_frame_index(&"".to_string()), None);
    assert_eq!(parse_frame_index(&"+".to_string()), None);
    assert_eq!(parse_frame_index(&"-1".to_string()), None);
    assert_eq!(parse_frame_index(&"1a".to_string()), None);
    assert_eq!(parse_frame_index(&"\u{0663}".to_string()), None);
}

#[test]
fn frame_from_match_cases() {
    let id = "hero_3".to_string();
    let r = frame_from_match(&id, None).unwrap();
    assert_eq!(r, ("hero_3".to_string(), 0));
    let m = CaptureMatch { group_count: 3, name: Some("hero".to_string()), frame: Some("3".to_string()) };
    assert_eq!(frame_from_match(&id, Some(m)).unwrap(), ("hero".to_string(), 3));
    let m = CaptureMatch { group_count: 2, name: Some("hero".to_string()), frame: None };
    assert_eq!(frame_from_match(&id, Some(m)), Err(Error::RegexCaptureError("hero_3".to_string())));
    let m = CaptureMatch { group_count: 3, name: Some("hero".to_string()), frame: Some("x".to_string()) };
    assert_eq!(frame_from_match(&id, Some(m)), Err(Error::FrameParseError("x".to_string())));
}

#[test]
fn default_pattern_splits_name_and_frame() {
    let p = default_pattern();
    assert_eq!(extract_frame(&p, &"hero_12".to_string()).unwrap(), ("hero".to_string(), 12));
    assert_eq!(extract_frame(&p, &"big_hero_2".to_string()).unwrap(), ("big_hero".to_string(), 2));
    assert_eq!(extract_frame(&None, &"hero_12".to_string()).unwrap(), ("hero_12".to_string(), 0));
}

#[test]
fn non_matching_name_is_single_frame() {
    let p = default_pattern();
    assert_eq!(extract_frame(&p, &"background".to_string()).unwrap(), ("background".to_string(), 0));
    let items = group_page(&vec![placed("background", 4)], &p).unwrap();
    assert_eq!(items.len(), 1);
    assert_eq!(items[0].name, "background");
    assert_eq!(items[0].frames, vec![Frame { i: 0, x: 4, y: 1, w: 8, h: 9 }]);
}

#[test]
fn frames_are_grouped_and_ordered() {
    let p = default_pattern();
    let page = vec![placed("hero_0", 0), placed("hero_2", 20), placed("hero_1", 10)];
    let items = group_page(&page, &p).unwrap();
    assert_eq!(items.len(), 1);
    assert_eq!(items[0].name, "hero");
    let order: Vec<u32> = items[0].frames.iter().map(|f| f.i).collect();
    assert_eq!(order, vec![0, 1, 2]);
    let xs: Vec<u32> = items[0].frames.iter().map(|f| f.x).collect();
    assert_eq!(xs, vec![0, 10, 20]);
}

#[test]
fn grouping_orders_names_and_keeps_equal_indices() {
    let f = |i: u32, x: u32| Frame { i, x, y: 0, w: 1, h: 1 };
    let keyed = vec![
        KeyedFrame { name: "b".to_string(), frame: f(2, 0) },
        KeyedFrame { name: "a".to_string(), frame: f(0, 1) },
        KeyedFrame { name: "b".to_string(), frame: f(1, 2) },
        KeyedFrame { name: "b".to_string(), frame: f(1, 3) },
        KeyedFrame { name: "ab".to_string(), frame: f(5, 4) },
        KeyedFrame { name: "B".to_string(), frame: f(0, 5) },
    ];
    let items = group_frames(&keyed);
    let names: Vec<&str> = items.iter().map(|it| it.name.as_str()).collect();
    assert_eq!(names, vec!["B", "a", "ab", "b"]);
    assert_eq!(items[3].frames, vec![f(1, 2), f(1, 3), f(2, 0)]);
    assert_eq!(items[1].frames, vec![f(0, 1)]);
    assert!(group_frames(&Vec::new()).is_empty());
}

#[test]
fn name_order_is_by_character() {
    assert!(name_less(&"a".to_string(), &"b".to_string()));
    assert!(name_less(&"a".to_string(), &"ab".to_string()));
    assert!(name_less(&"".to_string(), &"a".to_string()));
    assert!(name_less(&"Z".to_string(), &"a".to_string()));
    assert!(!name_less(&"b".to_string(), &"ab".to_string()));
    assert!(!name_less(&"a".to_string(), &"a".to_string()));
}

#[test]
fn file_stems() {
    assert_eq!(file_stem(&"hero_0.png".to_string()), "hero_0");
    assert_eq!(file_stem(&"a.b.png".to_string()), "a.b");
    assert_eq!(file_stem(&"plain".to_string()), "plain");
    assert_eq!(file_stem(&".png".to_string()), ".png");
    assert_eq!(file_stem(&"a.".to_string()), "a");
    assert_eq!(file_stem(&"..".to_string()), "..");
}

#[test]
fn manifest_reports_capture_error_of_first_image() {
    let p = Some(FramePattern::new(r"(?P<name>[a-z]+)_\d+").unwrap());
    let layouts = vec![
        PageLayout { w: 1, h: 1, placed: vec![placed("plain", 0)] },
        PageLayout { w: 1, h: 1, placed: vec![placed("other", 0), placed("hero_1", 0), placed("x_2", 0)] },
    ];
    let r = build_manifest(&layouts, &path(&["p"]), &path(&["m.rs"]), &p);
    assert_eq!(r.unwrap_err(), Error::RegexCaptureError("hero_1".to_string()));
}

#[test]
fn pattern_with_one_group_fails() {
    let p = Some(FramePattern::new(r"(?P<name>.+)_\d+").unwrap());
    let r = group_page(&vec![placed("hero_0", 0)], &p);
    assert_eq!(r.unwrap_err(), Error::RegexCaptureError("hero_0".to_string()));
    let r = group_page(&vec![placed("plain", 0), placed("hero_1", 0)], &p);
    assert!(matches!(r, Err(Error::RegexCaptureError(_))));
    let ok = group_page(&vec![placed("plain", 0)], &p).unwrap();
    assert_eq!(ok[0].name, "plain");
}

#[test]
fn invalid_pattern_is_refused() {
    assert!(FramePattern::new("(?P<name>").is_none());
    assert_eq!(FramePattern::new(DEFAULT_FRAME_REGEX).unwrap().as_str(), DEFAULT_FRAME_REGEX);
}

#[test]
fn page_names() {
    assert_eq!(decimal_text(0), "0");
    assert_eq!(decimal_text(907), "907");
    assert_eq!(page_name(0), "page_0");
    assert_eq!(page_name(10), "page_10");
    assert_eq!(page_file_name(3), "page_3.png");
}

#[test]
fn manifest_path_drops_first_component() {
    let r = page_path(
        &path(&["assets", "textures", "packed"]),
        &path(&["assets", "src", "packed_assets.ext"]),
        &"page_0.png".to_string(),
    );
    assert_eq!(r, "textures/packed/page_0.png");
}

#[test]
fn manifest_path_climbs_out_of_manifest_dir() {
    let r = page_path(
        &path(&["assets", "textures", "packed"]),
        &path(&["src", "packed_assets.rs"]),
        &"page_2.png".to_string(),
    );
    assert_eq!(r, "assets/textures/packed/page_2.png");
    let r = page_path(&path(&["out", "packed"]), &path(&["out", "m.rs"]), &"page_0.png".to_string());
    assert_eq!(r, "page_0.png");
}

#[test]
fn manifest_path_without_difference() {
    assert_eq!(manifest_page_path(None, &"page_0.png".to_string()), "page_0.png");
    assert_eq!(manifest_page_path(Some(Vec::new()), &"page_0.png".to_string()), "");
    assert_eq!(
        manifest_page_path(Some(path(&["..", "textures", "packed"])), &"page_1.png".to_string()),
        "textures/packed/page_1.png"
    );
}

#[test]
fn parent_of_paths() {
    assert_eq!(parent_dir(&path(&["assets", "src", "out.rs"])), path(&["assets", "src"]));
    assert_eq!(parent_dir(&path(&["out.rs"])), path(&[]));
    assert_eq!(parent_dir(&path(&[])), path(&["."]));
    assert_eq!(parent_dir(&path(&["/"])), path(&["."]));
}

#[test]
fn manifest_keeps_packer_page_order() {
    let layouts = vec![
        PageLayout { w: 64, h: 32, placed: vec![placed("b_0", 0)] },
        PageLayout { w: 16, h: 16, placed: vec![placed("a_0", 0), placed("a_1", 8)] },
    ];
    let pages = build_manifest(
        &layouts,
        &path(&["assets", "textures", "packed"]),
        &path(&["assets", "src", "packed_assets.rs"]),
        &default_pattern(),
    )
    .unwrap();
    assert_eq!(pages.len(), 2);
    assert_eq!(pages[0].name, "page_0");
    assert_eq!(pages[0].path, "textures/packed/page_0.png");
    assert_eq!((pages[0].w, pages[0].h), (64, 32));
    assert_eq!(pages[0].items[0].name, "b");
    assert_eq!(pages[1].name, "page_1");
    assert_eq!(pages[1].path, "textures/packed/page_1.png");
    assert_eq!((pages[1].w, pages[1].h), (16, 16));
    assert_eq!(pages[1].items[0].frames.len(), 2);
}

#[test]
fn manifest_fails_on_bad_frame_text() {
    let p = Some(FramePattern::new(r"(?P<name>[a-z]+)(?P<frame>\w+)").unwrap());
    let layouts = vec![PageLayout { w: 1, h: 1, placed: vec![placed("hero_x", 0)] }];
    let r = build_manifest(&layouts, &path(&["p"]), &path(&["m.rs"]), &p);
    assert_eq!(r.unwrap_err(), Error::FrameParseError("_x".to_string()));
}

#[test]
fn default_options_layout() {
    let o = Options::from_base_path(&path(&["base"]));
    assert_eq!(o.input_path, path(&["base", "textures"]));
    assert_eq!(o.optimized_path, path(&["base", "textures", "optimized"]));
    assert_eq!(o.packed_path, path(&["base", "textures", "packed"]));
    assert_eq!(o.template_out_path, path(&["base", "src", "packed_assets.rs"]));
    assert_eq!((o.texture_max_width, o.texture_max_height), (4096, 4096));
    assert!(!o.skip_fresh_checks);
    assert_eq!(o.frame_regex.unwrap().as_str(), DEFAULT_FRAME_REGEX);
    assert!(matches!(o.template, Template::Str(t) if t == DEFAULT_TEMPLATE));
    assert!(DEFAULT_TEMPLATE.contains("{{#each pages}}"));
    let d = Options::default();
    assert_eq!(d.input_path, path(&["assets", "textures"]));
    assert_eq!(d.optimized_path, path(&["assets", "textures", "optimized"]));
    assert_eq!(d.packed_path, path(&["assets", "textures", "packed"]));
    assert_eq!(d.template_out_path, path(&["assets", "src", "packed_assets.rs"]));
    assert!(matches!(d.template, Template::Str(t) if t == DEFAULT_TEMPLATE));
    assert_eq!((d.texture_max_width, d.texture_max_height), (4096, 4096));
    assert!(!d.skip_fresh_checks);
    assert_eq!(d.frame_regex.unwrap().as_str(), DEFAULT_FRAME_REGEX);
}

#[test]
fn stats_accumulate_and_saturate() {
    let mut s = Stats::new();
    s.record(100, 60);
    s.record(50, 70);
    assert_eq!((s.count, s.in_bytes, s.out_bytes), (2, 150, 130));
    assert_eq!(s.saved(), 20);
    s.record(u64::MAX, 0);
    assert_eq!(s.in_bytes, u64::MAX);
    let mut t = Stats::new();
    t.record(1, 5);
    assert_eq!(t.saved(), -4);
}
