use vstd::prelude::*;
use crate::grouping::{first_key_error, group_page, grouped_as, items_view, keyed_images, PlacedImage};
use crate::model::{Error, PackedPage};
use crate::paths::path_view;
use crate::pattern::{pattern_view, FramePattern};

verus! {

/// The relative path from `base` to `path`, as `pathdiff::diff_paths` gives
/// it, in components; `None` where there is none.
pub uninterp spec fn path_difference(path: Seq<Seq<char>>, base: Seq<Seq<char>>) -> Option<Seq<Seq<char>>>;

/// Relies on pathdiff::diff_paths: the relative path from `base` to `path`,
/// a function of the two paths alone.
#[verifier::external_body]
fn diff_components(path: &Vec<String>, base: &Vec<String>) -> (r: Option<Vec<String>>)
    ensures
        match r {
            Some(d) => path_difference(path_view(*path), path_view(*base)) == Some(path_view(d)),
            None => path_difference(path_view(*path), path_view(*base)) is None,
        },
{
    let p: std::path::PathBuf = path.iter().collect();
    let b: std::path::PathBuf = base.iter().collect();
    pathdiff::diff_paths(&p, &b).map(
        |d| d.iter().map(|c| c.to_string_lossy().into_owned()).collect(),
    )
}

/// The directory that holds a file: all but the last component, or `.` where
/// the path is empty or only a root.
pub open spec fn parent_or_current(p: Seq<Seq<char>>) -> Seq<Seq<char>> {
    if p.len() > 0 && p.last() != seq!['/'] {
        p.drop_last()
    } else {
        seq![seq!['.']]
    }
}

/// Components written one after the other, `/` between two.
pub open spec fn join_components(cs: Seq<Seq<char>>) -> Seq<char>
    decreases cs.len(),
{
    if cs.len() == 0 {
        seq![]
    } else if cs.len() == 1 {
        cs[0]
    } else {
        join_components(cs.drop_last()) + seq!['/'] + cs.last()
    }
}

/// Where the manifest finds a page file: the difference between the packed
/// root and the manifest's directory (`.` where there is none), then the
/// file name, without its first component, which names the directory that
/// the consumer of the manifest mounts.
pub open spec fn manifest_path(diff: Option<Seq<Seq<char>>>, file_name: Seq<char>) -> Seq<char> {
    let d = match diff {
        Some(d) => d,
        None => seq![seq!['.']],
    };
    join_components(d.push(file_name).drop_first())
}

/// Decimal digit of a value under ten.
pub open spec fn digit_char(d: nat) -> char {
    ((d + '0' as nat) as u32) as char
}

/// Decimal text of a number.
pub open spec fn decimal(n: nat) -> Seq<char>
    decreases n,
{
    if n < 10 {
        seq![digit_char(n)]
    } else {
        decimal(n / 10).push(digit_char(n % 10))
    }
}

/// Name of the page at a position: `page_` and the position in decimal.
pub open spec fn page_name_spec(ordinal: nat) -> Seq<char> {
    seq!['p', 'a', 'g', 'e', '_'] + decimal(ordinal)
}

/// File name of the page at a position.
pub open spec fn page_file_spec(ordinal: nat) -> Seq<char> {
    page_name_spec(ordinal) + seq!['.', 'p', 'n', 'g']
}

fn digit_text(d: usize) -> (r: &'static str)
    requires
        d < 10,
    ensures
        r@ == seq![digit_char(d as nat)],
{
    proof {
        reveal_strlit("0");
        reveal_strlit("1");
        reveal_strlit("2");
        reveal_strlit("3");
        reveal_strlit("4");
        reveal_strlit("5");
        reveal_strlit("6");
        reveal_strlit("7");
        reveal_strlit("8");
        reveal_strlit("9");
    }
    match d {
        0 => "0",
        1 => "1",
        2 => "2",
        3 => "3",
        4 => "4",
        5 => "5",
        6 => "6",
        7 => "7",
        8 => "8",
        _ => "9",
    }
}

/// Decimal text of a number.
pub fn decimal_text(n: usize) -> (r: String)
    ensures
        r@ == decimal(n as nat),
    decreases n,
{
    if n < 10 {
        String::from_str(digit_text(n))
    } else {
        let mut s = decimal_text(n / 10);
        s.append(digit_text(n % 10));
        s
    }
}

/// Name of the page at a position, `page_0` for the first.
pub fn page_name(ordinal: usize) -> (r: String)
    ensures
        r@ == page_name_spec(ordinal as nat),
{
    proof {
        reveal_strlit("page_");
    }
    let mut s = String::from_str("page_");
    let d = decimal_text(ordinal);
    s.append(d.as_str());
    s
}

/// File name of the page at a position, `page_0.png` for the first.
pub fn page_file_name(ordinal: usize) -> (r: String)
    ensures
        r@ == page_file_spec(ordinal as nat),
{
    proof {
        reveal_strlit(".png");
    }
    let mut s = page_name(ordinal);
    s.append(".png");
    s
}

/// The directory of a file, `.` where the path has none.
pub fn parent_dir(p: &Vec<String>) -> (r: Vec<String>)
    ensures
        path_view(r) == parent_or_current(path_view(*p)),
{
    proof {
        reveal_strlit("/");
        reveal_strlit(".");
    }
    let n = p.len();
    let root = String::from_str("/");
    assert(root@ =~= seq!['/']);
    if n > 0 && p[n - 1] != root {
        let mut r: Vec<String> = Vec::new();
        let mut i: usize = 0;
        while i < n - 1
            invariant
                n == p@.len(),
                n > 0,
                i <= n - 1,
                path_view(r) == path_view(*p).take(i as int),
            decreases n - 1 - i,
        {
            let c = p[i].clone();
            let ghost before = r@;
            r.push(c);
            assert(path_view(r) =~= before.map_values(|c: String| c@).push(c@));
            assert(path_view(r) =~= path_view(*p).take(i + 1));
            i = i + 1;
        }
        assert(path_view(*p).drop_last() =~= path_view(*p).take(n - 1));
        r
    } else {
        let mut r: Vec<String> = Vec::new();
        let dot = String::from_str(".");
        assert(dot@ =~= seq!['.']);
        r.push(dot);
        assert(path_view(r) =~= seq![seq!['.']]);
        r
    }
}

/// Components joined by `/`.
fn join_path(cs: &Vec<String>, from: usize) -> (r: String)
    requires
        from <= cs@.len(),
    ensures
        r@ == join_components(path_view(*cs).skip(from as int)),
{
    proof {
        reveal_strlit("/");
    }
    let mut s = String::new();
    let mut i: usize = from;
    while i < cs.len()
        invariant
            from <= i <= cs@.len(),
            s@ == join_components(path_view(*cs).subrange(from as int, i as int)),
        decreases cs@.len() - i,
    {
        let ghost prev = path_view(*cs).subrange(from as int, i as int);
        let ghost next = path_view(*cs).subrange(from as int, i + 1);
        assert(next.drop_last() =~= prev);
        assert(next.last() == cs@[i as int]@);
        if i > from {
            proof {
                reveal_strlit("/");
            }
            assert("/"@ =~= seq!['/']);
            s.append("/");
        } else {
            assert(s@ =~= seq![]);
        }
        s.append(cs[i].as_str());
        proof {
            if i > from {
                assert(s@ =~= join_components(prev) + seq!['/'] + next.last());
            } else {
                assert(s@ =~= next[0]);
            }
        }
        i = i + 1;
    }
    assert(path_view(*cs).subrange(from as int, i as int) =~= path_view(*cs).skip(from as int));
    s
}

/// Where the manifest finds a page file, given the difference between the
/// packed root and the manifest's directory.
pub fn manifest_page_path(diff: Option<Vec<String>>, file_name: &String) -> (r: String)
    ensures
        r@ == manifest_path(
            match diff {
                Some(d) => Some(path_view(d)),
                None => None,
            },
            file_name@,
        ),
{
    let mut full: Vec<String> = match diff {
        Some(d) => d,
        None => {
            let mut v: Vec<String> = Vec::new();
            proof {
                reveal_strlit(".");
            }
            let dot = String::from_str(".");
            assert(dot@ =~= seq!['.']);
            v.push(dot);
            v
        },
    };
    let ghost start = path_view(full);
    proof {
        reveal_strlit(".");
        if diff is None {
            assert(start =~= seq![seq!['.']]);
        }
    }
    let f = file_name.clone();
    full.push(f);
    assert(path_view(full) =~= start.push(file_name@));
    join_path(&full, 1)
}

/// Where the manifest, written at `manifest_out`, finds the page file
/// `file_name` under the packed root `packed`.
pub fn page_path(packed: &Vec<String>, manifest_out: &Vec<String>, file_name: &String) -> (r: String)
    ensures
        r@ == manifest_path(
            path_difference(path_view(*packed), parent_or_current(path_view(*manifest_out))),
            file_name@,
        ),
{
    let dir = parent_dir(manifest_out);
    let diff = diff_components(packed, &dir);
    manifest_page_path(diff, file_name)
}

/// One page as the packer laid it out.
#[derive(Debug, Clone)]
pub struct PageLayout {
    pub w: u32,
    pub h: u32,
    pub placed: Vec<PlacedImage>,
}

/// Whether `page` carries the name, file path and size of the page at
/// position `ordinal`, laid out as `layout`.
pub open spec fn page_record(
    ordinal: nat,
    layout: PageLayout,
    packed: Seq<Seq<char>>,
    manifest_out: Seq<Seq<char>>,
    page: PackedPage,
) -> bool {
    &&& page.name@ == page_name_spec(ordinal)
    &&& page.path@ == manifest_path(
        path_difference(packed, parent_or_current(manifest_out)),
        page_file_spec(ordinal),
    )
    &&& page.w == layout.w
    &&& page.h == layout.h
}

/// The manifest record of one page: its name and file path, from its position,
/// its size, and its sequences.
pub fn build_page(
    ordinal: usize,
    layout: &PageLayout,
    packed: &Vec<String>,
    manifest_out: &Vec<String>,
    pattern: &Option<FramePattern>,
) -> (r: Result<PackedPage, Error>)
    ensures
        match keyed_images(pattern_view(*pattern), layout.placed@) {
            Some(keys) => r is Ok && page_record(ordinal as nat, *layout, path_view(*packed), path_view(*manifest_out), r->Ok_0)
                && grouped_as(items_view(r->Ok_0.items@), keys),
            None => (r matches Err(e) && first_key_error(pattern_view(*pattern), layout.placed@, e)),
        },
{
    let items = match group_page(&layout.placed, pattern) {
        Ok(items) => items,
        Err(e) => return Err(e),
    };
    let file = page_file_name(ordinal);
    let path = page_path(packed, manifest_out, &file);
    Ok(PackedPage { name: page_name(ordinal), path, w: layout.w, h: layout.h, items })
}

/// Whether every page of a layout gets its sequences.
pub open spec fn all_pages_keyed(pattern: Option<Seq<char>>, layouts: Seq<PageLayout>) -> bool {
    forall|k: int| 0 <= k < layouts.len() ==> (#[trigger] keyed_images(pattern, layouts[k].placed@)) is Some
}

/// Whether `e` is the error of the first page that has an image the pattern
/// gives no key, and of the first such image on it.
pub open spec fn first_page_error(pattern: Option<Seq<char>>, layouts: Seq<PageLayout>, e: Error) -> bool {
    exists|k: int| {
        &&& 0 <= k < layouts.len()
        &&& forall|j: int| 0 <= j < k ==> (#[trigger] keyed_images(pattern, layouts[j].placed@)) is Some
        &&& #[trigger] first_key_error(pattern, layouts[k].placed@, e)
    }
}

/// The manifest: one record per page, in the order the packer gave the pages.
/// Fails where the pattern gives some image of some page no key.
pub fn build_manifest(
    layouts: &Vec<PageLayout>,
    packed: &Vec<String>,
    manifest_out: &Vec<String>,
    pattern: &Option<FramePattern>,
) -> (r: Result<Vec<PackedPage>, Error>)
    ensures
        r is Ok == all_pages_keyed(pattern_view(*pattern), layouts@),
        r matches Err(e) ==> first_page_error(pattern_view(*pattern), layouts@, e),
        r matches Ok(pages) ==> pages@.len() == layouts@.len() && forall|k: int| 0 <= k < layouts@.len() ==> {
            &&& page_record(k as nat, layouts@[k], path_view(*packed), path_view(*manifest_out), #[trigger] pages@[k])
            &&& grouped_as(items_view(pages@[k].items@), keyed_images(pattern_view(*pattern), layouts@[k].placed@)->Some_0)
        },
{
    let mut pages: Vec<PackedPage> = Vec::new();
    let mut i: usize = 0;
    while i < layouts.len()
        invariant
            i <= layouts@.len(),
            pages@.len() == i,
            forall|k: int| 0 <= k < i ==> (#[trigger] keyed_images(pattern_view(*pattern), layouts@[k].placed@)) is Some,
            forall|k: int| 0 <= k < i ==> {
                &&& page_record(k as nat, layouts@[k], path_view(*packed), path_view(*manifest_out), #[trigger] pages@[k])
                &&& grouped_as(items_view(pages@[k].items@), keyed_images(pattern_view(*pattern), layouts@[k].placed@)->Some_0)
            },
        decreases layouts@.len() - i,
    {
        match build_page(i, &layouts[i], packed, manifest_out, pattern) {
            Ok(page) => pages.push(page),
            Err(e) => {
                assert(keyed_images(pattern_view(*pattern), layouts@[i as int].placed@) is None);
                assert(first_key_error(pattern_view(*pattern), layouts@[i as int].placed@, e));
                return Err(e);
            },
        }
        i = i + 1;
    }
    Ok(pages)
}

} // verus!
