use vstd::prelude::*;
use crate::model::Error;

verus! {

/// A path as the text of its components, root written `/`.
pub open spec fn path_view(p: Vec<String>) -> Seq<Seq<char>> {
    p@.map_values(|c: String| c@)
}

/// A list of paths as a sequence of component sequences.
pub open spec fn paths_view(ps: Seq<Vec<String>>) -> Seq<Seq<Seq<char>>> {
    ps.map_values(|p: Vec<String>| path_view(p))
}

/// A file name whose extension is `png`: a non-empty stem, a dot, `png`.
pub open spec fn png_name(name: Seq<char>) -> bool {
    name.len() > 4 && name.subrange(name.len() - 4, name.len() as int) == seq!['.', 'p', 'n', 'g']
}

/// Component-wise prefix of a path.
pub open spec fn starts_with(p: Seq<Seq<char>>, prefix: Seq<Seq<char>>) -> bool {
    prefix.len() <= p.len() && p.subrange(0, prefix.len() as int) == prefix
}

/// A scanned path that is a source image: an image file outside both output trees.
pub open spec fn source_candidate(
    p: Seq<Seq<char>>,
    optimized: Seq<Seq<char>>,
    packed: Seq<Seq<char>>,
) -> bool {
    p.len() > 0 && png_name(p.last()) && !starts_with(p, optimized) && !starts_with(p, packed)
}

/// The source images among the scanned paths, in scan order and relative to
/// the input root; `None` where a source image lies outside the input root.
pub open spec fn selected_sources(
    found: Seq<Seq<Seq<char>>>,
    input: Seq<Seq<char>>,
    optimized: Seq<Seq<char>>,
    packed: Seq<Seq<char>>,
) -> Option<Seq<Seq<Seq<char>>>>
    decreases found.len(),
{
    if found.len() == 0 {
        Some(seq![])
    } else {
        match selected_sources(found.drop_last(), input, optimized, packed) {
            None => None,
            Some(prev) => {
                let p = found.last();
                if !source_candidate(p, optimized, packed) {
                    Some(prev)
                } else if starts_with(p, input) {
                    Some(prev.push(p.subrange(input.len() as int, p.len() as int)))
                } else {
                    None
                }
            },
        }
    }
}

/// Once a prefix of the scan is rejected, the whole scan is.
proof fn lemma_rejection_is_final(
    found: Seq<Seq<Seq<char>>>,
    k: int,
    input: Seq<Seq<char>>,
    optimized: Seq<Seq<char>>,
    packed: Seq<Seq<char>>,
)
    requires
        0 <= k <= found.len(),
        selected_sources(found.subrange(0, k), input, optimized, packed) is None,
    ensures
        selected_sources(found, input, optimized, packed) is None,
    decreases found.len() - k,
{
    if k < found.len() {
        assert(found.subrange(0, k + 1).drop_last() =~= found.subrange(0, k));
        lemma_rejection_is_final(found, k + 1, input, optimized, packed);
    } else {
        assert(found.subrange(0, k) =~= found);
    }
}

/// Position of the last `.` of a text, -1 where there is none.
pub open spec fn last_dot(s: Seq<char>) -> int
    decreases s.len(),
{
    if s.len() == 0 {
        -1
    } else if s.last() == '.' {
        s.len() - 1
    } else {
        last_dot(s.drop_last())
    }
}

/// The stem of a file name: the text before its last `.`, or the whole name
/// where that `.` is missing or first, or where the name is `..`.
pub open spec fn stem(name: Seq<char>) -> Seq<char> {
    if name == seq!['.', '.'] || last_dot(name) <= 0 {
        name
    } else {
        name.take(last_dot(name))
    }
}

/// The stem of a file name, which identifies an image to the packer.
pub fn file_stem(name: &String) -> (r: String)
    ensures
        r@ == stem(name@),
{
    let t = name.as_str();
    let n = t.unicode_len();
    let mut after_dot: usize = 0;
    let mut i: usize = 0;
    while i < n
        invariant
            n == name@.len(),
            t@ == name@,
            i <= n,
            after_dot == last_dot(name@.take(i as int)) + 1,
            after_dot <= i,
        decreases n - i,
    {
        assert(name@.take(i + 1).drop_last() =~= name@.take(i as int));
        assert(name@.take(i + 1).last() == name@[i as int]);
        if t.get_char(i) == '.' {
            after_dot = i + 1;
        }
        i = i + 1;
    }
    assert(name@.take(n as int) =~= name@);
    let two_dots = n == 2 && t.get_char(0) == '.' && t.get_char(1) == '.';
    proof {
        if name@ == seq!['.', '.'] {
            assert(name@[0] == '.' && name@[1] == '.');
        }
        if two_dots {
            assert(name@ =~= seq!['.', '.']);
        }
    }
    if two_dots || after_dot <= 1 {
        name.clone()
    } else {
        let r = String::from_str(t.substring_char(0, after_dot - 1));
        assert(r@ =~= name@.take(after_dot - 1));
        r
    }
}

/// Whether a file name has the `png` extension.
pub fn is_png_name(name: &String) -> (r: bool)
    ensures
        r == png_name(name@),
{
    let s = name.as_str();
    let n = s.unicode_len();
    if n <= 4 {
        return false;
    }
    let r = s.get_char(n - 4) == '.' && s.get_char(n - 3) == 'p' && s.get_char(n - 2) == 'n'
        && s.get_char(n - 1) == 'g';
    proof {
        let tail = name@.subrange(n - 4, n as int);
        if r {
            assert(tail =~= seq!['.', 'p', 'n', 'g']);
        } else if tail == seq!['.', 'p', 'n', 'g'] {
            assert(tail[0] == name@[n - 4]);
            assert(tail[1] == name@[n - 3]);
            assert(tail[2] == name@[n - 2]);
            assert(tail[3] == name@[n - 1]);
        }
    }
    r
}

/// Whether `prefix` is a component-wise prefix of `p`.
pub fn path_starts_with(p: &Vec<String>, prefix: &Vec<String>) -> (r: bool)
    ensures
        r == starts_with(path_view(*p), path_view(*prefix)),
{
    if prefix.len() > p.len() {
        return false;
    }
    let mut i: usize = 0;
    while i < prefix.len()
        invariant
            prefix@.len() <= p@.len(),
            i <= prefix@.len(),
            forall|j: int| 0 <= j < i ==> (#[trigger] p@[j])@ == prefix@[j]@,
        decreases prefix@.len() - i,
    {
        if p[i] != prefix[i] {
            proof {
                let a = path_view(*p).subrange(0, prefix@.len() as int);
                assert(a[i as int] == p@[i as int]@);
                assert(path_view(*prefix)[i as int] == prefix@[i as int]@);
            }
            return false;
        }
        i = i + 1;
    }
    assert(path_view(*p).subrange(0, prefix@.len() as int) =~= path_view(*prefix));
    true
}

/// The components of `p` after its first `n`.
fn path_suffix(p: &Vec<String>, n: usize) -> (r: Vec<String>)
    requires
        n <= p@.len(),
    ensures
        path_view(r) == path_view(*p).subrange(n as int, p@.len() as int),
{
    let mut r: Vec<String> = Vec::new();
    let mut i: usize = n;
    while i < p.len()
        invariant
            n <= i <= p@.len(),
            path_view(r) == path_view(*p).subrange(n as int, i as int),
        decreases p@.len() - i,
    {
        let c = p[i].clone();
        assert(c@ == p@[i as int]@);
        let ghost before = r@;
        r.push(c);
        assert(r@ == before.push(c));
        assert(path_view(r) =~= before.map_values(|c: String| c@).push(c@));
        assert(path_view(r) =~= path_view(*p).subrange(n as int, i + 1));
        i = i + 1;
    }
    r
}

/// Picks the source images out of the paths that a walk of the input tree
/// found: files with the `png` extension outside the optimized and packed
/// trees, made relative to the input root, in the order found. Fails where
/// such a file does not lie under the input root.
pub fn select_sources(
    found: &Vec<Vec<String>>,
    input: &Vec<String>,
    optimized: &Vec<String>,
    packed: &Vec<String>,
) -> (r: Result<Vec<Vec<String>>, Error>)
    ensures
        match selected_sources(paths_view(found@), path_view(*input), path_view(*optimized), path_view(*packed)) {
            Some(s) => r is Ok && paths_view(r->Ok_0@) == s,
            None => r == Err::<Vec<Vec<String>>, Error>(Error::StripPrefixError),
        },
{
    let ghost fv = paths_view(found@);
    let ghost iv = path_view(*input);
    let ghost ov = path_view(*optimized);
    let ghost pv = path_view(*packed);
    let mut out: Vec<Vec<String>> = Vec::new();
    let mut i: usize = 0;
    while i < found.len()
        invariant
            i <= found@.len(),
            fv == paths_view(found@),
            iv == path_view(*input),
            ov == path_view(*optimized),
            pv == path_view(*packed),
            selected_sources(fv.subrange(0, i as int), iv, ov, pv) == Some(paths_view(out@)),
        decreases found@.len() - i,
    {
        let p = &found[i];
        assert(fv.subrange(0, i + 1).drop_last() =~= fv.subrange(0, i as int));
        assert(fv[i as int] == path_view(*p));
        let candidate = p.len() > 0 && is_png_name(&p[p.len() - 1]) && !path_starts_with(p, optimized)
            && !path_starts_with(p, packed);
        if candidate {
            if path_starts_with(p, input) {
                let rel = path_suffix(p, input.len());
                out.push(rel);
                assert(paths_view(out@) =~= paths_view(out@.drop_last()).push(path_view(rel)));
            } else {
                proof {
                    lemma_rejection_is_final(fv, (i + 1) as int, iv, ov, pv);
                }
                return Err(Error::StripPrefixError);
            }
        }
        i = i + 1;
    }
    assert(fv.subrange(0, i as int) =~= fv);
    Ok(out)
}

} // verus!
