use vstd::prelude::*;
use crate::model::{Error, Frame, PageItem};
use crate::pattern::{extract_frame, frame_key, key_error, lacks_groups, pattern_captures, pattern_view, FramePattern};

verus! {

/// A sub-image as the packer placed it on a page.
#[derive(Debug, Clone)]
pub struct PlacedImage {
    pub name: String,
    pub x: u32,
    pub y: u32,
    pub w: u32,
    pub h: u32,
}

/// A frame together with the name of its sequence.
#[derive(Debug, Clone)]
pub struct KeyedFrame {
    pub name: String,
    pub frame: Frame,
}

pub open spec fn keyed_view(ks: Seq<KeyedFrame>) -> Seq<(Seq<char>, Frame)> {
    ks.map_values(|k: KeyedFrame| (k.name@, k.frame))
}

pub open spec fn items_view(items: Seq<PageItem>) -> Seq<(Seq<char>, Seq<Frame>)> {
    items.map_values(|it: PageItem| (it.name@, it.frames@))
}

/// `f` put into `s` after every frame whose index is not greater than its own.
pub open spec fn insert_by_index(s: Seq<Frame>, f: Frame) -> Seq<Frame>
    decreases s.len(),
{
    if s.len() == 0 {
        seq![f]
    } else if s.last().i <= f.i {
        s.push(f)
    } else {
        insert_by_index(s.drop_last(), f).push(s.last())
    }
}

/// Frames in ascending order of index.
pub open spec fn sorted_by_index(s: Seq<Frame>) -> bool {
    forall|a: int, b: int| 0 <= a < b < s.len() ==> s[a].i <= s[b].i
}

/// No two sequences share a name.
pub open spec fn names_unique(items: Seq<(Seq<char>, Seq<Frame>)>) -> bool {
    forall|a: int, b: int| 0 <= a < b < items.len() ==> items[a].0 != items[b].0
}

/// Whether some sequence has the name `n`.
pub open spec fn has_name(items: Seq<(Seq<char>, Seq<Frame>)>, n: Seq<char>) -> bool {
    exists|j: int| 0 <= j < items.len() && (#[trigger] items[j]).0 == n
}

/// The sequences of a page: one per name, in order of the name's first
/// appearance, each holding its frames ordered by index, frames of equal
/// index in order of appearance.
pub open spec fn group_spec(keys: Seq<(Seq<char>, Frame)>) -> Seq<(Seq<char>, Seq<Frame>)>
    decreases keys.len(),
{
    if keys.len() == 0 {
        seq![]
    } else {
        let prev = group_spec(keys.drop_last());
        let (n, f) = keys.last();
        if has_name(prev, n) {
            let j = choose|j: int| 0 <= j < prev.len() && (#[trigger] prev[j]).0 == n;
            prev.update(j, (n, insert_by_index(prev[j].1, f)))
        } else {
            prev.push((n, seq![f]))
        }
    }
}

proof fn lemma_insert_at(s: Seq<Frame>, f: Frame, j: int)
    requires
        0 <= j <= s.len(),
        j == 0 || s[j - 1].i <= f.i,
        forall|k: int| j <= k < s.len() ==> (#[trigger] s[k]).i > f.i,
    ensures
        insert_by_index(s, f) == s.take(j) + seq![f] + s.skip(j),
    decreases s.len(),
{
    if s.len() == 0 {
        assert(s.take(j) + seq![f] + s.skip(j) =~= seq![f]);
    } else if j == s.len() {
        assert(s.take(j) + seq![f] + s.skip(j) =~= s.push(f));
    } else {
        assert(s.last().i > f.i);
        let t = s.drop_last();
        lemma_insert_at(t, f, j);
        assert(s.take(j) + seq![f] + s.skip(j) =~= (t.take(j) + seq![f] + t.skip(j)).push(s.last()));
    }
}

/// Inserting into frames ordered by index keeps them so.
pub proof fn lemma_insert_keeps_order(s: Seq<Frame>, f: Frame)
    requires
        sorted_by_index(s),
    ensures
        sorted_by_index(insert_by_index(s, f)),
        insert_by_index(s, f).len() == s.len() + 1,
    decreases s.len(),
{
    if s.len() > 0 && s.last().i > f.i {
        let t = s.drop_last();
        lemma_insert_keeps_order(t, f);
        let u = insert_by_index(t, f);
        assert forall|k: int| 0 <= k < u.len() implies (#[trigger] u[k]).i <= s.last().i by {
            lemma_insert_members(t, f, k);
        }
    }
}

proof fn lemma_insert_members(s: Seq<Frame>, f: Frame, k: int)
    requires
        0 <= k < s.len() + 1,
    ensures
        insert_by_index(s, f).len() == s.len() + 1,
        insert_by_index(s, f)[k] == f || exists|m: int| 0 <= m < s.len() && insert_by_index(s, f)[k] == s[m],
    decreases s.len(),
{
    if s.len() > 0 && s.last().i > f.i {
        let t = s.drop_last();
        if k < s.len() {
            lemma_insert_members(t, f, k);
            if insert_by_index(t, f)[k] != f {
                let m = choose|m: int| 0 <= m < t.len() && insert_by_index(t, f)[k] == t[m];
                assert(insert_by_index(s, f)[k] == s[m]);
            }
        } else {
            lemma_insert_members(t, f, 0);
            assert(insert_by_index(s, f)[k] == s[s.len() - 1]);
        }
    } else if s.len() > 0 {
        if k < s.len() {
            assert(insert_by_index(s, f)[k] == s[k]);
        }
    }
}

/// Puts `f` into frames ordered by index, after those of the same index.
fn insert_frame(v: &mut Vec<Frame>, f: Frame)
    ensures
        final(v)@ == insert_by_index(old(v)@, f),
{
    let ghost s = v@;
    v.push(f);
    let mut j: usize = v.len() - 1;
    while j > 0 && v[j - 1].i > f.i
        invariant
            s == old(v)@,
            v@.len() == s.len() + 1,
            j <= s.len(),
            forall|k: int| 0 <= k < j ==> v@[k] == s[k],
            forall|k: int| j < k <= s.len() ==> v@[k] == s[k - 1],
            forall|k: int| j <= k < s.len() ==> (#[trigger] s[k]).i > f.i,
        decreases j,
    {
        let prev = v[j - 1];
        v.set(j, prev);
        j = j - 1;
    }
    v.set(j, f);
    proof {
        lemma_insert_at(s, f, j as int);
        assert(v@ =~= s.take(j as int) + seq![f] + s.skip(j as int));
    }
}

/// The position of the item named `name`, if there is one.
fn find_item(items: &Vec<PageItem>, name: &String) -> (r: Option<usize>)
    ensures
        match r {
            Some(j) => j < items@.len() && items@[j as int].name@ == name@,
            None => !has_name(items_view(items@), name@),
        },
{
    let mut j: usize = 0;
    while j < items.len()
        invariant
            j <= items@.len(),
            forall|k: int| 0 <= k < j ==> (#[trigger] items@[k]).name@ != name@,
        decreases items@.len() - j,
    {
        if items[j].name == *name {
            return Some(j);
        }
        j = j + 1;
    }
    proof {
        assert forall|k: int| 0 <= k < items@.len() implies (#[trigger] items_view(items@)[k]).0 != name@ by {
            assert(items@[k].name@ != name@);
        }
    }
    None
}

/// Order of names, character by character (the order of their UTF-8
/// bytes): a proper prefix comes first.
pub open spec fn text_less(a: Seq<char>, b: Seq<char>) -> bool
    decreases a.len(),
{
    if a.len() == 0 {
        b.len() > 0
    } else if b.len() == 0 {
        false
    } else if a[0] != b[0] {
        a[0] < b[0]
    } else {
        text_less(a.drop_first(), b.drop_first())
    }
}

proof fn lemma_text_less_asymmetric(a: Seq<char>, b: Seq<char>)
    requires
        text_less(a, b),
    ensures
        !text_less(b, a),
    decreases a.len(),
{
    if a.len() > 0 && b.len() > 0 && a[0] == b[0] {
        lemma_text_less_asymmetric(a.drop_first(), b.drop_first());
    }
}

proof fn lemma_text_less_total(a: Seq<char>, b: Seq<char>)
    requires
        a != b,
    ensures
        text_less(a, b) || text_less(b, a),
    decreases a.len(),
{
    if a.len() == 0 && b.len() == 0 {
        assert(a =~= b);
    } else if a.len() > 0 && b.len() > 0 && a[0] == b[0] {
        if a.drop_first() == b.drop_first() {
            assert(a =~= seq![a[0]] + a.drop_first());
            assert(b =~= seq![b[0]] + b.drop_first());
        }
        lemma_text_less_total(a.drop_first(), b.drop_first());
    }
}

proof fn lemma_text_less_transitive(a: Seq<char>, b: Seq<char>, c: Seq<char>)
    requires
        text_less(a, b),
        text_less(b, c),
    ensures
        text_less(a, c),
    decreases a.len(),
{
    if a.len() > 0 && b.len() > 0 && c.len() > 0 && a[0] == b[0] && b[0] == c[0] {
        lemma_text_less_transitive(a.drop_first(), b.drop_first(), c.drop_first());
    }
}

/// Whether one name comes before another.
pub fn name_less(a: &String, b: &String) -> (r: bool)
    ensures
        r == text_less(a@, b@),
{
    let s = a.as_str();
    let t = b.as_str();
    let n = s.unicode_len();
    let m = t.unicode_len();
    let mut i: usize = 0;
    assert(a@.skip(0) =~= a@);
    assert(b@.skip(0) =~= b@);
    while i < n && i < m
        invariant
            i <= n,
            i <= m,
            n == a@.len(),
            m == b@.len(),
            s@ == a@,
            t@ == b@,
            text_less(a@, b@) == text_less(a@.skip(i as int), b@.skip(i as int)),
        decreases n - i,
    {
        let x = s.get_char(i);
        let y = t.get_char(i);
        assert(a@.skip(i as int)[0] == x);
        assert(b@.skip(i as int)[0] == y);
        if x != y {
            return x < y;
        }
        assert(a@.skip(i as int).drop_first() =~= a@.skip(i + 1));
        assert(b@.skip(i as int).drop_first() =~= b@.skip(i + 1));
        i = i + 1;
    }
    i == n && i < m
}

/// Sequences in order of name.
pub open spec fn sorted_by_name(items: Seq<(Seq<char>, Seq<Frame>)>) -> bool {
    forall|a: int, b: int| 0 <= a < b < items.len() ==> !text_less(items[b].0, items[a].0)
}

proof fn lemma_insert_multiset<A>(s: Seq<A>, p: int, v: A)
    requires
        0 <= p <= s.len(),
    ensures
        s.insert(p, v).to_multiset() == s.to_multiset().insert(v),
{
    broadcast use vstd::seq_lib::group_to_multiset_ensures;

    let t = s.insert(p, v);
    assert(t.remove(p) =~= s);
    assert(t[p] == v);
    assert(t.contains(v));
    assert(t.to_multiset().count(v) > 0);
    assert(t.to_multiset() =~= s.to_multiset().insert(v));
}

/// The sequences in order of name, each kept whole.
fn sort_by_name(items: Vec<PageItem>) -> (r: Vec<PageItem>)
    ensures
        sorted_by_name(items_view(r@)),
        items_view(r@).to_multiset() == items_view(items@).to_multiset(),
{
    broadcast use vstd::seq_lib::group_to_multiset_ensures;

    let ghost orig = items_view(items@);
    let mut rest = items;
    let mut out: Vec<PageItem> = Vec::new();
    while rest.len() > 0
        invariant
            sorted_by_name(items_view(out@)),
            items_view(rest@).to_multiset().add(items_view(out@).to_multiset()) == orig.to_multiset(),
        decreases rest@.len(),
    {
        let ghost rest_before = rest@;
        let it = rest.pop().unwrap();
        let ghost v = (it.name@, it.frames@);
        proof {
            assert(rest_before =~= rest@.push(it));
            assert(items_view(rest_before) =~= items_view(rest@).push(v));
        }
        let mut p: usize = 0;
        let mut go = true;
        while go
            invariant
                p <= out@.len(),
                forall|a: int| 0 <= a < p ==> text_less((#[trigger] out@[a]).name@, it.name@),
                !go ==> (p == out@.len() || !text_less(out@[p as int].name@, it.name@)),
            decreases out@.len() - p + (if go { 1int } else { 0int }),
        {
            if p >= out.len() {
                go = false;
            } else if !name_less(&out[p].name, &it.name) {
                go = false;
            } else {
                p = p + 1;
            }
        }
        let ghost old_out = items_view(out@);
        out.insert(p, it);
        proof {
            let new_out = items_view(out@);
            assert(new_out =~= old_out.insert(p as int, v));
            lemma_insert_multiset(old_out, p as int, v);
            items_view(rest@).to_multiset_ensures();
            assert(items_view(rest@).push(v).to_multiset() == items_view(rest@).to_multiset().insert(v));
            assert(items_view(rest_before).to_multiset() == items_view(rest@).to_multiset().insert(v));
            assert(items_view(rest_before).to_multiset().add(old_out.to_multiset()) == orig.to_multiset());
            assert(items_view(rest@).to_multiset().add(new_out.to_multiset()) =~= orig.to_multiset());
            assert forall|a: int, b: int| 0 <= a < b < new_out.len() implies !text_less(new_out[b].0, new_out[a].0) by {
                if b < p {
                } else if a > p {
                    assert(new_out[a] == old_out[a - 1] && new_out[b] == old_out[b - 1]);
                } else if a < p && b == p {
                    assert(text_less(old_out[a].0, v.0));
                    lemma_text_less_asymmetric(old_out[a].0, v.0);
                } else if a < p {
                    assert(new_out[b] == old_out[b - 1]);
                } else {
                    // a == p, b > p
                    let w = old_out[b - 1].0;
                    let q = old_out[p as int].0;
                    assert(!text_less(q, v.0));
                    assert(new_out[b].0 == w);
                    if text_less(w, v.0) {
                        if q == v.0 {
                            if b - 1 > p {
                                assert(!text_less(w, q));
                            }
                        } else {
                            lemma_text_less_total(q, v.0);
                            lemma_text_less_transitive(w, v.0, q);
                            if b - 1 > p {
                                assert(!text_less(w, q));
                            } else {
                                lemma_text_less_asymmetric(w, q);
                            }
                        }
                    }
                }
            }
        }
    }
    assert(rest@ =~= Seq::<PageItem>::empty());
    assert(items_view(rest@) =~= Seq::<(Seq<char>, Seq<Frame>)>::empty());
    assert(items_view(out@).to_multiset() =~= orig.to_multiset());
    out
}

/// The sequences that grouping `keys` gives, listed in order of name: since
/// no two share a name, this fixes the list.
pub open spec fn grouped_as(items: Seq<(Seq<char>, Seq<Frame>)>, keys: Seq<(Seq<char>, Frame)>) -> bool {
    sorted_by_name(items) && items.to_multiset() == group_spec(keys).to_multiset()
}

/// Groups the frames of a page into sequences by name, listed in order of
/// name, each sequence ordered by frame index.
pub fn group_frames(keyed: &Vec<KeyedFrame>) -> (r: Vec<PageItem>)
    ensures
        grouped_as(items_view(r@), keyed_view(keyed@)),
{
    let items = group_in_order(keyed);
    sort_by_name(items)
}

/// The sequences of a page in order of each name's first appearance.
fn group_in_order(keyed: &Vec<KeyedFrame>) -> (r: Vec<PageItem>)
    ensures
        items_view(r@) == group_spec(keyed_view(keyed@)),
{
    let ghost kv = keyed_view(keyed@);
    let mut items: Vec<PageItem> = Vec::new();
    let mut i: usize = 0;
    while i < keyed.len()
        invariant
            i <= keyed@.len(),
            kv == keyed_view(keyed@),
            items_view(items@) == group_spec(kv.take(i as int)),
            names_unique(items_view(items@)),
        decreases keyed@.len() - i,
    {
        let kf = &keyed[i];
        let ghost prev = items_view(items@);
        assert(kv.take(i + 1).drop_last() =~= kv.take(i as int));
        assert(kv.take(i + 1).last() == (kf.name@, kf.frame));
        match find_item(&items, &kf.name) {
            Some(j) => {
                proof {
                    assert(prev[j as int].0 == kf.name@);
                    assert(has_name(prev, kf.name@));
                    let c = choose|c: int| 0 <= c < prev.len() && (#[trigger] prev[c]).0 == kf.name@;
                    assert(c == j);
                }
                insert_frame(&mut items[j].frames, kf.frame);
                proof {
                    assert(items_view(items@) =~= prev.update(j as int, (kf.name@, insert_by_index(prev[j as int].1, kf.frame))));
                }
            },
            None => {
                let item = PageItem { name: kf.name.clone(), frames: vec![kf.frame] };
                items.push(item);
                proof {
                    assert(item.frames@ =~= seq![kf.frame]);
                    assert(items_view(items@) =~= prev.push((kf.name@, seq![kf.frame])));
                    assert forall|a: int| 0 <= a < prev.len() implies (#[trigger] prev[a]).0 != kf.name@ by {
                        assert(!has_name(prev, kf.name@));
                    }
                }
            },
        }
        i = i + 1;
    }
    assert(kv.take(i as int) =~= kv);
    items
}

/// Every sequence that grouping builds has frames in ascending order of
/// index, and no two sequences of a page share a name.
pub proof fn lemma_sequences_ordered(keys: Seq<(Seq<char>, Frame)>)
    ensures
        names_unique(group_spec(keys)),
        forall|j: int| 0 <= j < group_spec(keys).len() ==> sorted_by_index(#[trigger] group_spec(keys)[j].1),
    decreases keys.len(),
{
    if keys.len() > 0 {
        let prev = group_spec(keys.drop_last());
        lemma_sequences_ordered(keys.drop_last());
        let (n, f) = keys.last();
        if has_name(prev, n) {
            let j = choose|j: int| 0 <= j < prev.len() && (#[trigger] prev[j]).0 == n;
            lemma_insert_keeps_order(prev[j].1, f);
            let g = group_spec(keys);
            assert(g == prev.update(j, (n, insert_by_index(prev[j].1, f))));
            assert forall|a: int, b: int| 0 <= a < b < g.len() implies g[a].0 != g[b].0 by {
                assert(prev[a].0 != prev[b].0);
            }
        } else {
            let g = group_spec(keys);
            assert(g == prev.push((n, seq![f])));
            assert forall|a: int, b: int| 0 <= a < b < g.len() implies g[a].0 != g[b].0 by {
                if b == prev.len() {
                    assert(prev[a].0 != n);
                }
            }
        }
    }
}

/// The frames keyed by name `n`, in order.
pub open spec fn frames_named(keys: Seq<(Seq<char>, Frame)>, n: Seq<char>) -> Seq<Frame>
    decreases keys.len(),
{
    if keys.len() == 0 {
        seq![]
    } else if keys.last().0 == n {
        frames_named(keys.drop_last(), n).push(keys.last().1)
    } else {
        frames_named(keys.drop_last(), n)
    }
}

/// Inserting a frame adds exactly that frame.
pub proof fn lemma_insert_adds_one(s: Seq<Frame>, f: Frame)
    ensures
        insert_by_index(s, f).to_multiset() == s.to_multiset().insert(f),
    decreases s.len(),
{
    broadcast use vstd::seq_lib::group_to_multiset_ensures;

    if s.len() == 0 {
        assert(seq![f] =~= s.push(f));
    } else if s.last().i > f.i {
        let t = s.drop_last();
        lemma_insert_adds_one(t, f);
        assert(t.push(s.last()) =~= s);
        assert(insert_by_index(s, f).to_multiset() =~= t.to_multiset().insert(f).insert(s.last()));
        assert(s.to_multiset() =~= t.to_multiset().insert(s.last()));
    }
}

/// Grouping neither loses nor repeats a frame: each sequence holds exactly
/// the frames keyed by its name, and a name without a sequence keys no frame.
pub proof fn lemma_every_frame_grouped_once(keys: Seq<(Seq<char>, Frame)>)
    ensures
        forall|j: int| 0 <= j < group_spec(keys).len()
            ==> (#[trigger] group_spec(keys)[j]).1.to_multiset() == frames_named(keys, group_spec(keys)[j].0).to_multiset(),
        forall|n: Seq<char>| !has_name(group_spec(keys), n) ==> #[trigger] frames_named(keys, n) == Seq::<Frame>::empty(),
    decreases keys.len(),
{
    broadcast use vstd::seq_lib::group_to_multiset_ensures;

    if keys.len() > 0 {
        let d = keys.drop_last();
        let prev = group_spec(d);
        lemma_every_frame_grouped_once(d);
        lemma_sequences_ordered(d);
        let (n, f) = keys.last();
        let g = group_spec(keys);
        if has_name(prev, n) {
            let c = choose|j: int| 0 <= j < prev.len() && (#[trigger] prev[j]).0 == n;
            assert(g == prev.update(c, (n, insert_by_index(prev[c].1, f))));
            lemma_insert_adds_one(prev[c].1, f);
            assert forall|j: int| 0 <= j < g.len()
                implies (#[trigger] g[j]).1.to_multiset() == frames_named(keys, g[j].0).to_multiset() by {
                if j != c {
                    assert(prev[j].0 != prev[c].0);
                }
            }
            assert forall|m: Seq<char>| !has_name(g, m) implies #[trigger] frames_named(keys, m) == Seq::<Frame>::empty() by {
                assert(g[c].0 == n);
                assert(has_name(g, n));
                assert(m != n);
                if has_name(prev, m) {
                    let w = choose|j: int| 0 <= j < prev.len() && (#[trigger] prev[j]).0 == m;
                    assert(g[w].0 == m);
                }
                assert(frames_named(keys, m) == frames_named(d, m));
            }
        } else {
            assert(g == prev.push((n, seq![f])));
            assert(frames_named(d, n) == Seq::<Frame>::empty());
            assert(frames_named(keys, n) =~= seq![f]);
            assert forall|j: int| 0 <= j < g.len()
                implies (#[trigger] g[j]).1.to_multiset() == frames_named(keys, g[j].0).to_multiset() by {
                if j < prev.len() {
                    assert(g[j] == prev[j]);
                    if prev[j].0 == n {
                        assert(has_name(prev, n));
                    }
                }
            }
            assert forall|m: Seq<char>| !has_name(g, m) implies #[trigger] frames_named(keys, m) == Seq::<Frame>::empty() by {
                assert(g[prev.len() as int].0 == n);
                assert(has_name(g, n));
                assert(m != n);
                if has_name(prev, m) {
                    let w = choose|j: int| 0 <= j < prev.len() && (#[trigger] prev[j]).0 == m;
                    assert(g[w].0 == m);
                }
                assert(frames_named(keys, m) == frames_named(d, m));
            }
        }
    }
}

/// The frames of the images of a page, each keyed by the sequence name and
/// frame index that the pattern gives its name; `None` where some image gets
/// no key.
pub open spec fn keyed_images(pattern: Option<Seq<char>>, placed: Seq<PlacedImage>) -> Option<Seq<(Seq<char>, Frame)>> {
    if forall|k: int| 0 <= k < placed.len() ==> (#[trigger] frame_key(pattern, placed[k].name@)) is Some {
        Some(placed.map_values(|p: PlacedImage| {
            let key = frame_key(pattern, p.name@)->Some_0;
            (key.0, Frame { i: key.1, x: p.x, y: p.y, w: p.w, h: p.h })
        }))
    } else {
        None
    }
}

/// A pattern that matches the name of an image without giving both the
/// `name` and the `frame` group leaves the page without sequences; where it is
/// the first image of the page without a key, the run fails with the
/// capture-arity error naming that image.
pub proof fn lemma_missing_groups_abort(pattern: Seq<char>, placed: Seq<PlacedImage>, k: int, e: Error)
    requires
        0 <= k < placed.len(),
        lacks_groups(pattern_captures(pattern, placed[k].name@)),
        forall|j: int| 0 <= j < k ==> (#[trigger] frame_key(Some(pattern), placed[j].name@)) is Some,
        first_key_error(Some(pattern), placed, e),
    ensures
        keyed_images(Some(pattern), placed) is None,
        e matches Error::RegexCaptureError(n) && n@ == placed[k].name@,
{
    assert(frame_key(Some(pattern), placed[k].name@) is None);
    let w = choose|w: int| {
        &&& 0 <= w < placed.len()
        &&& forall|j: int| 0 <= j < w ==> (#[trigger] frame_key(Some(pattern), placed[j].name@)) is Some
        &&& frame_key(Some(pattern), placed[w].name@) is None
        &&& #[trigger] key_error(Some(pattern), placed[w].name@, e)
    };
    if w < k {
        assert(frame_key(Some(pattern), placed[w].name@) is Some);
    } else if w > k {
        assert(frame_key(Some(pattern), placed[k].name@) is Some);
    }
}

/// Whether `e` is the error of the first image of a page that the pattern
/// gives no key.
pub open spec fn first_key_error(pattern: Option<Seq<char>>, placed: Seq<PlacedImage>, e: Error) -> bool {
    exists|k: int| {
        &&& 0 <= k < placed.len()
        &&& forall|j: int| 0 <= j < k ==> (#[trigger] frame_key(pattern, placed[j].name@)) is Some
        &&& frame_key(pattern, placed[k].name@) is None
        &&& #[trigger] key_error(pattern, placed[k].name@, e)
    }
}

/// The sequences of one page: each placed image gets a sequence name and a
/// frame index from the pattern, and the frames are grouped by name. Fails
/// with the first image that the pattern gives no key.
pub fn group_page(placed: &Vec<PlacedImage>, pattern: &Option<FramePattern>) -> (r: Result<Vec<PageItem>, Error>)
    ensures
        match keyed_images(pattern_view(*pattern), placed@) {
            Some(keys) => r is Ok && grouped_as(items_view(r->Ok_0@), keys),
            None => (r matches Err(e) && first_key_error(pattern_view(*pattern), placed@, e)),
        },
{
    let ghost pv = pattern_view(*pattern);
    let mut keyed: Vec<KeyedFrame> = Vec::new();
    let mut i: usize = 0;
    while i < placed.len()
        invariant
            i <= placed@.len(),
            pv == pattern_view(*pattern),
            keyed@.len() == i,
            forall|k: int| 0 <= k < i ==> (#[trigger] frame_key(pv, placed@[k].name@)) is Some,
            forall|k: int| 0 <= k < i ==> {
                let key = frame_key(pv, placed@[k].name@)->Some_0;
                (#[trigger] keyed@[k]).name@ == key.0 && keyed@[k].frame == (Frame {
                    i: key.1,
                    x: placed@[k].x,
                    y: placed@[k].y,
                    w: placed@[k].w,
                    h: placed@[k].h,
                })
            },
        decreases placed@.len() - i,
    {
        let p = &placed[i];
        match extract_frame(pattern, &p.name) {
            Ok((name, index)) => {
                keyed.push(KeyedFrame { name, frame: Frame { i: index, x: p.x, y: p.y, w: p.w, h: p.h } });
            },
            Err(e) => {
                assert(frame_key(pv, placed@[i as int].name@) is None);
                assert(key_error(pv, placed@[i as int].name@, e));
                return Err(e);
            },
        }
        i = i + 1;
    }
    let items = group_frames(&keyed);
    proof {
        let keys = keyed_images(pv, placed@)->Some_0;
        assert(keyed_view(keyed@) =~= keys);
    }
    Ok(items)
}

} // verus!
