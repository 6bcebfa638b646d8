use vstd::prelude::*;
use crate::model::Error;

verus! {

#[verifier::external_type_specification]
#[verifier::external_body]
pub struct ExRegex(regex::Regex);

/// Pattern that frame names follow by default: a name, `_`, a frame index.
pub const DEFAULT_FRAME_REGEX: &'static str = r"(?P<name>.+)_(?P<frame>\d+)";

/// Whether `regex::Regex::new` accepts a pattern.
pub uninterp spec fn pattern_compiles(pattern: Seq<char>) -> bool;

/// What matching a pattern against a text yields: `None` where it does not
/// match; else the number of groups of the pattern (the whole match counted)
/// and the texts of the groups `name` and `frame`, where they took part.
pub uninterp spec fn pattern_captures(pattern: Seq<char>, text: Seq<char>) -> Option<
    (nat, Option<Seq<char>>, Option<Seq<char>>),
>;

/// Relies on regex::Regex::new: it accepts a pattern or not by its text alone.
#[verifier::external_body]
fn compile_regex(pattern: &str) -> (r: Option<regex::Regex>)
    ensures
        r is Some == pattern_compiles(pattern@),
{
    regex::Regex::new(pattern).ok()
}

/// A compiled frame naming pattern together with its text.
pub struct FramePattern {
    source: String,
    regex: regex::Regex,
}

/// The groups of one match of a frame pattern.
pub struct CaptureMatch {
    /// Number of groups of the pattern, the whole match included.
    pub group_count: usize,
    /// Text of the group `name`, where it took part.
    pub name: Option<String>,
    /// Text of the group `frame`, where it took part.
    pub frame: Option<String>,
}

/// The texts of an optional string.
pub open spec fn opt_view(s: Option<String>) -> Option<Seq<char>> {
    match s {
        Some(t) => Some(t@),
        None => None,
    }
}

impl CaptureMatch {
    pub open spec fn view(&self) -> (nat, Option<Seq<char>>, Option<Seq<char>>) {
        (self.group_count as nat, opt_view(self.name), opt_view(self.frame))
    }
}

/// The view of an optional match.
pub open spec fn match_view(m: Option<CaptureMatch>) -> Option<(nat, Option<Seq<char>>, Option<Seq<char>>)> {
    match m {
        Some(c) => Some(c.view()),
        None => None,
    }
}

impl FramePattern {
    /// The text of the pattern.
    pub closed spec fn view(&self) -> Seq<char> {
        self.source@
    }

    /// Compiles a pattern; `None` where the regex engine refuses it.
    pub fn new(source: &str) -> (r: Option<FramePattern>)
        ensures
            r is Some == pattern_compiles(source@),
            r matches Some(p) ==> p@ == source@,
    {
        match compile_regex(source) {
            Some(regex) => Some(FramePattern { source: source.to_string(), regex }),
            None => None,
        }
    }

    /// The text of the pattern.
    pub fn as_str(&self) -> (r: &str)
        ensures
            r@ == self@,
    {
        self.source.as_str()
    }

    /// Relies on regex::Regex::captures, Captures::len and Captures::name: the
    /// first match in `text` of the regex compiled from this pattern's text,
    /// with the number of groups and the groups `name` and `frame`.
    #[verifier::external_body]
    fn captures(&self, text: &str) -> (r: Option<CaptureMatch>)
        ensures
            match_view(r) == pattern_captures(self@, text@),
    {
        match self.regex.captures(text) {
            Some(c) => Some(CaptureMatch {
                group_count: c.len(),
                name: c.name("name").map(|m| m.as_str().to_string()),
                frame: c.name("frame").map(|m| m.as_str().to_string()),
            }),
            None => None,
        }
    }
}

/// Value of an ASCII decimal digit.
pub open spec fn digit_value(c: char) -> nat {
    (c as u32 - '0' as u32) as nat
}

/// An ASCII decimal digit.
pub open spec fn is_digit(c: char) -> bool {
    '0' <= c <= '9'
}

/// Value of a string of decimal digits.
pub open spec fn decimal_value(s: Seq<char>) -> nat
    decreases s.len(),
{
    if s.len() == 0 {
        0
    } else {
        decimal_value(s.drop_last()) * 10 + digit_value(s.last())
    }
}

/// The digits of a frame index text: all of it, or all after a leading `+`.
pub open spec fn index_digits(s: Seq<char>) -> Seq<char> {
    if s.len() > 0 && s[0] == '+' {
        s.drop_first()
    } else {
        s
    }
}

/// The frame index a text denotes, as `u32` parsing reads it: optionally `+`,
/// then one or more decimal digits, of a value that fits in 32 bits.
pub open spec fn parsed_index(s: Seq<char>) -> Option<u32> {
    let d = index_digits(s);
    if d.len() > 0 && (forall|k: int| 0 <= k < d.len() ==> is_digit(#[trigger] d[k]))
        && decimal_value(d) <= u32::MAX {
        Some(decimal_value(d) as u32)
    } else {
        None
    }
}

/// Reads a frame index.
pub fn parse_frame_index(s: &String) -> (r: Option<u32>)
    ensures
        r == parsed_index(s@),
{
    let t = s.as_str();
    let n = t.unicode_len();
    let start: usize = if n > 0 && t.get_char(0) == '+' { 1 } else { 0 };
    let ghost d = index_digits(s@);
    assert(d =~= s@.subrange(start as int, n as int));
    if start == n {
        return None;
    }
    let mut acc: u64 = 0;
    let mut over = false;
    let mut i: usize = start;
    while i < n
        invariant
            start <= i <= n,
            n == s@.len(),
            t@ == s@,
            d == s@.subrange(start as int, n as int),
            d == index_digits(s@),
            forall|k: int| start <= k < i ==> is_digit(#[trigger] s@[k]),
            !over ==> acc == decimal_value(s@.subrange(start as int, i as int)) && acc <= u32::MAX,
            over ==> decimal_value(s@.subrange(start as int, i as int)) > u32::MAX,
        decreases n - i,
    {
        let c = t.get_char(i);
        if !('0' <= c && c <= '9') {
            assert(s@[i as int] == c);
            assert(d[i - start] == s@[i as int]);
            assert(!is_digit(d[i - start]));
            return None;
        }
        let ghost prev = s@.subrange(start as int, i as int);
        assert(s@.subrange(start as int, i + 1).drop_last() =~= prev);
        if !over {
            let v = acc * 10 + (c as u64 - '0' as u64);
            if v > 4294967295 {
                over = true;
            } else {
                acc = v;
            }
        }
        i = i + 1;
    }
    assert(s@.subrange(start as int, n as int) == d);
    if over {
        None
    } else {
        Some(acc as u32)
    }
}

/// The sequence name and frame index of an image named `id`, given the result
/// of matching the frame pattern against it; `None` where that result gives no
/// index: a match without both groups, or a frame text that is no index.
pub open spec fn key_from_match(
    id: Seq<char>,
    m: Option<(nat, Option<Seq<char>>, Option<Seq<char>>)>,
) -> Option<(Seq<char>, u32)> {
    match m {
        None => Some((id, 0)),
        Some((count, name, frame)) => {
            if count < 3 || name is None || frame is None {
                None
            } else {
                match parsed_index(frame->Some_0) {
                    Some(i) => Some((name->Some_0, i)),
                    None => None,
                }
            }
        },
    }
}

/// Whether a match lacks one of the groups `name` and `frame`.
pub open spec fn lacks_groups(m: Option<(nat, Option<Seq<char>>, Option<Seq<char>>)>) -> bool {
    match m {
        None => false,
        Some((count, name, frame)) => count < 3 || name is None || frame is None,
    }
}

/// The sequence name and frame index of an image named `id`, given the result
/// of matching the frame pattern against it. Without a match the whole name is
/// the sequence name and the index is 0.
pub fn frame_from_match(id: &String, m: Option<CaptureMatch>) -> (r: Result<(String, u32), Error>)
    ensures
        match key_from_match(id@, match_view(m)) {
            Some((name, i)) => (r matches Ok((rn, ri)) && rn@ == name && ri == i),
            None => if lacks_groups(match_view(m)) {
                r == Err::<(String, u32), Error>(Error::RegexCaptureError(*id))
            } else {
                (r matches Err(Error::FrameParseError(t)) && Some(t@) == match_view(m)->Some_0.2)
            },
        },
{
    match m {
        None => Ok((id.clone(), 0)),
        Some(c) => {
            if c.group_count < 3 || c.name.is_none() || c.frame.is_none() {
                return Err(Error::RegexCaptureError(id.clone()));
            }
            let name = c.name.unwrap();
            let frame = c.frame.unwrap();
            match parse_frame_index(&frame) {
                Some(i) => Ok((name, i)),
                None => Err(Error::FrameParseError(frame)),
            }
        },
    }
}

/// The key of an image under an optional pattern, as a spec.
pub open spec fn frame_key(pattern: Option<Seq<char>>, id: Seq<char>) -> Option<(Seq<char>, u32)> {
    match pattern {
        None => Some((id, 0)),
        Some(p) => key_from_match(id, pattern_captures(p, id)),
    }
}

/// Whether `e` is the error that an image named `id` gets when the pattern
/// gives it no key: the capture-arity error, naming the image, where the match
/// lacks a group; else the frame-parse error, holding the frame text.
pub open spec fn key_error(pattern: Option<Seq<char>>, id: Seq<char>, e: Error) -> bool {
    match pattern {
        None => false,
        Some(p) => if lacks_groups(pattern_captures(p, id)) {
            e matches Error::RegexCaptureError(n) && n@ == id
        } else {
            e matches Error::FrameParseError(t) && pattern_captures(p, id) is Some
                && Some(t@) == pattern_captures(p, id)->Some_0.2
        },
    }
}

/// The view of an optional pattern.
pub open spec fn pattern_view(p: Option<FramePattern>) -> Option<Seq<char>> {
    match p {
        Some(q) => Some(q@),
        None => None,
    }
}

/// The sequence name and frame index of the image named `id`. Without a
/// pattern, or where the pattern does not match, the name is `id` and the
/// index 0.
pub fn extract_frame(pattern: &Option<FramePattern>, id: &String) -> (r: Result<(String, u32), Error>)
    ensures
        match frame_key(pattern_view(*pattern), id@) {
            Some((name, i)) => (r matches Ok((rn, ri)) && rn@ == name && ri == i),
            None => (r matches Err(e) && key_error(pattern_view(*pattern), id@, e)),
        },
        pattern.is_none() ==> (r matches Ok((rn, ri)) && rn@ == id@ && ri == 0),
{
    match pattern {
        None => Ok((id.clone(), 0)),
        Some(p) => {
            let m = p.captures(id.as_str());
            frame_from_match(id, m)
        },
    }
}

} // verus!
