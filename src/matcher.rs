use vstd::prelude::*;

use crate::element::strings_view;

verus! {

/// One match of a pattern: the whole matched text, and the text of each
/// requested named group (`None` where the group took no part in the match).
pub struct Captured {
    pub whole: String,
    pub groups: Vec<Option<String>>,
}

/// The value of a `Captured`: the whole match and the groups' texts.
pub type CapturedView = (Seq<char>, Seq<Option<Seq<char>>>);

pub open spec fn option_string_view(o: Option<String>) -> Option<Seq<char>> {
    match o {
        Some(s) => Some(s@),
        None => None,
    }
}

impl View for Captured {
    type V = CapturedView;

    open spec fn view(&self) -> CapturedView {
        (self.whole@, self.groups@.map_values(|g: Option<String>| option_string_view(g)))
    }
}

/// All matches of a pattern in a text: the pieces of text between them and
/// the matches themselves, both in text order.
pub struct Scan {
    pub pieces: Vec<String>,
    pub found: Vec<Captured>,
}

pub type ScanView = (Seq<Seq<char>>, Seq<CapturedView>);

pub open spec fn captured_views(v: Seq<Captured>) -> Seq<CapturedView> {
    v.map_values(|c: Captured| c@)
}

impl View for Scan {
    type V = ScanView;

    open spec fn view(&self) -> ScanView {
        (strings_view(self.pieces@), captured_views(self.found@))
    }
}

pub open spec fn str_views(v: Seq<&str>) -> Seq<Seq<char>> {
    v.map_values(|s: &str| s@)
}

/// `pieces[0] + seps[0] + pieces[1] + ... + seps[n-1] + pieces[n]`, where `n` is
/// the length of `seps`.
pub open spec fn interleave(pieces: Seq<Seq<char>>, seps: Seq<Seq<char>>) -> Seq<char>
    decreases seps.len(),
{
    if seps.len() == 0 {
        if pieces.len() > 0 {
            pieces[0]
        } else {
            Seq::empty()
        }
    } else {
        interleave(pieces.drop_last(), seps.drop_last()) + seps.last() + pieces.last()
    }
}

/// What a multi-line, case-insensitive regular expression finds in `hay`: the
/// pieces between its leftmost-first non-overlapping matches, and those
/// matches with the groups called `names`; `None` where `pattern` does not
/// compile.
pub uninterp spec fn regex_scan(
    pattern: Seq<char>,
    names: Seq<Seq<char>>,
    hay: Seq<char>,
) -> Option<(Seq<Seq<char>>, Seq<(Seq<char>, Seq<Option<Seq<char>>>)>)>;

pub open spec fn scan_view(r: Option<Scan>) -> Option<ScanView> {
    match r {
        Some(s) => Some(s@),
        None => None,
    }
}

/// Relies on `regex::RegexBuilder` (with `multi_line` and `case_insensitive`)
/// to compile `pattern`, on `Regex::split` for the text between the matches,
/// and on `Regex::captures_iter` for the same matches with their named groups.
/// Both iterate the same leftmost-first non-overlapping matches, and `split`
/// yields the piece before each match and then the rest of `hay`: one piece
/// more than there are matches.
#[verifier::external_body]
pub(crate) fn scan(pattern: &str, names: &Vec<&str>, hay: &str) -> (r: Option<Scan>)
    ensures
        scan_view(r) == regex_scan(pattern@, str_views(names@), hay@),
        r matches Some(s) ==> s.pieces.len() == s.found.len() + 1,
{
    let re = regex::RegexBuilder::new(pattern).multi_line(true).case_insensitive(true).build().ok()?;
    let pieces = re.split(hay).map(String::from).collect();
    let found = re.captures_iter(hay).map(
        |c| Captured {
            whole: c[0].to_string(),
            groups: names.iter().map(|n| c.name(n).map(|m| m.as_str().to_string())).collect(),
        },
    ).collect();
    Some(Scan { pieces, found })
}

} // verus!
