use vstd::prelude::*;

use crate::element::{strings_view, Element, ElementView};
use crate::matcher::{
    captured_views, interleave, regex_scan, scan, str_views, Captured, CapturedView,
};
use crate::text::{list_block_items, list_items};

verus! {

/// The constructs that the pipeline recognises, one pass each.
#[derive(Clone, Copy, Debug)]
pub enum Construct {
    Title,
    Subtitle,
    Header,
    Subheader,
    Bold,
    Italic,
    Strikethrough,
    Underline,
    CodeBlock,
    Code,
    Image,
    Link,
    Checkbox,
    UnorderedList,
    OrderedList,
}

/// The order in which the passes run. It matters: bold before italic (a
/// double star also reads as two single ones), fenced blocks before inline
/// code, images before links (an image is a link with a leading `!`).
pub open spec fn pass_order() -> Seq<Construct> {
    seq![
        Construct::Title,
        Construct::Subtitle,
        Construct::Header,
        Construct::Subheader,
        Construct::Bold,
        Construct::Italic,
        Construct::Strikethrough,
        Construct::Underline,
        Construct::CodeBlock,
        Construct::Code,
        Construct::Image,
        Construct::Link,
        Construct::Checkbox,
        Construct::UnorderedList,
        Construct::OrderedList,
    ]
}

/// The regular expression of each construct. Line constructs may be indented
/// by spaces or tabs and stay within their line. A heading marker must be
/// followed by a space or tab, so that each level matches only its own lines.
pub open spec fn pattern_of(c: Construct) -> Seq<char> {
    match c {
        Construct::Title => r"^[ \t]*#[ \t]+(?<text>.+)$"@,
        Construct::Subtitle => r"^[ \t]*##[ \t]+(?<text>.+)$"@,
        Construct::Header => r"^[ \t]*###[ \t]+(?<text>.+)$"@,
        Construct::Subheader => r"^[ \t]*####[ \t]+(?<text>.+)$"@,
        Construct::Bold => r"\*\*(?<text>.+)\*\*"@,
        Construct::Italic => r"\*(?<text>.+)\*"@,
        Construct::Strikethrough => r"~(?<text>.+)~"@,
        Construct::Underline => r"_(?<text>.+)_"@,
        Construct::CodeBlock => r"^[ \t]*```\w*\n(?<text>(.+\n*)+)\n```[ \t]*$"@,
        Construct::Code => r"`(?<text>.+)`"@,
        Construct::Image => r"!\[(?<alt>.*)\]\((?<url>.+)\)"@,
        Construct::Link => r"\[(?<text>.+)\]\((?<url>.+)\)"@,
        Construct::Checkbox => r"^[ \t]*\[(?<checkmark>x?)\][ \t](?<text>.+)$"@,
        Construct::UnorderedList => r"(^[ \t]*-[ \t].+\n*)+"@,
        Construct::OrderedList => r"(^[ \t]*\d+\.[ \t].+\n*)+"@,
    }
}

/// The named groups that each construct reads, in the order it reads them.
/// Lists read the whole match.
pub open spec fn capture_names(c: Construct) -> Seq<Seq<char>> {
    match c {
        Construct::Image => seq!["alt"@, "url"@],
        Construct::Link => seq!["text"@, "url"@],
        Construct::Checkbox => seq!["checkmark"@, "text"@],
        Construct::UnorderedList | Construct::OrderedList => Seq::empty(),
        _ => seq!["text"@],
    }
}

/// The text of the `k`-th requested group; empty where it took no part.
pub open spec fn group_text(f: CapturedView, k: int) -> Seq<char> {
    if 0 <= k < f.1.len() {
        match f.1[k] {
            Some(t) => t,
            None => Seq::empty(),
        }
    } else {
        Seq::empty()
    }
}

/// The element that a match of construct `c` stands for.
pub open spec fn element_of(c: Construct, f: CapturedView) -> ElementView {
    match c {
        Construct::Title => ElementView::Title(group_text(f, 0)),
        Construct::Subtitle => ElementView::Subtitle(group_text(f, 0)),
        Construct::Header => ElementView::Header(group_text(f, 0)),
        Construct::Subheader => ElementView::Subheader(group_text(f, 0)),
        Construct::Bold => ElementView::Bold(group_text(f, 0)),
        Construct::Italic => ElementView::Italic(group_text(f, 0)),
        Construct::Strikethrough => ElementView::Strikethrough(group_text(f, 0)),
        Construct::Underline => ElementView::Underline(group_text(f, 0)),
        Construct::CodeBlock => ElementView::CodeBlock(group_text(f, 0)),
        Construct::Code => ElementView::Code(group_text(f, 0)),
        Construct::Image => ElementView::Image(group_text(f, 0), group_text(f, 1)),
        Construct::Link => ElementView::Link(group_text(f, 0), group_text(f, 1)),
        Construct::Checkbox => ElementView::Checkbox(group_text(f, 0).len() > 0, group_text(f, 1)),
        Construct::UnorderedList => ElementView::UnorderedList(list_block_items(f.0)),
        Construct::OrderedList => ElementView::OrderedList(list_block_items(f.0)),
    }
}

/// The fragments of the matches of construct `c`, in order.
pub open spec fn fragments(c: Construct, found: Seq<CapturedView>) -> Seq<Seq<char>> {
    found.map_values(|f: CapturedView| element_of(c, f).html())
}

/// The text between the matches, with each match replaced by its fragment.
pub open spec fn rewritten(c: Construct, pieces: Seq<Seq<char>>, found: Seq<CapturedView>) -> Seq<
    char,
> {
    interleave(pieces, fragments(c, found))
}

/// Whether the pattern of construct `c` matches somewhere in `text`.
pub open spec fn recognizes(c: Construct, text: Seq<char>) -> bool {
    regex_scan(pattern_of(c), capture_names(c), text) matches Some(s) && s.1.len() > 0
}

/// One pass of construct `c` over `text`: each match replaced by its
/// fragment; no change where nothing matches or the pattern does not compile.
pub open spec fn pass(c: Construct, text: Seq<char>) -> Seq<char> {
    match regex_scan(pattern_of(c), capture_names(c), text) {
        Some(s) => if s.1.len() == 0 {
            text
        } else {
            rewritten(c, s.0, s.1)
        },
        None => text,
    }
}

/// The passes of `cs`, run in order over `text`.
pub open spec fn run_passes(cs: Seq<Construct>, text: Seq<char>) -> Seq<char>
    decreases cs.len(),
{
    if cs.len() == 0 {
        text
    } else {
        run_passes(cs.drop_first(), pass(cs[0], text))
    }
}

/// The whole transformation: every pass, in the fixed order.
pub open spec fn transform(text: Seq<char>) -> Seq<char> {
    run_passes(pass_order(), text)
}

/// The text of group `k` of `f`, or the empty string.
fn group_string(f: &Captured, k: usize) -> (r: String)
    ensures
        r@ == group_text(f@, k as int),
{
    if k < f.groups.len() {
        match &f.groups[k] {
            Some(t) => t.clone(),
            None => String::new(),
        }
    } else {
        String::new()
    }
}

impl Construct {
    /// The construct's regular expression.
    pub fn pattern(&self) -> (r: &'static str)
        ensures
            r@ == pattern_of(*self),
    {
        match self {
            Construct::Title => r"^[ \t]*#[ \t]+(?<text>.+)$",
            Construct::Subtitle => r"^[ \t]*##[ \t]+(?<text>.+)$",
            Construct::Header => r"^[ \t]*###[ \t]+(?<text>.+)$",
            Construct::Subheader => r"^[ \t]*####[ \t]+(?<text>.+)$",
            Construct::Bold => r"\*\*(?<text>.+)\*\*",
            Construct::Italic => r"\*(?<text>.+)\*",
            Construct::Strikethrough => r"~(?<text>.+)~",
            Construct::Underline => r"_(?<text>.+)_",
            Construct::CodeBlock => r"^[ \t]*```\w*\n(?<text>(.+\n*)+)\n```[ \t]*$",
            Construct::Code => r"`(?<text>.+)`",
            Construct::Image => r"!\[(?<alt>.*)\]\((?<url>.+)\)",
            Construct::Link => r"\[(?<text>.+)\]\((?<url>.+)\)",
            Construct::Checkbox => r"^[ \t]*\[(?<checkmark>x?)\][ \t](?<text>.+)$",
            Construct::UnorderedList => r"(^[ \t]*-[ \t].+\n*)+",
            Construct::OrderedList => r"(^[ \t]*\d+\.[ \t].+\n*)+",
        }
    }

    /// The named groups that the construct reads.
    pub fn names(&self) -> (r: Vec<&'static str>)
        ensures
            str_views(r@) == capture_names(*self),
    {
        let r = match self {
            Construct::Image => vec!["alt", "url"],
            Construct::Link => vec!["text", "url"],
            Construct::Checkbox => vec!["checkmark", "text"],
            Construct::UnorderedList | Construct::OrderedList => Vec::new(),
            _ => vec!["text"],
        };
        assert(str_views(r@) =~= capture_names(*self));
        r
    }

    /// Builds the element that the match `f` of this construct stands for.
    pub fn build(&self, f: &Captured) -> (r: Element)
        ensures
            r@ == element_of(*self, f@),
    {
        match self {
            Construct::Title => Element::Title(group_string(f, 0)),
            Construct::Subtitle => Element::Subtitle(group_string(f, 0)),
            Construct::Header => Element::Header(group_string(f, 0)),
            Construct::Subheader => Element::Subheader(group_string(f, 0)),
            Construct::Bold => Element::Bold(group_string(f, 0)),
            Construct::Italic => Element::Italic(group_string(f, 0)),
            Construct::Strikethrough => Element::Strikethrough(group_string(f, 0)),
            Construct::Underline => Element::Underline(group_string(f, 0)),
            Construct::CodeBlock => Element::CodeBlock(group_string(f, 0)),
            Construct::Code => Element::Code(group_string(f, 0)),
            Construct::Image => Element::Image(group_string(f, 0), group_string(f, 1)),
            Construct::Link => Element::Link(group_string(f, 0), group_string(f, 1)),
            Construct::Checkbox => {
                let mark = group_string(f, 0);
                Element::Checkbox(mark.unicode_len() > 0, group_string(f, 1))
            },
            Construct::UnorderedList => Element::UnorderedList(list_items(f.whole.as_str())),
            Construct::OrderedList => Element::OrderedList(list_items(f.whole.as_str())),
        }
    }
}

/// Rebuilds a text from the pieces between the matches of construct `c` and
/// the matches themselves, each match replaced by its element's fragment.
pub fn rewrite(c: Construct, pieces: &Vec<String>, found: &Vec<Captured>) -> (r: String)
    requires
        pieces.len() == found.len() + 1,
    ensures
        r@ == rewritten(c, strings_view(pieces@), captured_views(found@)),
{
    let ghost ps = strings_view(pieces@);
    let ghost frags = fragments(c, captured_views(found@));
    let mut r = pieces[0].clone();
    assert(r@ == interleave(ps.take(1), frags.take(0)));
    let mut i: usize = 0;
    while i < found.len()
        invariant
            pieces.len() == found.len() + 1,
            ps == strings_view(pieces@),
            frags == fragments(c, captured_views(found@)),
            i <= found.len(),
            r@ == interleave(ps.take(i + 1), frags.take(i as int)),
        decreases found.len() - i,
    {
        let fragment = c.build(&found[i]).to_html();
        r.append(fragment.as_str());
        r.append(pieces[i + 1].as_str());
        assert(ps.take(i + 2).drop_last() =~= ps.take(i + 1));
        assert(frags.take(i + 1).drop_last() =~= frags.take(i as int));
        i = i + 1;
    }
    assert(ps.take(i + 1) =~= ps);
    assert(frags.take(i as int) =~= frags);
    r
}

/// Runs the pass of construct `c` over `text`.
pub fn apply_pass(c: Construct, text: &str) -> (r: String)
    ensures
        r@ == pass(c, text@),
{
    let names = c.names();
    match scan(c.pattern(), &names, text) {
        Some(s) => if s.found.len() == 0 {
            String::from_str(text)
        } else {
            rewrite(c, &s.pieces, &s.found)
        },
        None => String::from_str(text),
    }
}

fn pass_order_exec() -> (r: Vec<Construct>)
    ensures
        r@ == pass_order(),
{
    let r = vec![
        Construct::Title,
        Construct::Subtitle,
        Construct::Header,
        Construct::Subheader,
        Construct::Bold,
        Construct::Italic,
        Construct::Strikethrough,
        Construct::Underline,
        Construct::CodeBlock,
        Construct::Code,
        Construct::Image,
        Construct::Link,
        Construct::Checkbox,
        Construct::UnorderedList,
        Construct::OrderedList,
    ];
    assert(r@ =~= pass_order());
    r
}

/// Rewrites every recognised construct of `text` into its markup fragment,
/// one pass per construct in the fixed order; text that no pass matches
/// stays as it is.
pub fn markdown_to_html(text: &str) -> (r: String)
    ensures
        r@ == transform(text@),
{
    let order = pass_order_exec();
    let mut cur = String::from_str(text);
    let mut i: usize = 0;
    assert(order@.subrange(0, order@.len() as int) =~= order@);
    while i < order.len()
        invariant
            order@ == pass_order(),
            i <= order.len(),
            run_passes(order@.subrange(i as int, order@.len() as int), cur@) == transform(text@),
        decreases order.len() - i,
    {
        let next = apply_pass(order[i], cur.as_str());
        assert(order@.subrange(i as int, order@.len() as int).drop_first() =~= order@.subrange(
            i + 1,
            order@.len() as int,
        ));
        cur = next;
        i = i + 1;
    }
    assert(order@.subrange(i as int, order@.len() as int) =~= Seq::<Construct>::empty());
    cur
}

/// A complete document whose body is `body`.
pub open spec fn document(body: Seq<char>) -> Seq<char> {
    "<html><head><title>Markdown to HTML</title></head><body>"@ + body + "</body></html>"@
}

/// Wraps a converted body in a minimal document with a title and a body.
pub fn html_document(body: &str) -> (r: String)
    ensures
        r@ == document(body@),
{
    let mut r = String::from_str("<html><head><title>Markdown to HTML</title></head><body>");
    r.append(body);
    r.append("</body></html>");
    r
}

/// The passes of `cs` leave alone a text in which none of them finds a match.
proof fn lemma_passes_unchanged(cs: Seq<Construct>, text: Seq<char>)
    requires
        forall|c: Construct| !#[trigger] recognizes(c, text),
    ensures
        run_passes(cs, text) == text,
    decreases cs.len(),
{
    if cs.len() > 0 {
        assert(!recognizes(cs[0], text));
        lemma_passes_unchanged(cs.drop_first(), text);
    }
}

/// A text in which no construct is recognised comes out unchanged.
pub proof fn lemma_plain_text_unchanged(text: Seq<char>)
    requires
        forall|c: Construct| !#[trigger] recognizes(c, text),
    ensures
        transform(text) == text,
{
    lemma_passes_unchanged(pass_order(), text);
}

/// Transforming an output a second time changes nothing, where no construct
/// is recognised in that output.
pub proof fn lemma_output_stable(text: Seq<char>)
    requires
        forall|c: Construct| !#[trigger] recognizes(c, transform(text)),
    ensures
        transform(transform(text)) == transform(text),
{
    lemma_plain_text_unchanged(transform(text));
}

} // verus!
