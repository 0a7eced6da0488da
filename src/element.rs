use vstd::prelude::*;

verus! {

/// One recognised construct, holding the text captured for it.
pub enum Element {
    Title(String),
    Subtitle(String),
    Header(String),
    Subheader(String),
    Bold(String),
    Italic(String),
    Strikethrough(String),
    Underline(String),
    Code(String),
    CodeBlock(String),
    Link(String, String),
    Image(String, String),
    UnorderedList(Vec<String>),
    OrderedList(Vec<String>),
    Checkbox(bool, String),
}

/// The mathematical value of an `Element`: the same variants over character sequences.
pub enum ElementView {
    Title(Seq<char>),
    Subtitle(Seq<char>),
    Header(Seq<char>),
    Subheader(Seq<char>),
    Bold(Seq<char>),
    Italic(Seq<char>),
    Strikethrough(Seq<char>),
    Underline(Seq<char>),
    Code(Seq<char>),
    CodeBlock(Seq<char>),
    Link(Seq<char>, Seq<char>),
    Image(Seq<char>, Seq<char>),
    UnorderedList(Seq<Seq<char>>),
    OrderedList(Seq<Seq<char>>),
    Checkbox(bool, Seq<char>),
}

pub open spec fn strings_view(v: Seq<String>) -> Seq<Seq<char>> {
    v.map_values(|s: String| s@)
}

impl View for Element {
    type V = ElementView;

    open spec fn view(&self) -> ElementView {
        match self {
            Element::Title(t) => ElementView::Title(t@),
            Element::Subtitle(t) => ElementView::Subtitle(t@),
            Element::Header(t) => ElementView::Header(t@),
            Element::Subheader(t) => ElementView::Subheader(t@),
            Element::Bold(t) => ElementView::Bold(t@),
            Element::Italic(t) => ElementView::Italic(t@),
            Element::Strikethrough(t) => ElementView::Strikethrough(t@),
            Element::Underline(t) => ElementView::Underline(t@),
            Element::Code(t) => ElementView::Code(t@),
            Element::CodeBlock(t) => ElementView::CodeBlock(t@),
            Element::Link(t, u) => ElementView::Link(t@, u@),
            Element::Image(a, u) => ElementView::Image(a@, u@),
            Element::UnorderedList(v) => ElementView::UnorderedList(strings_view(v@)),
            Element::OrderedList(v) => ElementView::OrderedList(strings_view(v@)),
            Element::Checkbox(c, t) => ElementView::Checkbox(*c, t@),
        }
    }
}

/// `open` + `body` + `close`.
pub open spec fn wrap(open: Seq<char>, body: Seq<char>, close: Seq<char>) -> Seq<char> {
    open + body + close
}

/// One list item: the item's text inside a list-item tag.
pub open spec fn list_item_html(item: Seq<char>) -> Seq<char> {
    wrap("<li>"@, item, "</li>"@)
}

/// The list-item tags of `items`, in order, separated by newlines.
pub open spec fn list_items_html(items: Seq<Seq<char>>) -> Seq<char>
    decreases items.len(),
{
    if items.len() == 0 {
        Seq::empty()
    } else if items.len() == 1 {
        list_item_html(items[0])
    } else {
        list_items_html(items.drop_last()) + "\n"@ + list_item_html(items.last())
    }
}

pub open spec fn bool_html(b: bool) -> Seq<char> {
    if b {
        "true"@
    } else {
        "false"@
    }
}

impl ElementView {
    /// The markup fragment of an element.
    pub open spec fn html(self) -> Seq<char> {
        match self {
            ElementView::Title(t) => wrap("<h1>"@, t, "</h1>"@),
            ElementView::Subtitle(t) => wrap("<h2>"@, t, "</h2>"@),
            ElementView::Header(t) => wrap("<h3>"@, t, "</h3>"@),
            ElementView::Subheader(t) => wrap("<h4>"@, t, "</h4>"@),
            ElementView::Bold(t) => wrap("<b>"@, t, "</b>"@),
            ElementView::Italic(t) => wrap("<i>"@, t, "</i>"@),
            ElementView::Strikethrough(t) => wrap("<s>"@, t, "</s>"@),
            ElementView::Underline(t) => wrap("<u>"@, t, "</u>"@),
            ElementView::Code(t) => wrap("<code>"@, t, "</code>"@),
            ElementView::CodeBlock(t) => wrap("<pre><code>"@, t, "</code></pre>"@),
            ElementView::Link(t, u) => wrap("<a href=\""@, u, "\">"@) + t + "</a>"@,
            ElementView::Image(a, u) => wrap("<img src=\""@, u, "\" alt=\""@) + a + "\">"@,
            ElementView::UnorderedList(items) => wrap("<ul>"@, list_items_html(items), "</ul>"@),
            ElementView::OrderedList(items) => wrap("<ol>"@, list_items_html(items), "</ol>"@),
            ElementView::Checkbox(c, t) => wrap(
                "<input type=\"checkbox\" checked=\""@,
                bool_html(c),
                "\"><label>"@,
            ) + t + "</label>"@,
        }
    }
}

fn wrap_exec(open: &str, body: &str, close: &str) -> (r: String)
    ensures
        r@ == wrap(open@, body@, close@),
{
    let mut r = String::from_str(open);
    r.append(body);
    r.append(close);
    r
}

fn list_html(open: &str, items: &Vec<String>, close: &str) -> (r: String)
    ensures
        r@ == wrap(open@, list_items_html(strings_view(items@)), close@),
{
    let mut r = String::from_str(open);
    let ghost start = r@;
    let mut i: usize = 0;
    while i < items.len()
        invariant
            i <= items.len(),
            start == open@,
            r@ == start + list_items_html(strings_view(items@.take(i as int))),
        decreases items.len() - i,
    {
        let ghost prev = strings_view(items@.take(i as int));
        let ghost next = strings_view(items@.take(i + 1));
        assert(next.drop_last() =~= prev);
        assert(next.last() == items@[i as int]@);
        if i > 0 {
            r.append("\n");
        }
        let li = wrap_exec("<li>", items[i].as_str(), "</li>");
        r.append(li.as_str());
        i = i + 1;
        proof {
            if i == 1 {
                assert(prev.len() == 0);
                assert(list_items_html(prev) =~= Seq::empty());
            }
        }
    }
    assert(items@.take(i as int) =~= items@);
    r.append(close);
    r
}

impl Element {
    /// Renders the element as its markup fragment.
    pub fn to_html(&self) -> (r: String)
        ensures
            r@ == self@.html(),
    {
        match self {
            Element::Title(t) => wrap_exec("<h1>", t.as_str(), "</h1>"),
            Element::Subtitle(t) => wrap_exec("<h2>", t.as_str(), "</h2>"),
            Element::Header(t) => wrap_exec("<h3>", t.as_str(), "</h3>"),
            Element::Subheader(t) => wrap_exec("<h4>", t.as_str(), "</h4>"),
            Element::Bold(t) => wrap_exec("<b>", t.as_str(), "</b>"),
            Element::Italic(t) => wrap_exec("<i>", t.as_str(), "</i>"),
            Element::Strikethrough(t) => wrap_exec("<s>", t.as_str(), "</s>"),
            Element::Underline(t) => wrap_exec("<u>", t.as_str(), "</u>"),
            Element::Code(t) => wrap_exec("<code>", t.as_str(), "</code>"),
            Element::CodeBlock(t) => wrap_exec("<pre><code>", t.as_str(), "</code></pre>"),
            Element::Link(t, u) => {
                let mut r = wrap_exec("<a href=\"", u.as_str(), "\">");
                r.append(t.as_str());
                r.append("</a>");
                r
            },
            Element::Image(a, u) => {
                let mut r = wrap_exec("<img src=\"", u.as_str(), "\" alt=\"");
                r.append(a.as_str());
                r.append("\">");
                r
            },
            Element::UnorderedList(items) => list_html("<ul>", items, "</ul>"),
            Element::OrderedList(items) => list_html("<ol>", items, "</ol>"),
            Element::Checkbox(c, t) => {
                let state = if *c {
                    "true"
                } else {
                    "false"
                };
                let mut r = wrap_exec("<input type=\"checkbox\" checked=\"", state, "\"><label>");
                r.append(t.as_str());
                r.append("</label>");
                r
            },
        }
    }
}

/// The characters that the markers of the constructs are made of.
pub open spec fn is_marker_char(c: char) -> bool {
    c == '#' || c == '*' || c == '~' || c == '_' || c == '`' || c == '[' || c == '-' || c == '.'
}

/// A text without marker characters.
pub open spec fn marker_free(s: Seq<char>) -> bool
    decreases s.len(),
{
    s.len() == 0 || (!is_marker_char(s[0]) && marker_free(s.drop_first()))
}

impl ElementView {
    /// Whether every text that the element holds is free of marker characters.
    pub open spec fn texts_marker_free(self) -> bool {
        match self {
            ElementView::Title(t) => marker_free(t),
            ElementView::Subtitle(t) => marker_free(t),
            ElementView::Header(t) => marker_free(t),
            ElementView::Subheader(t) => marker_free(t),
            ElementView::Bold(t) => marker_free(t),
            ElementView::Italic(t) => marker_free(t),
            ElementView::Strikethrough(t) => marker_free(t),
            ElementView::Underline(t) => marker_free(t),
            ElementView::Code(t) => marker_free(t),
            ElementView::CodeBlock(t) => marker_free(t),
            ElementView::Link(t, u) => marker_free(t) && marker_free(u),
            ElementView::Image(a, u) => marker_free(a) && marker_free(u),
            ElementView::UnorderedList(items) => forall|i: int|
                0 <= i < items.len() ==> marker_free(#[trigger] items[i]),
            ElementView::OrderedList(items) => forall|i: int|
                0 <= i < items.len() ==> marker_free(#[trigger] items[i]),
            ElementView::Checkbox(_, t) => marker_free(t),
        }
    }
}

proof fn lemma_marker_free_index(s: Seq<char>)
    ensures
        marker_free(s) <==> forall|i: int| 0 <= i < s.len() ==> !is_marker_char(#[trigger] s[i]),
    decreases s.len(),
{
    if s.len() > 0 {
        lemma_marker_free_index(s.drop_first());
        if forall|i: int| 0 <= i < s.len() ==> !is_marker_char(#[trigger] s[i]) {
            assert forall|i: int| 0 <= i < s.drop_first().len() implies !is_marker_char(
                #[trigger] s.drop_first()[i],
            ) by {
                assert(s.drop_first()[i] == s[i + 1]);
            }
        }
        if marker_free(s) {
            assert forall|i: int| 0 <= i < s.len() implies !is_marker_char(#[trigger] s[i]) by {
                if i > 0 {
                    assert(s[i] == s.drop_first()[i - 1]);
                }
            }
        }
    }
}

proof fn lemma_marker_free_concat(a: Seq<char>, b: Seq<char>)
    requires
        marker_free(a),
        marker_free(b),
    ensures
        marker_free(a + b),
{
    lemma_marker_free_index(a);
    lemma_marker_free_index(b);
    lemma_marker_free_index(a + b);
    assert forall|i: int| 0 <= i < (a + b).len() implies !is_marker_char(#[trigger] (a + b)[i]) by {
        if i >= a.len() {
            assert((a + b)[i] == b[i - a.len()]);
        }
    }
}

proof fn lemma_tags_marker_free()
    ensures
        marker_free("<h1>"@),
        marker_free("</h1>"@),
        marker_free("<h2>"@),
        marker_free("</h2>"@),
        marker_free("<h3>"@),
        marker_free("</h3>"@),
        marker_free("<h4>"@),
        marker_free("</h4>"@),
        marker_free("<b>"@),
        marker_free("</b>"@),
        marker_free("<i>"@),
        marker_free("</i>"@),
        marker_free("<s>"@),
        marker_free("</s>"@),
        marker_free("<u>"@),
        marker_free("</u>"@),
        marker_free("<code>"@),
        marker_free("</code>"@),
        marker_free("<pre><code>"@),
        marker_free("</code></pre>"@),
        marker_free("<a href=\""@),
        marker_free("\">"@),
        marker_free("</a>"@),
        marker_free("<img src=\""@),
        marker_free("\" alt=\""@),
        marker_free("<ul>"@),
        marker_free("</ul>"@),
        marker_free("<ol>"@),
        marker_free("</ol>"@),
        marker_free("<li>"@),
        marker_free("</li>"@),
        marker_free("\n"@),
        marker_free("true"@),
        marker_free("false"@),
        marker_free("<input type=\"checkbox\" checked=\""@),
        marker_free("\"><label>"@),
        marker_free("</label>"@),
{
    reveal_strlit("<h1>");
    reveal_strlit("</h1>");
    reveal_strlit("<h2>");
    reveal_strlit("</h2>");
    reveal_strlit("<h3>");
    reveal_strlit("</h3>");
    reveal_strlit("<h4>");
    reveal_strlit("</h4>");
    reveal_strlit("<b>");
    reveal_strlit("</b>");
    reveal_strlit("<i>");
    reveal_strlit("</i>");
    reveal_strlit("<s>");
    reveal_strlit("</s>");
    reveal_strlit("<u>");
    reveal_strlit("</u>");
    reveal_strlit("<code>");
    reveal_strlit("</code>");
    reveal_strlit("<pre><code>");
    reveal_strlit("</code></pre>");
    reveal_strlit("<a href=\"");
    reveal_strlit("\">");
    reveal_strlit("</a>");
    reveal_strlit("<img src=\"");
    reveal_strlit("\" alt=\"");
    reveal_strlit("<ul>");
    reveal_strlit("</ul>");
    reveal_strlit("<ol>");
    reveal_strlit("</ol>");
    reveal_strlit("<li>");
    reveal_strlit("</li>");
    reveal_strlit("\n");
    reveal_strlit("true");
    reveal_strlit("false");
    reveal_strlit("<input type=\"checkbox\" checked=\"");
    reveal_strlit("\"><label>");
    reveal_strlit("</label>");
    reveal_with_fuel(marker_free, 40);
}

proof fn lemma_list_items_marker_free(items: Seq<Seq<char>>)
    requires
        forall|i: int| 0 <= i < items.len() ==> marker_free(#[trigger] items[i]),
    ensures
        marker_free(list_items_html(items)),
    decreases items.len(),
{
    lemma_tags_marker_free();
    if items.len() == 0 {
    } else {
        let one = list_item_html(items.last());
        lemma_marker_free_concat("<li>"@, items.last());
        lemma_marker_free_concat("<li>"@ + items.last(), "</li>"@);
        if items.len() > 1 {
            let init = items.drop_last();
            assert forall|i: int| 0 <= i < init.len() implies marker_free(#[trigger] init[i]) by {
                assert(init[i] == items[i]);
            }
            lemma_list_items_marker_free(init);
            lemma_marker_free_concat(list_items_html(init), "\n"@);
            lemma_marker_free_concat(list_items_html(init) + "\n"@, one);
        } else {
            assert(items[0] == items.last());
        }
    }
}

/// A fragment rendered from texts without marker characters holds none
/// either: rendering brings in no marker of its own.
pub proof fn lemma_fragment_marker_free(e: ElementView)
    requires
        e.texts_marker_free(),
    ensures
        marker_free(e.html()),
{
    lemma_tags_marker_free();
    match e {
        ElementView::Title(t) => {
            lemma_marker_free_concat("<h1>"@, t);
            lemma_marker_free_concat("<h1>"@ + t, "</h1>"@);
        },
        ElementView::Subtitle(t) => {
            lemma_marker_free_concat("<h2>"@, t);
            lemma_marker_free_concat("<h2>"@ + t, "</h2>"@);
        },
        ElementView::Header(t) => {
            lemma_marker_free_concat("<h3>"@, t);
            lemma_marker_free_concat("<h3>"@ + t, "</h3>"@);
        },
        ElementView::Subheader(t) => {
            lemma_marker_free_concat("<h4>"@, t);
            lemma_marker_free_concat("<h4>"@ + t, "</h4>"@);
        },
        ElementView::Bold(t) => {
            lemma_marker_free_concat("<b>"@, t);
            lemma_marker_free_concat("<b>"@ + t, "</b>"@);
        },
        ElementView::Italic(t) => {
            lemma_marker_free_concat("<i>"@, t);
            lemma_marker_free_concat("<i>"@ + t, "</i>"@);
        },
        ElementView::Strikethrough(t) => {
            lemma_marker_free_concat("<s>"@, t);
            lemma_marker_free_concat("<s>"@ + t, "</s>"@);
        },
        ElementView::Underline(t) => {
            lemma_marker_free_concat("<u>"@, t);
            lemma_marker_free_concat("<u>"@ + t, "</u>"@);
        },
        ElementView::Code(t) => {
            lemma_marker_free_concat("<code>"@, t);
            lemma_marker_free_concat("<code>"@ + t, "</code>"@);
        },
        ElementView::CodeBlock(t) => {
            lemma_marker_free_concat("<pre><code>"@, t);
            lemma_marker_free_concat("<pre><code>"@ + t, "</code></pre>"@);
        },
        ElementView::Link(t, u) => {
            let a = "<a href=\""@ + u;
            lemma_marker_free_concat("<a href=\""@, u);
            lemma_marker_free_concat(a, "\">"@);
            lemma_marker_free_concat(a + "\">"@, t);
            lemma_marker_free_concat(a + "\">"@ + t, "</a>"@);
        },
        ElementView::Image(alt, u) => {
            let a = "<img src=\""@ + u;
            lemma_marker_free_concat("<img src=\""@, u);
            lemma_marker_free_concat(a, "\" alt=\""@);
            lemma_marker_free_concat(a + "\" alt=\""@, alt);
            lemma_marker_free_concat(a + "\" alt=\""@ + alt, "\">"@);
        },
        ElementView::UnorderedList(items) => {
            lemma_list_items_marker_free(items);
            lemma_marker_free_concat("<ul>"@, list_items_html(items));
            lemma_marker_free_concat("<ul>"@ + list_items_html(items), "</ul>"@);
        },
        ElementView::OrderedList(items) => {
            lemma_list_items_marker_free(items);
            lemma_marker_free_concat("<ol>"@, list_items_html(items));
            lemma_marker_free_concat("<ol>"@ + list_items_html(items), "</ol>"@);
        },
        ElementView::Checkbox(c, t) => {
            let open = "<input type=\"checkbox\" checked=\""@;
            lemma_marker_free_concat(open, bool_html(c));
            lemma_marker_free_concat(open + bool_html(c), "\"><label>"@);
            lemma_marker_free_concat(open + bool_html(c) + "\"><label>"@, t);
            lemma_marker_free_concat(open + bool_html(c) + "\"><label>"@ + t, "</label>"@);
        },
    }
}

} // verus!
