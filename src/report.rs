//! The printable report: the recipe as a numbered list, the change messages
//! with their colours as markup, and the page around them.

use vstd::prelude::*;
use vstd::string::*;
use crate::directive::{lines_of, split_lines, words_view};
use crate::reconcile::{GREEN, RED, RESET};

verus! {

/// The pieces of a text between occurrences of a separator, as `str::split` gives them.
pub uninterp spec fn pieces_of(s: Seq<char>, sep: Seq<char>) -> Seq<Seq<char>>;

/// Relies on `str::split` with a string pattern: the pieces of `s` between
/// the non-overlapping occurrences of `sep`, in order.
#[verifier::external_body]
fn split_on(s: &str, sep: &str) -> (r: Vec<String>)
    ensures
        words_view(r@) == pieces_of(s@, sep@),
{
    s.split(sep).map(|p| p.to_string()).collect()
}

/// A text with every occurrence of one text replaced, as `str::replace` gives it.
pub uninterp spec fn replaced(s: Seq<char>, from: Seq<char>, to: Seq<char>) -> Seq<char>;

/// Relies on `str::replace`: `s` with each non-overlapping occurrence of
/// `from`, left to right, replaced by `to`.
#[verifier::external_body]
fn replace_all(s: &str, from: &str, to: &str) -> (r: String)
    ensures
        r@ == replaced(s@, from@, to@),
{
    s.replace(from, to)
}

/// The texts joined with `sep` between consecutive ones.
pub open spec fn joined(xs: Seq<Seq<char>>, sep: Seq<char>) -> Seq<char>
    decreases xs.len(),
{
    if xs.len() == 0 {
        seq![]
    } else if xs.len() == 1 {
        xs[0]
    } else {
        joined(xs.drop_last(), sep) + sep + xs.last()
    }
}

/// Joins the texts with `sep` between consecutive ones.
pub fn join(xs: &Vec<String>, sep: &str) -> (r: String)
    ensures
        r@ == joined(words_view(xs@), sep@),
{
    let ghost ws = words_view(xs@);
    let mut out = String::new();
    let mut i: usize = 0;
    assert(ws.subrange(0, 0) =~= Seq::<Seq<char>>::empty());
    while i < xs.len()
        invariant
            i <= xs.len(),
            ws == words_view(xs@),
            out@ == joined(ws.subrange(0, i as int), sep@),
        decreases xs.len() - i,
    {
        assert(ws.subrange(0, i + 1).drop_last() =~= ws.subrange(0, i as int));
        if i > 0 {
            out.append(sep);
        } else {
            assert(out@ =~= Seq::<char>::empty());
        }
        out.append(xs[i].as_str());
        assert(out@ =~= joined(ws.subrange(0, i + 1), sep@));
        i = i + 1;
    }
    assert(ws.subrange(0, i as int) =~= ws);
    out
}

/// The recipe text of a batch: its blocks separated by a blank line.
pub fn recipe_blob(recipes: &Vec<String>) -> (r: String)
    ensures
        r@ == joined(words_view(recipes@), "\n\n"@),
{
    join(recipes, "\n\n")
}

/// The list item of one recipe block: its first line in bold, then its
/// second; nothing for a block of fewer than two lines.
pub open spec fn list_item(block: Seq<char>) -> Seq<char> {
    let ls = lines_of(block);
    if ls.len() >= 2 {
        "<li><strong>"@ + ls[0] + "</strong><br>"@ + ls[1] + "</li>"@
    } else {
        seq![]
    }
}

/// The list items of the blocks, in order.
pub open spec fn list_items(bs: Seq<Seq<char>>) -> Seq<char>
    decreases bs.len(),
{
    if bs.len() == 0 {
        seq![]
    } else {
        list_items(bs.drop_last()) + list_item(bs.last())
    }
}

/// The recipe text as an ordered list, one item per blank-line-separated block.
pub open spec fn recipe_list(content: Seq<char>) -> Seq<char> {
    "<ol class=\"prescription-list\">"@ + list_items(pieces_of(content, "\n\n"@)) + "</ol>"@
}

/// Renders the recipe text as an ordered list: one item per block, its
/// first line in bold and its second below.
pub fn parse_prescription_to_list(recipe_content: &str) -> (r: String)
    ensures
        r@ == recipe_list(recipe_content@),
{
    let blocks = split_on(recipe_content, "\n\n");
    let ghost bs = words_view(blocks@);
    let mut html = String::from_str("<ol class=\"prescription-list\">");
    let mut i: usize = 0;
    assert(bs.subrange(0, 0) =~= Seq::<Seq<char>>::empty());
    assert(html@ =~= "<ol class=\"prescription-list\">"@ + list_items(bs.subrange(0, 0)));
    while i < blocks.len()
        invariant
            i <= blocks.len(),
            bs == words_view(blocks@),
            html@ == "<ol class=\"prescription-list\">"@ + list_items(bs.subrange(0, i as int)),
        decreases blocks.len() - i,
    {
        assert(bs.subrange(0, i + 1).drop_last() =~= bs.subrange(0, i as int));
        let lines = split_lines(blocks[i].as_str());
        let ghost before = html@;
        if lines.len() >= 2 {
            html.append("<li><strong>");
            html.append(lines[0].as_str());
            html.append("</strong><br>");
            html.append(lines[1].as_str());
            html.append("</li>");
        }
        assert(html@ =~= before + list_item(bs[i as int]));
        i = i + 1;
    }
    assert(bs.subrange(0, i as int) =~= bs);
    html.append("</ol>");
    html
}

/// The markup that opens a removed line.
pub const REMOVED_OPEN: &'static str = "<span class=\"removed\">";

/// The markup that opens an added line.
pub const ADDED_OPEN: &'static str = "<span class=\"added\">";

/// The markup that closes a coloured line.
pub const SPAN_CLOSE: &'static str = "</span>";

/// A message with its colour codes turned into markup spans.
pub open spec fn ansi_markup(s: Seq<char>) -> Seq<char> {
    replaced(replaced(replaced(s, RED@, REMOVED_OPEN@), GREEN@, ADDED_OPEN@), RESET@, SPAN_CLOSE@)
}

/// Turns the red and green colour codes of a message into opening spans of
/// the removed and added classes, and the reset code into a closing span.
pub fn ansi_to_html(text: &str) -> (r: String)
    ensures
        r@ == ansi_markup(text@),
{
    let a = replace_all(text, RED, REMOVED_OPEN);
    let b = replace_all(a.as_str(), GREEN, ADDED_OPEN);
    replace_all(b.as_str(), RESET, SPAN_CLOSE)
}

/// What the report says when there are no messages.
pub const NO_CHANGES: &'static str = "No changes found.";

/// Each message as markup.
pub open spec fn markups(ms: Seq<Seq<char>>) -> Seq<Seq<char>> {
    ms.map_values(|m: Seq<char>| ansi_markup(m))
}

/// The messages of a run as markup, one per line.
pub open spec fn messages_markup(ms: Seq<Seq<char>>) -> Seq<char> {
    if ms.len() == 0 {
        NO_CHANGES@
    } else {
        joined(markups(ms), "\n"@)
    }
}

/// Renders the messages as markup, one per line, or a notice when there are none.
pub fn returns_markup(messages: &Vec<String>) -> (r: String)
    ensures
        r@ == messages_markup(words_view(messages@)),
{
    if messages.len() == 0 {
        return String::from_str(NO_CHANGES);
    }
    let ghost ms = words_view(messages@);
    let mut converted: Vec<String> = Vec::new();
    let mut i: usize = 0;
    while i < messages.len()
        invariant
            i <= messages.len(),
            ms == words_view(messages@),
            words_view(converted@) == markups(ms).subrange(0, i as int),
        decreases messages.len() - i,
    {
        let ghost before = words_view(converted@);
        converted.push(ansi_to_html(messages[i].as_str()));
        assert(words_view(converted@) =~= before.push(ansi_markup(ms[i as int])));
        assert(words_view(converted@) =~= markups(ms).subrange(0, i + 1));
        i = i + 1;
    }
    assert(words_view(converted@) =~= markups(ms));
    join(&converted, "\n")
}


/// The page's opening, up to its title.
pub const PAGE_TOP: &'static str = "<!DOCTYPE html>\n<html>\n<head>\n    <title>";

/// What stands between the title and the heading: the style sheet.
pub const PAGE_STYLE: &'static str = r#"</title>
    <style>
        body { font-family: Arial, sans-serif; margin: 40px; }
        .prescription { border: 1px solid #ccc; padding: 20px; margin-bottom: 20px; }
        .changes { background-color: #f0f0f0; padding: 10px; border-left: 4px solid #007bff; }
        h2 { color: #333; }
        pre { white-space: pre-wrap; }
        .removed { color: #dc3545; }
        .added { color: #28a745; }
        .prescription-list { padding-left: 20px; }
        .prescription-list li { margin-bottom: 15px; line-height: 1.4; }
        .prescription-list strong { color: #2c3e50; font-size: 1.1em; }
        .prescription-timeline { margin-top: 30px; }
        .prescription-timeline h3 { color: #2c3e50; margin-bottom: 15px; font-size: 1.2em; }
        .timeline { position: relative; padding-left: 30px; margin-bottom: 30px; }
        .timeline::before { content: ''; position: absolute; left: 15px; top: 0; bottom: 0; width: 2px; background: #e9ecef; }
        .timeline-item { position: relative; margin-bottom: 20px; padding-left: 10px; }
        .timeline-marker { position: absolute; left: -22px; width: 30px; height: 30px; border-radius: 50%; display: flex; align-items: center; justify-content: center; font-weight: bold; color: white; border: 2px solid white; box-shadow: 0 2px 4px rgba(0,0,0,0.1); }
        .timeline-marker.initial { background: #28a745; }
        .timeline-marker.increase { background: #007bff; }
        .timeline-marker.decrease { background: #dc3545; }
        .timeline-marker.other { background: #6c757d; }
        .timeline-content { background: #f8f9fa; padding: 10px 15px; border-radius: 6px; border-left: 3px solid #dee2e6; }
        .timeline-content strong { color: #495057; }
    </style>
</head>
<body>
    <h1>"#;

/// What closes the heading.
pub const PAGE_HEADING_END: &'static str = "</h1>\n";

/// The opening of the recipe section.
pub const RECIPE_OPEN: &'static str = "\n    <div class=\"prescription\">\n        <h2>Prescription</h2>\n        ";

/// The opening of the changes section.
pub const CHANGES_OPEN: &'static str = "\n    <div class=\"prescription changes\">\n        <h2>Changes</h2>\n        <pre>";

/// What closes the changes section.
pub const CHANGES_CLOSE: &'static str = "</pre>\n    </div>\n";

/// The opening of the timeline section.
pub const TIMELINE_OPEN: &'static str = "\n    <div class=\"prescription\">\n        <h2>Prescription timeline</h2>\n        ";

/// What closes the recipe and timeline sections.
pub const SECTION_CLOSE: &'static str = "\n    </div>\n";

/// The page's end.
pub const PAGE_FOOTER: &'static str = "\n</body>\n</html>";

/// The title of the report page.
pub const PAGE_TITLE: &'static str = "Medical prescription";

/// The page's opening: document head with its style sheet, and the title as heading.
pub open spec fn page_header(title: Seq<char>) -> Seq<char> {
    PAGE_TOP@ + title + PAGE_STYLE@ + title + PAGE_HEADING_END@
}

/// Builds the page's opening with `title` as both title and heading.
pub fn generate_html_header(title: &str) -> (r: String)
    ensures
        r@ == page_header(title@),
{
    let mut s = String::from_str(PAGE_TOP);
    s.append(title);
    s.append(PAGE_STYLE);
    s.append(title);
    s.append(PAGE_HEADING_END);
    s
}

/// Builds the recipe section around the recipe list.
pub fn generate_recipe_section(recipe_list_html: &str) -> (r: String)
    ensures
        r@ == RECIPE_OPEN@ + recipe_list_html@ + SECTION_CLOSE@,
{
    let mut s = String::from_str(RECIPE_OPEN);
    s.append(recipe_list_html);
    s.append(SECTION_CLOSE);
    s
}

/// Builds the changes section around the messages, kept preformatted.
pub fn generate_changes_section(returns_content: &str) -> (r: String)
    ensures
        r@ == CHANGES_OPEN@ + returns_content@ + CHANGES_CLOSE@,
{
    let mut s = String::from_str(CHANGES_OPEN);
    s.append(returns_content);
    s.append(CHANGES_CLOSE);
    s
}

/// Builds the timeline section around the timeline markup.
pub fn generate_timeline_section(graph_html: &str) -> (r: String)
    ensures
        r@ == TIMELINE_OPEN@ + graph_html@ + SECTION_CLOSE@,
{
    let mut s = String::from_str(TIMELINE_OPEN);
    s.append(graph_html);
    s.append(SECTION_CLOSE);
    s
}

/// Builds the page's end.
pub fn generate_html_footer() -> (r: String)
    ensures
        r@ == PAGE_FOOTER@,
{
    String::from_str(PAGE_FOOTER)
}

/// The whole report page.
pub open spec fn page(recipe_list_html: Seq<char>, returns_content: Seq<char>, graph_html: Seq<char>) -> Seq<char> {
    page_header(PAGE_TITLE@) + (RECIPE_OPEN@ + recipe_list_html + SECTION_CLOSE@) + (CHANGES_OPEN@
        + returns_content + CHANGES_CLOSE@) + (TIMELINE_OPEN@ + graph_html + SECTION_CLOSE@)
        + PAGE_FOOTER@
}

/// Builds the whole report page: header, recipe, changes, timeline, footer.
pub fn generate_complete_html(recipe_list_html: &str, returns_content: &str, graph_html: &str) -> (r: String)
    ensures
        r@ == page(recipe_list_html@, returns_content@, graph_html@),
{
    let mut html = generate_html_header(PAGE_TITLE);
    html.append(generate_recipe_section(recipe_list_html).as_str());
    html.append(generate_changes_section(returns_content).as_str());
    html.append(generate_timeline_section(graph_html).as_str());
    html.append(generate_html_footer().as_str());
    html
}

} // verus!
