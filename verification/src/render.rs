//! The message pipeline: body text to sanitised HTML.
//!
//! A body is first normalised, so that every line break the sender typed is a
//! hard break in Markdown, and then rendered by `comrak` with a fixed set of
//! options under which raw markup is always escaped. The renderer ends its
//! output with a line feed, which is cut from a message's body.

use vstd::prelude::*;
use crate::text::{
    chars_of, lemma_trim_end_prefix, string_of, string_of_range, trim_end, trim_end_from,
};

verus! {

/// The switches of the Markdown renderer that this library sets.
#[derive(Debug, Clone, Copy, PartialEq, Eq, Structural)]
pub struct RenderOptions {
    /// Tables.
    pub table: bool,
    /// Strikethrough with `~`.
    pub strikethrough: bool,
    /// Bare URLs become links.
    pub autolink: bool,
    /// Admonition blocks.
    pub alerts: bool,
    /// Wiki-style links, the title after the pipe.
    pub wikilinks_title_after_pipe: bool,
    /// Underline with double underscores.
    pub underline: bool,
    /// Subscript.
    pub subscript: bool,
    /// Block quotes that span several lines.
    pub multiline_block_quotes: bool,
    /// Line breaks in the input are hard breaks in the output.
    pub hardbreaks: bool,
    /// Raw HTML in the input is escaped.
    pub escape: bool,
    /// Links with an empty target are left as text.
    pub ignore_empty_links: bool,
    /// Quotes, dashes and ellipses become typographic punctuation.
    pub smart: bool,
}

/// The options under which chat messages are rendered: every switch on.
pub open spec fn chat_options() -> RenderOptions {
    RenderOptions {
        table: true,
        strikethrough: true,
        autolink: true,
        alerts: true,
        wikilinks_title_after_pipe: true,
        underline: true,
        subscript: true,
        multiline_block_quotes: true,
        hardbreaks: true,
        escape: true,
        ignore_empty_links: true,
        smart: true,
    }
}

impl RenderOptions {
    /// The options under which chat messages are rendered.
    pub fn chat() -> (o: RenderOptions)
        ensures
            o == chat_options(),
    {
        RenderOptions {
            table: true,
            strikethrough: true,
            autolink: true,
            alerts: true,
            wikilinks_title_after_pipe: true,
            underline: true,
            subscript: true,
            multiline_block_quotes: true,
            hardbreaks: true,
            escape: true,
            ignore_empty_links: true,
            smart: true,
        }
    }
}

/// The HTML that `comrak` renders `markdown` to under `options`.
pub uninterp spec fn rendered_html(markdown: Seq<char>, options: RenderOptions) -> Seq<char>;

/// Calls `comrak::markdown_to_html` on `markdown`, with `comrak`'s default
/// options changed in the twelve switches of `options` and in nothing else.
/// The result is a function of the text and the options alone; it is named,
/// not described.
#[verifier::external_body]
fn markdown_to_html(markdown: &str, options: &RenderOptions) -> (html: String)
    ensures
        html@ == rendered_html(markdown@, *options),
{
    let mut o = comrak::Options::default();
    o.extension.table = options.table;
    o.extension.strikethrough = options.strikethrough;
    o.extension.autolink = options.autolink;
    o.extension.alerts = options.alerts;
    o.extension.wikilinks_title_after_pipe = options.wikilinks_title_after_pipe;
    o.extension.underline = options.underline;
    o.extension.subscript = options.subscript;
    o.extension.multiline_block_quotes = options.multiline_block_quotes;
    o.render.hardbreaks = options.hardbreaks;
    o.render.escape = options.escape;
    o.render.ignore_empty_links = options.ignore_empty_links;
    o.parse.smart = options.smart;
    comrak::markdown_to_html(markdown, &o)
}

/// The position of the first line feed of `s` at or after `i`, or the length
/// of `s` if there is none.
pub open spec fn line_end(s: Seq<char>, i: int) -> int
    decreases s.len() - i,
{
    if 0 <= i < s.len() && s[i] != '\n' {
        line_end(s, i + 1)
    } else {
        i
    }
}

/// The Markdown hard break that joins two lines: two spaces and a line feed.
pub open spec fn hard_break() -> Seq<char> {
    seq![' ', ' ', '\n']
}

/// A body with every line stripped of its trailing whitespace and the lines
/// joined by hard breaks. A line feed at the very end opens no further line.
pub open spec fn normalized(s: Seq<char>) -> Seq<char>
    decreases s.len(),
    via normalized_decreases
{
    let n = line_end(s, 0);
    let line = trim_end(s.take(n));
    if n + 1 >= s.len() {
        line
    } else {
        line + hard_break() + normalized(s.skip(n + 1))
    }
}

#[via_fn]
proof fn normalized_decreases(s: Seq<char>) {
    lemma_line_end(s, 0);
}

/// From `i` up to `line_end(s, i)` there is no line feed, and what stands
/// there is one.
pub proof fn lemma_line_end(s: Seq<char>, i: int)
    requires
        0 <= i <= s.len(),
    ensures
        i <= line_end(s, i) <= s.len(),
        forall|k: int| i <= k < line_end(s, i) ==> #[trigger] s[k] != '\n',
        line_end(s, i) < s.len() ==> s[line_end(s, i)] == '\n',
    decreases s.len() - i,
{
    if i < s.len() && s[i] != '\n' {
        lemma_line_end(s, i + 1);
    }
}

/// Finding a line's end in a suffix of `s` is finding it in `s`.
pub proof fn lemma_line_end_skip(s: Seq<char>, i: int, j: int)
    requires
        0 <= i,
        0 <= j,
        i + j <= s.len(),
    ensures
        line_end(s.skip(i), j) + i == line_end(s, i + j),
    decreases s.len() - i - j,
{
    if i + j < s.len() && s[i + j] != '\n' {
        lemma_line_end_skip(s, i, j + 1);
    }
}

/// Every line feed of a normalised body is a hard break: two spaces stand
/// before it. So no line break that the sender typed is lost in rendering.
pub proof fn lemma_breaks_are_hard(s: Seq<char>, i: int)
    requires
        0 <= i < normalized(s).len(),
        normalized(s)[i] == '\n',
    ensures
        i >= 2,
        normalized(s)[i - 1] == ' ',
        normalized(s)[i - 2] == ' ',
    decreases s.len(),
{
    lemma_line_end(s, 0);
    let n = line_end(s, 0);
    let line = trim_end(s.take(n));
    lemma_trim_end_prefix(s.take(n));
    assert forall|k: int| 0 <= k < line.len() implies line[k] != '\n' by {
        assert(line[k] == s.take(n)[k]);
        assert(s.take(n)[k] == s[k]);
    }
    if n + 1 < s.len() {
        let rest = normalized(s.skip(n + 1));
        let all = line + hard_break() + rest;
        assert(normalized(s) == all);
        if i < line.len() {
            assert(all[i] == line[i]);
        } else if i < line.len() + 3 {
            assert(all[i] == hard_break()[i - line.len()]);
            assert(i == line.len() + 2);
            assert(all[i - 1] == hard_break()[1]);
            assert(all[i - 2] == hard_break()[0]);
        } else {
            let j = i - line.len() - 3;
            assert(all[i] == rest[j]);
            lemma_breaks_are_hard(s.skip(n + 1), j);
            assert(all[i - 1] == rest[j - 1]);
            assert(all[i - 2] == rest[j - 2]);
        }
    } else {
        assert(normalized(s) == line);
    }
}

/// Strips trailing whitespace from every line of `body` and joins the lines
/// with Markdown hard breaks.
pub fn normalize(body: &str) -> (out: String)
    ensures
        out@ == normalized(body@),
{
    let v = chars_of(body);
    let n = v.len();
    let mut out: Vec<char> = Vec::new();
    let mut start: usize = 0;
    assert(out@ + normalized(v@.skip(0)) =~= normalized(v@)) by {
        assert(v@.skip(0) =~= v@);
    }
    loop
        invariant_except_break
            start <= n,
            n == v.len(),
            out@ + normalized(v@.skip(start as int)) == normalized(v@),
        ensures
            out@ == normalized(v@),
        decreases n - start,
    {
        let mut end: usize = start;
        while end < n && v[end] != '\n'
            invariant
                start <= end <= n,
                n == v.len(),
                line_end(v@, end as int) == line_end(v@, start as int),
            decreases n - end,
        {
            end += 1;
        }
        let cut = trim_end_from(&v, start, end);
        let ghost before = out@;
        let mut i: usize = start;
        while i < cut
            invariant
                start <= i <= cut <= n,
                n == v.len(),
                out@ == before + v@.subrange(start as int, i as int),
            decreases cut - i,
        {
            out.push(v[i]);
            i += 1;
            assert(before + v@.subrange(start as int, i as int) =~= (before + v@.subrange(
                start as int,
                i - 1,
            )).push(v@[i - 1]));
        }
        proof {
            let rest = v@.skip(start as int);
            lemma_line_end_skip(v@, start as int, 0);
            assert(line_end(rest, 0) == end - start);
            assert(rest.take(end - start) =~= v@.subrange(start as int, end as int));
            if end + 1 < n {
                assert(rest.skip(end - start + 1) =~= v@.skip(end + 1));
            }
        }
        if n - end <= 1 {
            break ;
        }
        out.push(' ');
        out.push(' ');
        out.push('\n');
        proof {
            let line = v@.subrange(start as int, cut as int);
            assert(out@ =~= before + line + hard_break());
            assert(before + (line + hard_break() + normalized(v@.skip(end + 1))) =~= before + line
                + hard_break() + normalized(v@.skip(end + 1)));
        }
        start = end + 1;
    }
    string_of(&out)
}

/// `html` without the one line feed at its end, if it ends in one.
pub open spec fn without_final_line_feed(html: Seq<char>) -> Seq<char> {
    if html.len() > 0 && html.last() == '\n' {
        html.drop_last()
    } else {
        html
    }
}

/// What the pipeline makes of a body: its normal form rendered to HTML under
/// the chat options, without the line feed that ends the renderer's output.
pub open spec fn rendered_body(body: Seq<char>) -> Seq<char> {
    without_final_line_feed(rendered_html(normalized(body), chat_options()))
}

/// Renders normalised Markdown to sanitised HTML under the chat options.
pub fn render_markdown(markdown: &str) -> (html: String)
    ensures
        html@ == rendered_html(markdown@, chat_options()),
{
    let options = RenderOptions::chat();
    markdown_to_html(markdown, &options)
}

/// Cuts the one line feed at the end of `html`, if it ends in one.
pub fn cut_final_line_feed(html: String) -> (cut: String)
    ensures
        cut@ == without_final_line_feed(html@),
{
    let v = chars_of(html.as_str());
    let n = v.len();
    if n > 0 && v[n - 1] == '\n' {
        let cut = string_of_range(&v, 0, n - 1);
        assert(v@.subrange(0, n - 1) =~= v@.drop_last());
        cut
    } else {
        html
    }
}

/// Normalises a message body, renders it to sanitised HTML, and cuts the line
/// feed that ends the renderer's output.
pub fn render_body(body: &str) -> (html: String)
    ensures
        html@ == rendered_body(body@),
{
    let markdown = normalize(body);
    cut_final_line_feed(render_markdown(markdown.as_str()))
}

} // verus!
