use rss_chat::render::{
    cut_final_line_feed, normalize, render_body, render_markdown, RenderOptions,
};

#[test]
fn one_line_is_left_alone() {
    assert_eq!(normalize("hello"), "hello");
    assert_eq!(normalize(""), "");
}

#[test]
fn lines_are_joined_by_hard_breaks() {
    assert_eq!(normalize("a\nb"), "a  \nb");
    assert_eq!(normalize("a\nb\nc"), "a  \nb  \nc");
}

#[test]
fn trailing_whitespace_is_cut_from_every_line() {
    assert_eq!(normalize("a   \nb\t"), "a  \nb");
    assert_eq!(normalize("a\r\nb\r\n"), "a  \nb");
    assert_eq!(normalize("  keep leading  "), "  keep leading");
    assert_eq!(normalize("wide\u{3000}\nnext"), "wide  \nnext");
}

#[test]
fn a_final_line_feed_opens_no_line() {
    assert_eq!(normalize("a\n"), "a");
    assert_eq!(normalize("\n"), "");
    assert_eq!(normalize("a\n\n"), "a  \n");
}

#[test]
fn empty_lines_are_kept() {
    assert_eq!(normalize("a\n\nb"), "a  \n  \nb");
    assert_eq!(normalize("\nb"), "  \nb");
    assert_eq!(normalize("   \n   \nb"), "  \n  \nb");
}

#[test]
fn a_body_is_rendered_to_a_paragraph() {
    assert_eq!(render_body("hello"), "<p>hello</p>");
    assert_eq!(render_markdown("hello"), "<p>hello</p>\n");
}

#[test]
fn a_line_break_is_a_hard_break() {
    assert_eq!(render_body("a\nb"), "<p>a<br />\nb</p>");
    assert_eq!(render_body("a   \nb"), "<p>a<br />\nb</p>");
}

#[test]
fn raw_markup_is_escaped() {
    let html = render_body("<script>alert(1)</script>");
    assert!(!html.contains("<script"));
    assert!(html.contains("&lt;script&gt;"));
    let inline = render_body("look: <b onclick=\"x()\">bold</b>");
    assert!(!inline.contains("<b "));
    assert!(inline.contains("&lt;b onclick"));
}

#[test]
fn markdown_is_rendered() {
    assert_eq!(render_body("**bold** and ~~gone~~"), "<p><strong>bold</strong> and <del>gone</del></p>");
    assert_eq!(render_body("__under__"), "<p><u>under</u></p>");
    assert_eq!(render_body("H~2~O"), "<p>H<sub>2</sub>O</p>");
}

#[test]
fn bare_urls_become_links() {
    assert_eq!(
        render_body("see https://example.com"),
        "<p>see <a href=\"https://example.com\">https://example.com</a></p>"
    );
}

#[test]
fn empty_links_are_left_as_text() {
    assert_eq!(render_body("[]()"), "<p>[]()</p>");
}

#[test]
fn punctuation_is_made_typographic() {
    assert_eq!(render_body("wait..."), "<p>wait\u{2026}</p>");
}

#[test]
fn tables_are_rendered() {
    let html = render_body("| a | b |\n|---|---|\n| 1 | 2 |");
    assert!(html.starts_with("<table>"));
    assert!(html.contains("<td>1</td>"));
}

#[test]
fn one_final_line_feed_is_cut() {
    assert_eq!(cut_final_line_feed("<p>a</p>\n".to_string()), "<p>a</p>");
    assert_eq!(cut_final_line_feed("<p>a</p>\n\n".to_string()), "<p>a</p>\n");
    assert_eq!(cut_final_line_feed("<p>a</p>".to_string()), "<p>a</p>");
    assert_eq!(cut_final_line_feed("\n".to_string()), "");
    assert_eq!(cut_final_line_feed(String::new()), "");
    assert_eq!(cut_final_line_feed("a\nb".to_string()), "a\nb");
}

#[test]
fn paragraphs_keep_the_line_feed_between_them() {
    assert_eq!(render_markdown("a\n\nb"), "<p>a</p>\n<p>b</p>\n");
    assert_eq!(render_body("a\n\nb"), "<p>a</p>\n<p>b</p>");
    assert_eq!(render_body(""), "");
}

#[test]
fn every_switch_of_the_chat_options_is_on() {
    let o = RenderOptions::chat();
    assert!(o.table && o.strikethrough && o.autolink && o.alerts);
    assert!(o.wikilinks_title_after_pipe && o.underline && o.subscript);
    assert!(o.multiline_block_quotes && o.hardbreaks && o.escape);
    assert!(o.ignore_empty_links && o.smart);
}
