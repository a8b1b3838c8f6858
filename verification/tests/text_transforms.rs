use flash::emoji::{eat_emoji, fmt_emoji, shortcode_end};
use flash::logging::{log_header, log_line, max_level, LogLevel};
use flash::seqs::{insert_between, surround};
use flash::text::usize_to_string;

#[test]
fn emoji_shortcode_is_replaced() {
    assert_eq!(fmt_emoji(":rocket: launch"), "🚀 launch");
    assert_eq!(fmt_emoji("I :smile: a lot"), "I 😄 a lot");
}

#[test]
fn emoji_unknown_shortcode_is_kept() {
    assert_eq!(fmt_emoji(":notanemoji: x"), ":notanemoji: x");
}

#[test]
fn emoji_text_without_colon_is_unchanged() {
    assert_eq!(fmt_emoji("plain text, no codes"), "plain text, no codes");
    assert_eq!(fmt_emoji(""), "");
}

#[test]
fn emoji_shortcode_broken_by_other_character_is_kept() {
    assert_eq!(fmt_emoji(":rock et:"), ":rock et:");
    assert_eq!(fmt_emoji("x:-) y"), "x:-) y");
}

#[test]
fn emoji_empty_shortcode_keeps_colon_and_reads_on() {
    // "::" names nothing, so the first colon stays; "b" up to the end of
    // the text is read as a shortcode and names an emoji.
    assert_eq!(fmt_emoji("a::b"), "a:🅱\u{fe0f}");
}

#[test]
fn emoji_shortcode_running_to_the_end_is_replaced() {
    assert_eq!(fmt_emoji("go :rocket"), "go 🚀");
}

#[test]
fn emoji_two_in_a_row() {
    assert_eq!(fmt_emoji(":smile::rocket:"), "😄🚀");
}

#[test]
fn shortcode_end_positions() {
    let chars: Vec<char> = ":ab_1:x".chars().collect();
    assert_eq!(shortcode_end(&chars, 1), Some(5));
    let chars: Vec<char> = ":ab c:".chars().collect();
    assert_eq!(shortcode_end(&chars, 1), None);
    let chars: Vec<char> = ":abc".chars().collect();
    assert_eq!(shortcode_end(&chars, 1), Some(4));
}

#[test]
fn eat_emoji_reports_where_to_go_on() {
    let chars: Vec<char> = ":rocket:!".chars().collect();
    assert_eq!(eat_emoji(&chars, 1), Some(("🚀", 8)));
    let chars: Vec<char> = ":nope:".chars().collect();
    assert_eq!(eat_emoji(&chars, 1), None);
}

#[test]
fn log_headers_are_coloured_and_bold() {
    assert_eq!(log_header(LogLevel::Warn), "\x1b[1m\x1b[33m[warn]\x1b[39m\x1b[0m");
    assert_eq!(log_header(LogLevel::Error), "\x1b[1m\x1b[31m[error]\x1b[39m\x1b[0m");
    assert_eq!(log_header(LogLevel::Info), "\x1b[1m\x1b[94m[info]\x1b[39m\x1b[0m");
    assert_eq!(log_header(LogLevel::Debug), "\x1b[1m\x1b[95m[debug]\x1b[39m\x1b[0m");
    assert_eq!(log_header(LogLevel::Trace), "\x1b[1m\x1b[95m[debug]\x1b[39m\x1b[0m");
}

#[test]
fn log_line_joins_header_and_message() {
    assert_eq!(log_line(LogLevel::Info, "hello"), "\x1b[1m\x1b[94m[info]\x1b[39m\x1b[0m hello");
}

#[test]
fn max_level_by_build() {
    assert_eq!(max_level(true), LogLevel::Trace);
    assert_eq!(max_level(false), LogLevel::Info);
}

#[test]
fn decimal_counts() {
    assert_eq!(usize_to_string(0), "0");
    assert_eq!(usize_to_string(42), "42");
    assert_eq!(usize_to_string(1000), "1000");
}

#[test]
fn surround_puts_delimiters_around() {
    assert_eq!(surround(vec![1, 2, 3], 0, 9), vec![0, 1, 2, 3, 9]);
    assert_eq!(surround(Vec::<i32>::new(), 0, 9), vec![0, 9]);
}

#[test]
fn insert_between_puts_separators_between() {
    assert_eq!(insert_between(vec![1, 2, 3], || 0), vec![1, 0, 2, 0, 3]);
    assert_eq!(insert_between(vec![7], || 0), vec![7]);
    assert_eq!(insert_between(Vec::<i32>::new(), || 0), Vec::<i32>::new());
}
