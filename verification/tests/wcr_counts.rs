use textutils::wcr::config::{display_name, get_args, Config};
use textutils::wcr::counter::{count_text, is_space, Counter};
use textutils::wcr::tally::{CounterMetadata, ReportLine};

fn counter(lines: usize, words: usize, chars: usize, bytes: usize) -> Counter {
    Counter { lines, words, chars, bytes }
}

fn out(text: &str) -> ReportLine {
    ReportLine::Output(text.to_string())
}

#[test]
fn white_space_is_what_the_standard_library_calls_white_space() {
    for code in 0u32..0x3100 {
        if let Some(c) = char::from_u32(code) {
            assert_eq!(is_space(c), c.is_whitespace(), "U+{code:04X}");
        }
    }
    for c in ['\u{feff}', '\u{200b}', '\u{180e}', '\u{10ffff}', '\u{e000}'] {
        assert_eq!(is_space(c), c.is_whitespace());
    }
}

#[test]
fn words_characters_and_bytes_agree_with_the_standard_library() {
    for text in [
        "",
        " ",
        "a",
        " a",
        "a ",
        "a b",
        "  two  words  \n",
        "tabs\tand\nnewlines\r\n",
        "grüße aus köln\n",
        "日本語 テキスト\n",
        "no\u{a0}break\u{2003}space\u{3000}here",
        "\u{85}\u{1680}\u{2028}\u{2029}\u{202f}\u{205f}",
        "zero\u{200b}width",
    ] {
        let expected =
            (text.split_whitespace().count(), text.chars().count(), text.len());
        assert_eq!(count_text(text), expected, "text {text:?}");
    }
}

#[test]
fn a_new_counter_is_all_zeros() {
    assert_eq!(Counter::new(), counter(0, 0, 0, 0));
}

#[test]
fn each_line_adds_its_counts() {
    let mut c = Counter::new();
    assert!(c.can_cumulate("hello big world\n"));
    c.cumulate_counter_values("hello big world\n");
    assert_eq!(c, counter(1, 3, 16, 16));
    c.cumulate_counter_values("grüße\n");
    assert_eq!(c, counter(2, 4, 22, 24));
    c.cumulate_counter_values("");
    assert_eq!(c, counter(3, 4, 22, 24));
}

#[test]
fn full_counters_have_no_room() {
    assert!(!counter(usize::MAX, 0, 0, 0).can_cumulate(""));
    assert!(counter(usize::MAX - 1, 0, 0, 0).can_cumulate(""));
    assert!(!counter(0, usize::MAX, 0, 0).can_cumulate("w"));
    assert!(counter(0, usize::MAX, 0, 0).can_cumulate(" "));
    assert!(!counter(0, 0, usize::MAX, 0).can_cumulate(" "));
    assert!(!counter(0, 0, 0, usize::MAX - 1).can_cumulate("é"));
    assert!(counter(0, 0, 0, usize::MAX - 2).can_cumulate("é"));
}

#[test]
fn the_longest_count_is_measured_in_digits() {
    assert_eq!(Counter::new().longest_count(), 1);
    assert_eq!(counter(9, 9, 9, 9).longest_count(), 1);
    assert_eq!(counter(10, 9, 9, 9).longest_count(), 2);
    assert_eq!(counter(1, 22, 333, 4444).longest_count(), 4);
    assert_eq!(counter(1, 22, 55555, 4444).longest_count(), 5);
    assert_eq!(counter(0, 1234567, 0, 0).longest_count(), 7);
    assert_eq!(counter(usize::MAX, 0, 0, 0).longest_count(), usize::MAX.to_string().len());
}

#[test]
fn counters_add_count_by_count() {
    assert_eq!(counter(1, 2, 3, 4) + counter(10, 20, 30, 40), counter(11, 22, 33, 44));
    assert_eq!(Counter::new() + counter(1, 2, 3, 4), counter(1, 2, 3, 4));
}

#[test]
fn default_selection_is_lines_words_bytes() {
    assert_eq!(Config::default(), Config { bytes: true, chars: false, lines: true, words: true });
    let (config, files) = get_args(false, false, false, false, &vec!["-".to_string()]);
    assert_eq!(config, Config::default());
    assert_eq!(files, vec![None]);
}

#[test]
fn any_selection_replaces_the_default() {
    let names = vec!["a".to_string(), "-".to_string(), "--".to_string()];
    let (config, files) = get_args(false, true, false, false, &names);
    assert_eq!(config, Config { bytes: false, chars: true, lines: false, words: false });
    assert_eq!(files, vec![Some("a".to_string()), None, Some("--".to_string())]);
    let (all, _) = get_args(true, true, true, true, &names);
    assert_eq!(all, Config { bytes: true, chars: true, lines: true, words: true });
}

#[test]
fn standard_input_is_shown_as_a_dash() {
    assert_eq!(display_name(&None), "-");
    assert_eq!(display_name(&Some("dir/file".to_string())), "dir/file");
}

#[test]
fn a_single_file_has_no_total() {
    let mut tally = CounterMetadata::new_without_total();
    assert!(tally.can_add_entry(counter(1, 4, 20, 20)));
    tally.add_entry(counter(1, 4, 20, 20), "fox.txt".to_string());
    let lines = tally.display(true, true, false, true);
    assert_eq!(lines, vec![out(" 1  4 20 fox.txt")]);
}

#[test]
fn several_files_end_with_a_total() {
    let mut tally = CounterMetadata::new_with_total();
    tally.add_entry(counter(1, 4, 20, 20), "fox.txt".to_string());
    tally.add_error_entry("nope".to_string(), "No such file".to_string());
    tally.add_entry(counter(18, 180, 1105, 1128), "big.txt".to_string());
    let lines = tally.display(true, true, true, true);
    assert_eq!(
        lines,
        vec![
            out("   1    4   20   20 fox.txt"),
            ReportLine::Error("nope: No such file".to_string()),
            out("  18  180 1105 1128 big.txt"),
            out("  19  184 1125 1148 total"),
        ]
    );
}

#[test]
fn the_first_shown_column_is_the_narrow_one() {
    let mut tally = CounterMetadata::new_without_total();
    tally.add_entry(counter(7, 42, 300, 301), "f".to_string());
    assert_eq!(tally.display(false, true, false, true), vec![out(" 42 301 f")]);
    let mut tally = CounterMetadata::new_without_total();
    tally.add_entry(counter(7, 42, 300, 301), "f".to_string());
    assert_eq!(tally.display(false, false, true, false), vec![out("300 f")]);
    let mut tally = CounterMetadata::new_without_total();
    tally.add_entry(counter(7, 42, 300, 301), "f".to_string());
    assert_eq!(tally.display(false, false, false, true), vec![out("301 f")]);
    let mut tally = CounterMetadata::new_without_total();
    tally.add_entry(counter(7, 42, 300, 301), "f".to_string());
    assert_eq!(tally.display(false, false, false, false), vec![out(" f")]);
}

#[test]
fn the_width_comes_from_the_files_and_not_from_the_total() {
    let mut tally = CounterMetadata::new_with_total();
    tally.add_entry(counter(9, 9, 9, 9), "a".to_string());
    tally.add_entry(counter(9, 9, 9, 9), "b".to_string());
    let lines = tally.display(true, true, false, false);
    assert_eq!(lines, vec![out("9 9 a"), out("9 9 b"), out("1818 total")]);
}

#[test]
fn an_empty_tally_shows_only_its_total() {
    let mut with = CounterMetadata::new_with_total();
    assert_eq!(with.display(true, true, false, true), vec![out("000 total")]);
    let mut without = CounterMetadata::new_without_total();
    assert_eq!(without.display(true, true, false, true), Vec::<ReportLine>::new());
}

#[test]
fn a_total_is_kept_for_more_than_one_file() {
    for (count, expected) in [(0usize, 0usize), (1, 0), (2, 1), (3, 1)] {
        let mut tally = CounterMetadata::new_for_files(count);
        assert_eq!(tally.display(true, false, false, false).len(), expected);
    }
}

#[test]
fn a_total_near_the_limit_has_no_room() {
    let mut tally = CounterMetadata::new_with_total();
    tally.add_entry(counter(usize::MAX - 1, 0, 0, 0), "a".to_string());
    assert!(tally.can_add_entry(counter(1, 0, 0, 0)));
    assert!(!tally.can_add_entry(counter(2, 0, 0, 0)));
    let none = CounterMetadata::new_without_total();
    assert!(none.can_add_entry(counter(usize::MAX, usize::MAX, usize::MAX, usize::MAX)));
}
