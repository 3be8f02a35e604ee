use textutils::catr::config::{Config, LineNumbers};
use textutils::catr::printer::Printer;

fn config(number_nonblank: bool, show_ends: bool, number: bool, squeeze_blank: bool) -> Config {
    Config::new(number_nonblank, show_ends, number, squeeze_blank, vec!["-".to_string()])
}

fn print_all(config: &Config, printer: &mut Printer, lines: &[&str]) -> Vec<String> {
    let mut out = Vec::new();
    for line in lines {
        assert!(printer.has_room());
        if let Some(text) = printer.print_line(config, line) {
            out.push(text);
        }
    }
    out
}

#[test]
fn numbering_of_nonblank_lines_overrides_numbering_of_all() {
    assert_eq!(config(false, false, false, false).line_numbers, LineNumbers::Omit);
    assert_eq!(config(false, false, true, false).line_numbers, LineNumbers::Include);
    assert_eq!(config(true, false, false, false).line_numbers, LineNumbers::OnlyNonEmpty);
    assert_eq!(config(true, false, true, false).line_numbers, LineNumbers::OnlyNonEmpty);
    let c = config(false, true, false, true);
    assert!(c.show_ends && c.squeeze_blank);
    assert_eq!(c.input, vec!["-".to_string()]);
}

#[test]
fn plain_copy_changes_nothing() {
    let c = config(false, false, false, false);
    let mut p = Printer::new();
    assert_eq!(print_all(&c, &mut p, &["a", "", "", "b"]), vec!["a", "", "", "b"]);
    assert_eq!(p, Printer::new());
}

#[test]
fn every_line_is_numbered_in_a_field_of_six() {
    let c = config(false, false, true, false);
    let mut p = Printer::new();
    assert_eq!(
        print_all(&c, &mut p, &["a", "", "b"]),
        vec!["     1\ta", "     2\t", "     3\tb"]
    );
    assert_eq!(p.line_number, 3);
}

#[test]
fn only_nonblank_lines_are_numbered() {
    let c = config(true, false, false, false);
    let mut p = Printer::new();
    assert_eq!(print_all(&c, &mut p, &["a", "", "b"]), vec!["     1\ta", "", "     2\tb"]);
}

#[test]
fn ends_are_marked_with_a_dollar() {
    let c = config(false, true, true, false);
    let mut p = Printer::new();
    assert_eq!(print_all(&c, &mut p, &["a", ""]), vec!["     1\ta$", "     2\t$"]);
}

#[test]
fn repeated_empty_lines_are_squeezed_to_one() {
    let c = config(false, false, true, true);
    let mut p = Printer::new();
    assert_eq!(
        print_all(&c, &mut p, &["", "", "a", "", "", "", "b", ""]),
        vec!["     1\t", "     2\ta", "     3\t", "     4\tb", "     5\t"]
    );
}

#[test]
fn numbers_run_on_across_files_but_squeezing_starts_afresh() {
    let c = config(false, false, true, true);
    let mut p = Printer::new();
    assert_eq!(print_all(&c, &mut p, &["a", ""]), vec!["     1\ta", "     2\t"]);
    p.start_file();
    assert_eq!(print_all(&c, &mut p, &["", "b"]), vec!["     3\t", "     4\tb"]);
}

#[test]
fn wide_numbers_push_the_field_out() {
    let c = config(false, false, true, false);
    let mut p = Printer { line_number: 999_999, previous_line_empty: false };
    assert_eq!(print_all(&c, &mut p, &["x", "y"]), vec!["1000000\tx", "1000001\ty"]);
}

#[test]
fn a_full_printer_has_no_room() {
    let p = Printer { line_number: usize::MAX, previous_line_empty: false };
    assert!(!p.has_room());
    let mut q = Printer { line_number: usize::MAX, previous_line_empty: false };
    let c = config(false, false, false, false);
    assert_eq!(q.print_line(&c, "still copied"), Some("still copied".to_string()));
}
