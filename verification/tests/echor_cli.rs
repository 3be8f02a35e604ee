use textutils::echor::Opt;

fn run(args: &[&str], expected: &str) {
    let mut no_newline = false;
    let mut no_space_separators = false;
    let mut strings: Vec<String> = Vec::new();
    for arg in args {
        match *arg {
            "-n" => no_newline = true,
            "-s" => no_space_separators = true,
            other => strings.push(other.to_string()),
        }
    }
    let (opt, output) = Opt::parse_arguments(no_newline, no_space_separators, strings);
    assert_eq!(opt.print_string(&output), expected);
}

#[test]
fn hello0() {
    run(&[""], "\n")
}

#[test]
fn hello0_no_newline() {
    run(&["-n", ""], "")
}

#[test]
fn hello0_no_space_separators() {
    run(&["-s", ""], "\n")
}

#[test]
fn hello0_no_newline_no_space_separators() {
    run(&["-n", "-s", ""], "")
}

#[test]
fn hello1() {
    run(&["Hello"], "Hello\n")
}

#[test]
fn hello1_no_newline() {
    run(&["-n", "Hello"], "Hello")
}

#[test]
fn hello1_no_space_separators() {
    run(&["-s", "Hello"], "Hello\n")
}

#[test]
fn hello1_no_newline_no_space_separators() {
    run(&["-n", "-s", "Hello"], "Hello")
}

#[test]
fn hello2() {
    run(&["Hello there"], "Hello there\n")
}

#[test]
fn hello2_no_newline() {
    run(&["-n", "Hello there"], "Hello there")
}

#[test]
fn hello2_no_space_separators() {
    run(&["-s", "Hello there"], "Hello there\n")
}

#[test]
fn hello2_no_newline_no_space_separators() {
    run(&["-n", "-s", "Hello there"], "Hello there")
}

#[test]
fn hello3() {
    run(&["Hello  there"], "Hello  there\n")
}

#[test]
fn hello3_no_newline() {
    run(&["-n", "Hello  there"], "Hello  there")
}

#[test]
fn hello3_no_space_separators() {
    run(&["-s", "Hello  there"], "Hello  there\n")
}

#[test]
fn hello3_no_newline_no_space_separators() {
    run(&["-n", "-s", "Hello  there"], "Hello  there")
}

#[test]
fn hello4() {
    run(&["Hello", "there"], "Hello there\n")
}

#[test]
fn hello4_no_newline() {
    run(&["-n", "Hello", "there"], "Hello there")
}

#[test]
fn hello4_no_space_separators() {
    run(&["-s", "Hello", "there"], "Hellothere\n")
}

#[test]
fn hello4_no_newline_no_space_separators() {
    run(&["-n", "-s", "Hello", "there"], "Hellothere")
}

#[test]
fn no_arguments_give_a_bare_newline() {
    run(&[], "\n");
    run(&["-n"], "");
}

#[test]
fn three_arguments_have_two_gaps() {
    run(&["a", "b", "c"], "a b c\n");
    run(&["-s", "a", "b", "c"], "abc\n");
}
