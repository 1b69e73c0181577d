use yash::prompt::replace_colors;

#[test]
fn replace_with_red_simple() {
    let text = replace_colors("%F{#FF0000}test");
    assert_eq!(text, "\x1b[38;2;255;0;0mtest");
}

#[test]
fn replace_with_red_medium() {
    let text = replace_colors("%F{#FF0000}Hi, this is a test");
    assert_eq!(text, "\x1b[38;2;255;0;0mHi, this is a test");
}

#[test]
fn replace_fail() {
    let text = replace_colors("%F{#not valid :D} test %f");
    assert_eq!(text, "%F{#not valid :D} test %f");
}

#[test]
fn replace_fail_little() {
    let text = replace_colors("%F{#}test%f");
    assert_eq!(text, "%F{#}test%f");
}

#[test]
fn replace_fail_big() {
    let text = replace_colors("%F{#deadbeef}test%f");
    assert_eq!(text, "%F{#deadbeef}test%f");
}

#[test]
fn replace_mixed() {
    let text =
        replace_colors("%F{#FF0000}I am red!%f%F{#00FF00}I am green!%f%F{#0000FF}I am blue!%f");
    assert_eq!(text, "\x1b[38;2;255;0;0mI am red!%f\x1b[38;2;0;255;0mI am green!%f\x1b[38;2;0;0;255mI am blue!%f");
}

#[test]
fn lower_case_hex_and_adjacent_tags() {
    assert_eq!(replace_colors("%F{#0a0b0c}%F{#ffffff}"), "\x1b[38;2;10;11;12m\x1b[38;2;255;255;255m");
    assert_eq!(replace_colors("%%F{#000000}"), "%\x1b[38;2;0;0;0m");
    assert_eq!(replace_colors(""), "");
}
