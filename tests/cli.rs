use image2txt::cli::{invocation, output_path, parse_width, Invocation};

fn args(list: &[&str]) -> Vec<String> {
    list.iter().map(|s| s.to_string()).collect()
}

#[test]
fn width_parses_positive_integers() {
    assert_eq!(parse_width("12"), Some(12));
    assert_eq!(parse_width("+7"), Some(7));
    assert_eq!(parse_width("007"), Some(7));
    assert_eq!(parse_width(&usize::MAX.to_string()), Some(usize::MAX));
}

#[test]
fn width_rejects_everything_else() {
    assert_eq!(parse_width("abc"), None);
    assert_eq!(parse_width(""), None);
    assert_eq!(parse_width("+"), None);
    assert_eq!(parse_width("0"), None);
    assert_eq!(parse_width("-3"), None);
    assert_eq!(parse_width("12a"), None);
    assert_eq!(parse_width(" 12"), None);
    assert_eq!(parse_width("99999999999999999999999999"), None);
}

#[test]
fn invalid_width_stops_the_run() {
    assert_eq!(invocation(&args(&["image2txt", "abc", "a.png", "b.png"])), Invocation::BadWidth);
}

#[test]
fn too_few_arguments_do_nothing() {
    assert_eq!(invocation(&args(&[])), Invocation::Quiet);
    assert_eq!(invocation(&args(&["image2txt"])), Invocation::Quiet);
    assert_eq!(invocation(&args(&["image2txt", "40"])), Invocation::Quiet);
}

#[test]
fn width_and_files_convert() {
    assert_eq!(invocation(&args(&["image2txt", "40", "a.png"])), Invocation::Convert(40));
    assert_eq!(invocation(&args(&["image2txt", "3", "a.png", "b.jpg"])), Invocation::Convert(3));
}

#[test]
fn output_path_appends_txt() {
    assert_eq!(output_path("a.png"), "a.png.txt");
    assert_eq!(output_path("dir/photo"), "dir/photo.txt");
    assert_eq!(output_path(""), ".txt");
}
