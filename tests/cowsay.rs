use cowsay::{cow_source, format_animal, format_cow, get_eyes, list_cows, make_bubble, CowSource};
use rand::seq::SliceRandom;

fn names(v: &[&str]) -> Vec<String> {
    v.iter().map(|s| s.to_string()).collect()
}

const DEFAULT_COW: &str = "$the_cow = <<\"EOC\";\n        $thoughts   ^__^\n         $thoughts  ($eyes)\\\\_______\n            (__)\\\\       )\\\\/\\\\\n             $tongue ||----w |\n                ||     ||\nEOC\n";

#[test]
fn it_list_cows() {
    let cows = list_cows(&names(&["default.cow", "tux.cow", "dragon.cow"]));
    println!("{:?}", cows);
    assert_eq!(cows, names(&["default", "tux", "dragon"]));
}

#[test]
fn random_cows() {
    let cows = list_cows(&names(&["default.cow", "tux.cow", "dragon.cow"]));
    let cow = cows.choose(&mut rand::thread_rng()).unwrap().to_owned();
    println!("{:?}", cow);
    assert!(cows.contains(&cow));
}

#[test]
fn eyes_are_found() {
    let eye = get_eyes("borg").to_string();

    assert_eq!(eye, "==");
}

#[test]
fn every_eye_style() {
    let styles = [
        ("borg", "=="),
        ("dead", "xx"),
        ("greedy", "$$"),
        ("paranoid", "@@"),
        ("stoned", "**"),
        ("tired", "--"),
        ("wired", "OO"),
        ("youthful", ".."),
        ("default", "oo"),
    ];
    for (name, glyphs) in styles {
        assert_eq!(get_eyes(name), glyphs);
    }
}

#[test]
fn unknown_eyes_pass_through() {
    assert_eq!(get_eyes("greedy"), "$$");
    assert_eq!(get_eyes("unknown_name"), "unknown_name");
    assert_eq!(get_eyes("^^"), "^^");
    assert_eq!(get_eyes(""), "");
}

#[test]
fn short_message_is_not_wrapped() {
    let m = "Moo".to_string();
    let wrapped = make_bubble(&m, 40, false, true);
    let unwrapped = make_bubble(&m, 40, false, false);
    assert_eq!(wrapped, unwrapped);
    assert_eq!(wrapped, " _____\n< Moo >\n -----");
}

#[test]
fn two_lines_use_single_glyphs() {
    let m = "aaaa bbbb".to_string();
    assert_eq!(make_bubble(&m, 5, false, true), " _______\n< aaaa  >\n< bbbb  >\n -------");
    assert_eq!(make_bubble(&m, 5, true, true), " _______\n( aaaa  )\n( bbbb  )\n -------");
}

#[test]
fn wrap_breaks_after_spaces() {
    let m = "aaaa bbbb cccc".to_string();
    assert_eq!(
        make_bubble(&m, 5, false, true),
        " _______\n/ aaaa  \\\n| bbbb  |\n\\ cccc  /\n -------"
    );
}

#[test]
fn many_lines_use_top_middle_bottom_glyphs() {
    let m = "a b c d".to_string();
    let out = make_bubble(&m, 2, false, true);
    assert_eq!(out, " ____\n/ a  \\\n| b  |\n| c  |\n\\ d  /\n ----");
    let think = make_bubble(&m, 2, true, true);
    assert_eq!(think, " ____\n( a  )\n( b  )\n( c  )\n( d  )\n ----");
}

#[test]
fn framed_lines_are_padded_to_the_longest() {
    let m = "the quick brown fox jumps over the lazy dog".to_string();
    let out = make_bubble(&m, 10, false, true);
    let rows: Vec<&str> = out.split('\n').collect();
    let longest = rows[1..rows.len() - 1].iter().map(|r| r.len()).max().unwrap();
    for r in &rows[1..rows.len() - 1] {
        assert_eq!(r.len(), longest);
    }
    let top = rows[0];
    let bottom = rows[rows.len() - 1];
    assert_eq!(top.len(), bottom.len());
    assert_eq!(top.len(), longest - 1);
    assert!(top.starts_with(' ') && top[1..].chars().all(|c| c == '_'));
    assert!(bottom.starts_with(' ') && bottom[1..].chars().all(|c| c == '-'));
}

#[test]
fn long_word_is_broken_at_the_width() {
    let m = "abcdefghij".to_string();
    assert_eq!(
        make_bubble(&m, 4, false, true),
        " ______\n/ abcd \\\n| efgh |\n\\ ij   /\n ------"
    );
}

#[test]
fn nowrap_keeps_one_line() {
    let m = "aaaa bbbb cccc".to_string();
    assert_eq!(make_bubble(&m, 5, false, false), " ________________\n< aaaa bbbb cccc >\n ----------------");
}

#[test]
fn zero_width_keeps_one_line() {
    let m = "aa bb".to_string();
    assert_eq!(make_bubble(&m, 0, false, true), " _______\n< aa bb >\n -------");
}

#[test]
fn empty_message_bubble() {
    let m = String::new();
    assert_eq!(make_bubble(&m, 40, false, true), " __\n<  >\n --");
}

#[test]
fn think_bubble_single_line() {
    let m = "Hmm".to_string();
    assert_eq!(make_bubble(&m, 40, true, true), " _____\n( Hmm )\n -----");
}

#[test]
fn plain_template_round_trip() {
    let t = "  /\\_/\\\n ( o.o )\n  > ^ <   \n\n".to_string();
    assert_eq!(format_animal(t, "\\", "oo", " "), "  /\\_/\\\n ( o.o )\n  > ^ <");
}

#[test]
fn escaped_at_renders_as_at() {
    assert_eq!(format_animal("x\\\\@y".to_string(), "\\", "oo", " "), "x@y");
    assert_eq!(format_animal("a\\\\b".to_string(), "\\", "oo", " "), "a\\b");
    assert_eq!(format_animal("\\@".to_string(), "\\", "oo", " "), "@");
}

#[test]
fn metadata_lines_are_dropped() {
    let t = "## a comment\n$the_cow = <<EOC;\nbody\nEOC\n".to_string();
    assert_eq!(format_animal(t, "\\", "oo", " "), "body");
}

#[test]
fn placeholders_are_substituted() {
    let t = "$thoughts ($eyes) $tongue $eyes".to_string();
    assert_eq!(format_animal(t, "o", "@@", "U"), "o (@@) U @@");
}

#[test]
fn unicode_whitespace_is_trimmed() {
    let t = "ab\u{3000}\u{a0} \t".to_string();
    assert_eq!(format_animal(t, "o", "oo", " "), "ab");
}

#[test]
fn default_cow_says_moo() {
    let m = "Moo".to_string();
    let body = DEFAULT_COW.to_string();
    let out = format_cow(&m, &body, 40, false, true, get_eyes("default"), " ");
    let expected = [
        " _____",
        "< Moo >",
        " -----",
        "        \\   ^__^",
        "         \\  (oo)\\_______",
        "            (__)\\       )\\/\\",
        "               ||----w |",
        "                ||     ||",
    ]
    .join("\n");
    assert_eq!(out, expected);
}

#[test]
fn think_cow_uses_o_connector() {
    let m = "Hmm".to_string();
    let body = DEFAULT_COW.to_string();
    let out = format_cow(&m, &body, 40, true, true, get_eyes("dead"), "U");
    assert!(out.starts_with(" _____\n( Hmm )\n -----\n        o   ^__^\n         o  (xx)"));
    assert!(out.contains("             U ||----w |"));
}

#[test]
fn format_cow_resolves_eye_style_names() {
    let m = "Hi".to_string();
    let body = "($eyes)".to_string();
    assert_eq!(format_cow(&m, &body, 40, false, true, "dead", " "), " ____\n< Hi >\n ----\n(xx)");
    assert_eq!(format_cow(&m, &body, 40, false, true, "^^", " "), " ____\n< Hi >\n ----\n(^^)");
    let cow = DEFAULT_COW.to_string();
    let out = format_cow(&m, &cow, 40, false, true, "dead", " ");
    assert!(out.contains("(xx)"));
}

#[test]
fn cow_source_by_name_or_path() {
    match cow_source(&"default".to_string()) {
        CowSource::Bundled(name) => assert_eq!(name, "default.cow"),
        CowSource::File(_) => panic!("expected a bundled template"),
    }
    match cow_source(&"/tmp/my.cow".to_string()) {
        CowSource::File(path) => assert_eq!(path, "/tmp/my.cow"),
        CowSource::Bundled(_) => panic!("expected a template file"),
    }
}
