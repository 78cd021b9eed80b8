use comic_library::cover::select_cover;
use comic_library::order::{rank, Rank};
use comic_library::pages::{is_page, lower, supported_images_filter};
use comic_library::paths::{
    find_base_start, find_base_start_before, find_file_name, find_last_dot, separates, stem_of,
    to_chars,
};
use comic_library::sequence::sort_pages;

fn strings(names: &[&str]) -> Vec<String> {
    names.iter().map(|name| name.to_string()).collect()
}

fn chars(text: &str) -> Vec<char> {
    text.chars().collect()
}

#[test]
fn characters_come_out_in_order() {
    assert_eq!(to_chars("a.png"), vec!['a', '.', 'p', 'n', 'g']);
    assert_eq!(to_chars(""), Vec::<char>::new());
    assert_eq!(to_chars("né"), vec!['n', 'é']);
}

#[test]
fn the_slash_separates() {
    assert!(separates('/'));
    assert!(!separates('\\'));
    assert!(!separates('.'));
    assert!(!separates('a'));
}

#[test]
fn base_starts_behind_the_last_separator() {
    assert_eq!(find_base_start(&chars("a/b/c.png")), 4);
    assert_eq!(find_base_start(&chars("c.png")), 0);
    assert_eq!(find_base_start(&chars("dir/")), 4);
    assert_eq!(find_base_start(&chars("a\\b")), 0);
    assert_eq!(find_base_start_before(&chars("a/b/c.png"), 3), 2);
    assert_eq!(find_base_start_before(&chars("a/b/c.png"), 4), 4);
    assert_eq!(find_base_start_before(&chars("a/b/c.png"), 0), 0);
    assert_eq!(find_base_start(&chars("")), 0);
}

#[test]
fn last_dot_is_found_from_a_position_on() {
    assert_eq!(find_last_dot(&chars("a.b.c"), 0), Some(3));
    assert_eq!(find_last_dot(&chars("a.b/c"), 4), None);
    assert_eq!(find_last_dot(&chars("abc"), 0), None);
    assert_eq!(find_last_dot(&chars(".x"), 0), Some(0));
}

#[test]
fn stem_drops_the_extension_of_the_last_component() {
    assert_eq!(stem_of("/home/me/comics/Watchmen 01.cbz"), "Watchmen 01");
    assert_eq!(stem_of("/a/vol.1.cbz"), "vol.1");
    assert_eq!(stem_of("archive.tar.gz"), "archive.tar");
    assert_eq!(stem_of("plain"), "plain");
    assert_eq!(stem_of("/a/.hidden"), ".hidden");
    assert_eq!(stem_of(".hidden"), ".hidden");
    assert_eq!(stem_of("a."), "a");
    assert_eq!(stem_of("été/Astérix.cbz"), "Astérix");
    assert_eq!(stem_of("C:\\comics\\Saga.cbz"), "C:\\comics\\Saga");
}

#[test]
fn a_path_that_leads_to_no_file_has_no_stem() {
    assert_eq!(stem_of(""), "");
    assert_eq!(stem_of(".."), "");
    assert_eq!(stem_of("a/.."), "");
    assert_eq!(stem_of("a/../"), "");
    assert_eq!(stem_of("."), "");
    assert_eq!(stem_of("./"), "");
    assert_eq!(stem_of("/"), "");
    assert_eq!(stem_of("//"), "");
    assert_eq!(stem_of("/."), "");
    assert_eq!(stem_of("./."), "");
}

#[test]
fn separators_and_single_periods_at_the_end_are_passed_over() {
    assert_eq!(stem_of("dir/"), "dir");
    assert_eq!(stem_of("dir///"), "dir");
    assert_eq!(stem_of("a/."), "a");
    assert_eq!(stem_of("a/./"), "a");
    assert_eq!(stem_of("a.b/./."), "a");
    assert_eq!(stem_of("x/a.b.c/."), "a.b");
    assert_eq!(stem_of("./a"), "a");
    assert_eq!(stem_of("a/..."), "..");
    assert_eq!(stem_of("a/..b"), ".");
}

#[test]
fn file_names_are_found_where_they_stand() {
    assert_eq!(find_file_name(&chars("a/b.c")), (2, 5));
    assert_eq!(find_file_name(&chars("a/b.c//")), (2, 5));
    assert_eq!(find_file_name(&chars("a/b.c/./")), (2, 5));
    assert_eq!(find_file_name(&chars("b")), (0, 1));
    assert_eq!(find_file_name(&chars("")), (0, 0));
    assert_eq!(find_file_name(&chars("a/..")), (0, 0));
    assert_eq!(find_file_name(&chars(".")), (0, 0));
}

#[test]
fn stems_are_those_of_the_paths_of_the_system() {
    let paths = [
        "", ".", "..", "/", "//", "a", "a/", "a//", "a/.", "a/./", "a/..", "a/../", "./a", "../a",
        "/a/vol.1.cbz", "/a/.hidden", ".hidden", "..hidden", "a.", "a..", "a.b.c", ".a.b", "...",
        "a/...", "a/..b", "/.", "./.", "../.", "a/b/", "a/b/.", "a/b/..", "été/Astérix.cbz",
        "a\\b.cbz", "x/.a", "x/a.", ".a/", "a.b/./.",
    ];
    for path in paths {
        let expected = std::path::Path::new(path)
            .file_stem()
            .and_then(|stem| stem.to_str())
            .unwrap_or_default();
        assert_eq!(stem_of(path), expected, "for the path {path:?}");
    }
}

#[test]
fn only_ascii_capitals_are_lowered() {
    assert_eq!(lower('A'), 'a');
    assert_eq!(lower('Z'), 'z');
    assert_eq!(lower('P'), 'p');
    assert_eq!(lower('a'), 'a');
    assert_eq!(lower('.'), '.');
    assert_eq!(lower('É'), 'É');
    assert_eq!(lower('@'), '@');
    assert_eq!(lower('['), '[');
}

#[test]
fn pages_are_images_that_are_not_hidden() {
    assert!(supported_images_filter(&"b.png"));
    assert!(supported_images_filter(&"A.JPG"));
    assert!(supported_images_filter(&"x.jpeg"));
    assert!(supported_images_filter(&"x.JpEg"));
    assert!(supported_images_filter(&"dir/sub/001.png"));
    assert!(supported_images_filter(&"a.b.png"));
    assert!(!supported_images_filter(&".hidden.png"));
    assert!(!supported_images_filter(&"dir/.hidden.png"));
    assert!(!supported_images_filter(&"c.txt"));
    assert!(!supported_images_filter(&"png"));
    assert!(!supported_images_filter(&".png"));
    assert!(!supported_images_filter(&"a.png/"));
    assert!(!supported_images_filter(&"a.pngx"));
    assert!(!supported_images_filter(&"a.gif"));
    assert!(!supported_images_filter(&"a."));
    assert!(!supported_images_filter(&""));
    assert!(supported_images_filter(&".dir/a.png"));
    assert!(supported_images_filter(&"dir\\.hidden.png"));
    assert!(!supported_images_filter(&"a/.."));
    assert!(!supported_images_filter(&"a.png/."));
}

#[test]
fn is_page_agrees_with_the_filter() {
    assert!(is_page(&chars("001.jpg")));
    assert!(!is_page(&chars("001.jpg.txt")));
}

#[test]
fn names_are_ranked_by_code_point() {
    assert_eq!(rank(&chars("A.JPG"), &chars("b.png")), Rank::Before);
    assert_eq!(rank(&chars("b.png"), &chars("A.JPG")), Rank::After);
    assert_eq!(rank(&chars("a"), &chars("a")), Rank::Same);
    assert_eq!(rank(&chars("a"), &chars("ab")), Rank::Before);
    assert_eq!(rank(&chars("ab"), &chars("a")), Rank::After);
    assert_eq!(rank(&chars(""), &chars("")), Rank::Same);
    assert_eq!(rank(&chars("Z"), &chars("a")), Rank::Before);
    assert_eq!(rank(&chars("10"), &chars("9")), Rank::Before);
    assert_eq!(rank(&chars("é"), &chars("z")), Rank::After);
}

#[test]
fn ranking_agrees_with_the_order_of_strings() {
    let names = ["", "a", "A", "ab", "b", "10.png", "9.png", "é", "z", "a/b", "a.b"];
    for a in names {
        for b in names {
            let expected = match a.cmp(b) {
                std::cmp::Ordering::Less => Rank::Before,
                std::cmp::Ordering::Equal => Rank::Same,
                std::cmp::Ordering::Greater => Rank::After,
            };
            assert_eq!(rank(&chars(a), &chars(b)), expected);
        }
    }
}

#[test]
fn cover_tie_break() {
    let names = strings(&["b.png", "A.JPG", ".hidden.png", "c.txt"]);
    let eligible: Vec<&String> =
        names.iter().filter(|name| supported_images_filter(&name.as_str())).collect();
    assert_eq!(eligible, vec!["b.png", "A.JPG"]);
    // Capital letters have lower code points than small ones: 'A' is 65 and 'b' is 98.
    assert_eq!(select_cover(&names), Some(1));
}

#[test]
fn cover_of_no_pages_is_none() {
    assert_eq!(select_cover(&strings(&["c.txt", ".a.png", "readme"])), None);
    assert_eq!(select_cover(&Vec::new()), None);
}

#[test]
fn cover_of_equal_names_is_the_first_of_them() {
    assert_eq!(select_cover(&strings(&["b.png", "a.png", "a.png"])), Some(1));
}

#[test]
fn cover_does_not_depend_on_the_order_of_names() {
    let one = strings(&["3.png", "1.png", "2.png"]);
    let other = strings(&["2.png", "3.png", "1.png"]);
    assert_eq!(one[select_cover(&one).unwrap()], other[select_cover(&other).unwrap()]);
}

#[test]
fn sequence_ordering_of_names() {
    assert_eq!(
        sort_pages(&strings(&["003.jpg", "001.jpg", "002.jpg"])),
        strings(&["001.jpg", "002.jpg", "003.jpg"])
    );
}

#[test]
fn sorting_keeps_pages_only_and_each_once() {
    assert_eq!(
        sort_pages(&strings(&["b.png", "notes.txt", "A.JPG", ".x.png", "b.png", "a/z.jpeg"])),
        strings(&["A.JPG", "a/z.jpeg", "b.png"])
    );
    assert_eq!(sort_pages(&Vec::new()), Vec::<String>::new());
}

#[test]
fn names_without_padding_sort_as_text() {
    assert_eq!(
        sort_pages(&strings(&["9.png", "10.png", "1.png"])),
        strings(&["1.png", "10.png", "9.png"])
    );
}

#[test]
fn the_cover_is_the_first_page_in_reading_order() {
    let names = strings(&["p3.png", "Q2.png", "x.txt", "p1.jpeg"]);
    let pages = sort_pages(&names);
    assert_eq!(names[select_cover(&names).unwrap()], pages[0]);
}
