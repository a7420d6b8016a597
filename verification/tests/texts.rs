use chrome_window_dbus_bridge::client::{looks_like_chrome, normalize_hypr_address};
use chrome_window_dbus_bridge::geometry::{rect_similarity, Rect};
use chrome_window_dbus_bridge::ratio::Ratio;
use chrome_window_dbus_bridge::similarity::{
    lowered_similarity, significant_words, title_similarity,
};
use chrome_window_dbus_bridge::text::{
    copy_strings, decimal_text, hex_text, same_text, split_parts,
};

fn ratio(numerator: usize, denominator: usize) -> Ratio {
    Ratio {
        numerator,
        denominator,
    }
}

fn place(x: i64, y: i64, width: i64, height: i64) -> Rect {
    Rect {
        x,
        y,
        width,
        height,
    }
}

#[test]
fn addresses_get_their_prefix_once() {
    assert_eq!(normalize_hypr_address("abc"), "0xabc");
    assert_eq!(normalize_hypr_address("0xabc"), "0xabc");
    assert_eq!(normalize_hypr_address(" \tabc\u{3000}\n"), "0xabc");
    assert_eq!(normalize_hypr_address(" \u{a0} "), "");
    assert_eq!(normalize_hypr_address("0"), "0x0");
    assert_eq!(normalize_hypr_address("0Xabc"), "0x0Xabc");
    assert_eq!(
        normalize_hypr_address(&normalize_hypr_address("5f")),
        normalize_hypr_address("5f")
    );
}

#[test]
fn zero_width_characters_are_not_trimmed() {
    assert_eq!(normalize_hypr_address("\u{200b}"), "0x\u{200b}");
}

#[test]
fn the_chrome_family_is_told_by_its_class() {
    for class in [
        "google-chrome",
        "Chromium-browser",
        "Brave-browser",
        "microsoft-EDGE",
        "vivaldi-stable",
    ] {
        assert!(looks_like_chrome(class), "{class}");
    }
    for class in ["firefox", "kitty", "", "chrom", "Google-Chrom\u{f6}"] {
        assert!(!looks_like_chrome(class), "{class}");
    }
}

#[test]
fn words_that_count_have_three_bytes() {
    assert_eq!(
        significant_words("the ox is at: home, 42 or 1234"),
        vec!["the", "home", "1234"]
    );
    assert_eq!(significant_words("\u{e9}t\u{e9}-a\u{e9}"), vec!["\u{e9}t\u{e9}", "a\u{e9}"]);
    assert_eq!(significant_words("\u{6771}"), vec!["\u{6771}"]);
    assert_eq!(significant_words("\u{2014}\u{2014}"), Vec::<String>::new());
    assert_eq!(significant_words(""), Vec::<String>::new());
    assert_eq!(significant_words("one one"), vec!["one", "one"]);
}

#[test]
fn titles_are_compared_whatever_their_case() {
    assert_eq!(title_similarity(" Example ", "eXAMPLE"), ratio(1, 1));
    assert_eq!(title_similarity("\u{c4}PFEL", "\u{e4}pfel"), ratio(1, 1));
    assert_eq!(
        title_similarity("Docs", "Docs - Google Chrome"),
        ratio(92, 100)
    );
    assert_eq!(
        title_similarity("Docs - Google Chrome", "docs"),
        ratio(92, 100)
    );
}

#[test]
fn blank_titles_are_not_alike() {
    assert_eq!(title_similarity("", ""), ratio(0, 1));
    assert_eq!(title_similarity(" \t", "Docs"), ratio(0, 1));
    assert_eq!(title_similarity("Docs", "\u{2003}"), ratio(0, 1));
}

#[test]
fn other_titles_share_words() {
    assert_eq!(
        title_similarity("alpha beta gamma", "gamma alpha delta epsilon"),
        ratio(2, 4)
    );
    assert_eq!(title_similarity("ab cd", "ef gh"), ratio(0, 1));
    assert_eq!(title_similarity("alpha", "omega"), ratio(0, 1));
}

#[test]
fn a_word_that_comes_twice_counts_twice_on_its_side_only() {
    assert_eq!(
        lowered_similarity("one one two", "one three four"),
        ratio(2, 3)
    );
    assert_eq!(
        lowered_similarity("one three four", "one one two"),
        ratio(1, 3)
    );
}

#[test]
fn fractions_are_compared_exactly() {
    assert!(ratio(1, 2).at_least(50));
    assert!(!ratio(49, 99).at_least(50));
    assert!(ratio(9, 10).at_least(90));
    assert!(!ratio(8, 9).at_least(90));
    assert!(ratio(usize::MAX, usize::MAX).at_least(100));
    assert!(!ratio(usize::MAX, usize::MAX).at_least(101));
    assert_eq!(Ratio::hundredths(92), ratio(92, 100));
}

#[test]
fn places_are_alike_in_steps() {
    let origin = place(0, 0, 100, 100);
    assert_eq!(rect_similarity(&origin, &origin), ratio(100, 100));
    assert_eq!(
        rect_similarity(&origin, &place(4, -4, 108, 92)),
        ratio(100, 100)
    );
    assert_eq!(
        rect_similarity(&origin, &place(9, 0, 100, 100)),
        ratio(80, 100)
    );
    assert_eq!(
        rect_similarity(&origin, &place(0, 0, 117, 100)),
        ratio(80, 100)
    );
    assert_eq!(
        rect_similarity(&origin, &place(16, 16, 132, 132)),
        ratio(80, 100)
    );
    assert_eq!(
        rect_similarity(&origin, &place(33, 0, 100, 100)),
        ratio(60, 100)
    );
    assert_eq!(
        rect_similarity(&origin, &place(96, 0, 260, 100)),
        ratio(60, 100)
    );
    assert_eq!(
        rect_similarity(&origin, &place(97, 0, 100, 100)),
        ratio(0, 100)
    );
    assert_eq!(
        rect_similarity(&origin, &place(0, 0, 261, 100)),
        ratio(0, 100)
    );
}

#[test]
fn places_at_the_ends_of_the_range_are_compared() {
    let low = place(i64::MIN, i64::MIN, 0, 0);
    let high = place(i64::MAX, i64::MAX, i64::MAX, i64::MAX);
    assert_eq!(rect_similarity(&low, &high), ratio(0, 100));
    assert_eq!(rect_similarity(&high, &low), ratio(0, 100));
}

#[test]
fn numbers_are_written_in_their_base() {
    assert_eq!(decimal_text(0), "0");
    assert_eq!(decimal_text(1234567890), "1234567890");
    assert_eq!(decimal_text(u64::MAX), "18446744073709551615");
    assert_eq!(hex_text(0), "0x0");
    assert_eq!(hex_text(255), "0xff");
    assert_eq!(hex_text(u64::MAX), "0xffffffffffffffff");
}

#[test]
fn texts_are_cut_at_their_first_separators() {
    assert_eq!(split_parts("a,b,c", ",", 2), vec!["a", "b,c"]);
    assert_eq!(split_parts("a,b,c", ",", 9), vec!["a", "b", "c"]);
    assert_eq!(split_parts("a,b,c", ",", 1), vec!["a,b,c"]);
    assert_eq!(split_parts("", ",", 3), vec![""]);
    assert_eq!(split_parts("a>>>b", ">>", 2), vec!["a", ">b"]);
}

#[test]
fn texts_are_copied_and_compared() {
    let list = vec!["one".to_owned(), "two".to_owned()];
    assert_eq!(copy_strings(&list), list);
    assert!(same_text("one", "one"));
    assert!(!same_text("one", "One"));
}
