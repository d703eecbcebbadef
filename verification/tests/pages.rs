use hemolymph::cards::Card;
use hemolymph::site::{
    asset_file, asset_for_extension, asset_kind, card_id_from_components, card_id_in_path,
    fill_template, get_filegarden_link, page_details, replace_all, Asset,
};
use hemolymph::text::{chars_of, contains_chars, contains_text_ignore_case, same_text, string_of};
use std::collections::HashMap;

fn chars(s: &str) -> Vec<char> {
    s.chars().collect()
}

#[test]
fn picture_link_drops_spaces_and_mends_the_umlaut() {
    assert_eq!(
        get_filegarden_link("Blood Rat"),
        "https://file.garden/ZJSEzoaUL3bz8vYK/bloodlesscards/BloodRat.png"
    );
    assert_eq!(
        get_filegarden_link("J\u{c3}\u{a4}ger  of the  Night"),
        "https://file.garden/ZJSEzoaUL3bz8vYK/bloodlesscards/JageroftheNight.png"
    );
    assert_eq!(
        get_filegarden_link("\u{c3} \u{a4}"),
        "https://file.garden/ZJSEzoaUL3bz8vYK/bloodlesscards/a.png"
    );
    assert_eq!(
        get_filegarden_link(""),
        "https://file.garden/ZJSEzoaUL3bz8vYK/bloodlesscards/.png"
    );
}

#[test]
fn replace_all_goes_left_to_right() {
    assert_eq!(replace_all(&chars("aaa"), &chars("aa"), &chars("b")), chars("ba"));
    assert_eq!(replace_all(&chars("abcabc"), &chars("bc"), &chars("")), chars("aa"));
    assert_eq!(replace_all(&chars("abc"), &chars("abcd"), &chars("x")), chars("abc"));
    assert_eq!(replace_all(&chars("abc"), &chars(""), &chars("x")), chars("abc"));
    assert_eq!(replace_all(&chars(""), &chars("a"), &chars("x")), chars(""));
    assert_eq!(replace_all(&chars("a.b.c"), &chars("."), &chars("::")), chars("a::b::c"));
}

#[test]
fn asset_kind_goes_by_extension() {
    assert_eq!(asset_kind("/pkg/app.js"), Asset::Script);
    assert_eq!(asset_kind("/pkg/app_bg.wasm"), Asset::Wasm);
    assert_eq!(asset_kind("/card/abc"), Asset::Page);
    assert_eq!(asset_kind("/"), Asset::Page);
    assert_eq!(asset_kind(""), Asset::Page);
    assert_eq!(asset_kind("/.js"), Asset::Page);
    assert_eq!(asset_kind("/a.js/b"), Asset::Page);
    assert_eq!(asset_kind("/a.min.js"), Asset::Script);
    assert_eq!(asset_kind("/a.JS"), Asset::Page);
    assert_eq!(asset_kind("/js"), Asset::Page);
    assert_eq!(asset_kind("/a.b/c"), Asset::Page);
    assert_eq!(asset_file("/pkg/app.js"), "dist//pkg/app.js");
}

#[test]
fn trailing_separators_do_not_hide_the_extension() {
    assert_eq!(asset_kind("/app.js/"), Asset::Script);
    assert_eq!(asset_kind("/a.js/."), Asset::Script);
    assert_eq!(asset_kind("/pkg/app_bg.wasm//"), Asset::Wasm);
    assert_eq!(asset_kind("/a.js/.."), Asset::Page);
}

#[test]
fn asset_for_each_extension() {
    assert_eq!(asset_for_extension(Some("js")), Asset::Script);
    assert_eq!(asset_for_extension(Some("wasm")), Asset::Wasm);
    assert_eq!(asset_for_extension(Some("")), Asset::Page);
    assert_eq!(asset_for_extension(Some("html")), Asset::Page);
    assert_eq!(asset_for_extension(Some("JS")), Asset::Page);
    assert_eq!(asset_for_extension(None), Asset::Page);
}

#[test]
fn card_id_is_the_third_component() {
    assert_eq!(card_id_in_path("/card/abc"), Some("abc".to_string()));
    assert_eq!(card_id_in_path("/card/abc/more"), Some("abc".to_string()));
    assert_eq!(card_id_in_path("//card//abc/"), Some("abc".to_string()));
    assert_eq!(card_id_in_path("/card"), None);
    assert_eq!(card_id_in_path("/card/"), None);
    assert_eq!(card_id_in_path("/"), None);
    assert_eq!(card_id_in_path(""), None);
    assert_eq!(card_id_in_path("a/b/c"), Some("c".to_string()));
}

#[test]
fn dot_segments_are_no_components() {
    assert_eq!(card_id_in_path("/card/./x"), Some("x".to_string()));
    assert_eq!(card_id_in_path("/./card/x/."), Some("x".to_string()));
    assert_eq!(card_id_in_path("/card/."), None);
    assert_eq!(card_id_in_path("/card/../x"), Some("..".to_string()));
}

#[test]
fn card_id_from_given_components() {
    let parts = |v: &[&str]| -> Vec<String> { v.iter().map(|s| s.to_string()).collect() };
    assert_eq!(card_id_from_components(&parts(&["/", "card", "x"])), Some("x".to_string()));
    assert_eq!(card_id_from_components(&parts(&["/", "card", "x", "y"])), Some("x".to_string()));
    assert_eq!(card_id_from_components(&parts(&["/", "card"])), None);
    assert_eq!(card_id_from_components(&parts(&[])), None);
}

#[test]
fn page_details_come_from_the_card() {
    let card = Card {
        id: "1".to_string(),
        name: "Blood Rat".to_string(),
        img: vec![],
        description: "Bites.".to_string(),
        cost: 0,
        health: 0,
        defense: 0,
        power: 0,
        card_type: String::new(),
        keywords: vec![],
        kins: vec![],
        abilities: vec![],
        artists: vec![],
        set: String::new(),
        legality: HashMap::new(),
        other: vec![],
        functions: vec![],
    };
    assert_eq!(
        page_details(Some(&card)),
        (
            "Bites.".to_string(),
            "https://file.garden/ZJSEzoaUL3bz8vYK/bloodlesscards/BloodRat.png".to_string()
        )
    );
    assert_eq!(
        page_details(None),
        ("A search engine for Bloodless cards.".to_string(), String::new())
    );
}

#[test]
fn template_placeholders_are_filled_in_order() {
    assert_eq!(
        fill_template("<p>{description}</p>{content}<img {ogimage}>{content}", "C", "D", "I"),
        "<p>D</p>C<img I>C"
    );
    assert_eq!(fill_template("{content}", "{ogimage}", "D", "I"), "I");
    assert_eq!(fill_template("plain", "C", "D", "I"), "plain");
}

#[test]
fn text_helpers() {
    assert_eq!(chars_of("a\u{e4}b"), vec!['a', '\u{e4}', 'b']);
    assert_eq!(string_of(&vec!['h', 'i']), "hi");
    assert!(same_text("abc", "abc"));
    assert!(!same_text("abc", "abd"));
    assert!(!same_text("abc", "ab"));
    assert!(contains_chars(&chars("hello"), &chars("ell")));
    assert!(contains_chars(&chars("hello"), &chars("")));
    assert!(contains_chars(&chars("hello"), &chars("hello")));
    assert!(!contains_chars(&chars("hello"), &chars("hellos")));
    assert!(!contains_chars(&chars("hello"), &chars("lol")));
    assert!(contains_text_ignore_case("Blood RAT", "d r"));
    assert!(contains_text_ignore_case("\u{c4}rger", "\u{e4}RG"));
    assert!(!contains_text_ignore_case("Blood", "rat"));
}
