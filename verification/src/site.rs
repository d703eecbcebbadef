//! What the web front decides without touching the network or the disk:
//! which asset a request path names, which card a page is about, and the
//! text that goes into the page.

use crate::cards::Card;
use crate::text::{append_chars, chars_of, copy_range, matches_at, same_text, string_of};
use vstd::prelude::*;

verus! {

/// The text with every occurrence of `from` replaced by `to`, occurrences
/// taken from left to right without overlap. An empty `from` occurs
/// nowhere.
pub open spec fn replaced(s: Seq<char>, from: Seq<char>, to: Seq<char>) -> Seq<char>
    decreases s.len(),
{
    if from.len() == 0 || s.len() < from.len() {
        s
    } else if s.take(from.len() as int) == from {
        to + replaced(s.skip(from.len() as int), from, to)
    } else {
        seq![s[0]] + replaced(s.drop_first(), from, to)
    }
}

/// Replaces every occurrence of `from` by `to`, from left to right.
pub fn replace_all(s: &Vec<char>, from: &Vec<char>, to: &Vec<char>) -> (out: Vec<char>)
    ensures
        out@ == replaced(s@, from@, to@),
{
    if from.len() == 0 {
        let whole = copy_range(s, 0, s.len());
        assert(whole@ =~= s@);
        return whole;
    }
    let mut out: Vec<char> = Vec::new();
    let mut i: usize = 0;
    assert(s@.skip(0) =~= s@);
    assert(out@ + replaced(s@, from@, to@) =~= replaced(s@, from@, to@));
    while i < s.len()
        invariant
            i <= s.len(),
            from.len() > 0,
            replaced(s@, from@, to@) == out@ + replaced(s@.skip(i as int), from@, to@),
        decreases s.len() - i,
    {
        let ghost here = s@.skip(i as int);
        let ghost before = out@;
        if matches_at(s, from, i) {
            assert(here.take(from.len() as int) =~= s@.subrange(i as int, i + from.len()));
            assert(here.skip(from.len() as int) =~= s@.skip(i + from.len()));
            append_chars(&mut out, to);
            assert(before + (to@ + replaced(s@.skip(i + from.len()), from@, to@)) =~= out@
                + replaced(s@.skip(i + from.len()), from@, to@));
            i = i + from.len();
        } else {
            proof {
                if here.len() >= from.len() {
                    assert(here.take(from.len() as int) =~= s@.subrange(
                        i as int,
                        i + from.len(),
                    ));
                    assert(here.drop_first() =~= s@.skip(i + 1));
                    assert(replaced(here, from@, to@) == seq![here[0]] + replaced(
                        s@.skip(i + 1),
                        from@,
                        to@,
                    ));
                }
            }
            if s.len() - i < from.len() {
                let rest = copy_range(s, i, s.len());
                assert(rest@ =~= here);
                append_chars(&mut out, &rest);
                assert(s@.skip(s.len() as int) =~= Seq::<char>::empty());
                assert(out@ + replaced(s@.skip(s.len() as int), from@, to@) =~= before + here);
                i = s.len();
            } else {
                out.push(s[i]);
                assert(before + (seq![here[0]] + replaced(s@.skip(i + 1), from@, to@)) =~= out@
                    + replaced(s@.skip(i + 1), from@, to@));
                i += 1;
            }
        }
    }
    assert(s@.skip(s.len() as int) =~= Seq::<char>::empty());
    assert(out@ + Seq::<char>::empty() =~= out@);
    out
}

/// The address of a card's picture: the card name without spaces, and with
/// the two characters U+00C3 U+00A4 read as `a`, between the address of the
/// picture store and `.png`.
pub open spec fn filegarden_link(name: Seq<char>) -> Seq<char> {
    "https://file.garden/ZJSEzoaUL3bz8vYK/bloodlesscards/"@ + replaced(
        replaced(name, seq![' '], Seq::empty()),
        seq!['\u{c3}', '\u{a4}'],
        seq!['a'],
    ) + ".png"@
}

/// The address of the picture of the card with the given name.
pub fn get_filegarden_link(name: &str) -> (link: String)
    ensures
        link@ == filegarden_link(name@),
{
    let mut space: Vec<char> = Vec::new();
    space.push(' ');
    let nothing: Vec<char> = Vec::new();
    let mut garbled: Vec<char> = Vec::new();
    garbled.push('\u{c3}');
    garbled.push('\u{a4}');
    let mut plain: Vec<char> = Vec::new();
    plain.push('a');
    proof {
        assert(space@ =~= seq![' ']);
        assert(nothing@ =~= Seq::<char>::empty());
        assert(garbled@ =~= seq!['\u{c3}', '\u{a4}']);
        assert(plain@ =~= seq!['a']);
    }
    let without_spaces = replace_all(&chars_of(name), &space, &nothing);
    let file = replace_all(&without_spaces, &garbled, &plain);
    let mut out = chars_of("https://file.garden/ZJSEzoaUL3bz8vYK/bloodlesscards/");
    append_chars(&mut out, &file);
    append_chars(&mut out, &chars_of(".png"));
    string_of(&out)
}

/// The extension of a path, as `std::path::Path::extension` reads it:
/// what follows the last dot of the file name, if the path has a file name
/// with a dot that is not its first character.
pub uninterp spec fn path_extension(path: Seq<char>) -> Option<Seq<char>>;

/// The components of a path, as `std::path::Path::iter` yields them: the
/// root first, if the path has one, then the names between separators.
pub uninterp spec fn path_components(path: Seq<char>) -> Seq<Seq<char>>;

/// The texts of a list of strings, in order.
pub open spec fn texts_of(list: Seq<String>) -> Seq<Seq<char>> {
    Seq::new(list.len(), |i: int| list[i]@)
}

/// Calls `std::path::Path::extension` on the path. The contract only names
/// the result: it is the extension that std finds in the path, a function
/// of the path's characters alone.
#[verifier::external_body]
fn extension_in(path: &str) -> (ext: Option<String>)
    ensures
        match path_extension(path@) {
            Some(e) => ext matches Some(v) && v@ == e,
            None => ext is None,
        },
{
    match std::path::Path::new(path).extension() {
        Some(e) => Some(e.to_string_lossy().into_owned()),
        None => None,
    }
}

/// Calls `std::path::Path::iter` on the path and hands out each component
/// as a string. The contract only names the result: the components are
/// those that std finds in the path, in order, a function of the path's
/// characters alone.
#[verifier::external_body]
fn components_in(path: &str) -> (parts: Vec<String>)
    ensures
        texts_of(parts@) == path_components(path@),
{
    let mut parts: Vec<String> = Vec::new();
    for part in std::path::Path::new(path).iter() {
        parts.push(part.to_string_lossy().into_owned());
    }
    parts
}

/// What a request path asks for.
#[derive(Clone, Copy, Debug, PartialEq, Eq, Structural)]
pub enum Asset {
    /// A script of the front end: the extension is `js`.
    Script,
    /// A WebAssembly module of the front end: the extension is `wasm`.
    Wasm,
    /// Any other path: the page itself.
    Page,
}

/// What a path with the given extension asks for.
pub open spec fn asset_for(extension: Option<Seq<char>>) -> Asset {
    if extension == Some("js"@) {
        Asset::Script
    } else if extension == Some("wasm"@) {
        Asset::Wasm
    } else {
        Asset::Page
    }
}

/// Decides what a path with the given extension asks for.
pub fn asset_for_extension(extension: Option<&str>) -> (kind: Asset)
    ensures
        kind == asset_for(
            match extension {
                Some(e) => Some(e@),
                None => None,
            },
        ),
{
    match extension {
        Some(e) => {
            if same_text(e, "js") {
                Asset::Script
            } else if same_text(e, "wasm") {
                Asset::Wasm
            } else {
                Asset::Page
            }
        },
        None => Asset::Page,
    }
}

/// Decides what a request path asks for, by the extension that the path has.
pub fn asset_kind(path: &str) -> (kind: Asset)
    ensures
        kind == asset_for(path_extension(path@)),
{
    match extension_in(path) {
        Some(e) => asset_for_extension(Some(e.as_str())),
        None => asset_for_extension(None),
    }
}

/// The file that holds a script or module of the front end.
pub fn asset_file(path: &str) -> (file: String)
    ensures
        file@ == "dist/"@ + path@,
{
    let mut out = chars_of("dist/");
    append_chars(&mut out, &chars_of(path));
    string_of(&out)
}

/// The id of the card that a page is about, given the components of its
/// path: the third component, as `x` in `/card/x`, where the root counts as
/// the first.
pub open spec fn card_id_among(components: Seq<Seq<char>>) -> Option<Seq<char>> {
    if components.len() > 2 {
        Some(components[2])
    } else {
        None
    }
}

/// Picks the id of the card that a page is about from the components of
/// its path.
pub fn card_id_from_components(components: &Vec<String>) -> (id: Option<String>)
    ensures
        match card_id_among(texts_of(components@)) {
            Some(s) => id matches Some(v) && v@ == s,
            None => id is None,
        },
{
    if components.len() > 2 {
        Some(components[2].clone())
    } else {
        None
    }
}

/// The id of the card that the page at a request path is about.
pub fn card_id_in_path(path: &str) -> (id: Option<String>)
    ensures
        match card_id_among(path_components(path@)) {
            Some(s) => id matches Some(v) && v@ == s,
            None => id is None,
        },
{
    card_id_from_components(&components_in(path))
}

/// The description and the picture address that a page carries: those of
/// the card it is about, or the site's own description and no picture.
pub fn page_details(card: Option<&Card>) -> (out: (String, String))
    ensures
        match card {
            Some(c) => out.0@ == c.description@ && out.1@ == filegarden_link(c.name@),
            None => out.0@ == "A search engine for Bloodless cards."@ && out.1@ == Seq::<
                char,
            >::empty(),
        },
{
    match card {
        Some(c) => (c.description.clone(), get_filegarden_link(c.name.as_str())),
        None => (string_of(&chars_of("A search engine for Bloodless cards.")), String::new()),
    }
}

/// The page: the template with its three placeholders filled in, one after
/// the other.
pub open spec fn filled(
    template: Seq<char>,
    content: Seq<char>,
    description: Seq<char>,
    image: Seq<char>,
) -> Seq<char> {
    replaced(
        replaced(replaced(template, "{content}"@, content), "{description}"@, description),
        "{ogimage}"@,
        image,
    )
}

/// Fills the placeholders `{content}`, `{description}` and `{ogimage}` of a
/// page template, in that order.
pub fn fill_template(template: &str, content: &str, description: &str, image: &str) -> (page:
    String)
    ensures
        page@ == filled(template@, content@, description@, image@),
{
    let first = replace_all(&chars_of(template), &chars_of("{content}"), &chars_of(content));
    let second = replace_all(&first, &chars_of("{description}"), &chars_of(description));
    let third = replace_all(&second, &chars_of("{ogimage}"), &chars_of(image));
    string_of(&third)
}

} // verus!
