//! The application's name, and the names derived from it for directories
//! and files.
use vstd::prelude::*;
use crate::text::{
    all_ascii, ascii_lower, join_with, lemma_words_ascii, spec_is_whitespace, spec_str_lowercase, spec_words, split_words, str_lowercase,
    strings_view,
};

verus! {

/// The application's name.
pub const APP_NAME: &'static str = "Lyre";

/// The name's words, lowercased and joined with `separator`.
pub open spec fn spec_slug(separator: char) -> Seq<char> {
    join_with(spec_words(APP_NAME@).map_values(|w: Seq<char>| spec_str_lowercase(w)), seq![separator])
}

/// The name's words, each lowered letter by letter as ASCII.
pub open spec fn ascii_slug(separator: char) -> Seq<char> {
    join_with(spec_words(APP_NAME@).map_values(|w: Seq<char>| ascii_lower(w)), seq![separator])
}

/// The name is one ASCII word, `Lyre`.
proof fn lemma_app_name_words()
    ensures
        spec_words(APP_NAME@) == seq!["Lyre"@],
        all_ascii("Lyre"@),
        ascii_lower("Lyre"@) == "lyre"@,
{
    reveal_strlit("Lyre");
    reveal_strlit("lyre");
    let s4 = seq!['L', 'y', 'r', 'e'];
    let s3 = seq!['L', 'y', 'r'];
    let s2 = seq!['L', 'y'];
    let s1 = seq!['L'];
    assert(APP_NAME@ =~= s4);
    assert(s4.drop_last() =~= s3);
    assert(s3.drop_last() =~= s2);
    assert(s2.drop_last() =~= s1);
    assert(s1.drop_last() =~= Seq::<char>::empty());
    assert(spec_words(Seq::<char>::empty()) == Seq::<Seq<char>>::empty());
    assert(!spec_is_whitespace('L') && !spec_is_whitespace('y') && !spec_is_whitespace('r') && !spec_is_whitespace('e'));
    assert(spec_words(s1) =~= seq![seq!['L']]);
    assert(seq!['L'].push('y') =~= s2);
    assert(spec_words(s2) =~~= seq![s2]);
    assert(s2.push('r') =~= s3);
    assert(spec_words(s3) =~~= seq![s3]);
    assert(s3.push('e') =~= s4);
    assert(spec_words(s4) =~~= seq![s4]);
    assert(s4 =~= "Lyre"@);
    assert(ascii_lower("Lyre"@) =~= "lyre"@);
}

/// The application's name in lowercase words joined with `separator`.
pub fn slug(separator: char) -> (s: String)
    ensures
        s@ == spec_slug(separator),
        s@ == ascii_slug(separator),
{
    let words = split_words(APP_NAME);
    let ghost lw = spec_words(APP_NAME@).map_values(|w: Seq<char>| spec_str_lowercase(w));
    let ghost la = spec_words(APP_NAME@).map_values(|w: Seq<char>| ascii_lower(w));
    proof {
        lemma_app_name_words();
        lemma_words_ascii(APP_NAME@);
    }
    let mut s = String::new();
    let mut i: usize = 0;
    while i < words.len()
        invariant
            strings_view(words@) == spec_words(APP_NAME@),
            lw == spec_words(APP_NAME@).map_values(|w: Seq<char>| spec_str_lowercase(w)),
            la == spec_words(APP_NAME@).map_values(|w: Seq<char>| ascii_lower(w)),
            forall|k: int| 0 <= k < spec_words(APP_NAME@).len() ==> all_ascii(#[trigger] spec_words(APP_NAME@)[k]),
            i <= words@.len(),
            s@ == join_with(lw.take(i as int), seq![separator]),
            s@ == join_with(la.take(i as int), seq![separator]),
        decreases words@.len() - i,
    {
        proof {
            assert(lw.take(i as int + 1).drop_last() =~= lw.take(i as int));
            assert(la.take(i as int + 1).drop_last() =~= la.take(i as int));
            if i == 0 {
                assert(lw.take(1) =~= seq![lw[0]]);
                assert(la.take(1) =~= seq![la[0]]);
            }
        }
        if i > 0 {
            crate::text::push_char(&mut s, separator);
        }
        let w = str_lowercase(words[i].as_str());
        proof {
            assert(words@[i as int]@ == spec_words(APP_NAME@)[i as int]);
        }
        s.append(w.as_str());
        i = i + 1;
    }
    proof {
        assert(lw.take(words@.len() as int) =~= lw);
        assert(la.take(words@.len() as int) =~= la);
    }
    s
}

/// The name in lowercase words joined with underscores.
pub fn snake_case() -> (s: String)
    ensures
        s@ == spec_slug('_'),
{
    slug('_')
}

/// The name in lowercase words joined with hyphens: `lyre`.
pub fn kebab_case() -> (s: String)
    ensures
        s@ == spec_slug('-'),
        s@ == "lyre"@,
{
    proof {
        lemma_app_name_words();
        assert(spec_words(APP_NAME@).map_values(|w: Seq<char>| ascii_lower(w)) =~= seq!["lyre"@]);
    }
    slug('-')
}

/// The scan cache's file name when it lives in the library's root.
pub fn cache_file_name() -> (s: String)
    ensures
        s@ == "."@ + spec_slug('-') + "-cache.json"@,
{
    let mut s = String::from_str(".");
    let k = kebab_case();
    s.append(k.as_str());
    s.append("-cache.json");
    s
}

/// The playlists file's name when it lives in the library's root.
pub fn playlists_file_name() -> (s: String)
    ensures
        s@ == "."@ + spec_slug('-') + "-playlists.json"@,
{
    let mut s = String::from_str(".");
    let k = kebab_case();
    s.append(k.as_str());
    s.append("-playlists.json");
    s
}

} // verus!
