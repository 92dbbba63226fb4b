use vstd::prelude::*;
use crate::Language;
use crate::text::{join_spaces, join_spaces_exec, split_spaces, split_spaces_exec};

verus! {

/// What rust_stemmers' English Snowball algorithm returns for one token:
/// a pure function of the token's characters alone.
pub uninterp spec fn english_stem(token: Seq<char>) -> Seq<char>;

/// What rust_stemmers' Spanish Snowball algorithm returns for one token:
/// a pure function of the token's characters alone.
pub uninterp spec fn spanish_stem(token: Seq<char>) -> Seq<char>;

/// The stem of one token under the algorithm the language selects.
pub open spec fn stem_token(lang: Language, token: Seq<char>) -> Seq<char> {
    match lang {
        Language::English => english_stem(token),
        Language::Spanish => spanish_stem(token),
    }
}

/// Each token stemmed, in the original order.
pub open spec fn stem_tokens(lang: Language, tokens: Seq<Seq<char>>) -> Seq<Seq<char>> {
    Seq::new(tokens.len(), |i: int| stem_token(lang, tokens[i]))
}

/// The whole transformation of a phrase: split on single spaces, stem each
/// token, rejoin with single spaces in the original order.
pub open spec fn stemmed_phrase(lang: Language, phrase: Seq<char>) -> Seq<char> {
    join_spaces(stem_tokens(lang, split_spaces(phrase)))
}

/// Relies on rust_stemmers::Stemmer::stem with Algorithm::English: the
/// result depends on the token's characters alone; the algorithm hands
/// words shorter than three bytes back unchanged, so the empty token maps
/// to itself; and it only removes characters or splices in fixed
/// replacement strings, none of which holds a space, so a space-free token
/// stems to a space-free stem.
#[verifier::external_body]
fn stem_english(token: &str) -> (r: String)
    ensures
        r@ == english_stem(token@),
        token@.len() == 0 ==> r@ == token@,
        !token@.contains(' ') ==> !r@.contains(' '),
{
    rust_stemmers::Stemmer::create(rust_stemmers::Algorithm::English)
        .stem(token)
        .into_owned()
}

/// Relies on rust_stemmers::Stemmer::stem with Algorithm::Spanish: the
/// result depends on the token's characters alone, and the algorithm only
/// removes characters or splices in fixed replacement strings, none of
/// which holds a space, so a space-free token stems to a space-free stem.
#[verifier::external_body]
fn stem_spanish(token: &str) -> (r: String)
    ensures
        r@ == spanish_stem(token@),
        !token@.contains(' ') ==> !r@.contains(' '),
{
    rust_stemmers::Stemmer::create(rust_stemmers::Algorithm::Spanish)
        .stem(token)
        .into_owned()
}

/// Stems one token under the algorithm the language selects. A token
/// without spaces stems to a stem without spaces.
pub fn stem_word(lang: Language, token: &str) -> (r: String)
    ensures
        r@ == stem_token(lang, token@),
        !token@.contains(' ') ==> !r@.contains(' '),
{
    match lang {
        Language::English => stem_english(token),
        Language::Spanish => stem_spanish(token),
    }
}

/// Splits `phrase` on single spaces, stems each token under the algorithm
/// the language selects, and rejoins the stems with single spaces. The
/// result splits back into exactly the stems, in the original order, so
/// the transformed phrase holds as many tokens as the original.
pub fn stem_phrase(lang: Language, phrase: &str) -> (r: String)
    ensures
        r@ == stemmed_phrase(lang, phrase@),
        split_spaces(r@) == stem_tokens(lang, split_spaces(phrase@)),
        split_spaces(r@).len() == split_spaces(phrase@).len(),
{
    proof {
        crate::text::lemma_split_tokens_no_space(phrase@);
    }
    let tokens = split_spaces_exec(phrase);
    let ghost all = stem_tokens(lang, tokens.deep_view());
    let mut stemmed: Vec<String> = Vec::new();
    let mut i: usize = 0;
    while i < tokens.len()
        invariant
            i <= tokens@.len(),
            tokens.deep_view() == split_spaces(phrase@),
            forall|j: int| 0 <= j < tokens.deep_view().len() ==> !(#[trigger] tokens.deep_view()[j]).contains(' '),
            all == stem_tokens(lang, tokens.deep_view()),
            stemmed.deep_view() == all.subrange(0, i as int),
            forall|j: int| 0 <= j < i ==> !(#[trigger] all[j]).contains(' '),
        decreases tokens@.len() - i,
    {
        let word = stem_word(lang, tokens[i].as_str());
        let ghost old_dv = stemmed.deep_view();
        stemmed.push(word);
        proof {
            assert(stemmed.deep_view() =~~= old_dv.push(word@));
            assert(old_dv.push(word@) =~~= all.subrange(0, i + 1));
        }
        i = i + 1;
    }
    proof {
        assert(all.subrange(0, tokens@.len() as int) =~~= all);
        crate::text::lemma_split_spaces_nonempty(phrase@);
        crate::text::lemma_split_join_inverse(all);
    }
    join_spaces_exec(&stemmed)
}

} // verus!
