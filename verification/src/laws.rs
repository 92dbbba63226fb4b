use vstd::prelude::*;
use crate::handler::{error_message, success_message};

verus! {

/// A successful reply's message carries the original phrase verbatim: the
/// characters right after the fixed prefix are exactly the phrase.
pub proof fn lemma_success_message_contains_phrase(phrase: Seq<char>, stemmed: Seq<char>)
    ensures
        success_message(phrase, stemmed).subrange(
            "Original phrase: "@.len() as int,
            "Original phrase: "@.len() + phrase.len() as int,
        ) == phrase,
{
    let pre = "Original phrase: "@;
    assert(success_message(phrase, stemmed).subrange(
        pre.len() as int,
        pre.len() + phrase.len() as int,
    ) =~= phrase);
}

/// A rejected request's message names the received tag verbatim, in its
/// original casing: the characters right after the fixed prefix are
/// exactly the tag.
pub proof fn lemma_error_message_names_tag(tag: Seq<char>)
    ensures
        error_message(tag).subrange(
            "Invalid language parameter, only 'Spanish' and 'English' available, but '"@.len() as int,
            "Invalid language parameter, only 'Spanish' and 'English' available, but '"@.len()
                + tag.len() as int,
        ) == tag,
{
    let pre = "Invalid language parameter, only 'Spanish' and 'English' available, but '"@;
    assert(error_message(tag).subrange(pre.len() as int, pre.len() + tag.len() as int) =~= tag);
}

} // verus!
