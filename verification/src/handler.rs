use vstd::prelude::*;
use vstd::string::StrSliceExecFns;
use vstd::string::StringExecFns;
use crate::Language;
use crate::stemming::{stem_phrase, stemmed_phrase};

verus! {

/// A successful invocation's reply: the caller's request identifier echoed
/// unchanged, and a human-readable message.
#[derive(Debug)]
pub struct Response {
    pub req_id: String,
    pub msg: String,
}

/// The one error this handler reports: the language tag was not in the
/// supported set. Carries the request identifier and a message naming the
/// rejected value exactly as it was received.
#[derive(Debug)]
pub struct BadLanguageError {
    pub req_id: String,
    pub msg: String,
}

/// ASCII uppercase letters lowered; every other character unchanged.
pub open spec fn lower_char(c: char) -> char {
    if 'A' <= c && c <= 'Z' {
        ((c as u32) + 32) as char
    } else {
        c
    }
}

/// Every ASCII uppercase letter of `s` lowered.
pub open spec fn lower(s: Seq<char>) -> Seq<char> {
    s.map_values(|c: char| lower_char(c))
}

/// The language a tag selects; tags match case-insensitively, any other
/// tag selects none.
pub open spec fn language_of(tag: Seq<char>) -> Option<Language> {
    if lower(tag) == "english"@ {
        Some(Language::English)
    } else if lower(tag) == "spanish"@ {
        Some(Language::Spanish)
    } else {
        None
    }
}

/// The message of a successful reply: the original phrase verbatim, then
/// its transformed form.
pub open spec fn success_message(phrase: Seq<char>, stemmed: Seq<char>) -> Seq<char> {
    "Original phrase: "@ + phrase + "; Stemmed phrase: "@ + stemmed
}

/// The message of a rejected request, naming the received tag verbatim.
pub open spec fn error_message(tag: Seq<char>) -> Seq<char> {
    "Invalid language parameter, only 'Spanish' and 'English' available, but '"@ + tag
        + "' received!"@
}

fn chars_equal_ignoring_case(a: char, b: char) -> (r: bool)
    ensures
        r == (lower_char(a) == lower_char(b)),
{
    let ua = a as u32;
    let ub = b as u32;
    let la: u32 = if 65 <= ua && ua <= 90 {
        ua + 32
    } else {
        ua
    };
    let lb: u32 = if 65 <= ub && ub <= 90 {
        ub + 32
    } else {
        ub
    };
    proof {
        assert(la == lower_char(a) as u32);
        assert(lb == lower_char(b) as u32);
    }
    la == lb
}

fn str_equal_ignoring_case(a: &str, b: &str) -> (r: bool)
    ensures
        r == (lower(a@) == lower(b@)),
{
    let na = a.unicode_len();
    let nb = b.unicode_len();
    if na != nb {
        proof {
            assert(lower(a@).len() != lower(b@).len());
        }
        return false;
    }
    let mut i: usize = 0;
    while i < na
        invariant
            na == a@.len(),
            na == b@.len(),
            i <= na,
            forall|j: int| 0 <= j < i ==> lower_char(a@[j]) == lower_char(b@[j]),
        decreases na - i,
    {
        let ca = a.get_char(i);
        let cb = b.get_char(i);
        if !chars_equal_ignoring_case(ca, cb) {
            proof {
                assert(lower(a@)[i as int] != lower(b@)[i as int]);
            }
            return false;
        }
        i = i + 1;
    }
    proof {
        assert(lower(a@) =~= lower(b@));
    }
    true
}

/// The supported language a tag names, matched case-insensitively, or
/// `None` for any other tag.
pub fn parse_language(tag: &str) -> (r: Option<Language>)
    ensures
        r == language_of(tag@),
{
    proof {
        lemma_supported_tags_are_lowercase();
    }
    if str_equal_ignoring_case(tag, "english") {
        Some(Language::English)
    } else if str_equal_ignoring_case(tag, "spanish") {
        Some(Language::Spanish)
    } else {
        None
    }
}

/// The two supported tags are already lowercase, so lowering them changes
/// nothing.
proof fn lemma_supported_tags_are_lowercase()
    ensures
        lower("english"@) == "english"@,
        lower("spanish"@) == "spanish"@,
{
    reveal_strlit("english");
    reveal_strlit("spanish");
    assert(lower("english"@) =~= "english"@);
    assert(lower("spanish"@) =~= "spanish"@);
}

fn build_success_message(phrase: &str, stemmed: &str) -> (r: String)
    ensures
        r@ == success_message(phrase@, stemmed@),
{
    let mut r = "Original phrase: ".to_owned();
    r.append(phrase);
    r.append("; Stemmed phrase: ");
    r.append(stemmed);
    r
}

fn build_error_message(tag: &str) -> (r: String)
    ensures
        r@ == error_message(tag@),
{
    let mut r = "Invalid language parameter, only 'Spanish' and 'English' available, but '"
        .to_owned();
    r.append(tag);
    r.append("' received!");
    r
}

/// Validates the language tag, stems the phrase under the selected
/// algorithm, and assembles the reply. Succeeds exactly when the tag names
/// a supported language; otherwise reports the rejected tag. Either way
/// the caller's request identifier is echoed unchanged.
pub fn handle(req_id: &str, phrase: &str, language: &str) -> (r: Result<
    Response,
    BadLanguageError,
>)
    ensures
        match r {
            Ok(resp) => {
                &&& language_of(language@) is Some
                &&& resp.req_id@ == req_id@
                &&& resp.msg@ == success_message(
                    phrase@,
                    stemmed_phrase(language_of(language@).unwrap(), phrase@),
                )
            },
            Err(e) => {
                &&& language_of(language@) is None
                &&& e.req_id@ == req_id@
                &&& e.msg@ == error_message(language@)
            },
        },
{
    match parse_language(language) {
        Some(lang) => {
            let stemmed = stem_phrase(lang, phrase);
            let msg = build_success_message(phrase, stemmed.as_str());
            Ok(Response { req_id: req_id.to_owned(), msg })
        },
        None => {
            let msg = build_error_message(language);
            Err(BadLanguageError { req_id: req_id.to_owned(), msg })
        },
    }
}

} // verus!
