use vstd::prelude::*;
use vstd::string::StrSliceExecFns;
use vstd::string::StringExecFns;

verus! {

/// The tokens of `s`, split on single space characters. Splitting keeps
/// empty tokens — consecutive spaces yield empty tokens, a user-observable
/// behaviour — so the result always holds at least one token: splitting
/// the empty string gives one empty token.
pub open spec fn split_spaces(s: Seq<char>) -> Seq<Seq<char>>
    decreases s.len(),
{
    if s.len() == 0 {
        seq![Seq::<char>::empty()]
    } else if s[0] == ' ' {
        seq![Seq::<char>::empty()] + split_spaces(s.drop_first())
    } else {
        let rest = split_spaces(s.drop_first());
        seq![seq![s[0]] + rest[0]] + rest.drop_first()
    }
}

/// The tokens of `ts`, joined in order with single space separators.
pub open spec fn join_spaces(ts: Seq<Seq<char>>) -> Seq<char>
    decreases ts.len(),
{
    if ts.len() == 0 {
        Seq::<char>::empty()
    } else if ts.len() == 1 {
        ts[0]
    } else {
        ts[0] + seq![' '] + join_spaces(ts.drop_first())
    }
}

pub proof fn lemma_split_spaces_nonempty(s: Seq<char>)
    ensures
        split_spaces(s).len() >= 1,
    decreases s.len(),
{
    if s.len() != 0 {
        lemma_split_spaces_nonempty(s.drop_first());
    }
}

/// A sequence without spaces splits to exactly one token: itself.
pub proof fn lemma_split_no_space(t: Seq<char>)
    requires
        !t.contains(' '),
    ensures
        split_spaces(t) == seq![t],
    decreases t.len(),
{
    if t.len() == 0 {
        assert(split_spaces(t) =~~= seq![t]);
    } else {
        assert(t[0] != ' ');
        assert(!t.drop_first().contains(' ')) by {
            if t.drop_first().contains(' ') {
                let i = choose|i: int| 0 <= i < t.drop_first().len() && t.drop_first()[i] == ' ';
                assert(t[i + 1] == ' ');
            }
        }
        lemma_split_no_space(t.drop_first());
        assert(seq![t[0]] + t.drop_first() =~= t);
        assert(split_spaces(t) =~~= seq![t]);
    }
}

/// Splitting a string that starts with a space-free token followed by a
/// space peels that token off the front.
pub proof fn lemma_split_token_space(t: Seq<char>, u: Seq<char>)
    requires
        !t.contains(' '),
    ensures
        split_spaces(t + seq![' '] + u) == seq![t] + split_spaces(u),
    decreases t.len(),
{
    let s = t + seq![' '] + u;
    if t.len() == 0 {
        assert(s[0] == ' ');
        assert(s.drop_first() =~= u);
        assert(split_spaces(s) =~~= seq![t] + split_spaces(u));
    } else {
        assert(s[0] == t[0]);
        assert(t[0] != ' ');
        assert(!t.drop_first().contains(' ')) by {
            if t.drop_first().contains(' ') {
                let i = choose|i: int| 0 <= i < t.drop_first().len() && t.drop_first()[i] == ' ';
                assert(t[i + 1] == ' ');
            }
        }
        assert(s.drop_first() =~= t.drop_first() + seq![' '] + u);
        lemma_split_token_space(t.drop_first(), u);
        let rest = split_spaces(s.drop_first());
        assert(rest == seq![t.drop_first()] + split_spaces(u));
        lemma_split_spaces_nonempty(u);
        assert(rest[0] == t.drop_first());
        assert(rest.drop_first() =~~= split_spaces(u));
        assert(seq![s[0]] + rest[0] =~= t);
        assert(split_spaces(s) =~~= seq![t] + split_spaces(u));
    }
}

/// Appending one more token to a non-empty token list appends a space and
/// that token to the joined string.
pub proof fn lemma_join_push(ts: Seq<Seq<char>>, t: Seq<char>)
    requires
        ts.len() >= 1,
    ensures
        join_spaces(ts.push(t)) == join_spaces(ts) + seq![' '] + t,
    decreases ts.len(),
{
    if ts.len() == 1 {
        assert(ts.push(t).drop_first() =~~= seq![t]);
        assert(join_spaces(seq![t]) == t);
        assert(join_spaces(ts.push(t))
            == ts.push(t)[0] + seq![' '] + join_spaces(ts.push(t).drop_first()));
        assert(join_spaces(ts.push(t)) =~= ts[0] + seq![' '] + t);
        assert(join_spaces(ts) == ts[0]);
    } else {
        assert(ts.push(t).drop_first() =~~= ts.drop_first().push(t));
        lemma_join_push(ts.drop_first(), t);
        assert(join_spaces(ts.push(t))
            == ts.push(t)[0] + seq![' '] + join_spaces(ts.push(t).drop_first()));
        assert(join_spaces(ts) == ts[0] + seq![' '] + join_spaces(ts.drop_first()));
        assert(join_spaces(ts.push(t)) =~= join_spaces(ts) + seq![' '] + t);
    }
}

/// No token that splitting yields holds a space of its own.
pub proof fn lemma_split_tokens_no_space(s: Seq<char>)
    ensures
        forall|i: int| 0 <= i < split_spaces(s).len() ==> !(#[trigger] split_spaces(
            s,
        )[i]).contains(' '),
    decreases s.len(),
{
    if s.len() == 0 {
    } else if s[0] == ' ' {
        lemma_split_tokens_no_space(s.drop_first());
        let rest = split_spaces(s.drop_first());
        assert forall|i: int| 0 <= i < split_spaces(s).len() implies !(#[trigger] split_spaces(
            s,
        )[i]).contains(' ') by {
            if i > 0 {
                assert(split_spaces(s)[i] == rest[i - 1]);
            }
        }
    } else {
        lemma_split_tokens_no_space(s.drop_first());
        let rest = split_spaces(s.drop_first());
        lemma_split_spaces_nonempty(s.drop_first());
        assert forall|i: int| 0 <= i < split_spaces(s).len() implies !(#[trigger] split_spaces(
            s,
        )[i]).contains(' ') by {
            if i == 0 {
                let t = seq![s[0]] + rest[0];
                assert(split_spaces(s)[0] == t);
                if t.contains(' ') {
                    let k = choose|k: int| 0 <= k < t.len() && t[k] == ' ';
                    if k == 0 {
                        assert(s[0] == ' ');
                    } else {
                        assert(rest[0][k - 1] == ' ');
                    }
                }
            } else {
                assert(split_spaces(s)[i] == rest[i]);
            }
        }
    }
}

/// Splitting undoes joining, as long as no token holds a space of its own.
pub proof fn lemma_split_join_inverse(ts: Seq<Seq<char>>)
    requires
        ts.len() >= 1,
        forall|i: int| 0 <= i < ts.len() ==> !(#[trigger] ts[i]).contains(' '),
    ensures
        split_spaces(join_spaces(ts)) == ts,
    decreases ts.len(),
{
    if ts.len() == 1 {
        lemma_split_no_space(ts[0]);
        assert(split_spaces(join_spaces(ts)) =~= ts);
    } else {
        lemma_split_token_space(ts[0], join_spaces(ts.drop_first()));
        lemma_split_join_inverse(ts.drop_first());
        assert(ts[0] + seq![' '] + join_spaces(ts.drop_first()) =~= join_spaces(ts));
        assert(split_spaces(join_spaces(ts)) =~= ts);
    }
}

/// Splits `s` on single space characters, keeping empty tokens.
pub fn split_spaces_exec(s: &str) -> (r: Vec<String>)
    ensures
        r.deep_view() == split_spaces(s@),
{
    let n = s.unicode_len();
    let mut tokens: Vec<String> = Vec::new();
    let mut start: usize = 0;
    let mut i: usize = 0;
    proof {
        assert(s@.subrange(0, n as int) =~= s@);
        assert(tokens.deep_view() + split_spaces(s@) =~~= split_spaces(s@));
    }
    while i < n
        invariant
            n == s@.len(),
            start <= i <= n,
            forall|j: int| start <= j < i ==> s@[j] != ' ',
            tokens.deep_view() + split_spaces(s@.subrange(start as int, n as int))
                == split_spaces(s@),
        decreases n - i,
    {
        let c = s.get_char(i);
        if c == ' ' {
            let tok = s.substring_char(start, i).to_owned();
            let ghost old_dv = tokens.deep_view();
            tokens.push(tok);
            proof {
                let t = s@.subrange(start as int, i as int);
                let u = s@.subrange(i + 1, n as int);
                assert(!t.contains(' '));
                assert(s@.subrange(start as int, n as int) =~= t + seq![' '] + u);
                lemma_split_token_space(t, u);
                assert(tokens.deep_view() =~~= old_dv.push(t));
                assert(old_dv.push(t) + split_spaces(u)
                    =~~= old_dv + (seq![t] + split_spaces(u)));
                assert(old_dv + (seq![t] + split_spaces(u))
                    =~~= old_dv + split_spaces(s@.subrange(start as int, n as int)));
            }
            start = i + 1;
        }
        i = i + 1;
    }
    let tok = s.substring_char(start, n).to_owned();
    let ghost old_dv = tokens.deep_view();
    tokens.push(tok);
    proof {
        let t = s@.subrange(start as int, n as int);
        assert(!t.contains(' '));
        lemma_split_no_space(t);
        assert(tokens.deep_view() =~~= old_dv.push(t));
        assert(old_dv.push(t) =~~= old_dv + seq![t]);
        assert(old_dv + seq![t] =~~= split_spaces(s@));
    }
    tokens
}

/// Joins `tokens` in order with single space separators.
pub fn join_spaces_exec(tokens: &Vec<String>) -> (r: String)
    ensures
        r@ == join_spaces(tokens.deep_view()),
{
    let mut r = String::new();
    let mut i: usize = 0;
    while i < tokens.len()
        invariant
            i <= tokens@.len(),
            r@ == join_spaces(tokens.deep_view().subrange(0, i as int)),
        decreases tokens@.len() - i,
    {
        proof {
            let dv = tokens.deep_view();
            assert(dv.subrange(0, i + 1) =~= dv.subrange(0, i as int).push(dv[i as int]));
            if i > 0 {
                lemma_join_push(dv.subrange(0, i as int), dv[i as int]);
            } else {
                assert(join_spaces(dv.subrange(0, 1)) == dv[0]);
            }
        }
        if i > 0 {
            r.append(" ");
            proof {
                reveal_strlit(" ");
                assert(" "@ =~= seq![' ']);
            }
        }
        r.append(tokens[i].as_str());
        i = i + 1;
    }
    proof {
        assert(tokens.deep_view().subrange(0, tokens@.len() as int) =~= tokens.deep_view());
    }
    r
}

} // verus!
