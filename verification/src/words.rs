//! The word counter: splits a text into whitespace-delimited tokens and
//! counts them, either all of them or only those containing a letter.

use vstd::prelude::*;

verus! {

/// Which whitespace-delimited tokens count as words.
#[derive(Clone, Copy, Debug)]
pub enum WordPolicy {
    /// Every non-empty whitespace-delimited token is a word.
    Whitespace,
    /// Only tokens containing at least one Unicode letter are words.
    LetterFiltered,
}

/// Whether a character is whitespace (the Unicode `White_Space` property).
pub uninterp spec fn is_space(c: char) -> bool;

/// Whether a token contains at least one character of Unicode general
/// category Letter, in any script.
pub uninterp spec fn has_letter(t: Seq<char>) -> bool;

/// Relies on char::is_whitespace: whether a character has the Unicode
/// `White_Space` property, a fact about the character alone.
#[verifier::external_body]
fn space_char(c: char) -> (b: bool)
    ensures
        b == is_space(c),
{
    c.is_whitespace()
}

/// Relies on regex::Regex::new and Regex::is_match: the pattern `\pL`
/// matches exactly one character of Unicode general category Letter, and
/// `is_match` reports whether the text holds such a match; the answer is a
/// function of the token's characters alone. `\pL` is a valid pattern, so
/// the compilation cannot fail.
#[verifier::external_body]
fn letter_token(token: &Vec<char>) -> (b: bool)
    ensures
        b == has_letter(token@),
{
    let s: String = token.iter().collect();
    regex::Regex::new(r"\pL").unwrap().is_match(&s)
}

/// Relies on str::chars: the characters of the string, in order.
#[verifier::external_body]
fn chars_of(text: &str) -> (cs: Vec<char>)
    ensures
        cs@ == text@,
{
    text.chars().collect()
}

/// One left-to-right pass over the remaining characters `s`, carrying the
/// tokens already complete (`done`) and the token currently open (`cur`).
pub open spec fn scan_tokens(s: Seq<char>, done: Seq<Seq<char>>, cur: Seq<char>) -> Seq<Seq<char>>
    decreases s.len(),
{
    if s.len() == 0 {
        if cur.len() == 0 {
            done
        } else {
            done.push(cur)
        }
    } else if is_space(s[0]) {
        if cur.len() == 0 {
            scan_tokens(s.drop_first(), done, cur)
        } else {
            scan_tokens(s.drop_first(), done.push(cur), Seq::empty())
        }
    } else {
        scan_tokens(s.drop_first(), done, cur.push(s[0]))
    }
}

/// The non-empty tokens of a text, split on runs of whitespace, in order.
pub open spec fn tokens_of(s: Seq<char>) -> Seq<Seq<char>> {
    scan_tokens(s, Seq::empty(), Seq::empty())
}

/// The tokens that contain at least one letter, in order.
pub open spec fn letter_tokens(ts: Seq<Seq<char>>) -> Seq<Seq<char>> {
    ts.filter(|t: Seq<char>| has_letter(t))
}

/// The views of a list of tokens.
pub open spec fn token_views(ts: Seq<Vec<char>>) -> Seq<Seq<char>> {
    ts.map_values(|t: Vec<char>| t@)
}

/// The number of words of a text under a policy.
pub open spec fn word_count(s: Seq<char>, policy: WordPolicy) -> nat {
    match policy {
        WordPolicy::Whitespace => tokens_of(s).len(),
        WordPolicy::LetterFiltered => letter_tokens(tokens_of(s)).len(),
    }
}

/// Splits a text into its whitespace-delimited tokens.
fn split_tokens(text: &Vec<char>) -> (tokens: Vec<Vec<char>>)
    ensures
        token_views(tokens@) == tokens_of(text@),
{
    let n = text.len();
    let mut done: Vec<Vec<char>> = Vec::new();
    let mut cur: Vec<char> = Vec::new();
    proof {
        assert(text@.skip(0) =~= text@);
        assert(token_views(done@) =~= Seq::<Seq<char>>::empty());
    }
    for i in 0..n
        invariant
            n == text@.len(),
            scan_tokens(text@.skip(i as int), token_views(done@), cur@) == tokens_of(text@),
    {
        let ghost suffix = text@.skip(i as int);
        proof {
            assert(suffix[0] == text@[i as int]);
            assert(suffix.drop_first() =~= text@.skip(i as int + 1));
        }
        let c = text[i];
        if space_char(c) {
            if cur.len() > 0 {
                let ghost done0 = token_views(done@);
                let ghost cur0 = cur@;
                done.push(cur);
                cur = Vec::new();
                proof {
                    assert(token_views(done@) =~= done0.push(cur0));
                }
            }
        } else {
            cur.push(c);
        }
    }
    proof {
        assert(text@.skip(n as int).len() == 0);
    }
    if cur.len() > 0 {
        let ghost done0 = token_views(done@);
        let ghost cur0 = cur@;
        done.push(cur);
        proof {
            assert(token_views(done@) =~= done0.push(cur0));
        }
    }
    done
}

/// How filtering responds to one more token at the end.
proof fn lemma_letter_tokens_push(ts: Seq<Seq<char>>, t: Seq<char>)
    ensures
        letter_tokens(ts.push(t)).len() == letter_tokens(ts).len() + (if has_letter(t) {
            1int
        } else {
            0int
        }),
{
    broadcast use Seq::lemma_filter_len_push;

}

/// Counts the tokens that contain at least one letter.
fn count_letter_tokens(tokens: &Vec<Vec<char>>) -> (n: usize)
    ensures
        n == letter_tokens(token_views(tokens@)).len(),
{
    let ghost ts = token_views(tokens@);
    let m = tokens.len();
    let mut n: usize = 0;
    for i in 0..m
        invariant
            m == tokens@.len(),
            ts == token_views(tokens@),
            n <= i,
            n == letter_tokens(ts.take(i as int)).len(),
    {
        proof {
            assert(ts.take(i as int + 1) =~= ts.take(i as int).push(ts[i as int]));
            lemma_letter_tokens_push(ts.take(i as int), ts[i as int]);
            assert(ts[i as int] == tokens@[i as int]@);
        }
        if letter_token(&tokens[i]) {
            n = n + 1;
        }
    }
    proof {
        assert(ts.take(m as int) =~= ts);
    }
    n
}

/// The number of words of a text under the given policy: the text is split
/// on runs of whitespace, and a token counts unless the policy asks for a
/// letter and the token has none.
pub fn count_words(text: &str, policy: WordPolicy) -> (n: usize)
    ensures
        n == word_count(text@, policy),
{
    let cs = chars_of(text);
    let tokens = split_tokens(&cs);
    match policy {
        WordPolicy::Whitespace => tokens.len(),
        WordPolicy::LetterFiltered => count_letter_tokens(&tokens),
    }
}

/// Dropping the letterless tokens never increases the count: under the
/// letter-filtered policy a text has at most as many words as under the
/// whitespace policy.
pub proof fn lemma_whitespace_count_dominates(t: Seq<char>)
    ensures
        word_count(t, WordPolicy::Whitespace) >= word_count(t, WordPolicy::LetterFiltered),
{
    broadcast use Seq::lemma_filter_len;

}

/// An empty text has no tokens, so no words under either policy.
pub proof fn lemma_empty_count(policy: WordPolicy)
    ensures
        word_count(Seq::empty(), policy) == 0,
{
    broadcast use Seq::lemma_filter_len;

}

proof fn lemma_scan_all_space(s: Seq<char>, done: Seq<Seq<char>>)
    requires
        forall|i: int| 0 <= i < s.len() ==> is_space(#[trigger] s[i]),
    ensures
        scan_tokens(s, done, Seq::empty()) == done,
    decreases s.len(),
{
    if s.len() > 0 {
        assert forall|i: int| 0 <= i < s.drop_first().len() implies is_space(
            #[trigger] s.drop_first()[i],
        ) by {
            assert(s.drop_first()[i] == s[i + 1]);
        }
        lemma_scan_all_space(s.drop_first(), done);
    }
}

/// A text of whitespace alone has no words under either policy.
pub proof fn lemma_all_space_count_zero(s: Seq<char>, policy: WordPolicy)
    requires
        forall|i: int| 0 <= i < s.len() ==> is_space(#[trigger] s[i]),
    ensures
        word_count(s, policy) == 0,
{
    lemma_scan_all_space(s, Seq::empty());
    broadcast use Seq::lemma_filter_len;

}

} // verus!
