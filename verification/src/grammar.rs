use vstd::prelude::*;

use crate::chars::char_is_alphabetic;
use crate::chars::is_alphabetic_char;
use crate::chars::is_whitespace_char;
use crate::cursor::CharPred;

verus! {

/// Accepts exactly the characters that may form a conventional type tag:
/// the alphabetic ones.
pub struct Alphabetic;

impl CharPred for Alphabetic {
    open spec fn test_spec(c: char) -> bool {
        is_alphabetic_char(c)
    }

    fn test(&self, c: char) -> (r: bool) {
        char_is_alphabetic(c)
    }
}

/// Accepts every character but the `)` that closes a scope region.
pub struct InsideScope;

impl CharPred for InsideScope {
    open spec fn test_spec(c: char) -> bool {
        c != ')'
    }

    fn test(&self, c: char) -> (r: bool) {
        c != ')'
    }
}

/// The spec-level description of a classified message: the body text and,
/// when the conventional grammar matched, the type tag, the optional scope
/// and the breaking-change flag.
pub struct MsgModel {
    pub msg: Seq<char>,
    pub tag: Option<Seq<char>>,
    pub scope: Option<Seq<char>>,
    pub breaking: bool,
}

/// Length of the maximal prefix of `s` whose characters all pass `P`.
pub open spec fn run_len<P: CharPred>(s: Seq<char>) -> int
    decreases s.len(),
{
    if s.len() == 0 || !P::test_spec(s[0]) {
        0
    } else {
        1 + run_len::<P>(s.skip(1))
    }
}

/// Length of the leading alphabetic run of `s`: the tag candidate.
pub open spec fn tag_run(s: Seq<char>) -> int {
    run_len::<Alphabetic>(s)
}

/// Length of the run of characters of `s` before its first `)`.
pub open spec fn scope_run(s: Seq<char>) -> int {
    run_len::<InsideScope>(s)
}

/// The plain-message outcome: the whole of `s` as the text, no metadata.
pub open spec fn plain_model(s: Seq<char>) -> MsgModel {
    MsgModel { msg: s, tag: None, scope: None, breaking: false }
}

/// The outcome once the separator `:` has been consumed, `rest` being the
/// characters after it. Success requires one whitespace character there,
/// which is consumed; on anything else the whole original input `s` falls
/// back to a plain message.
pub open spec fn after_sep(
    s: Seq<char>,
    tag: Seq<char>,
    scope: Option<Seq<char>>,
    breaking: bool,
    rest: Seq<char>,
) -> MsgModel {
    if rest.len() >= 1 && is_whitespace_char(rest[0]) {
        MsgModel { msg: rest.skip(1), tag: Some(tag), scope, breaking }
    } else {
        plain_model(s)
    }
}

/// What classifying `s` against the conventional-commit subject grammar
/// yields: `tag(scope)!: text`, with `(scope)` and `!` optional, an empty
/// `()` normalized to an absent scope, and any mismatch falling back to a
/// plain message that carries `s` whole.
pub open spec fn spec_parse(s: Seq<char>) -> MsgModel {
    let t = tag_run(s);
    if t == 0 {
        plain_model(s)
    } else {
        let tag = s.take(t);
        let r = s.skip(t);
        if r.len() == 0 {
            plain_model(s)
        } else if r[0] == ':' {
            after_sep(s, tag, None, false, r.skip(1))
        } else if r[0] == '!' {
            if r.len() >= 2 && r[1] == ':' {
                after_sep(s, tag, None, true, r.skip(2))
            } else {
                plain_model(s)
            }
        } else if r[0] == '(' {
            let k = scope_run(r.skip(1));
            if 1 + k == r.len() {
                plain_model(s)
            } else {
                let scope = if k == 0 {
                    None
                } else {
                    Some(r.skip(1).take(k))
                };
                let tail = r.skip(2 + k);
                if tail.len() >= 1 && tail[0] == ':' {
                    after_sep(s, tag, scope, false, tail.skip(1))
                } else if tail.len() >= 2 && tail[0] == '!' && tail[1] == ':' {
                    after_sep(s, tag, scope, true, tail.skip(2))
                } else {
                    plain_model(s)
                }
            }
        } else {
            plain_model(s)
        }
    }
}

pub proof fn lemma_run_len_bound<P: CharPred>(s: Seq<char>)
    ensures
        0 <= run_len::<P>(s) <= s.len(),
    decreases s.len(),
{
    if s.len() == 0 || !P::test_spec(s[0]) {
    } else {
        lemma_run_len_bound::<P>(s.skip(1));
    }
}

/// The run length is the unique boundary `n` with `P` holding everywhere
/// before it and failing at it (unless `n` is the end of `s`).
pub proof fn lemma_run_len_is<P: CharPred>(s: Seq<char>, n: int)
    requires
        0 <= n <= s.len(),
        forall|i: int| 0 <= i < n ==> #[trigger] P::test_spec(s[i]),
        n < s.len() ==> !P::test_spec(s[n]),
    ensures
        run_len::<P>(s) == n,
    decreases s.len(),
{
    if n == 0 {
    } else {
        assert(P::test_spec(s[0]));
        let s1 = s.skip(1);
        assert forall|i: int| 0 <= i < n - 1 implies #[trigger] P::test_spec(s1[i]) by {
            assert(s1[i] == s[i + 1]);
        }
        if n - 1 < s1.len() {
            assert(s1[n - 1] == s[n]);
        }
        lemma_run_len_is::<P>(s1, n - 1);
    }
}

/// Every character before the run boundary passes `P`, and the character at
/// the boundary, if any, does not.
pub proof fn lemma_run_len_chars<P: CharPred>(s: Seq<char>)
    ensures
        0 <= run_len::<P>(s) <= s.len(),
        forall|i: int| 0 <= i < run_len::<P>(s) ==> #[trigger] P::test_spec(s[i]),
        run_len::<P>(s) < s.len() ==> !P::test_spec(s[run_len::<P>(s)]),
    decreases s.len(),
{
    lemma_run_len_bound::<P>(s);
    if s.len() == 0 || !P::test_spec(s[0]) {
    } else {
        let s1 = s.skip(1);
        let n = run_len::<P>(s);
        lemma_run_len_chars::<P>(s1);
        assert forall|i: int| 0 <= i < n implies #[trigger] P::test_spec(s[i]) by {
            if i > 0 {
                assert(P::test_spec(s1[i - 1]));
                assert(s1[i - 1] == s[i]);
            }
        }
        if n < s.len() {
            assert(s1[n - 1] == s[n]);
        }
    }
}

/// Fallback fidelity: whenever the grammar does not credit the input with a
/// tag, the resulting text is the whole input, character for character.
pub proof fn lemma_fallback_fidelity(s: Seq<char>)
    ensures
        spec_parse(s).tag is None ==> spec_parse(s).msg == s,
{
}

/// A tag is only ever the literal leading alphabetic run of the input. In
/// particular, re-parsing the text of an earlier result is never credited
/// with a tag that was not present, character for character, at its start.
pub proof fn lemma_tag_is_literal_prefix(s: Seq<char>)
    ensures
        spec_parse(s).tag matches Some(tag) ==> {
            &&& 0 < tag.len() <= s.len()
            &&& tag == s.take(tag.len() as int)
            &&& forall|i: int| 0 <= i < tag.len() ==> #[trigger] is_alphabetic_char(tag[i])
        },
{
    lemma_run_len_chars::<Alphabetic>(s);
    let t = tag_run(s);
    if spec_parse(s).tag is Some {
        let tag = spec_parse(s).tag->Some_0;
        assert(tag == s.take(t));
        assert(tag.len() == t);
        assert forall|i: int| 0 <= i < tag.len() implies #[trigger] is_alphabetic_char(tag[i]) by {
            assert(tag[i] == s[i]);
            assert(Alphabetic::test_spec(s[i]));
        }
    }
}

} // verus!
