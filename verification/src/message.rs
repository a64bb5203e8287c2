use vstd::prelude::*;
use vstd::string::StringExecFns;

use crate::chars::char_is_whitespace;
use crate::chars::is_whitespace_char;
use crate::cursor::CharPred;
use crate::cursor::Cursor;
use crate::grammar::Alphabetic;
use crate::grammar::InsideScope;
use crate::grammar::MsgModel;
use crate::grammar::lemma_fallback_fidelity;
use crate::grammar::lemma_run_len_is;
use crate::grammar::plain_model;
use crate::grammar::scope_run;
use crate::grammar::spec_parse;

verus! {

broadcast use crate::cursor::Cursor::lemma_wf_bounds;

/// A classified commit message: the body text and, when the conventional
/// grammar matched, the type tag, the optional scope and the
/// breaking-change flag.
#[derive(Debug)]
pub struct MsgDesc {
    pub msg: String,
    pub conv_tag: Option<String>,
    pub conv_scope: Option<String>,
    pub is_breaking: bool,
}

/// The views of the strings under an optional string.
pub open spec fn opt_view(o: Option<String>) -> Option<Seq<char>> {
    match o {
        Some(x) => Some(x@),
        None => None,
    }
}

impl View for MsgDesc {
    type V = MsgModel;

    open spec fn view(&self) -> MsgModel {
        MsgModel {
            msg: self.msg@,
            tag: opt_view(self.conv_tag),
            scope: opt_view(self.conv_scope),
            breaking: self.is_breaking,
        }
    }
}

impl MsgDesc {
    /// A plain message: the whole text, no conventional metadata.
    pub fn just_msg(msg: String) -> (r: MsgDesc)
        ensures
            r@ == plain_model(msg@),
    {
        MsgDesc { msg, conv_tag: None, conv_scope: None, is_breaking: false }
    }

    /// The same message, credited with the type tag `tag`.
    pub fn with_tag(self, tag: String) -> (r: MsgDesc)
        ensures
            r@ == (MsgModel { tag: Some(tag@), ..self@ }),
    {
        MsgDesc { conv_tag: Some(tag), ..self }
    }

    /// The same message, credited with the type tag `tag` and the scope
    /// `scope`.
    pub fn with_tag_scope(self, tag: String, scope: String) -> (r: MsgDesc)
        ensures
            r@ == (MsgModel { tag: Some(tag@), scope: Some(scope@), ..self@ }),
    {
        MsgDesc { conv_tag: Some(tag), conv_scope: Some(scope), ..self }
    }

    /// The same message, marked as a breaking change.
    pub fn breaking(self) -> (r: MsgDesc)
        ensures
            r@ == (MsgModel { breaking: true, ..self@ }),
    {
        MsgDesc { is_breaking: true, ..self }
    }

    /// The body text.
    pub fn msg(&self) -> (r: &str)
        ensures
            r@ == self@.msg,
    {
        self.msg.as_str()
    }

    /// The conventional type tag, when one was recognized.
    pub fn tag(&self) -> (r: Option<&str>)
        ensures
            (r is Some) == (self@.tag is Some),
            r matches Some(t) ==> self@.tag == Some(t@),
    {
        match &self.conv_tag {
            Some(t) => Some(t.as_str()),
            None => None,
        }
    }

    /// The scope, when a non-empty one was recognized.
    pub fn scope(&self) -> (r: Option<&str>)
        ensures
            (r is Some) == (self@.scope is Some),
            r matches Some(sc) ==> self@.scope == Some(sc@),
    {
        match &self.conv_scope {
            Some(sc) => Some(sc.as_str()),
            None => None,
        }
    }

    /// Whether a breaking-change marker was recognized.
    pub fn is_breaking(&self) -> (r: bool)
        ensures
            r == self@.breaking,
    {
        self.is_breaking
    }

    /// Whether the message matched the conventional grammar at all.
    pub fn is_conventional(&self) -> (r: bool)
        ensures
            r == (self@.tag is Some),
    {
        self.conv_tag.is_some()
    }
}

/// The separator step, entered right after a `:` was consumed: succeeds
/// exactly when one whitespace character follows, consuming it and draining
/// the body; on anything else it consumes nothing and the caller falls back.
fn parse_conventional_sep<'a>(it: &mut Cursor<'a>) -> (r: Option<String>)
    requires
        old(it).wf(),
    ensures
        final(it).wf(),
        final(it).input() == old(it).input(),
        final(it).saved() == old(it).saved(),
        r matches Some(m) ==> {
            &&& old(it).position() < old(it).input().len()
            &&& is_whitespace_char(old(it).input()[old(it).position()])
            &&& m@ == old(it).input().skip(old(it).position() + 1)
        },
        r is None ==> {
            &&& (old(it).position() == old(it).input().len() || !is_whitespace_char(
                old(it).input()[old(it).position()],
            ))
            &&& final(it).position() == old(it).position()
        },
{
    match it.peek() {
        Some(c) => {
            if char_is_whitespace(c) {
                it.advance();
                let body = it.drain_rest();
                proof {
                    assert(body@ =~= old(it).input().skip(old(it).position() + 1));
                }
                Some(body)
            } else {
                None
            }
        },
        None => None,
    }
}

/// The lossless fallback: rewind to the checkpoint taken right after the tag
/// candidate and rebuild the plain message as the tag text followed by every
/// character after the checkpoint.
fn fallback_plain<'a>(tag: String, it: &mut Cursor<'a>) -> (r: MsgDesc)
    requires
        old(it).wf(),
    ensures
        final(it).wf(),
        r@ == plain_model(tag@ + old(it).input().skip(old(it).saved())),
{
    it.rewind();
    let rest = it.drain_rest();
    proof {
        assert(rest@ =~= old(it).input().skip(old(it).saved()));
    }
    MsgDesc::just_msg(tag.concat(rest.as_str()))
}

/// Classify `input` against the conventional-commit subject grammar.
///
/// The result is exactly what [`spec_parse`] says of the input's characters;
/// in particular, whenever no tag is recognized, the text carried back is
/// the whole input, unchanged.
pub fn parse_commit_msg(input: &str) -> (r: MsgDesc)
    ensures
        r@ == spec_parse(input@),
        r@.tag is None ==> r@.msg == input@,
{
    let ghost s = input@;
    let mut it = Cursor::new(input);
    let tag = it.take_while(&Alphabetic);
    proof {
        lemma_fallback_fidelity(s);
        lemma_run_len_is::<Alphabetic>(s, it.position());
        assert(tag@ =~= s.take(it.position()));
    }
    if tag.as_str().is_empty() {
        let body = it.drain_rest();
        proof {
            assert(body@ =~= s);
        }
        return MsgDesc::just_msg(body);
    }
    it.checkpoint();
    let ghost t = it.position();
    let ghost r1 = s.skip(t);
    match it.peek() {
        None => {
            proof {
                assert(tag@ =~= s);
            }
            MsgDesc::just_msg(tag)
        },
        Some(c0) => {
            proof {
                assert(r1[0] == s[t]);
            }
            if c0 == ':' {
                it.advance();
                match parse_conventional_sep(&mut it) {
                    Some(body) => {
                        proof {
                            assert(r1.skip(1) =~= s.skip(t + 1));
                            assert(body@ =~= r1.skip(1).skip(1));
                        }
                        MsgDesc {
                            msg: body,
                            conv_tag: Some(tag),
                            conv_scope: None,
                            is_breaking: false,
                        }
                    },
                    None => {
                        proof {
                            assert(r1.skip(1) =~= s.skip(t + 1));
                            assert(tag@ + s.skip(t) =~= s);
                        }
                        fallback_plain(tag, &mut it)
                    },
                }
            } else if c0 == '!' {
                it.advance();
                let c1 = it.peek();
                match c1 {
                    Some(c1v) if c1v == ':' => {
                        it.advance();
                        proof {
                            assert(r1[1] == s[t + 1]);
                        }
                        match parse_conventional_sep(&mut it) {
                            Some(body) => {
                                proof {
                                    assert(r1.skip(2) =~= s.skip(t + 2));
                                    assert(body@ =~= r1.skip(2).skip(1));
                                }
                                MsgDesc {
                                    msg: body,
                                    conv_tag: Some(tag),
                                    conv_scope: None,
                                    is_breaking: true,
                                }
                            },
                            None => {
                                proof {
                                    assert(r1.skip(2) =~= s.skip(t + 2));
                                    assert(tag@ + s.skip(t) =~= s);
                                }
                                fallback_plain(tag, &mut it)
                            },
                        }
                    },
                    _ => {
                        proof {
                            if it.position() < s.len() {
                                assert(r1[1] == s[t + 1]);
                            }
                            assert(tag@ + s.skip(t) =~= s);
                        }
                        fallback_plain(tag, &mut it)
                    },
                }
            } else if c0 == '(' {
                it.advance();
                let scope_txt = it.take_while(&InsideScope);
                let ghost sc = scope_txt@;
                let ghost k = it.position() - (t + 1);
                proof {
                    assert forall|i: int| 0 <= i < k implies #[trigger] InsideScope::test_spec(
                        r1.skip(1)[i],
                    ) by {
                        assert(r1.skip(1)[i] == s[t + 1 + i]);
                        assert(InsideScope::test_spec(s[t + 1 + i]));
                    }
                    if k < r1.skip(1).len() {
                        assert(r1.skip(1)[k] == s[t + 1 + k]);
                    }
                    lemma_run_len_is::<InsideScope>(r1.skip(1), k);
                    assert(scope_run(r1.skip(1)) == k);
                    assert(sc =~= r1.skip(1).take(k));
                }
                match it.peek() {
                    None => {
                        proof {
                            assert(1 + k == r1.len());
                            assert(tag@ + s.skip(t) =~= s);
                        }
                        fallback_plain(tag, &mut it)
                    },
                    Some(_) => {
                        it.advance();
                        let ghost tail = r1.skip(2 + k);
                        proof {
                            assert(tail =~= s.skip(t + 2 + k));
                        }
                        let conv_scope = if scope_txt.as_str().is_empty() {
                            None
                        } else {
                            Some(scope_txt)
                        };
                        proof {
                            assert(opt_view(conv_scope) == (if k == 0 {
                                None::<Seq<char>>
                            } else {
                                Some(r1.skip(1).take(k))
                            }));
                        }
                        match it.peek() {
                            None => {
                                proof {
                                    assert(tag@ + s.skip(t) =~= s);
                                }
                                fallback_plain(tag, &mut it)
                            },
                            Some(c1) => {
                                proof {
                                    assert(tail[0] == s[t + 2 + k]);
                                }
                                if c1 == ':' {
                                    it.advance();
                                    match parse_conventional_sep(&mut it) {
                                        Some(body) => {
                                            proof {
                                                assert(body@ =~= tail.skip(1).skip(1));
                                            }
                                            MsgDesc {
                                                msg: body,
                                                conv_tag: Some(tag),
                                                conv_scope,
                                                is_breaking: false,
                                            }
                                        },
                                        None => {
                                            proof {
                                                assert(tail.skip(1) =~= s.skip(t + 3 + k));
                                                assert(tag@ + s.skip(t) =~= s);
                                            }
                                            fallback_plain(tag, &mut it)
                                        },
                                    }
                                } else if c1 == '!' {
                                    it.advance();
                                    match it.peek() {
                                        Some(c2) if c2 == ':' => {
                                            it.advance();
                                            proof {
                                                assert(tail[1] == s[t + 3 + k]);
                                            }
                                            match parse_conventional_sep(&mut it) {
                                                Some(body) => {
                                                    proof {
                                                        assert(body@ =~= tail.skip(2).skip(1));
                                                    }
                                                    MsgDesc {
                                                        msg: body,
                                                        conv_tag: Some(tag),
                                                        conv_scope,
                                                        is_breaking: true,
                                                    }
                                                },
                                                None => {
                                                    proof {
                                                        assert(tail.skip(2) =~= s.skip(
                                                            t + 4 + k,
                                                        ));
                                                        assert(tag@ + s.skip(t) =~= s);
                                                    }
                                                    fallback_plain(tag, &mut it)
                                                },
                                            }
                                        },
                                        _ => {
                                            proof {
                                                if it.position() < s.len() {
                                                    assert(tail[1] == s[t + 3 + k]);
                                                }
                                                assert(tag@ + s.skip(t) =~= s);
                                            }
                                            fallback_plain(tag, &mut it)
                                        },
                                    }
                                } else {
                                    proof {
                                        assert(tag@ + s.skip(t) =~= s);
                                    }
                                    fallback_plain(tag, &mut it)
                                }
                            },
                        }
                    },
                }
            } else {
                proof {
                    assert(tag@ + s.skip(t) =~= s);
                }
                fallback_plain(tag, &mut it)
            }
        },
    }
}

impl PartialEq for MsgDesc {
    fn eq(&self, other: &MsgDesc) -> (r: bool) {
        let tag_eq = match (&self.conv_tag, &other.conv_tag) {
            (Some(a), Some(b)) => *a == *b,
            (None, None) => true,
            _ => false,
        };
        let scope_eq = match (&self.conv_scope, &other.conv_scope) {
            (Some(a), Some(b)) => *a == *b,
            (None, None) => true,
            _ => false,
        };
        self.msg == other.msg && tag_eq && scope_eq && self.is_breaking == other.is_breaking
    }
}

impl vstd::std_specs::cmp::PartialEqSpecImpl for MsgDesc {
    open spec fn obeys_eq_spec() -> bool {
        true
    }

    open spec fn eq_spec(&self, other: &MsgDesc) -> bool {
        self@ == other@
    }
}

} // verus!
