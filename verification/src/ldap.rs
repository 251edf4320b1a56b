//! The LDAP bind-search-bind backend: filter-value escaping, placeholder
//! substitution, and the decision rules around the directory operations. The
//! network operations themselves run outside the library and report their
//! outcomes back in.

use vstd::prelude::*;

use crate::auth::AuthError;
use crate::strutil::push_char;

verus! {

broadcast use vstd::string::group_string_axioms;

/// The escaped form of one character.
pub open spec fn spec_escape_char(c: char) -> Seq<char> {
    if c == '\\' {
        seq!['\\', '5', 'c']
    } else if c == '*' {
        seq!['\\', '2', 'a']
    } else if c == '(' {
        seq!['\\', '2', '8']
    } else if c == ')' {
        seq!['\\', '2', '9']
    } else if c == '\u{0}' {
        seq!['\\', '0', '0']
    } else {
        seq![c]
    }
}

/// The escaped form of a whole value.
pub open spec fn spec_escape_value(s: Seq<char>) -> Seq<char>
    decreases s.len(),
{
    if s.len() == 0 {
        Seq::<char>::empty()
    } else {
        spec_escape_value(s.drop_last()) + spec_escape_char(s.last())
    }
}

/// The template with every `{}` replaced by `value`, scanning left to right.
pub open spec fn spec_substitute(t: Seq<char>, value: Seq<char>) -> Seq<char>
    decreases t.len(),
{
    if t.len() >= 2 && t[0] == '{' && t[1] == '}' {
        value + spec_substitute(t.skip(2), value)
    } else if t.len() == 0 {
        Seq::<char>::empty()
    } else {
        seq![t[0]] + spec_substitute(t.skip(1), value)
    }
}

/// The filter grammar's structural characters: a value must never add one of
/// these in raw form. The backslash is not among them, since escaping itself
/// writes backslashes.
pub open spec fn spec_is_raw_delimiter(c: char) -> bool {
    c == '*' || c == '(' || c == ')' || c == '\u{0}'
}

/// How many raw delimiter characters a sequence holds.
pub open spec fn spec_count_delimiters(s: Seq<char>) -> nat
    decreases s.len(),
{
    if s.len() == 0 {
        0
    } else {
        (if spec_is_raw_delimiter(s[0]) {
            1nat
        } else {
            0nat
        }) + spec_count_delimiters(s.skip(1))
    }
}

proof fn lemma_count_delimiters_append(a: Seq<char>, b: Seq<char>)
    ensures
        spec_count_delimiters(a + b) == spec_count_delimiters(a) + spec_count_delimiters(b),
    decreases a.len(),
{
    if a.len() == 0 {
        assert(a + b =~= b);
    } else {
        assert((a + b).skip(1) =~= a.skip(1) + b);
        lemma_count_delimiters_append(a.skip(1), b);
    }
}

proof fn lemma_escape_char_no_raw_delimiters(c: char)
    ensures
        forall|i: int|
            0 <= i < spec_escape_char(c).len() ==> !spec_is_raw_delimiter(
                #[trigger] spec_escape_char(c)[i],
            ),
{
}

proof fn lemma_count_zero_of_clean(s: Seq<char>)
    requires
        forall|i: int|
            0 <= i < s.len() ==> !spec_is_raw_delimiter(#[trigger] s[i]),
    ensures
        spec_count_delimiters(s) == 0,
    decreases s.len(),
{
    if s.len() > 0 {
        assert(forall|i: int|
            0 <= i < s.skip(1).len() ==> #[trigger] s.skip(1)[i] == s[i + 1]);
        lemma_count_zero_of_clean(s.skip(1));
    }
}

/// No raw filter delimiter survives escaping: the escaped value contains no
/// `*`, `(`, `)` or NUL at any position, whatever the input.
pub proof fn lemma_escape_excludes_raw_delimiters(s: Seq<char>)
    ensures
        forall|i: int|
            0 <= i < spec_escape_value(s).len() ==> !spec_is_raw_delimiter(
                #[trigger] spec_escape_value(s)[i],
            ),
    decreases s.len(),
{
    if s.len() > 0 {
        lemma_escape_excludes_raw_delimiters(s.drop_last());
        lemma_escape_char_no_raw_delimiters(s.last());
        let a = spec_escape_value(s.drop_last());
        let b = spec_escape_char(s.last());
        assert(spec_escape_value(s) == a + b);
        assert forall|i: int| 0 <= i < spec_escape_value(s).len() implies !spec_is_raw_delimiter(
            #[trigger] spec_escape_value(s)[i],
        ) by {
            if i < a.len() {
                assert(spec_escape_value(s)[i] == a[i]);
            } else {
                assert(spec_escape_value(s)[i] == b[i - a.len()]);
            }
        }
    }
}

/// Substituting a delimiter-free value into a template adds no raw
/// delimiter: every `*`, `(`, `)` and NUL of the substituted filter was
/// already in the template.
pub proof fn lemma_substitute_preserves_delimiter_count(t: Seq<char>, value: Seq<char>)
    requires
        spec_count_delimiters(value) == 0,
    ensures
        spec_count_delimiters(spec_substitute(t, value)) == spec_count_delimiters(t),
    decreases t.len(),
{
    if t.len() >= 2 && t[0] == '{' && t[1] == '}' {
        lemma_substitute_preserves_delimiter_count(t.skip(2), value);
        lemma_count_delimiters_append(value, spec_substitute(t.skip(2), value));
        assert(t.skip(1).skip(1) =~= t.skip(2));
        assert(t.skip(1)[0] == t[1]);
        assert(spec_count_delimiters(t) == spec_count_delimiters(t.skip(1)));
        assert(spec_count_delimiters(t.skip(1)) == spec_count_delimiters(t.skip(1).skip(1)));
        assert(spec_count_delimiters(t) == spec_count_delimiters(t.skip(2)));
    } else if t.len() > 0 {
        lemma_substitute_preserves_delimiter_count(t.skip(1), value);
        let single = seq![t[0]];
        lemma_count_delimiters_append(single, spec_substitute(t.skip(1), value));
        assert(single.skip(1) =~= Seq::<char>::empty());
        assert(spec_count_delimiters(single.skip(1)) == 0);
        assert(single[0] == t[0]);
        assert(spec_count_delimiters(single) == (if spec_is_raw_delimiter(t[0]) {
            1nat
        } else {
            0nat
        }));
        assert(spec_substitute(t, value) == single + spec_substitute(t.skip(1), value));
    }
}

/// Injection safety, end to end: whatever the username, the substituted
/// filter holds exactly the raw `*`, `(`, `)` and NUL characters that the
/// configured template already had; the username contributes only escaped
/// forms.
pub proof fn lemma_substituted_filter_safe(t: Seq<char>, username: Seq<char>)
    ensures
        spec_count_delimiters(spec_substitute(t, spec_escape_value(username)))
            == spec_count_delimiters(t),
{
    lemma_escape_excludes_raw_delimiters(username);
    lemma_count_zero_of_clean(spec_escape_value(username));
    lemma_substitute_preserves_delimiter_count(t, spec_escape_value(username));
}

/// The bind-search-bind backend's settings.
#[derive(Debug, Clone, PartialEq)]
pub struct LdapAuthenticator {
    pub url: String,
    pub base_dn: String,
    pub bind_dn: Option<String>,
    pub bind_password: Option<String>,
    pub user_filter: String,
}

/// What to do with the directory's search answer.
#[derive(Debug, Clone, Copy, PartialEq, Eq, Structural)]
pub enum LdapSearchDecision {
    RejectNoMatch,
    RejectAmbiguous,
    VerifyBind,
}

impl LdapAuthenticator {
    pub fn new(
        url: &str,
        base_dn: &str,
        bind_dn: Option<String>,
        bind_password: Option<String>,
        user_filter: &str,
    ) -> (r: Self)
        ensures
            r.url@ == url@,
            r.base_dn@ == base_dn@,
            r.bind_dn == bind_dn,
            r.bind_password == bind_password,
            r.user_filter@ == user_filter@,
    {
        LdapAuthenticator {
            url: String::from_str(url),
            base_dn: String::from_str(base_dn),
            bind_dn,
            bind_password,
            user_filter: String::from_str(user_filter),
        }
    }

    /// Escapes a value for use inside a search filter, replacing `\` `*` `(`
    /// `)` and NUL by their two-digit escape forms.
    pub fn escape_filter_value(value: &str) -> (r: String)
        ensures
            r@ == spec_escape_value(value@),
    {
        let n = value.unicode_len();
        let mut out = String::new();
        assert(out@ =~= spec_escape_value(value@.take(0)));
        for i in 0..n
            invariant
                n == value@.len(),
                out@ == spec_escape_value(value@.take(i as int)),
        {
            let c = value.get_char(i);
            proof {
                assert(value@.take(i + 1).drop_last() =~= value@.take(i as int));
                assert(value@.take(i + 1).last() == value@[i as int]);
            }
            if c == '\\' {
                out.append("\\5c");
                proof {
                    reveal_strlit("\\5c");
                    assert(out@ =~= spec_escape_value(value@.take(i + 1)));
                }
            } else if c == '*' {
                out.append("\\2a");
                proof {
                    reveal_strlit("\\2a");
                    assert(out@ =~= spec_escape_value(value@.take(i + 1)));
                }
            } else if c == '(' {
                out.append("\\28");
                proof {
                    reveal_strlit("\\28");
                    assert(out@ =~= spec_escape_value(value@.take(i + 1)));
                }
            } else if c == ')' {
                out.append("\\29");
                proof {
                    reveal_strlit("\\29");
                    assert(out@ =~= spec_escape_value(value@.take(i + 1)));
                }
            } else if c == '\u{0}' {
                out.append("\\00");
                proof {
                    reveal_strlit("\\00");
                    assert(out@ =~= spec_escape_value(value@.take(i + 1)));
                }
            } else {
                push_char(&mut out, c);
                proof {
                    assert(out@ =~= spec_escape_value(value@.take(i + 1)));
                }
            }
        }
        proof {
            assert(value@.take(n as int) =~= value@);
        }
        out
    }

    /// The search filter for a username: the configured template with every
    /// `{}` placeholder replaced by the escaped username.
    pub fn substituted_filter(&self, username: &str) -> (r: String)
        ensures
            r@ == spec_substitute(self.user_filter@, spec_escape_value(username@)),
    {
        let safe = Self::escape_filter_value(username);
        let t = self.user_filter.as_str();
        let n = t.unicode_len();
        let mut out = String::new();
        let mut i: usize = 0;
        let ghost value = safe@;
        proof {
            assert(t@.skip(0) =~= t@);
        }
        while i < n
            invariant
                n == t@.len(),
                i <= n,
                safe@ == value,
                out@ + spec_substitute(t@.skip(i as int), value) == spec_substitute(t@, value),
            decreases n - i,
        {
            let c = t.get_char(i);
            if c == '{' && i + 1 < n && t.get_char(i + 1) == '}' {
                out.append(safe.as_str());
                proof {
                    assert(t@.skip(i as int)[0] == '{');
                    assert(t@.skip(i as int)[1] == '}');
                    assert(t@.skip(i as int).skip(2) =~= t@.skip(i + 2));
                    assert(spec_substitute(t@.skip(i as int), value) == value + spec_substitute(
                        t@.skip(i + 2),
                        value,
                    ));
                    assert(out@ + spec_substitute(t@.skip(i + 2), value) == spec_substitute(
                        t@,
                        value,
                    ));
                }
                i = i + 2;
            } else {
                push_char(&mut out, c);
                proof {
                    assert(t@.skip(i as int)[0] == c);
                    assert(t@.skip(i as int).skip(1) =~= t@.skip(i + 1));
                    if t@.skip(i as int).len() >= 2 && t@.skip(i as int)[0] == '{' && t@.skip(
                        i as int,
                    )[1] == '}' {
                        assert(false);
                    }
                    assert(spec_substitute(t@.skip(i as int), value) == seq![c] + spec_substitute(
                        t@.skip(i + 1),
                        value,
                    ));
                    assert(out@ + spec_substitute(t@.skip(i + 1), value) == spec_substitute(
                        t@,
                        value,
                    ));
                }
                i = i + 1;
            }
        }
        proof {
            assert(t@.skip(n as int) =~= Seq::<char>::empty());
            assert(spec_substitute(t@.skip(n as int), value) =~= Seq::<char>::empty());
            assert(out@ =~= out@ + spec_substitute(t@.skip(n as int), value));
        }
        out
    }

    /// The initial bind's outcome gates everything: a failure is an
    /// infrastructure error, never a credential decision.
    pub fn decide_initial_bind(bind_succeeded: bool) -> (r: Result<(), AuthError>)
        ensures
            bind_succeeded <==> r is Ok,
            r matches Err(e) ==> e == AuthError::BindFailed,
    {
        if bind_succeeded {
            Ok(())
        } else {
            Err(AuthError::BindFailed)
        }
    }

    /// The rule on search results: zero matches or more than one reject the
    /// user; exactly one match proceeds to the verifying bind.
    pub fn decide_search(result_count: usize) -> (r: LdapSearchDecision)
        ensures
            result_count == 0 ==> r == LdapSearchDecision::RejectNoMatch,
            result_count == 1 ==> r == LdapSearchDecision::VerifyBind,
            result_count > 1 ==> r == LdapSearchDecision::RejectAmbiguous,
    {
        if result_count == 0 {
            LdapSearchDecision::RejectNoMatch
        } else if result_count == 1 {
            LdapSearchDecision::VerifyBind
        } else {
            LdapSearchDecision::RejectAmbiguous
        }
    }

    /// The verifying bind's outcome: success accepts, a refusal rejects, and
    /// a network error during this phase also rejects (it is treated as a
    /// credential failure, not an infrastructure one).
    pub fn decide_verify_bind(bind_outcome: Option<bool>) -> (r: Result<bool, AuthError>)
        ensures
            r == Ok::<bool, AuthError>(bind_outcome == Some(true)),
    {
        match bind_outcome {
            Some(ok) => Ok(ok),
            None => Ok(false),
        }
    }
}

} // verus!
