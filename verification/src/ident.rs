use vstd::prelude::*;
use crate::error::Ciboulette2SqlError;
use crate::text::push_char;

verus! {

/// The characters that stand for `c` inside a quoted identifier: a double quote is doubled.
pub open spec fn escape_char(c: char) -> Seq<char> {
    if c == '"' { seq!['"', '"'] } else { seq![c] }
}

/// `s` with every double quote doubled.
pub open spec fn escape_quotes(s: Seq<char>) -> Seq<char>
    decreases s.len(),
{
    if s.len() == 0 {
        Seq::empty()
    } else {
        escape_quotes(s.drop_last()) + escape_char(s.last())
    }
}

/// `s` written as a PostgreSQL quoted identifier.
pub open spec fn quoted(s: Seq<char>) -> Seq<char> {
    seq!['"'] + escape_quotes(s) + seq!['"']
}

/// How a SQL lexer reads the body of a quoted identifier, its opening quote already read:
/// two double quotes stand for one, a single one closes the identifier.
/// Gives the identifier and what follows it, or `None` when it is never closed.
pub open spec fn lex_quoted_body(t: Seq<char>) -> Option<(Seq<char>, Seq<char>)>
    decreases t.len(),
{
    if t.len() == 0 {
        None
    } else if t[0] == '"' {
        if t.len() >= 2 && t[1] == '"' {
            match lex_quoted_body(t.skip(2)) {
                Some((id, rest)) => Some((seq!['"'] + id, rest)),
                None => None,
            }
        } else {
            Some((Seq::empty(), t.skip(1)))
        }
    } else {
        match lex_quoted_body(t.skip(1)) {
            Some((id, rest)) => Some((seq![t[0]] + id, rest)),
            None => None,
        }
    }
}

/// How a SQL lexer reads a quoted identifier at the start of `t`.
pub open spec fn lex_quoted(t: Seq<char>) -> Option<(Seq<char>, Seq<char>)> {
    if t.len() > 0 && t[0] == '"' {
        lex_quoted_body(t.skip(1))
    } else {
        None
    }
}

proof fn lemma_escape_quotes_add(a: Seq<char>, b: Seq<char>)
    ensures
        escape_quotes(a + b) == escape_quotes(a) + escape_quotes(b),
    decreases b.len(),
{
    if b.len() == 0 {
        assert(a + b =~= a);
        assert(escape_quotes(a) + escape_quotes(b) =~= escape_quotes(a));
    } else {
        lemma_escape_quotes_add(a, b.drop_last());
        assert((a + b).drop_last() =~= a + b.drop_last());
        assert(escape_quotes(a) + escape_quotes(b) =~= escape_quotes(a) + escape_quotes(
            b.drop_last(),
        ) + escape_char(b.last()));
    }
}

proof fn lemma_escape_quotes_first(s: Seq<char>)
    requires
        s.len() > 0,
    ensures
        escape_quotes(s) == escape_char(s[0]) + escape_quotes(s.skip(1)),
{
    lemma_escape_quotes_add(seq![s[0]], s.skip(1));
    assert(seq![s[0]] + s.skip(1) =~= s);
    assert(seq![s[0]].drop_last() =~= Seq::<char>::empty());
    assert(escape_quotes(Seq::<char>::empty()) == Seq::<char>::empty());
    assert(escape_quotes(seq![s[0]]) =~= escape_quotes(Seq::<char>::empty()) + escape_char(s[0]));
}

proof fn lemma_lex_body(s: Seq<char>, rest: Seq<char>)
    requires
        !(rest.len() > 0 && rest[0] == '"'),
    ensures
        lex_quoted_body(escape_quotes(s) + seq!['"'] + rest) == Some((s, rest)),
    decreases s.len(),
{
    let t = escape_quotes(s) + seq!['"'] + rest;
    if s.len() == 0 {
        assert(t =~= seq!['"'] + rest);
        assert(t.skip(1) =~= rest);
    } else {
        lemma_escape_quotes_first(s);
        lemma_lex_body(s.skip(1), rest);
        let u = escape_quotes(s.skip(1)) + seq!['"'] + rest;
        if s[0] == '"' {
            assert(t =~= seq!['"', '"'] + u);
            assert(t.skip(2) =~= u);
            assert(seq!['"'] + s.skip(1) =~= s);
        } else {
            assert(t =~= seq![s[0]] + u);
            assert(t.skip(1) =~= u);
            assert(seq![s[0]] + s.skip(1) =~= s);
        }
    }
}

/// A quoted identifier is read back as exactly the identifier it was written from, and
/// the lexer stops at its closing quote, whatever the identifier holds, as long as the
/// text after it does not start with a double quote.
pub proof fn lemma_quoted_roundtrip(s: Seq<char>, rest: Seq<char>)
    requires
        !(rest.len() > 0 && rest[0] == '"'),
    ensures
        lex_quoted(quoted(s) + rest) == Some((s, rest)),
{
    lemma_lex_body(s, rest);
    let t = quoted(s) + rest;
    assert(t.skip(1) =~= escape_quotes(s) + seq!['"'] + rest);
}

/// An identifier that can be written as a quoted PostgreSQL identifier: it holds no NUL.
pub struct Ciboulette2PostgresSafeIdent {
    inner: String,
}

impl View for Ciboulette2PostgresSafeIdent {
    type V = Seq<char>;

    closed spec fn view(&self) -> Seq<char> {
        self.inner@
    }
}

impl Ciboulette2PostgresSafeIdent {
    #[verifier::type_invariant]
    spec fn no_nul(self) -> bool {
        !self.inner@.contains('\0')
    }

    /// Checks that `s` holds no NUL character.
    pub fn try_from_str(s: &str) -> (res: Result<Self, Ciboulette2SqlError>)
        ensures
            res is Ok <==> !s@.contains('\0'),
            res matches Ok(id) ==> id@ == s@,
            res matches Err(e) ==> e matches Ciboulette2SqlError::NullCharIdent(m) && m@ == s@,
    {
        let n = s.unicode_len();
        let mut i: usize = 0;
        while i < n
            invariant
                n == s@.len(),
                i <= n,
                forall|j: int| 0 <= j < i ==> s@[j] != '\0',
            decreases n - i,
        {
            if s.get_char(i) == '\0' {
                return Err(Ciboulette2SqlError::NullCharIdent(String::from_str(s)));
            }
            i = i + 1;
        }
        Ok(Ciboulette2PostgresSafeIdent { inner: String::from_str(s) })
    }

    /// The identifier as a string slice.
    pub fn as_str(&self) -> (r: &str)
        ensures
            r@ == self@,
    {
        self.inner.as_str()
    }

    /// A copy of the identifier.
    pub fn duplicate(&self) -> (r: Self)
        ensures
            r == *self,
    {
        proof {
            use_type_invariant(self);
        }
        Ciboulette2PostgresSafeIdent { inner: self.inner.clone() }
    }

    /// The identifier framed by `prefix` and `suffix`, which hold no NUL.
    pub fn affixed(&self, prefix: &str, suffix: &str) -> (r: Self)
        requires
            !prefix@.contains('\0'),
            !suffix@.contains('\0'),
        ensures
            r@ == prefix@ + self@ + suffix@,
    {
        proof {
            use_type_invariant(self);
        }
        let mut inner = String::from_str(prefix);
        inner.append(self.inner.as_str());
        inner.append(suffix);
        proof {
            assert forall|i: int| 0 <= i < inner@.len() implies inner@[i] != '\0' by {
                if i < prefix@.len() {
                    assert(inner@[i] == prefix@[i]);
                } else if i < prefix@.len() + self@.len() {
                    assert(inner@[i] == self@[i - prefix@.len()]);
                } else {
                    assert(inner@[i] == suffix@[i - prefix@.len() - self@.len()]);
                }
            }
        }
        Ciboulette2PostgresSafeIdent { inner }
    }

    /// Appends the identifier, quoted, to `buf`.
    pub fn write_quoted(&self, buf: &mut String)
        ensures
            final(buf)@ == old(buf)@ + quoted(self@),
    {
        push_char(buf, '"');
        let s = self.inner.as_str();
        let n = s.unicode_len();
        let ghost start = buf@;
        let mut i: usize = 0;
        while i < n
            invariant
                n == s@.len(),
                s@ == self@,
                i <= n,
                buf@ == start + escape_quotes(s@.take(i as int)),
            decreases n - i,
        {
            let c = s.get_char(i);
            push_char(buf, c);
            if c == '"' {
                push_char(buf, '"');
            }
            proof {
                assert(s@.take(i + 1).drop_last() =~= s@.take(i as int));
            }
            i = i + 1;
        }
        push_char(buf, '"');
        proof {
            assert(s@.take(n as int) =~= s@);
        }
    }
}

} // verus!
