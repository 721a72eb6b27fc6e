use vstd::prelude::*;
use vstd::string::*;

verus! {

/// A character that may continue an identifier, a keyword or a number.
pub open spec fn is_word_char(c: char) -> bool {
    ('a' <= c && c <= 'z') || ('A' <= c && c <= 'Z') || ('0' <= c && c <= '9') || c == '_'
}

/// Two tokens need a space between them when both touching characters are word characters.
pub open spec fn needs_space(out: Seq<char>, token: Seq<char>) -> bool {
    out.len() > 0 && token.len() > 0 && is_word_char(out.last()) && is_word_char(token[0])
}

/// The text after appending one token to `out`.
pub open spec fn push_token(out: Seq<char>, token: Seq<char>) -> Seq<char> {
    if needs_space(out, token) {
        out + seq![' '] + token
    } else {
        out + token
    }
}

/// The text after appending each of `tokens`, in order, to `out`.
pub open spec fn emit(out: Seq<char>, tokens: Seq<Seq<char>>) -> Seq<char>
    decreases tokens.len(),
{
    if tokens.len() == 0 {
        out
    } else {
        push_token(emit(out, tokens.drop_last()), tokens.last())
    }
}

/// `tokens` with `sep` between any two consecutive entries, never before the first
/// or after the last.
pub open spec fn separated(tokens: Seq<Seq<char>>, sep: Seq<char>) -> Seq<Seq<char>>
    decreases tokens.len(),
{
    if tokens.len() <= 1 {
        tokens
    } else {
        separated(tokens.drop_last(), sep).push(sep).push(tokens.last())
    }
}

pub fn is_word_character(c: char) -> (r: bool)
    ensures
        r == is_word_char(c),
{
    ('a' <= c && c <= 'z') || ('A' <= c && c <= 'Z') || ('0' <= c && c <= '9') || c == '_'
}

/// Accumulates the rendered text of syntax nodes.
pub struct LuaGenerator {
    output: String,
    last: Option<char>,
}

impl View for LuaGenerator {
    type V = Seq<char>;

    closed spec fn view(&self) -> Seq<char> {
        self.output@
    }
}

impl LuaGenerator {
    /// The remembered last character is the last character of the text.
    pub closed spec fn wf(&self) -> bool {
        match self.last {
            Some(c) => self.output@.len() > 0 && self.output@.last() == c,
            None => self.output@.len() == 0,
        }
    }

    pub fn new() -> (r: Self)
        ensures
            r.wf(),
            r@ == Seq::<char>::empty(),
    {
        LuaGenerator { output: String::new(), last: None }
    }

    /// Appends a token, with a single space before it where it would otherwise
    /// merge with the preceding word.
    pub fn push_str(&mut self, s: &str)
        requires
            old(self).wf(),
        ensures
            final(self).wf(),
            final(self)@ == push_token(old(self)@, s@),
    {
        let n = s.unicode_len();
        if n == 0 {
            assert(self.output@ + s@ =~= self.output@);
            return;
        }
        let first = s.get_char(0);
        let mut spaced = false;
        match self.last {
            Some(l) => {
                if is_word_character(l) && is_word_character(first) {
                    self.output.append(" ");
                    spaced = true;
                }
            },
            None => {},
        }
        let ghost mid = self.output@;
        self.output.append(s);
        self.last = Some(s.get_char(n - 1));
        proof {
            if spaced {
                reveal_strlit(" ");
                assert(mid =~= old(self)@ + seq![' ']);
            } else {
                assert(mid == old(self)@);
            }
            assert(self.output@.last() == s@.last());
        }
    }

    pub fn into_string(self) -> (r: String)
        ensures
            r@ == self@,
    {
        self.output
    }
}

} // verus!
