//! A text cut into words and the characters between them, where each word
//! can be given a replacement.
//!
//! A word is a maximal run of characters that are alphanumeric or `_`;
//! every other character stands alone. Walking the words with `next` and
//! calling `annotate` replaces the word last returned; `into_result` puts the
//! text back together with the replacements.

use vstd::prelude::*;
use vstd::string::*;
use crate::text::{is_alphanumeric, char_is_alphanumeric, chars_of, push_char};

verus! {

/// Whether a character belongs in a word.
pub open spec fn is_word_char(c: char) -> bool {
    is_alphanumeric(c) || c == '_'
}

/// One piece of the text: a word or a single other character, and the
/// replacement it was given, if any.
pub struct TokenView {
    pub text: Seq<char>,
    pub is_word: bool,
    pub annotation: Option<Seq<char>>,
}

/// The pieces of a text, in order, none annotated.
pub open spec fn tokenize(s: Seq<char>) -> Seq<TokenView>
    decreases s.len(),
{
    if s.len() == 0 {
        Seq::empty()
    } else {
        let t = tokenize(s.drop_last());
        let c = s.last();
        if is_word_char(c) && t.len() > 0 && t.last().is_word {
            t.update(
                t.len() - 1,
                TokenView { text: t.last().text.push(c), is_word: true, annotation: None },
            )
        } else {
            t.push(TokenView { text: seq![c], is_word: is_word_char(c), annotation: None })
        }
    }
}

/// How a piece is written back: its replacement, else its text.
pub open spec fn render_token(t: TokenView) -> Seq<char> {
    match t.annotation {
        Some(a) => a,
        None => t.text,
    }
}

/// The text put back together from its pieces.
pub open spec fn render(ts: Seq<TokenView>) -> Seq<char>
    decreases ts.len(),
{
    if ts.len() == 0 {
        Seq::empty()
    } else {
        render(ts.drop_last()) + render_token(ts.last())
    }
}

/// The index of the first word at or after `k`, or the number of pieces.
pub open spec fn next_word_from(ts: Seq<TokenView>, k: int) -> int
    decreases ts.len() - k,
{
    if k >= ts.len() || k < 0 {
        ts.len() as int
    } else if ts[k].is_word {
        k
    } else {
        next_word_from(ts, k + 1)
    }
}

pub open spec fn texts(ts: Seq<TokenView>) -> Seq<(Seq<char>, bool)> {
    ts.map_values(|t: TokenView| (t.text, t.is_word))
}

pub struct Token {
    pub text: String,
    pub is_word: bool,
    pub annotation: Option<String>,
}

pub open spec fn token_view(t: Token) -> TokenView {
    TokenView {
        text: t.text@,
        is_word: t.is_word,
        annotation: match t.annotation {
            Some(a) => Some(a@),
            None => None,
        },
    }
}

/// A text being annotated: its pieces, where `next` looks next, and the
/// word `next` returned last.
pub struct Annotations {
    pub tokens: Vec<Token>,
    pub cursor: usize,
    pub current: Option<usize>,
}

impl Annotations {
    pub open spec fn tokens_view(&self) -> Seq<TokenView> {
        self.tokens@.map_values(|t: Token| token_view(t))
    }

    pub open spec fn wf(&self) -> bool {
        &&& self.cursor <= self.tokens@.len()
        &&& match self.current {
            Some(i) => i < self.tokens@.len() && self.tokens@[i as int].is_word,
            None => true,
        }
    }

    /// The text cut into pieces, none annotated, with `next` at the start.
    pub fn new(text: &str) -> (r: Annotations)
        ensures
            r.wf(),
            r.tokens_view() == tokenize(text@),
            r.cursor == 0,
            r.current is None,
    {
        let chars = chars_of(text);
        let mut tokens: Vec<Token> = Vec::new();
        let mut i: usize = 0;
        while i < chars.len()
            invariant
                i <= chars@.len(),
                chars@ == text@,
                tokens@.map_values(|t: Token| token_view(t)) =~= tokenize(chars@.take(i as int)),
            decreases chars@.len() - i,
        {
            let c = chars[i];
            let word_char = char_is_alphanumeric(c) || c == '_';
            let n = tokens.len();
            let ghost before = tokens@.map_values(|t: Token| token_view(t));
            assert(chars@.take(i + 1).drop_last() =~= chars@.take(i as int));
            assert(chars@.take(i + 1).last() == c);
            if word_char && n > 0 && tokens[n - 1].is_word {
                let mut last = tokens.pop().unwrap();
                push_char(&mut last.text, c);
                last.annotation = None;
                tokens.push(last);
                assert(tokens@.map_values(|t: Token| token_view(t)) =~= before.update(
                    n - 1,
                    TokenView { text: before.last().text.push(c), is_word: true, annotation: None },
                ));
            } else {
                let mut s = String::new();
                push_char(&mut s, c);
                tokens.push(Token { text: s, is_word: word_char, annotation: None });
                assert(tokens@.map_values(|t: Token| token_view(t)) =~= before.push(
                    TokenView { text: seq![c], is_word: word_char, annotation: None },
                ));
            }
            i = i + 1;
        }
        assert(chars@.take(i as int) =~= chars@);
        Annotations { tokens, cursor: 0, current: None }
    }

    /// Puts `next` back at the start.
    pub fn rewind(&mut self)
        requires
            old(self).wf(),
        ensures
            final(self).wf(),
            final(self).tokens_view() == old(self).tokens_view(),
            final(self).cursor == 0,
            final(self).current is None,
    {
        self.cursor = 0;
        self.current = None;
    }

    /// The next word, if there is one; it becomes the word that `annotate`
    /// replaces.
    pub fn next(&mut self) -> (r: Option<String>)
        requires
            old(self).wf(),
        ensures
            final(self).wf(),
            final(self).tokens_view() == old(self).tokens_view(),
            ({
                let k = next_word_from(old(self).tokens_view(), old(self).cursor as int);
                match r {
                    Some(w) => {
                        &&& k < old(self).tokens@.len()
                        &&& w@ == old(self).tokens_view()[k].text
                        &&& final(self).cursor == k + 1
                        &&& final(self).current == Some(k as usize)
                    },
                    None => {
                        &&& k == old(self).tokens@.len()
                        &&& final(self).cursor == old(self).tokens@.len()
                        &&& final(self).current is None
                    },
                }
            }),
    {
        let ghost ts = self.tokens_view();
        let ghost start = self.cursor as int;
        while self.cursor < self.tokens.len()
            invariant
                self.cursor <= self.tokens@.len(),
                self.tokens_view() == ts,
                start <= self.cursor,
                next_word_from(ts, start) == next_word_from(ts, self.cursor as int),
            ensures
                self.cursor <= self.tokens@.len(),
                self.tokens_view() == ts,
                next_word_from(ts, start) == self.cursor,
            decreases self.tokens@.len() - self.cursor,
        {
            let k = self.cursor;
            assert(ts[k as int] == token_view(self.tokens@[k as int]));
            if self.tokens[k].is_word {
                break;
            }
            self.cursor = k + 1;
        }
        let k = self.cursor;
        if k < self.tokens.len() {
            proof {
                lemma_next_word_from(ts, start);
            }
            assert(ts[k as int] == token_view(self.tokens@[k as int]));
            self.cursor = k + 1;
            self.current = Some(k);
            Some(self.tokens[k].text.clone())
        } else {
            self.current = None;
            None
        }
    }

    /// Gives the word that `next` returned last a replacement.
    pub fn annotate(&mut self, value: String)
        requires
            old(self).wf(),
            old(self).current is Some,
        ensures
            final(self).wf(),
            final(self).cursor == old(self).cursor,
            final(self).current == old(self).current,
            final(self).tokens_view() == old(self).tokens_view().update(
                old(self).current->0 as int,
                TokenView { annotation: Some(value@), ..old(self).tokens_view()[old(self).current->0 as int] },
            ),
    {
        let i = self.current.unwrap();
        let ghost before = self.tokens_view();
        let mut t = self.tokens.remove(i);
        t.annotation = Some(value);
        self.tokens.insert(i, t);
        assert(self.tokens_view() =~= before.update(
            i as int,
            TokenView { annotation: Some(t.annotation->0@), ..before[i as int] },
        ));
    }

    /// The text put back together, each annotated word replaced.
    pub fn into_result(self) -> (r: String)
        ensures
            r@ == render(self.tokens_view()),
    {
        let ts = self.tokens;
        let ghost tv = ts@.map_values(|t: Token| token_view(t));
        let mut r = String::new();
        let mut i: usize = 0;
        while i < ts.len()
            invariant
                i <= ts@.len(),
                tv == ts@.map_values(|t: Token| token_view(t)),
                r@ == render(tv.take(i as int)),
            decreases ts@.len() - i,
        {
            let t = &ts[i];
            match &t.annotation {
                Some(a) => r.append(a.as_str()),
                None => r.append(t.text.as_str()),
            }
            assert(tv.take(i + 1).drop_last() =~= tv.take(i as int));
            assert(tv[i as int] == token_view(ts@[i as int]));
            i = i + 1;
        }
        assert(tv.take(i as int) =~= tv);
        r
    }
}

/// Between `k` and the next word from `k`, no piece is a word.
pub proof fn lemma_next_word_from(ts: Seq<TokenView>, k: int)
    requires
        0 <= k <= ts.len(),
    ensures
        k <= next_word_from(ts, k) <= ts.len(),
        next_word_from(ts, k) < ts.len() ==> ts[next_word_from(ts, k)].is_word,
        forall|j: int| k <= j < next_word_from(ts, k) ==> !(#[trigger] ts[j]).is_word,
    decreases ts.len() - k,
{
    if k < ts.len() && !ts[k].is_word {
        lemma_next_word_from(ts, k + 1);
    }
}

} // verus!
