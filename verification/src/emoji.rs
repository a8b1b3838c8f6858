//! Replacing GitHub emoji shortcodes such as `:rocket:` by the emoji.
//!
//! After a `:`, the characters up to the next `:` (or the end of the text)
//! are read as a shortcode as long as they are alphanumeric or `_`; if the
//! shortcode names an emoji, the `:`, the shortcode and the closing `:` are
//! replaced by the emoji. Anything else is copied as it is.

use vstd::prelude::*;
use vstd::string::*;
use crate::annotation::is_word_char;
use crate::text::{char_is_alphanumeric, chars_of, push_char};

verus! {

/// The emoji that `emojis::get_by_shortcode` finds for a shortcode, if any.
pub uninterp spec fn emoji_for_shortcode(code: Seq<char>) -> Option<Seq<char>>;

/// `emojis::get_by_shortcode`, then `Emoji::as_str`: the emoji that the
/// GitHub shortcode names, looked up in the crate's fixed table.
#[verifier::external_body]
fn lookup_shortcode(code: &str) -> (r: Option<&'static str>)
    ensures
        match r {
            Some(e) => emoji_for_shortcode(code@) == Some(e@),
            None => emoji_for_shortcode(code@) is None,
        },
{
    match emojis::get_by_shortcode(code) {
        Some(e) => Some(e.as_str()),
        None => None,
    }
}

/// Where a shortcode that starts at `k` ends: at the first `:` after a run
/// of word characters, or at the end of the text; `None` where another
/// character comes first.
pub open spec fn code_end(s: Seq<char>, k: int) -> Option<int>
    decreases s.len() - k,
{
    if k >= s.len() || k < 0 {
        Some(s.len() as int)
    } else if is_word_char(s[k]) {
        code_end(s, k + 1)
    } else if s[k] == ':' {
        Some(k)
    } else {
        None
    }
}

/// The emoji read after a `:` that stands just before `start`, and where
/// reading goes on after it.
pub open spec fn eaten(s: Seq<char>, start: int) -> Option<(Seq<char>, int)> {
    match code_end(s, start) {
        Some(j) => match emoji_for_shortcode(s.subrange(start, j)) {
            Some(e) => Some((e, if j < s.len() { j + 1 } else { s.len() as int })),
            None => None,
        },
        None => None,
    }
}

/// A shortcode ends no earlier than it starts and no later than the text.
pub proof fn lemma_code_end(s: Seq<char>, k: int)
    requires
        0 <= k <= s.len(),
    ensures
        code_end(s, k) matches Some(j) ==> k <= j <= s.len() && (j < s.len() ==> s[j] == ':'),
        code_end(s, k) matches Some(j) ==> forall|m: int| k <= m < j ==> is_word_char(#[trigger] s[m]),
    decreases s.len() - k,
{
    if k < s.len() && is_word_char(s[k]) {
        lemma_code_end(s, k + 1);
    }
}

/// Reading an emoji goes on after the `:` that opened it.
pub proof fn lemma_eaten_advances(s: Seq<char>, start: int)
    requires
        0 <= start <= s.len(),
    ensures
        eaten(s, start) matches Some((e, next)) ==> start <= next <= s.len(),
{
    lemma_code_end(s, start);
}

/// The text from `i` on with every shortcode that names an emoji replaced.
pub open spec fn emojified(s: Seq<char>, i: int) -> Seq<char>
    decreases s.len() - i,
{
    if i >= s.len() || i < 0 {
        Seq::empty()
    } else if s[i] == ':' {
        match eaten(s, i + 1) {
            Some((e, next)) => {
                proof {
                    lemma_eaten_advances(s, i + 1);
                }
                e + emojified(s, next)
            },
            None => seq![s[i]] + emojified(s, i + 1),
        }
    } else {
        seq![s[i]] + emojified(s, i + 1)
    }
}

/// Where the shortcode that starts at `start` ends (see `code_end`).
pub fn shortcode_end(chars: &Vec<char>, start: usize) -> (r: Option<usize>)
    requires
        start <= chars@.len(),
    ensures
        match r {
            Some(j) => code_end(chars@, start as int) == Some(j as int),
            None => code_end(chars@, start as int) is None,
        },
{
    let mut j = start;
    while j < chars.len()
        invariant
            start <= j <= chars@.len(),
            code_end(chars@, start as int) == code_end(chars@, j as int),
        decreases chars@.len() - j,
    {
        let d = chars[j];
        if char_is_alphanumeric(d) || d == '_' {
            j = j + 1;
        } else if d == ':' {
            return Some(j);
        } else {
            return None;
        }
    }
    Some(j)
}

/// The emoji read after a `:` that stands just before `start`, and the
/// index where reading goes on.
pub fn eat_emoji(chars: &Vec<char>, start: usize) -> (r: Option<(&'static str, usize)>)
    requires
        start <= chars@.len(),
    ensures
        match r {
            Some((e, n)) => eaten(chars@, start as int) == Some((e@, n as int)),
            None => eaten(chars@, start as int) is None,
        },
{
    match shortcode_end(chars, start) {
        None => None,
        Some(end) => {
            proof {
                lemma_code_end(chars@, start as int);
            }
            let mut buffer = String::new();
            let mut k = start;
            while k < end
                invariant
                    start <= k <= end <= chars@.len(),
                    buffer@ == chars@.subrange(start as int, k as int),
                decreases end - k,
            {
                push_char(&mut buffer, chars[k]);
                assert(chars@.subrange(start as int, k + 1) =~= chars@.subrange(start as int, k as int).push(
                    chars@[k as int],
                ));
                k = k + 1;
            }
            match lookup_shortcode(buffer.as_str()) {
                Some(e) => {
                    let next = if end < chars.len() {
                        end + 1
                    } else {
                        chars.len()
                    };
                    Some((e, next))
                },
                None => None,
            }
        },
    }
}

/// The text with every `:shortcode:` that names an emoji replaced by the
/// emoji.
pub fn fmt_emoji(text: &str) -> (r: String)
    ensures
        r@ == emojified(text@, 0),
{
    let chars = chars_of(text);
    let mut res = String::new();
    let mut i: usize = 0;
    while i < chars.len()
        invariant
            i <= chars@.len(),
            chars@ == text@,
            res@ + emojified(chars@, i as int) == emojified(chars@, 0),
        decreases chars@.len() - i,
    {
        let c = chars[i];
        let eaten_here = if c == ':' {
            eat_emoji(&chars, i + 1)
        } else {
            None
        };
        proof {
            lemma_code_end(chars@, i + 1);
        }
        match eaten_here {
            Some((emoji, next)) => {
                assert(next > i);
                res.append(emoji);
                assert(res@ + emojified(chars@, next as int) =~= emojified(chars@, 0));
                i = next;
            },
            None => {
                push_char(&mut res, c);
                assert(res@ + emojified(chars@, i + 1) =~= emojified(chars@, 0));
                i = i + 1;
            },
        }
    }
    res
}

/// A text without `:` holds no shortcode and comes back unchanged.
pub proof fn law_emoji_without_colon(s: Seq<char>, i: int)
    requires
        0 <= i <= s.len(),
        !s.contains(':'),
    ensures
        emojified(s, i) == s.skip(i),
    decreases s.len() - i,
{
    if i < s.len() {
        assert(s[i] != ':');
        law_emoji_without_colon(s, i + 1);
        assert(seq![s[i]] + s.skip(i + 1) =~= s.skip(i));
    } else {
        assert(s.skip(i) =~= Seq::<char>::empty());
    }
}

} // verus!
