//! Linking the names of documented entities where they occur in prose.
//!
//! A word of the text that is not all lowercase (so words like "get" and
//! "data" stay plain) and that is the name of a documented entity becomes a
//! Markdown link to that entity's page.

use vstd::prelude::*;
use vstd::string::*;
use crate::annotation::{
    Annotations, TokenView, tokenize, render, lemma_next_word_from,
};
use crate::model::{CppItem, Entry, Namespace};
use crate::output::{entries_of, item_entries};
use crate::text::{is_lowercase, char_is_lowercase, chars_of};

verus! {

/// Whether every character of a word is lowercase.
pub open spec fn all_lowercase(w: Seq<char>) -> bool {
    forall|i: int| 0 <= i < w.len() ==> is_lowercase(#[trigger] w[i])
}

/// The Markdown link that replaces a word.
pub open spec fn link_text(word: Seq<char>, url: Seq<char>) -> Seq<char> {
    "["@ + word + "]("@ + url + ")"@
}

/// Whether `t` is a word that links to the entry `e`.
pub open spec fn links_to(t: TokenView, e: Entry) -> bool {
    &&& t.is_word
    &&& !all_lowercase(t.text)
    &&& t.text == e.name@
    &&& e.entity.docs_url is Some
}

/// One piece after the entry `e` has been looked for.
pub open spec fn annotate_token(t: TokenView, e: Entry) -> TokenView {
    if links_to(t, e) {
        TokenView { annotation: Some(link_text(t.text, e.entity.docs_url->0@)), ..t }
    } else {
        t
    }
}

/// The pieces after the entry `e` has been looked for.
pub open spec fn annotate_entry(ts: Seq<TokenView>, e: Entry) -> Seq<TokenView> {
    ts.map_values(|t: TokenView| annotate_token(t, e))
}

/// The pieces after each entry of `es` has been looked for, in order.
pub open spec fn annotate_all(ts: Seq<TokenView>, es: Seq<Entry>) -> Seq<TokenView>
    decreases es.len(),
{
    if es.len() == 0 {
        ts
    } else {
        annotate_entry(annotate_all(ts, es.drop_last()), es.last())
    }
}

/// Looking for `a` then `b` is looking for `a + b`.
pub proof fn lemma_annotate_all_append(ts: Seq<TokenView>, a: Seq<Entry>, b: Seq<Entry>)
    ensures
        annotate_all(ts, a + b) == annotate_all(annotate_all(ts, a), b),
    decreases b.len(),
{
    if b.len() == 0 {
        assert(a + b =~= a);
    } else {
        assert((a + b).drop_last() =~= a + b.drop_last());
        assert((a + b).last() == b.last());
        lemma_annotate_all_append(ts, a, b.drop_last());
    }
}

/// The text with each word that names a documented entity of `root`
/// linked to that entity's page.
pub open spec fn autolinked(root: Namespace, text: Seq<char>) -> Seq<char> {
    render(annotate_all(tokenize(text), entries_of(root.entries@)))
}

fn is_all_lowercase(word: &String) -> (r: bool)
    ensures
        r == all_lowercase(word@),
{
    let cs = chars_of(word.as_str());
    let mut i: usize = 0;
    while i < cs.len()
        invariant
            i <= cs@.len(),
            cs@ == word@,
            forall|j: int| 0 <= j < i ==> is_lowercase(#[trigger] cs@[j]),
        decreases cs@.len() - i,
    {
        if !char_is_lowercase(cs[i]) {
            return false;
        }
        i = i + 1;
    }
    true
}

/// Looks for the entry `e` among the words of the text.
fn annotate_with(e: &Entry, annotations: &mut Annotations)
    requires
        old(annotations).wf(),
    ensures
        final(annotations).wf(),
        final(annotations).tokens_view() == annotate_entry(old(annotations).tokens_view(), *e),
{
    let ghost orig = annotations.tokens_view();
    annotations.rewind();
    loop
        invariant
            annotations.wf(),
            annotations.tokens_view().len() == orig.len(),
            annotations.tokens@.len() == orig.len(),
            forall|j: int|
                0 <= j < annotations.cursor ==> #[trigger] annotations.tokens_view()[j]
                    == annotate_token(orig[j], *e),
            forall|j: int|
                annotations.cursor <= j < orig.len() ==> #[trigger] annotations.tokens_view()[j]
                    == orig[j],
        ensures
            annotations.wf(),
            annotations.tokens_view() =~= annotate_entry(orig, *e),
        decreases annotations.tokens@.len() - annotations.cursor,
    {
        let ghost ts = annotations.tokens_view();
        let ghost start = annotations.cursor as int;
        proof {
            lemma_next_word_from(ts, start);
        }
        let w = annotations.next();
        match w {
            Some(word) => {
                let k = annotations.current.unwrap();
                assert(forall|j: int| start <= j < k ==> !(#[trigger] ts[j]).is_word);
                let lower = is_all_lowercase(&word);
                if !lower && word == e.name {
                    match &e.entity.docs_url {
                        Some(url) => {
                            let link = "[".to_owned().concat(word.as_str()).concat("](").concat(
                                url.as_str(),
                            ).concat(")");
                            annotations.annotate(link);
                        },
                        None => {},
                    }
                }
                assert(annotations.tokens_view()[k as int] == annotate_token(orig[k as int], *e));
                assert(annotations.tokens@.len() == annotations.tokens_view().len());
                assert(annotations.cursor > start);
            },
            None => {
                assert(forall|j: int| start <= j < orig.len() ==> !(#[trigger] ts[j]).is_word);
                break;
            },
        }
    }
}

/// Links the names of `entity` and of everything it holds, in pre-order, so
/// that a word naming several entities links to the last one.
pub fn fmt_autolinks_recursive(entity: &CppItem, annotations: &mut Annotations)
    requires
        old(annotations).wf(),
    ensures
        final(annotations).wf(),
        final(annotations).tokens_view() == annotate_all(
            old(annotations).tokens_view(),
            item_entries(*entity),
        ),
    decreases entity,
{
    let ghost orig = annotations.tokens_view();
    match entity {
        CppItem::Entry(e) => {
            annotate_with(e, annotations);
            assert(seq![*e].drop_last() =~= Seq::<Entry>::empty());
            assert(annotate_all(orig, Seq::<Entry>::empty()) == orig);
            assert(item_entries(*entity) == seq![*e]);
        },
        CppItem::Namespace(ns) => {
            annotate_with(&ns.entry, annotations);
            assert(seq![ns.entry].drop_last() =~= Seq::<Entry>::empty());
            assert(annotate_all(orig, Seq::<Entry>::empty()) == orig);
            let ghost mid = annotations.tokens_view();
            assert(mid == annotate_all(orig, seq![ns.entry]));
            let mut i: usize = 0;
            while i < ns.entries.len()
                invariant
                    i <= ns.entries@.len(),
                    *entity == CppItem::Namespace(*ns),
                    annotations.wf(),
                    annotations.tokens_view() == annotate_all(
                        mid,
                        entries_of(ns.entries@.take(i as int)),
                    ),
                decreases ns.entries@.len() - i,
            {
                assert(decreases_to!(*entity => entity->Namespace_0));
                assert(entity->Namespace_0 == *ns);
                assert(decreases_to!(*ns => ns.entries));
                assert(decreases_to!(entity => ns.entries@[i as int]));
                fmt_autolinks_recursive(&ns.entries[i], annotations);
                assert(ns.entries@.take(i + 1).drop_last() =~= ns.entries@.take(i as int));
                assert(ns.entries@.take(i + 1)[i as int] == ns.entries@[i as int]);
                proof {
                    lemma_annotate_all_append(
                        mid,
                        entries_of(ns.entries@.take(i as int)),
                        item_entries(ns.entries@[i as int]),
                    );
                }
                i = i + 1;
            }
            assert(ns.entries@.take(i as int) =~= ns.entries@);
            proof {
                lemma_annotate_all_append(orig, seq![ns.entry], entries_of(ns.entries@));
            }
        },
    }
}

/// The text with each word that names a documented entity linked to its
/// page; words that are all lowercase are never linked.
pub fn fmt_autolinks(root: &Namespace, text: &str) -> (r: String)
    ensures
        r@ == autolinked(*root, text@),
{
    let mut annotations = Annotations::new(text);
    let ghost start = annotations.tokens_view();
    let mut i: usize = 0;
    while i < root.entries.len()
        invariant
            i <= root.entries@.len(),
            annotations.wf(),
            start == tokenize(text@),
            annotations.tokens_view() == annotate_all(start, entries_of(root.entries@.take(i as int))),
        decreases root.entries@.len() - i,
    {
        fmt_autolinks_recursive(&root.entries[i], &mut annotations);
        assert(root.entries@.take(i + 1).drop_last() =~= root.entries@.take(i as int));
        assert(root.entries@.take(i + 1)[i as int] == root.entries@[i as int]);
        proof {
            lemma_annotate_all_append(
                start,
                entries_of(root.entries@.take(i as int)),
                item_entries(root.entries@[i as int]),
            );
        }
        i = i + 1;
    }
    assert(root.entries@.take(i as int) =~= root.entries@);
    annotations.into_result()
}

// ---------------------------------------------------------------------------
// What linking does, proved.
// ---------------------------------------------------------------------------

/// The page of the last entry of `es` that is named `w` and has a page.
pub open spec fn last_page_named(es: Seq<Entry>, w: Seq<char>) -> Option<Seq<char>>
    decreases es.len(),
{
    if es.len() == 0 {
        None
    } else if es.last().name@ == w && es.last().entity.docs_url is Some {
        Some(es.last().entity.docs_url->0@)
    } else {
        last_page_named(es.drop_last(), w)
    }
}

/// What a piece is replaced by once every entry of `es` has been looked for.
pub open spec fn link_for(t: TokenView, es: Seq<Entry>) -> Option<Seq<char>> {
    if t.is_word && !all_lowercase(t.text) {
        match last_page_named(es, t.text) {
            Some(u) => Some(link_text(t.text, u)),
            None => None,
        }
    } else {
        None
    }
}

/// A text cut into pieces has no replacements yet, and puts back together
/// to itself.
pub proof fn law_tokenize_render(s: Seq<char>)
    ensures
        render(tokenize(s)) == s,
        forall|i: int| 0 <= i < tokenize(s).len() ==> (#[trigger] tokenize(s)[i]).annotation is None,
    decreases s.len(),
{
    if s.len() > 0 {
        let t = tokenize(s.drop_last());
        law_tokenize_render(s.drop_last());
        let c = s.last();
        if crate::annotation::is_word_char(c) && t.len() > 0 && t.last().is_word {
            let u = tokenize(s);
            assert(u.drop_last() =~= t.drop_last());
            assert(render(t) == render(t.drop_last()) + t.last().text);
            assert(render(u) == render(u.drop_last()) + u.last().text);
            assert(u.last().text == t.last().text.push(c));
        } else {
            assert(tokenize(s).drop_last() =~= t);
        }
        assert(s.drop_last().push(c) =~= s);
    }
}

/// Each word that is not all lowercase links to the page of the last entry
/// (in the order looked for) that bears its name and has a page; every other
/// piece is left as it is.
pub proof fn law_autolink_pieces(ts: Seq<TokenView>, es: Seq<Entry>)
    requires
        forall|i: int| 0 <= i < ts.len() ==> (#[trigger] ts[i]).annotation is None,
    ensures
        annotate_all(ts, es).len() == ts.len(),
        forall|i: int|
            0 <= i < ts.len() ==> #[trigger] annotate_all(ts, es)[i] == (TokenView {
                annotation: link_for(ts[i], es),
                ..ts[i]
            }),
    decreases es.len(),
{
    if es.len() > 0 {
        law_autolink_pieces(ts, es.drop_last());
        let e = es.last();
        assert forall|i: int| 0 <= i < ts.len() implies #[trigger] annotate_all(ts, es)[i] == (
        TokenView { annotation: link_for(ts[i], es), ..ts[i] }) by {
            let prev = annotate_all(ts, es.drop_last())[i];
            assert(annotate_all(ts, es)[i] == annotate_token(prev, e));
        }
    }
}

/// Where no entity of `root` has a page, no word is linked: the text comes
/// back unchanged.
pub proof fn law_autolinks_without_pages(root: Namespace, text: Seq<char>)
    requires
        forall|i: int|
            0 <= i < entries_of(root.entries@).len() ==> (#[trigger] entries_of(
                root.entries@,
            )[i]).entity.docs_url is None,
    ensures
        autolinked(root, text) == text,
{
    let es = entries_of(root.entries@);
    let ts = tokenize(text);
    law_tokenize_render(text);
    law_autolink_pieces(ts, es);
    assert forall|w: Seq<char>| #[trigger] last_page_named(es, w) is None by {
        lemma_no_pages(es, w);
    }
    assert(annotate_all(ts, es) =~= ts);
}

proof fn lemma_no_pages(es: Seq<Entry>, w: Seq<char>)
    requires
        forall|i: int| 0 <= i < es.len() ==> (#[trigger] es[i]).entity.docs_url is None,
    ensures
        last_page_named(es, w) is None,
    decreases es.len(),
{
    if es.len() > 0 {
        assert(es[es.len() - 1].entity.docs_url is None);
        lemma_no_pages(es.drop_last(), w);
    }
}


/// `last_page_named` finds a page exactly when some entry bears the name and
/// has a page, and then it is the page of the last such entry.
proof fn lemma_last_page_named(es: Seq<Entry>, w: Seq<char>)
    ensures
        last_page_named(es, w) is Some <==> exists|k: int|
            0 <= k < es.len() && (#[trigger] es[k]).name@ == w && es[k].entity.docs_url is Some,
        last_page_named(es, w) is Some ==> exists|k: int|
            0 <= k < es.len() && (#[trigger] es[k]).name@ == w && es[k].entity.docs_url is Some
                && last_page_named(es, w) == Some(es[k].entity.docs_url->0@) && forall|m: int|
                k < m < es.len() ==> !((#[trigger] es[m]).name@ == w
                    && es[m].entity.docs_url is Some),
    decreases es.len(),
{
    if es.len() > 0 {
        let d = es.drop_last();
        lemma_last_page_named(d, w);
        let n = es.len() - 1;
        if es[n].name@ == w && es[n].entity.docs_url is Some {
        } else {
            if exists|k: int| 0 <= k < es.len() && (#[trigger] es[k]).name@ == w && es[k].entity.docs_url is Some {
                let k = choose|k: int|
                    0 <= k < es.len() && (#[trigger] es[k]).name@ == w && es[k].entity.docs_url is Some;
                assert(d[k] == es[k]);
            }
            if last_page_named(d, w) is Some {
                let k = choose|k: int|
                    0 <= k < d.len() && (#[trigger] d[k]).name@ == w && d[k].entity.docs_url is Some
                        && last_page_named(d, w) == Some(d[k].entity.docs_url->0@) && forall|m: int|
                        k < m < d.len() ==> !((#[trigger] d[m]).name@ == w
                            && d[m].entity.docs_url is Some);
                assert(es[k] == d[k]);
                assert forall|m: int| k < m < es.len() implies !((#[trigger] es[m]).name@ == w
                    && es[m].entity.docs_url is Some) by {
                    if m < n {
                        assert(es[m] == d[m]);
                    }
                }
            }
        }
    }
}

/// A piece of prose becomes a link exactly when it is a word with at least
/// one character that is not lowercase and some entry looked for bears that
/// name and has a page; the link is `[word](url)` with the page of the last
/// such entry.
pub proof fn law_autolink_word(ts: Seq<TokenView>, es: Seq<Entry>, i: int)
    requires
        forall|j: int| 0 <= j < ts.len() ==> (#[trigger] ts[j]).annotation is None,
        0 <= i < ts.len(),
    ensures
        ({
            let a = annotate_all(ts, es)[i].annotation;
            let w = ts[i].text;
            &&& annotate_all(ts, es)[i].text == w
            &&& (a is Some <==> (ts[i].is_word && (exists|j: int|
                0 <= j < w.len() && !is_lowercase(#[trigger] w[j])) && exists|k: int|
                0 <= k < es.len() && (#[trigger] es[k]).name@ == w && es[k].entity.docs_url is Some))
            &&& (a is Some ==> exists|k: int|
                0 <= k < es.len() && (#[trigger] es[k]).name@ == w && es[k].entity.docs_url is Some
                    && a->0 == "["@ + w + "]("@ + es[k].entity.docs_url->0@ + ")"@ && forall|m: int|
                    k < m < es.len() ==> !((#[trigger] es[m]).name@ == w
                        && es[m].entity.docs_url is Some))
        }),
{
    law_autolink_pieces(ts, es);
    let w = ts[i].text;
    lemma_last_page_named(es, w);
    assert(all_lowercase(w) <==> !exists|j: int| 0 <= j < w.len() && !is_lowercase(#[trigger] w[j]));
}

} // verus!
