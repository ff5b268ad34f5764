use vstd::prelude::*;

use crate::text::{char_is_whitespace, chars_of, is_whitespace, string_push, views};

verus! {

/// The maximal runs of non-whitespace characters of `s`, in order, as
/// `str::split_whitespace` yields them.
pub open spec fn words(s: Seq<char>) -> Seq<Seq<char>>
    decreases s.len(),
{
    if s.len() == 0 {
        Seq::empty()
    } else {
        let w = words(s.drop_last());
        let c = s.last();
        if is_whitespace(c) {
            w
        } else if s.len() >= 2 && !is_whitespace(s[s.len() - 2]) {
            w.update(w.len() - 1, w.last().push(c))
        } else {
            w.push(seq![c])
        }
    }
}

/// What `s.split_whitespace()` yields, collected.
pub fn split_whitespace(s: &str) -> (r: Vec<String>)
    ensures
        views(r@) == words(s@),
{
    let v = chars_of(s);
    let n = v.len();
    let mut done: Vec<String> = Vec::new();
    let mut cur = String::new();
    let mut in_word = false;
    let mut i: usize = 0;
    while i < n
        invariant
            i <= n == v.len(),
            in_word == (i > 0 && !is_whitespace(v@[i - 1])),
            in_word ==> cur@.len() > 0,
            !in_word ==> cur@.len() == 0,
            words(v@.take(i as int)) == (if in_word {
                views(done@).push(cur@)
            } else {
                views(done@)
            }),
        decreases n - i,
    {
        let c = v[i];
        let ghost pre = v@.take(i as int);
        assert(v@.take(i + 1).drop_last() =~= pre);
        assert(v@.take(i + 1).last() == c);
        if char_is_whitespace(c) {
            if in_word {
                let ghost old_done = done@;
                done.push(cur);
                assert(views(done@) =~= views(old_done).push(cur@));
                cur = String::new();
            }
            in_word = false;
        } else {
            let ghost old_cur = cur@;
            string_push(&mut cur, c);
            if in_word {
                assert(v@.take(i + 1)[i - 1] == v@[i - 1]);
                assert(views(done@).push(cur@) =~= views(done@).push(old_cur).update(
                    views(done@).len() as int,
                    old_cur.push(c),
                ));
            } else {
                if i > 0 {
                    assert(v@.take(i + 1)[i - 1] == v@[i - 1]);
                }
                assert(old_cur =~= Seq::<char>::empty());
                assert(cur@ =~= seq![c]);
            }
            in_word = true;
        }
        i = i + 1;
    }
    assert(v@.take(n as int) =~= s@);
    if in_word {
        let ghost old_done = done@;
        done.push(cur);
        assert(views(done@) =~= views(old_done).push(cur@));
    }
    done
}

/// A track command line split into the program and its arguments: `None`
/// when it holds no word at all.
pub fn parse_track_command(spec: &str) -> (r: Option<(String, Vec<String>)>)
    ensures
        match r {
            Some((program, args)) => words(spec@).len() > 0 && program@ == words(spec@)[0]
                && views(args@) == words(spec@).drop_first(),
            None => words(spec@).len() == 0,
        },
{
    let mut parts = split_whitespace(spec);
    if parts.len() == 0 {
        return None;
    }
    let ghost all = parts@;
    let program = parts.remove(0);
    assert(views(parts@) =~= views(all).drop_first());
    assert(views(all)[0] == program@);
    Some((program, parts))
}

/// A word: at least one character, none of them whitespace.
pub open spec fn is_word(w: Seq<char>) -> bool {
    w.len() > 0 && forall|j: int| 0 <= j < w.len() ==> !is_whitespace(#[trigger] w[j])
}

/// Splitting at whitespace yields only words: none is empty and none holds
/// whitespace (so a track program name never does either).
pub proof fn law_words_are_words(s: Seq<char>)
    ensures
        forall|i: int| 0 <= i < words(s).len() ==> is_word(#[trigger] words(s)[i]),
        s.len() > 0 && !is_whitespace(s.last()) ==> words(s).len() > 0,
    decreases s.len(),
{
    if s.len() > 0 {
        let p = s.drop_last();
        law_words_are_words(p);
        let w = words(p);
        let c = s.last();
        if !is_whitespace(c) {
            if s.len() >= 2 && !is_whitespace(s[s.len() - 2]) {
                assert(p.last() == s[s.len() - 2]);
                assert(w.len() > 0);
                let nw = w.update(w.len() - 1, w.last().push(c));
                assert forall|i: int| 0 <= i < nw.len() implies is_word(#[trigger] nw[i]) by {
                    if i == w.len() - 1 {
                        assert(is_word(w[i]));
                        assert forall|j: int| 0 <= j < nw[i].len() implies !is_whitespace(
                            #[trigger] nw[i][j],
                        ) by {
                            if j < w[i].len() {
                                assert(nw[i][j] == w[i][j]);
                            }
                        }
                    }
                }
            } else {
                let nw = w.push(seq![c]);
                assert forall|i: int| 0 <= i < nw.len() implies is_word(#[trigger] nw[i]) by {
                    if i < w.len() {
                        assert(nw[i] == w[i]);
                    } else {
                        assert(nw[i] =~= seq![c]);
                    }
                }
            }
        }
    }
}

/// Where each word of `s` lies: `(start, end)` positions, in the order of
/// `words(s)`.
pub open spec fn word_spans(s: Seq<char>) -> Seq<(int, int)>
    decreases s.len(),
{
    if s.len() == 0 {
        Seq::empty()
    } else {
        let w = word_spans(s.drop_last());
        if is_whitespace(s.last()) {
            w
        } else if s.len() >= 2 && !is_whitespace(s[s.len() - 2]) {
            w.update(w.len() - 1, (w.last().0, s.len() as int))
        } else {
            w.push((s.len() - 1, s.len() as int))
        }
    }
}

/// `spans` place the words `ws` in `s` as maximal runs of non-whitespace,
/// in order, covering every non-whitespace character.
pub open spec fn spans_place_words(s: Seq<char>, ws: Seq<Seq<char>>, spans: Seq<(int, int)>) -> bool {
    &&& spans.len() == ws.len()
    &&& forall|k: int|
        0 <= k < spans.len() ==> {
            let (a, e) = #[trigger] spans[k];
            &&& 0 <= a < e <= s.len()
            &&& ws[k] == s.subrange(a, e)
            &&& (a == 0 || is_whitespace(s[a - 1]))
            &&& (e == s.len() || is_whitespace(s[e]))
        }
    &&& forall|k: int, l: int| 0 <= k < l < spans.len() ==> #[trigger] spans[k].1 < #[trigger] spans[l].0
    &&& forall|i: int|
        0 <= i < s.len() && !is_whitespace(s[i]) ==> exists|k: int|
            0 <= k < spans.len() && (#[trigger] spans[k]).0 <= i < spans[k].1
}

proof fn lemma_word_spans(s: Seq<char>)
    ensures
        spans_place_words(s, words(s), word_spans(s)),
        s.len() > 0 && !is_whitespace(s.last()) ==> word_spans(s).len() > 0 && word_spans(
            s,
        ).last().1 == s.len(),
    decreases s.len(),
{
    if s.len() > 0 {
        let p = s.drop_last();
        lemma_word_spans(p);
        let ws = words(p);
        let sp = word_spans(p);
        let c = s.last();
        let n = s.len() as int;
        assert forall|k: int| 0 <= k < sp.len() implies sp[k].1 <= p.len() && (sp[k].1 == p.len()
            ==> !is_whitespace(p.last())) by {
            let (a, e) = sp[k];
            if e == p.len() {
                assert(ws[k] == p.subrange(a, e));
                law_words_are_words(p);
                assert(is_word(ws[k]));
                assert(ws[k][e - a - 1] == p[e - 1]);
            }
        }
        if is_whitespace(c) {
            assert forall|k: int| 0 <= k < sp.len() implies {
                let (a, e) = #[trigger] sp[k];
                &&& 0 <= a < e <= s.len()
                &&& ws[k] == s.subrange(a, e)
                &&& (a == 0 || is_whitespace(s[a - 1]))
                &&& (e == s.len() || is_whitespace(s[e]))
            } by {
                let (a, e) = sp[k];
                assert(p.subrange(a, e) =~= s.subrange(a, e));
                if a > 0 {
                    assert(s[a - 1] == p[a - 1]);
                }
                if e < p.len() {
                    assert(s[e] == p[e]);
                }
            }
            assert forall|i: int| 0 <= i < s.len() && !is_whitespace(s[i]) implies exists|k: int|
                0 <= k < sp.len() && (#[trigger] sp[k]).0 <= i < sp[k].1 by {
                assert(p[i] == s[i]);
            }
        } else if s.len() >= 2 && !is_whitespace(s[s.len() - 2]) {
            assert(p.last() == s[s.len() - 2]);
            let last = sp.len() - 1;
            let nsp = sp.update(last, (sp.last().0, n));
            let nws = ws.update(ws.len() - 1, ws.last().push(c));
            assert forall|k: int| 0 <= k < nsp.len() implies {
                let (a, e) = #[trigger] nsp[k];
                &&& 0 <= a < e <= s.len()
                &&& nws[k] == s.subrange(a, e)
                &&& (a == 0 || is_whitespace(s[a - 1]))
                &&& (e == s.len() || is_whitespace(s[e]))
            } by {
                let (a, e) = nsp[k];
                if a > 0 {
                    assert(s[a - 1] == p[a - 1]);
                }
                if k == last {
                    assert(ws[k] == p.subrange(a, p.len() as int));
                    assert(s.subrange(a, n) =~= p.subrange(a, p.len() as int).push(c));
                } else {
                    assert(sp[k].1 < sp[last].0);
                    assert(p.subrange(a, e) =~= s.subrange(a, e));
                    assert(s[e] == p[e]);
                }
            }
            assert forall|k: int, l: int| 0 <= k < l < nsp.len() implies #[trigger] nsp[k].1
                < #[trigger] nsp[l].0 by {
                assert(sp[k].1 < sp[l].0);
            }
            assert forall|i: int| 0 <= i < s.len() && !is_whitespace(s[i]) implies exists|k: int|
                0 <= k < nsp.len() && (#[trigger] nsp[k]).0 <= i < nsp[k].1 by {
                if i < p.len() {
                    assert(p[i] == s[i]);
                    let k = choose|k: int| 0 <= k < sp.len() && (#[trigger] sp[k]).0 <= i < sp[k].1;
                    assert(nsp[k].0 <= i < nsp[k].1);
                } else {
                    assert(nsp[last].0 <= i < nsp[last].1);
                }
            }
            assert(spans_place_words(s, nws, nsp));
        } else {
            let nsp = sp.push((n - 1, n));
            let nws = ws.push(seq![c]);
            assert forall|k: int| 0 <= k < nsp.len() implies {
                let (a, e) = #[trigger] nsp[k];
                &&& 0 <= a < e <= s.len()
                &&& nws[k] == s.subrange(a, e)
                &&& (a == 0 || is_whitespace(s[a - 1]))
                &&& (e == s.len() || is_whitespace(s[e]))
            } by {
                let (a, e) = nsp[k];
                if k == sp.len() {
                    assert(s.subrange(a, e) =~= seq![c]);
                    if a > 0 {
                        assert(s[a - 1] == s[s.len() - 2]);
                    }
                } else {
                    assert(nsp[k] == sp[k]);
                    assert(p.subrange(a, e) =~= s.subrange(a, e));
                    if a > 0 {
                        assert(s[a - 1] == p[a - 1]);
                    }
                    if e < p.len() {
                        assert(s[e] == p[e]);
                    }
                }
            }
            assert forall|k: int, l: int| 0 <= k < l < nsp.len() implies #[trigger] nsp[k].1
                < #[trigger] nsp[l].0 by {
                if l < sp.len() {
                    assert(sp[k].1 < sp[l].0);
                } else {
                    assert(nsp[k] == sp[k]);
                }
            }
            assert forall|i: int| 0 <= i < s.len() && !is_whitespace(s[i]) implies exists|k: int|
                0 <= k < nsp.len() && (#[trigger] nsp[k]).0 <= i < nsp[k].1 by {
                if i < p.len() {
                    assert(p[i] == s[i]);
                    let k = choose|k: int| 0 <= k < sp.len() && (#[trigger] sp[k]).0 <= i < sp[k].1;
                    assert(nsp[k] == sp[k]);
                } else {
                    assert(nsp[sp.len() as int].0 <= i < nsp[sp.len() as int].1);
                }
            }
            assert(spans_place_words(s, nws, nsp));
        }
    }
}

/// Splitting at whitespace yields the maximal runs of non-whitespace
/// characters of the text, in order, and all of them: each word stands in
/// the text with whitespace (or an end of the text) on both sides, the words
/// appear in the order of the text, and every non-whitespace character lies
/// inside one of them.
pub proof fn law_words_are_maximal_runs(s: Seq<char>)
    ensures
        exists|spans: Seq<(int, int)>| spans_place_words(s, words(s), spans),
{
    lemma_word_spans(s);
    assert(spans_place_words(s, words(s), word_spans(s)));
}

} // verus!
