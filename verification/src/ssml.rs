//! Escaping text for the speech service's SSML markup.

use vstd::prelude::*;
use crate::text::{chars_of, push_char};

verus! {

/// What one character of text becomes in SSML: `&`, `<` and `>` become
/// the entities `&amp;`, `&lt;` and `&gt;`; every other character stays.
pub open spec fn escape_char(c: char) -> Seq<char> {
    if c == '&' {
        seq!['&', 'a', 'm', 'p', ';']
    } else if c == '<' {
        seq!['&', 'l', 't', ';']
    } else if c == '>' {
        seq!['&', 'g', 't', ';']
    } else {
        seq![c]
    }
}

/// The SSML form of `s`: each character escaped in turn.
pub open spec fn escape_ssml_spec(s: Seq<char>) -> Seq<char>
    decreases s.len(),
{
    if s.len() == 0 {
        Seq::empty()
    } else {
        escape_ssml_spec(s.drop_last()) + escape_char(s.last())
    }
}

/// `text` with `&`, `<` and `>` replaced by their entities, so that the
/// speech service reads it as text and not as markup.
pub fn escape_ssml(text: &str) -> (out: String)
    ensures
        out@ == escape_ssml_spec(text@),
{
    let chars = chars_of(text);
    let mut out = String::new();
    let mut i: usize = 0;
    while i < chars.len()
        invariant
            chars@ == text@,
            i <= chars@.len(),
            out@ == escape_ssml_spec(chars@.take(i as int)),
        decreases chars@.len() - i,
    {
        let c = chars[i];
        let ghost before = chars@.take(i as int);
        if c == '&' {
            push_char(&mut out, '&');
            push_char(&mut out, 'a');
            push_char(&mut out, 'm');
            push_char(&mut out, 'p');
            push_char(&mut out, ';');
        } else if c == '<' {
            push_char(&mut out, '&');
            push_char(&mut out, 'l');
            push_char(&mut out, 't');
            push_char(&mut out, ';');
        } else if c == '>' {
            push_char(&mut out, '&');
            push_char(&mut out, 'g');
            push_char(&mut out, 't');
            push_char(&mut out, ';');
        } else {
            push_char(&mut out, c);
        }
        proof {
            let after = chars@.take(i + 1);
            assert(after.drop_last() == before);
            assert(after.last() == c);
            assert(out@ == escape_ssml_spec(before) + escape_char(c));
        }
        i = i + 1;
    }
    assert(chars@.take(chars@.len() as int) == chars@);
    out
}

/// Escaping a concatenation escapes each part.
pub proof fn lemma_escape_append(a: Seq<char>, b: Seq<char>)
    ensures
        escape_ssml_spec(a + b) == escape_ssml_spec(a) + escape_ssml_spec(b),
    decreases b.len(),
{
    if b.len() == 0 {
        assert(a + b == a);
    } else {
        lemma_escape_append(a, b.drop_last());
        assert((a + b).drop_last() == a + b.drop_last());
        assert((a + b).last() == b.last());
    }
}

/// Escaped text holds no `<` and no `>`: it cannot open or close a tag.
pub proof fn law_escaped_has_no_angle_brackets(s: Seq<char>)
    ensures
        forall|i: int|
            0 <= i < escape_ssml_spec(s).len() ==> #[trigger] escape_ssml_spec(s)[i] != '<'
                && escape_ssml_spec(s)[i] != '>',
    decreases s.len(),
{
    if s.len() > 0 {
        law_escaped_has_no_angle_brackets(s.drop_last());
        let e = escape_ssml_spec(s);
        let p = escape_ssml_spec(s.drop_last());
        assert forall|i: int| 0 <= i < e.len() implies #[trigger] e[i] != '<' && e[i] != '>' by {
            if i >= p.len() {
                assert(e[i] == escape_char(s.last())[i - p.len()]);
            } else {
                assert(e[i] == p[i]);
            }
        }
    }
}

/// Reading SSML text back: the entities `&amp;`, `&lt;` and `&gt;` become
/// the characters they stand for, every other character stays.
pub open spec fn unescape_ssml_spec(t: Seq<char>) -> Seq<char>
    decreases t.len(),
{
    if t.len() == 0 {
        Seq::empty()
    } else if t.len() >= 5 && t.take(5) == seq!['&', 'a', 'm', 'p', ';'] {
        seq!['&'] + unescape_ssml_spec(t.skip(5))
    } else if t.len() >= 4 && t.take(4) == seq!['&', 'l', 't', ';'] {
        seq!['<'] + unescape_ssml_spec(t.skip(4))
    } else if t.len() >= 4 && t.take(4) == seq!['&', 'g', 't', ';'] {
        seq!['>'] + unescape_ssml_spec(t.skip(4))
    } else {
        seq![t[0]] + unescape_ssml_spec(t.skip(1))
    }
}

proof fn lemma_unescape_prefix(c: char, rest: Seq<char>)
    ensures
        unescape_ssml_spec(escape_char(c) + rest) == seq![c] + unescape_ssml_spec(rest),
{
    let e = escape_char(c);
    let t = e + rest;
    assert(t.skip(e.len() as int) == rest);
    assert(t.take(e.len() as int) == e);
    if c != '&' && c != '<' && c != '>' {
        assert(t[0] == c);
    }
}

/// Escaping loses nothing: reading the SSML text back gives the text.
pub proof fn law_unescape_undoes_escape(s: Seq<char>)
    ensures
        unescape_ssml_spec(escape_ssml_spec(s)) == s,
    decreases s.len(),
{
    if s.len() > 0 {
        let rest = s.drop_first();
        assert(s == seq![s[0]] + rest);
        lemma_escape_append(seq![s[0]], rest);
        assert(seq![s[0]].drop_last() == Seq::<char>::empty());
        assert(escape_ssml_spec(Seq::<char>::empty()) == Seq::<char>::empty());
        assert(seq![s[0]].last() == s[0]);
        assert(Seq::<char>::empty() + escape_char(s[0]) == escape_char(s[0]));
        assert(escape_ssml_spec(seq![s[0]]) == escape_char(s[0]));
        lemma_unescape_prefix(s[0], escape_ssml_spec(rest));
        law_unescape_undoes_escape(rest);
    }
}

/// Different texts have different SSML forms.
pub proof fn law_escape_is_injective(a: Seq<char>, b: Seq<char>)
    requires
        escape_ssml_spec(a) == escape_ssml_spec(b),
    ensures
        a == b,
{
    law_unescape_undoes_escape(a);
    law_unescape_undoes_escape(b);
}

/// `str::replace` with a non-empty pattern: each leftmost occurrence of
/// `pat`, scanning from the start and without overlap, becomes `rep`.
pub open spec fn replace_spec(s: Seq<char>, pat: Seq<char>, rep: Seq<char>) -> Seq<char>
    recommends
        pat.len() > 0,
    decreases s.len(),
{
    if pat.len() == 0 || s.len() < pat.len() {
        s
    } else if s.take(pat.len() as int) == pat {
        rep + replace_spec(s.skip(pat.len() as int), pat, rep)
    } else {
        seq![s[0]] + replace_spec(s.skip(1), pat, rep)
    }
}

/// Reading SSML text back with three replacements in turn: `&lt;` to `<`,
/// `&gt;` to `>`, then `&amp;` to `&`.
pub open spec fn unescape_by_replace(t: Seq<char>) -> Seq<char> {
    replace_spec(
        replace_spec(replace_spec(t, seq!['&', 'l', 't', ';'], seq!['<']), seq!['&', 'g', 't', ';'], seq!['>']),
        seq!['&', 'a', 'm', 'p', ';'],
        seq!['&'],
    )
}

/// `s` with each character `c` replaced by `f(c)`.
pub open spec fn map_chars(s: Seq<char>, f: spec_fn(char) -> Seq<char>) -> Seq<char>
    decreases s.len(),
{
    if s.len() == 0 {
        Seq::empty()
    } else {
        f(s[0]) + map_chars(s.skip(1), f)
    }
}

/// `u` holds no match of `pat` that a scan could find, even when more
/// text follows: `pat`'s first character occurs in `u` at most at the
/// start, and there `u` begins with something else.
pub open spec fn opaque_to(u: Seq<char>, pat: Seq<char>) -> bool {
    &&& forall|i: int| 1 <= i < u.len() ==> #[trigger] u[i] != pat[0]
    &&& (u.len() > 0 && u[0] == pat[0]) ==> (u.len() >= pat.len() && u.take(pat.len() as int) != pat)
}

proof fn lemma_replace_opaque(u: Seq<char>, rest: Seq<char>, pat: Seq<char>, rep: Seq<char>)
    requires
        pat.len() > 0,
        opaque_to(u, pat),
    ensures
        replace_spec(u + rest, pat, rep) == u + replace_spec(rest, pat, rep),
    decreases u.len(),
{
    if u.len() > 0 {
        let t = u + rest;
        if t.len() < pat.len() {
            assert(rest.len() < pat.len());
        } else {
            if u[0] != pat[0] {
                assert(t.take(pat.len() as int)[0] != pat[0]);
            } else {
                assert(t.take(pat.len() as int) == u.take(pat.len() as int));
            }
            let v = u.skip(1);
            assert forall|i: int| 1 <= i < v.len() implies #[trigger] v[i] != pat[0] by {
                assert(v[i] == u[i + 1]);
            }
            if v.len() > 0 {
                assert(v[0] == u[1]);
            }
            lemma_replace_opaque(v, rest, pat, rep);
            assert(t.skip(1) == v + rest);
            assert(u == seq![u[0]] + v);
        }
    } else {
        assert(u + rest == rest);
    }
}

proof fn lemma_replace_map(
    s: Seq<char>,
    f1: spec_fn(char) -> Seq<char>,
    f2: spec_fn(char) -> Seq<char>,
    pat: Seq<char>,
    rep: Seq<char>,
)
    requires
        pat.len() > 0,
        forall|c: char| #![trigger f1(c)] (f1(c) == pat && f2(c) == rep) || (f2(c) == f1(c) && opaque_to(f1(c), pat)),
    ensures
        replace_spec(map_chars(s, f1), pat, rep) == map_chars(s, f2),
    decreases s.len(),
{
    if s.len() > 0 {
        let rest = map_chars(s.skip(1), f1);
        lemma_replace_map(s.skip(1), f1, f2, pat, rep);
        if f1(s[0]) == pat && f2(s[0]) == rep {
            let t = pat + rest;
            assert(t.take(pat.len() as int) == pat);
            assert(t.skip(pat.len() as int) == rest);
        } else {
            lemma_replace_opaque(f1(s[0]), rest, pat, rep);
        }
    }
}

proof fn lemma_escape_is_map(s: Seq<char>)
    ensures
        escape_ssml_spec(s) == map_chars(s, |c: char| escape_char(c)),
    decreases s.len(),
{
    if s.len() > 0 {
        let rest = s.drop_first();
        assert(s.skip(1) == rest);
        assert(s == seq![s[0]] + rest);
        lemma_escape_append(seq![s[0]], rest);
        assert(seq![s[0]].drop_last() == Seq::<char>::empty());
        assert(escape_ssml_spec(Seq::<char>::empty()) == Seq::<char>::empty());
        assert(seq![s[0]].last() == s[0]);
        assert(Seq::<char>::empty() + escape_char(s[0]) == escape_char(s[0]));
        lemma_escape_is_map(rest);
    }
}

proof fn lemma_map_identity(s: Seq<char>)
    ensures
        map_chars(s, |c: char| seq![c]) == s,
    decreases s.len(),
{
    if s.len() > 0 {
        lemma_map_identity(s.skip(1));
        assert(s == seq![s[0]] + s.skip(1));
    }
}

/// Replacing the entities back in turn, `&lt;`, then `&gt;`, then
/// `&amp;`, as chained `str::replace` calls do, gives back the text.
pub proof fn law_replace_chain_undoes_escape(s: Seq<char>)
    ensures
        unescape_by_replace(escape_ssml_spec(s)) == s,
{
    let amp = seq!['&', 'a', 'm', 'p', ';'];
    let lt = seq!['&', 'l', 't', ';'];
    let gt = seq!['&', 'g', 't', ';'];
    let f0 = |c: char| escape_char(c);
    let f1 = |c: char| if c == '&' { amp } else if c == '>' { gt } else { seq![c] };
    let f2 = |c: char| if c == '&' { amp } else { seq![c] };
    let f3 = |c: char| seq![c];
    lemma_escape_is_map(s);
    assert forall|c: char| #![trigger f0(c)] (f0(c) == lt && f1(c) == seq!['<']) || (f1(c) == f0(c) && opaque_to(f0(c), lt)) by {
        if c == '&' {
            assert(amp.take(4) != lt) by { assert(amp.take(4)[1] != lt[1]); }
        } else if c == '>' {
            assert(gt.take(4) != lt) by { assert(gt[1] != lt[1]); }
        }
    }
    lemma_replace_map(s, f0, f1, lt, seq!['<']);
    assert forall|c: char| #![trigger f1(c)] (f1(c) == gt && f2(c) == seq!['>']) || (f2(c) == f1(c) && opaque_to(f1(c), gt)) by {
        if c == '&' {
            assert(amp.take(4) != gt) by { assert(amp.take(4)[1] != gt[1]); }
        }
    }
    lemma_replace_map(s, f1, f2, gt, seq!['>']);
    assert forall|c: char| #![trigger f2(c)] (f2(c) == amp && f3(c) == seq!['&']) || (f3(c) == f2(c) && opaque_to(f2(c), amp)) by {
    }
    lemma_replace_map(s, f2, f3, amp, seq!['&']);
    lemma_map_identity(s);
}

} // verus!
