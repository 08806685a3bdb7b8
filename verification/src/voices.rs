//! Voices of the Edge read-aloud service: choosing the voice for a request
//! and listing the English voices for the control panel.

use vstd::prelude::*;
use crate::text::{
    occurs_at, chars_of, chars_equal, chars_less, contains, contains_spec, lemma_lex_less_irreflexive,
    lemma_lex_less_total, lemma_lex_less_transitive, lex_less, starts_with, starts_with_spec,
};

verus! {

/// The voice the reader uses unless the settings name another.
pub const DEFAULT_VOICE: &'static str = "en-US-EmmaMultilingualNeural";

/// The part of a default voice's full name that identifies it.
pub const DEFAULT_VOICE_FAMILY: &'static str = "EmmaMultilingualNeural";

/// The locale prefix of English voices.
pub const ENGLISH_PREFIX: &'static str = "en-";

/// A voice as the voice list describes it: the fields the reader looks at.
pub struct Voice {
    pub name: String,
    pub short_name: Option<String>,
    pub gender: Option<String>,
    pub locale: Option<String>,
    pub friendly_name: Option<String>,
}

/// The characters of an optional string.
pub open spec fn opt_chars(o: Option<String>) -> Option<Seq<char>> {
    match o {
        Some(s) => Some(s@),
        None => None,
    }
}

/// The characters of an optional string, or nothing when it is absent.
pub open spec fn chars_or_empty(o: Option<String>) -> Seq<char> {
    match o {
        Some(s) => s@,
        None => Seq::empty(),
    }
}

/// The voice is the one the settings ask for: its short name is `id`,
/// its full name is `id`, or its full name contains `id`.
pub open spec fn requested_match(v: Voice, id: Seq<char>) -> bool {
    ||| opt_chars(v.short_name) == Some(id)
    ||| v.name@ == id
    ||| contains_spec(v.name@, id)
}

/// The voice is the default voice, by short name or by full name.
pub open spec fn default_match(v: Voice) -> bool {
    ||| opt_chars(v.short_name) == Some(DEFAULT_VOICE@)
    ||| contains_spec(v.name@, DEFAULT_VOICE_FAMILY@)
}

/// The voice has an English locale (one that starts with `en-`).
pub open spec fn english_match(v: Voice) -> bool {
    starts_with_spec(chars_or_empty(v.locale), ENGLISH_PREFIX@)
}

/// The three ways a voice can be chosen, in order of preference.
pub enum Tier {
    Requested,
    Default,
    English,
}

/// Whether `v` qualifies in `tier` for the requested `id`.
pub open spec fn tier_match(tier: Tier, v: Voice, id: Seq<char>) -> bool {
    match tier {
        Tier::Requested => requested_match(v, id),
        Tier::Default => default_match(v),
        Tier::English => english_match(v),
    }
}

/// Some voice of `s` qualifies in `tier`.
pub open spec fn tier_has(s: Seq<Voice>, tier: Tier, id: Seq<char>) -> bool {
    exists|i: int| 0 <= i < s.len() && tier_match(tier, #[trigger] s[i], id)
}

/// `i` is the first voice of `s` that qualifies in `tier`.
pub open spec fn first_in_tier(s: Seq<Voice>, tier: Tier, id: Seq<char>, i: int) -> bool {
    &&& 0 <= i < s.len()
    &&& tier_match(tier, s[i], id)
    &&& forall|j: int| 0 <= j < i ==> !tier_match(tier, #[trigger] s[j], id)
}

/// Some voice of `s` can be chosen for `id`.
pub open spec fn any_choice(s: Seq<Voice>, id: Seq<char>) -> bool {
    tier_has(s, Tier::Requested, id) || tier_has(s, Tier::Default, id) || tier_has(
        s,
        Tier::English,
        id,
    )
}

/// `i` is the voice chosen for `id`: the first requested voice; failing
/// that, the first default voice; failing that, the first English voice.
pub open spec fn chosen_index(s: Seq<Voice>, id: Seq<char>, i: int) -> bool {
    if tier_has(s, Tier::Requested, id) {
        first_in_tier(s, Tier::Requested, id, i)
    } else if tier_has(s, Tier::Default, id) {
        first_in_tier(s, Tier::Default, id, i)
    } else {
        first_in_tier(s, Tier::English, id, i)
    }
}

fn optional_equals(o: &Option<String>, id: &Vec<char>) -> (r: bool)
    ensures
        r == (opt_chars(*o) == Some(id@)),
{
    match o {
        Some(s) => chars_equal(&chars_of(s.as_str()), id),
        None => false,
    }
}

fn voice_in_tier(
    v: &Voice,
    tier: &Tier,
    id: &Vec<char>,
    default_id: &Vec<char>,
    family: &Vec<char>,
    english: &Vec<char>,
) -> (r: bool)
    requires
        default_id@ == DEFAULT_VOICE@,
        family@ == DEFAULT_VOICE_FAMILY@,
        english@ == ENGLISH_PREFIX@,
    ensures
        r == tier_match(*tier, *v, id@),
{
    match tier {
        Tier::Requested => {
            if optional_equals(&v.short_name, id) {
                return true;
            }
            let name = chars_of(v.name.as_str());
            chars_equal(&name, id) || contains(&name, id)
        },
        Tier::Default => {
            if optional_equals(&v.short_name, default_id) {
                return true;
            }
            let name = chars_of(v.name.as_str());
            contains(&name, family)
        },
        Tier::English => {
            match &v.locale {
                Some(l) => starts_with(&chars_of(l.as_str()), english),
                None => {
                    let empty: Vec<char> = Vec::new();
                    starts_with(&empty, english)
                },
            }
        },
    }
}

fn find_in_tier(
    voices: &[Voice],
    tier: Tier,
    id: &Vec<char>,
    default_id: &Vec<char>,
    family: &Vec<char>,
    english: &Vec<char>,
) -> (r: Option<usize>)
    requires
        default_id@ == DEFAULT_VOICE@,
        family@ == DEFAULT_VOICE_FAMILY@,
        english@ == ENGLISH_PREFIX@,
    ensures
        r is None <==> !tier_has(voices@, tier, id@),
        r matches Some(i) ==> first_in_tier(voices@, tier, id@, i as int),
{
    let mut i: usize = 0;
    while i < voices.len()
        invariant
            default_id@ == DEFAULT_VOICE@,
            family@ == DEFAULT_VOICE_FAMILY@,
            english@ == ENGLISH_PREFIX@,
            i <= voices@.len(),
            forall|j: int| 0 <= j < i ==> !tier_match(tier, #[trigger] voices@[j], id@),
        decreases voices@.len() - i,
    {
        if voice_in_tier(&voices[i], &tier, id, default_id, family, english) {
            return Some(i);
        }
        i = i + 1;
    }
    None
}

/// The position of the voice to use for `voice_id`, by the rule of
/// [`select_voice`].
pub fn select_voice_index(voices: &[Voice], voice_id: &str) -> (r: Option<usize>)
    ensures
        r is None <==> !any_choice(voices@, voice_id@),
        r matches Some(i) ==> chosen_index(voices@, voice_id@, i as int),
{
    let id = chars_of(voice_id);
    let default_id = chars_of(DEFAULT_VOICE);
    let family = chars_of(DEFAULT_VOICE_FAMILY);
    let english = chars_of(ENGLISH_PREFIX);
    match find_in_tier(voices, Tier::Requested, &id, &default_id, &family, &english) {
        Some(i) => Some(i),
        None => match find_in_tier(voices, Tier::Default, &id, &default_id, &family, &english) {
            Some(i) => Some(i),
            None => find_in_tier(voices, Tier::English, &id, &default_id, &family, &english),
        },
    }
}

/// The voice to use for `voice_id`: the first voice that the settings ask
/// for, else the first default voice, else the first English voice.
pub fn select_voice<'a>(voices: &'a [Voice], voice_id: &str) -> (r: Option<&'a Voice>)
    ensures
        r is None <==> !any_choice(voices@, voice_id@),
        r matches Some(v) ==> exists|i: int| chosen_index(voices@, voice_id@, i) && *v == voices@[i],
{
    match select_voice_index(voices, voice_id) {
        Some(i) => Some(&voices[i]),
        None => None,
    }
}

/// A voice as the control panel lists it.
pub struct VoiceInfo {
    pub id: String,
    pub label: String,
    pub locale: String,
    pub gender: String,
}

/// The characters of a [`VoiceInfo`]'s fields.
pub struct VoiceInfoView {
    pub id: Seq<char>,
    pub label: Seq<char>,
    pub locale: Seq<char>,
    pub gender: Seq<char>,
}

impl View for VoiceInfo {
    type V = VoiceInfoView;

    open spec fn view(&self) -> VoiceInfoView {
        VoiceInfoView { id: self.id@, label: self.label@, locale: self.locale@, gender: self.gender@ }
    }
}

/// The views of a sequence of voice infos.
pub open spec fn info_views(s: Seq<VoiceInfo>) -> Seq<VoiceInfoView> {
    s.map_values(|v: VoiceInfo| v@)
}

/// The identifier of a voice: its short name, else its full name.
pub open spec fn voice_id_of(v: Voice) -> Seq<char> {
    match v.short_name {
        Some(s) => s@,
        None => v.name@,
    }
}

/// How the control panel lists a voice: its identifier; its friendly name
/// as label, else its identifier; its locale and gender, else nothing.
pub open spec fn info_of(v: Voice) -> VoiceInfoView {
    VoiceInfoView {
        id: voice_id_of(v),
        label: match v.friendly_name {
            Some(f) => f@,
            None => voice_id_of(v),
        },
        locale: chars_or_empty(v.locale),
        gender: chars_or_empty(v.gender),
    }
}

/// The listing of the English voices of `s`, in the order of `s`.
pub open spec fn english_infos(s: Seq<Voice>) -> Seq<VoiceInfoView> {
    s.filter_map(|v: Voice| if english_match(v) { Some(info_of(v)) } else { None })
}

/// The entries of `s` with label `label`, in their order in `s`.
pub open spec fn with_label(s: Seq<VoiceInfoView>, label: Seq<char>) -> Seq<VoiceInfoView> {
    s.filter(|v: VoiceInfoView| v.label == label)
}

/// `s` is ordered by label, in the code-point order.
pub open spec fn sorted_by_label(s: Seq<VoiceInfoView>) -> bool {
    forall|i: int, j: int| 0 <= i < j < s.len() ==> !lex_less(#[trigger] s[j].label, #[trigger] s[i].label)
}

/// `out` is `input` sorted stably by label: ordered by label, and the
/// entries of each label in the order they had in `input`.
pub open spec fn stably_sorted_by_label(out: Seq<VoiceInfoView>, input: Seq<VoiceInfoView>) -> bool {
    &&& sorted_by_label(out)
    &&& forall|label: Seq<char>| #[trigger] with_label(out, label) == with_label(input, label)
}

fn copy_string(s: &String) -> (r: String)
    ensures
        r@ == s@,
{
    s.clone()
}

fn copy_or_empty(o: &Option<String>) -> (r: String)
    ensures
        r@ == chars_or_empty(*o),
{
    match o {
        Some(s) => s.clone(),
        None => String::new(),
    }
}

fn info_for(v: &Voice) -> (r: VoiceInfo)
    ensures
        r@ == info_of(*v),
{
    let id = match &v.short_name {
        Some(s) => copy_string(s),
        None => copy_string(&v.name),
    };
    let label = match &v.friendly_name {
        Some(f) => copy_string(f),
        None => copy_string(&id),
    };
    VoiceInfo { id, label, locale: copy_or_empty(&v.locale), gender: copy_or_empty(&v.gender) }
}

proof fn lemma_filter_none(s: Seq<VoiceInfoView>, label: Seq<char>)
    requires
        forall|k: int| 0 <= k < s.len() ==> #[trigger] s[k].label != label,
    ensures
        with_label(s, label) == Seq::<VoiceInfoView>::empty(),
{
    let pred = |v: VoiceInfoView| v.label == label;
    assert(s.all(|x: VoiceInfoView| !pred(x)));
    s.lemma_all_neg_filter_empty(pred);
}

proof fn lemma_filter_push(s: Seq<VoiceInfoView>, x: VoiceInfoView, label: Seq<char>)
    ensures
        with_label(s.push(x), label) == if x.label == label {
            with_label(s, label).push(x)
        } else {
            with_label(s, label)
        },
{
    reveal(Seq::filter);
    assert(s.push(x).drop_last() == s);
}

/// Inserting `x` at `p` into `s`, where every entry before `p` has a label
/// not after `x`'s and every entry from `p` on a label after `x`'s, keeps
/// `s` sorted and adds `x` after the entries of its label.
proof fn lemma_insert_stable(s: Seq<VoiceInfoView>, x: VoiceInfoView, p: int)
    requires
        0 <= p <= s.len(),
        sorted_by_label(s),
        forall|k: int| 0 <= k < p ==> !lex_less(x.label, #[trigger] s[k].label),
        forall|k: int| p <= k < s.len() ==> lex_less(x.label, #[trigger] s[k].label),
    ensures
        sorted_by_label(s.insert(p, x)),
        forall|label: Seq<char>| #[trigger] with_label(s.insert(p, x), label) == with_label(s.push(x), label),
{
    let t = s.insert(p, x);
    assert forall|i: int, j: int| 0 <= i < j < t.len() implies !lex_less(
        #[trigger] t[j].label,
        #[trigger] t[i].label,
    ) by {
        if j < p {
            assert(t[i] == s[i] && t[j] == s[j]);
        } else if j == p {
            assert(t[i] == s[i] && t[j] == x);
        } else if i == p {
            assert(t[j] == s[j - 1] && t[i] == x);
            if lex_less(s[j - 1].label, x.label) {
                lemma_lex_less_transitive(x.label, s[j - 1].label, x.label);
                lemma_lex_less_irreflexive(x.label);
            }
        } else if i < p {
            assert(t[i] == s[i] && t[j] == s[j - 1]);
        } else {
            assert(t[i] == s[i - 1] && t[j] == s[j - 1]);
        }
    }
    let a = s.take(p);
    let b = s.skip(p);
    assert(s == a + b);
    assert(t == a + seq![x] + b);
    assert forall|label: Seq<char>| #[trigger] with_label(t, label) == with_label(s.push(x), label) by {
        let pred = |v: VoiceInfoView| v.label == label;
        Seq::filter_distributes_over_add(a + seq![x], b, pred);
        Seq::filter_distributes_over_add(a, seq![x], pred);
        Seq::filter_distributes_over_add(a, b, pred);
        lemma_filter_push(s, x, label);
        lemma_filter_push(Seq::<VoiceInfoView>::empty(), x, label);
        assert(Seq::<VoiceInfoView>::empty().push(x) == seq![x]);
        assert(with_label(Seq::<VoiceInfoView>::empty(), label) == Seq::<VoiceInfoView>::empty()) by {
            reveal(Seq::filter);
        }
        if x.label == label {
            assert forall|k: int| 0 <= k < b.len() implies #[trigger] b[k].label != label by {
                assert(b[k] == s[p + k]);
                lemma_lex_less_irreflexive(x.label);
            }
            lemma_filter_none(b, label);
            assert(with_label(a + seq![x], label) == with_label(a, label) + seq![x]);
            assert(with_label(s, label) == with_label(a, label) + with_label(b, label));
        } else {
            assert(with_label(a + seq![x], label) == with_label(a, label));
        }
    }
}

/// The English voices of `voices` as the control panel lists them, sorted
/// stably by label.
pub fn english_voice_infos(voices: &[Voice]) -> (out: Vec<VoiceInfo>)
    ensures
        stably_sorted_by_label(info_views(out@), english_infos(voices@)),
{
    let english = chars_of(ENGLISH_PREFIX);
    let mut out: Vec<VoiceInfo> = Vec::new();
    let mut i: usize = 0;
    assert(info_views(out@) == english_infos(voices@.take(0)));
    while i < voices.len()
        invariant
            english@ == ENGLISH_PREFIX@,
            i <= voices@.len(),
            stably_sorted_by_label(info_views(out@), english_infos(voices@.take(i as int))),
        decreases voices@.len() - i,
    {
        let v = &voices[i];
        let is_english = match &v.locale {
            Some(l) => starts_with(&chars_of(l.as_str()), &english),
            None => {
                let empty: Vec<char> = Vec::new();
                starts_with(&empty, &english)
            },
        };
        let ghost before = english_infos(voices@.take(i as int));
        proof {
            let f = |v: Voice| if english_match(v) { Some(info_of(v)) } else { None };
            assert(voices@.take(i + 1).drop_last() == voices@.take(i as int));
            assert(voices@.take(i + 1).last() == voices@[i as int]);
            reveal(Seq::filter);
        }
        if is_english {
            let info = info_for(v);
            let label = chars_of(info.label.as_str());
            // position after every entry whose label is not after `info`'s
            let mut p: usize = out.len();
            while p > 0 && chars_less(&label, &chars_of(out[p - 1].label.as_str()))
                invariant
                    p <= out@.len(),
                    label@ == info@.label,
                    sorted_by_label(info_views(out@)),
                    forall|k: int| p <= k < out@.len() ==> lex_less(label@, #[trigger] out@[k]@.label),
                decreases p,
            {
                p = p - 1;
            }
            let ghost old_views = info_views(out@);
            proof {
                assert forall|k: int| 0 <= k < p implies !lex_less(info@.label, #[trigger] old_views[k].label) by {
                    if p > 0 {
                        let top = old_views[p - 1];
                        assert(top == out@[p - 1]@);
                        if k < p - 1 {
                            assert(!lex_less(top.label, old_views[k].label));
                            if lex_less(info@.label, old_views[k].label) {
                                lemma_lex_less_total(top.label, old_views[k].label);
                                if top.label != old_views[k].label {
                                    lemma_lex_less_transitive(info@.label, old_views[k].label, top.label);
                                }
                            }
                        }
                    }
                }
                lemma_insert_stable(old_views, info@, p as int);
            }
            let ghost x = info@;
            out.insert(p, info);
            proof {
                assert(info_views(out@) == old_views.insert(p as int, x));
                assert(english_infos(voices@.take(i + 1)) == before.push(x));
                assert forall|label: Seq<char>| #[trigger] with_label(info_views(out@), label)
                    == with_label(english_infos(voices@.take(i + 1)), label) by {
                    lemma_filter_push(old_views, x, label);
                    lemma_filter_push(before, x, label);
                }
            }
        } else {
            assert(english_infos(voices@.take(i + 1)) == before);
        }
        i = i + 1;
    }
    assert(voices@.take(voices@.len() as int) == voices@);
    out
}

proof fn lemma_count_through_label(s: Seq<VoiceInfoView>, e: VoiceInfoView)
    ensures
        s.to_multiset().count(e) == with_label(s, e.label).to_multiset().count(e),
    decreases s.len(),
{
    broadcast use vstd::seq_lib::group_seq_properties;
    if s.len() > 0 {
        let rest = s.drop_last();
        lemma_count_through_label(rest, e);
        assert(rest.push(s.last()) == s);
        lemma_filter_push(rest, s.last(), e.label);
    }
}

/// The listing leaves out no English voice and adds none: it holds the
/// same entries, as often, as the English voices of the list.
pub proof fn law_listing_is_a_permutation(out: Seq<VoiceInfoView>, voices: Seq<Voice>)
    requires
        stably_sorted_by_label(out, english_infos(voices)),
    ensures
        out.to_multiset() == english_infos(voices).to_multiset(),
{
    let input = english_infos(voices);
    assert forall|e: VoiceInfoView| #[trigger] out.to_multiset().count(e) == input.to_multiset().count(e) by {
        lemma_count_through_label(out, e);
        lemma_count_through_label(input, e);
        assert(with_label(out, e.label) == with_label(input, e.label));
    }
    assert(out.to_multiset() =~= input.to_multiset());
}

/// Every voice of the listing has an English locale.
pub proof fn law_listing_is_english(out: Seq<VoiceInfoView>, voices: Seq<Voice>)
    requires
        stably_sorted_by_label(out, english_infos(voices)),
    ensures
        forall|i: int| 0 <= i < out.len() ==> starts_with_spec(#[trigger] out[i].locale, ENGLISH_PREFIX@),
{
    let input = english_infos(voices);
    let f = |v: Voice| if english_match(v) { Some(info_of(v)) } else { None };
    assert forall|i: int| 0 <= i < out.len() implies starts_with_spec(#[trigger] out[i].locale, ENGLISH_PREFIX@) by {
        let e = out[i];
        let pred = |v: VoiceInfoView| v.label == e.label;
        out.lemma_filter_contains(pred, i);
        assert(with_label(out, e.label).contains(e));
        assert(with_label(input, e.label).contains(e));
        input.lemma_filter_contains_rev(pred, e);
        voices.lemma_filter_map_contains(f, e);
        let v = choose|t: Voice| voices.contains(t) && f(t) == Some(e);
        assert(english_match(v));
    }
}

/// The voice is asked for by `id`, in plain terms: by short name, by full
/// name, or by a part of its full name.
pub open spec fn asked_for(v: Voice, id: Seq<char>) -> bool {
    ||| (v.short_name matches Some(n) && n@ == id)
    ||| v.name@ == id
    ||| exists|p: int| 0 <= p && p + id.len() <= v.name@.len() && #[trigger] v.name@.subrange(p, p + id.len()) == id
}

/// The voice is Emma, the default voice, in plain terms.
pub open spec fn is_emma(v: Voice) -> bool {
    ||| (v.short_name matches Some(n) && n@ == "en-US-EmmaMultilingualNeural"@)
    ||| exists|p: int|
        0 <= p && p + 22 <= v.name@.len() && #[trigger] v.name@.subrange(p, p + 22) == "EmmaMultilingualNeural"@
}

/// The voice speaks English, in plain terms: its locale starts with `en-`.
pub open spec fn speaks_english(v: Voice) -> bool {
    v.locale matches Some(l) && l@.len() >= 3 && l@.take(3) == "en-"@
}

proof fn lemma_contains_plain(s: Seq<char>, n: Seq<char>)
    ensures
        contains_spec(s, n) == exists|p: int|
            0 <= p && p + n.len() <= s.len() && #[trigger] s.subrange(p, p + n.len()) == n,
{
    if contains_spec(s, n) {
        let p = choose|i: int| occurs_at(s, n, i);
        assert(s.subrange(p, p + n.len()) == n);
    }
    if exists|p: int| 0 <= p && p + n.len() <= s.len() && #[trigger] s.subrange(p, p + n.len()) == n {
        let p = choose|p: int| 0 <= p && p + n.len() <= s.len() && #[trigger] s.subrange(p, p + n.len()) == n;
        assert(occurs_at(s, n, p));
    }
}

/// How a voice is chosen: a voice asked for wins over every later voice
/// and over every voice not asked for; when none is asked for, Emma wins
/// likewise; when neither, an English voice does.
pub proof fn law_voice_choice(voices: Seq<Voice>, id: Seq<char>, j: int, k: int)
    requires
        chosen_index(voices, id, j),
        0 <= k < voices.len(),
    ensures
        asked_for(voices[k], id) ==> j <= k && asked_for(voices[j], id),
        (forall|i: int| 0 <= i < voices.len() ==> !asked_for(#[trigger] voices[i], id))
            && is_emma(voices[k]) ==> j <= k && is_emma(voices[j]),
        (forall|i: int| 0 <= i < voices.len() ==> !asked_for(#[trigger] voices[i], id))
            && (forall|i: int| 0 <= i < voices.len() ==> !is_emma(#[trigger] voices[i]))
            && speaks_english(voices[k]) ==> j <= k && speaks_english(voices[j]),
{
    reveal_strlit("EmmaMultilingualNeural");
    assert(DEFAULT_VOICE_FAMILY@.len() == 22);
    assert forall|v: Voice| #[trigger] requested_match(v, id) == asked_for(v, id) by {
        lemma_contains_plain(v.name@, id);
        if v.short_name is Some {
            assert(opt_chars(v.short_name) == Some(v.short_name->0@));
        }
    }
    assert forall|v: Voice| #[trigger] default_match(v) == is_emma(v) by {
        lemma_contains_plain(v.name@, DEFAULT_VOICE_FAMILY@);
        if v.short_name is Some {
            assert(opt_chars(v.short_name) == Some(v.short_name->0@));
        }
    }
    assert forall|v: Voice| #[trigger] english_match(v) == speaks_english(v) by {
        reveal_strlit("en-");
    }
    assert(tier_match(Tier::Requested, voices[k], id) == asked_for(voices[k], id));
    assert(tier_match(Tier::Requested, voices[j], id) == asked_for(voices[j], id));
    assert(tier_match(Tier::Default, voices[k], id) == is_emma(voices[k]));
    assert(tier_match(Tier::Default, voices[j], id) == is_emma(voices[j]));
    assert(tier_match(Tier::English, voices[k], id) == speaks_english(voices[k]));
    assert(tier_match(Tier::English, voices[j], id) == speaks_english(voices[j]));
    if forall|i: int| 0 <= i < voices.len() ==> !asked_for(#[trigger] voices[i], id) {
        assert(!tier_has(voices, Tier::Requested, id));
        if forall|i: int| 0 <= i < voices.len() ==> !is_emma(#[trigger] voices[i]) {
            assert(!tier_has(voices, Tier::Default, id));
        }
    }
}

/// `e` describes `v` in plain terms: its identifier is the voice's short
/// name (else its full name), its label the friendly name (else the
/// identifier), and its locale and gender those of the voice (else empty).
pub open spec fn describes(e: VoiceInfoView, v: Voice) -> bool {
    &&& e.id == (match v.short_name { Some(n) => n@, None => v.name@ })
    &&& e.label == (match v.friendly_name { Some(f) => f@, None => e.id })
    &&& e.locale == (match v.locale { Some(l) => l@, None => Seq::<char>::empty() })
    &&& e.gender == (match v.gender { Some(g) => g@, None => Seq::<char>::empty() })
}

/// `e` describes some English voice of `voices`.
pub open spec fn from_english_voice(e: VoiceInfoView, voices: Seq<Voice>) -> bool {
    exists|v: Voice| #[trigger] voices.contains(v) && speaks_english(v) && describes(e, v)
}

/// Every entry of the voice listing describes an English voice of the
/// list.
pub proof fn law_listing_entries_come_from_voices(out: Seq<VoiceInfoView>, voices: Seq<Voice>)
    requires
        stably_sorted_by_label(out, english_infos(voices)),
    ensures
        forall|i: int| 0 <= i < out.len() ==> #[trigger] from_english_voice(out[i], voices),
{
    let input = english_infos(voices);
    let f = |v: Voice| if english_match(v) { Some(info_of(v)) } else { None };
    assert forall|i: int| 0 <= i < out.len() implies #[trigger] from_english_voice(out[i], voices) by {
        let e = out[i];
        let pred = |v: VoiceInfoView| v.label == e.label;
        out.lemma_filter_contains(pred, i);
        assert(with_label(out, e.label).contains(e));
        assert(with_label(input, e.label).contains(e));
        input.lemma_filter_contains_rev(pred, e);
        voices.lemma_filter_map_contains(f, e);
        let v = choose|t: Voice| voices.contains(t) && f(t) == Some(e);
        assert(english_match(v));
        reveal_strlit("en-");
        assert(speaks_english(v));
        assert(describes(e, v));
        assert(voices.contains(v) && speaks_english(v) && describes(out[i], v));
    }
}

} // verus!
