//! Tag substitution in text templates.
//!
//! A placeholder is the literal token `{{ name }}` (double braces, one
//! space of padding).  Substitution is a single left-to-right pass over
//! the original template: at each position, if some mapped tag's token
//! starts there — the first such pair in the list, should several
//! share a token — its value is emitted and the scan resumes after the
//! token; otherwise the character is copied.  Values are inserted
//! verbatim and never rescanned, so a token that a value introduces is
//! not substituted again, by any key.
//!
//! `replace_all` is the same pass for a single pattern, as
//! `str::replace` performs it.

use vstd::prelude::*;

verus! {

/// The literal placeholder token for a tag name.
pub open spec fn tag_token(name: Seq<char>) -> Seq<char> {
    seq!['{', '{', ' '] + name + seq![' ', '}', '}']
}

/// The pattern stands at position `i` of `s`.
pub open spec fn match_at(s: Seq<char>, pat: Seq<char>, i: int) -> bool {
    0 <= i && i + pat.len() <= s.len() && s.subrange(i, i + pat.len()) == pat
}

/// The pattern stands somewhere in `s`.
pub open spec fn occurs(s: Seq<char>, pat: Seq<char>) -> bool {
    exists|i: int| match_at(s, pat, i)
}

/// One left-to-right pass over `s`: at each position, if the pattern
/// starts there, it is replaced by `val` and the scan resumes after the
/// occurrence; otherwise the character is kept.  An empty pattern
/// replaces nothing.
pub open spec fn replace_all_spec(s: Seq<char>, pat: Seq<char>, val: Seq<char>) -> Seq<char>
    decreases s.len(),
{
    if pat.len() == 0 || s.len() < pat.len() {
        s
    } else if s.subrange(0, pat.len() as int) == pat {
        val + replace_all_spec(s.skip(pat.len() as int), pat, val)
    } else {
        seq![s[0]] + replace_all_spec(s.skip(1), pat, val)
    }
}

/// The views of a list of (tag, value) pairs.
pub open spec fn tags_view(v: Seq<(String, String)>) -> Seq<(Seq<char>, Seq<char>)> {
    v.map_values(|p: (String, String)| (p.0@, p.1@))
}

/// The index of the first pair whose token stands at the head of `s`,
/// if any pair's does.
pub open spec fn head_tag(s: Seq<char>, tags: Seq<(Seq<char>, Seq<char>)>) -> Option<int>
    decreases tags.len(),
{
    if tags.len() == 0 {
        None
    } else if match_at(s, tag_token(tags[0].0), 0) {
        Some(0int)
    } else {
        match head_tag(s, tags.drop_first()) {
            Some(k) => Some(k + 1),
            None => None,
        }
    }
}

/// What `head_tag` answers: the pair it names matches at the head and
/// no earlier pair does; `None` means no pair's token matches there.
pub proof fn lemma_head_tag(s: Seq<char>, tags: Seq<(Seq<char>, Seq<char>)>)
    ensures
        head_tag(s, tags) is Some ==> 0 <= head_tag(s, tags)->0 < tags.len(),
        head_tag(s, tags) is Some ==> match_at(
            s,
            tag_token(tags[head_tag(s, tags)->0].0),
            0,
        ),
        head_tag(s, tags) is Some ==> forall|j: int|
            0 <= j < head_tag(s, tags)->0 ==> !match_at(s, tag_token(#[trigger] tags[j].0), 0),
        head_tag(s, tags) is None ==> forall|j: int|
            0 <= j < tags.len() ==> !match_at(s, tag_token(#[trigger] tags[j].0), 0),
    decreases tags.len(),
{
    if tags.len() == 0 {
    } else if match_at(s, tag_token(tags[0].0), 0) {
    } else {
        lemma_head_tag(s, tags.drop_first());
        assert(forall|j: int|
            0 <= j < tags.drop_first().len() ==> #[trigger] tags.drop_first()[j] == tags[j + 1]);
        match head_tag(s, tags.drop_first()) {
            Some(k) => {
                assert forall|j: int| 0 <= j < k + 1 implies !match_at(
                    s,
                    tag_token(#[trigger] tags[j].0),
                    0,
                ) by {
                    if j > 0 {
                        assert(tags.drop_first()[j - 1] == tags[j]);
                    }
                }
            },
            None => {
                assert forall|j: int| 0 <= j < tags.len() implies !match_at(
                    s,
                    tag_token(#[trigger] tags[j].0),
                    0,
                ) by {
                    if j > 0 {
                        assert(tags.drop_first()[j - 1] == tags[j]);
                    }
                }
            },
        }
    }
}

/// A single left-to-right pass over the original template: at each
/// position, the first listed tag whose token starts there is
/// substituted and the scan resumes after the token; every other
/// character is copied.  Values are never rescanned.
pub open spec fn replace_tags_spec(s: Seq<char>, tags: Seq<(Seq<char>, Seq<char>)>) -> Seq<char>
    decreases s.len(),
    via replace_tags_spec_decreases
{
    if s.len() == 0 {
        s
    } else {
        match head_tag(s, tags) {
            Some(k) => tags[k].1 + replace_tags_spec(
                s.skip(tag_token(tags[k].0).len() as int),
                tags,
            ),
            None => seq![s[0]] + replace_tags_spec(s.skip(1), tags),
        }
    }
}

#[via_fn]
proof fn replace_tags_spec_decreases(s: Seq<char>, tags: Seq<(Seq<char>, Seq<char>)>) {
    lemma_head_tag(s, tags);
}

/// Text in which the pattern does not occur passes through unchanged; in
/// particular a placeholder that has no entry in the mapping is left
/// untouched.
pub proof fn lemma_no_match_identity(s: Seq<char>, pat: Seq<char>, val: Seq<char>)
    requires
        !occurs(s, pat),
    ensures
        replace_all_spec(s, pat, val) == s,
    decreases s.len(),
{
    if pat.len() == 0 {
        assert(s.subrange(0, 0) =~= pat);
        assert(match_at(s, pat, 0));
    } else if s.len() < pat.len() {
    } else if s.subrange(0, pat.len() as int) == pat {
        assert(match_at(s, pat, 0));
    } else {
        assert forall|i: int| !match_at(s.skip(1), pat, i) by {
            if match_at(s.skip(1), pat, i) {
                assert(s.subrange(i + 1, i + 1 + pat.len()) =~= s.skip(1).subrange(
                    i,
                    i + pat.len(),
                ));
                assert(match_at(s, pat, i + 1));
            }
        }
        lemma_no_match_identity(s.skip(1), pat, val);
        assert(seq![s[0]] + s.skip(1) =~= s);
    }
}

/// When the shown occurrence of the pattern is the leftmost one, the
/// pass keeps the prefix, substitutes the value, and goes on with the
/// remainder alone.
pub proof fn lemma_replace_first(a: Seq<char>, pat: Seq<char>, b: Seq<char>, val: Seq<char>)
    requires
        pat.len() > 0,
        forall|i: int| 0 <= i < a.len() ==> !match_at(a + pat + b, pat, i),
    ensures
        replace_all_spec(a + pat + b, pat, val) == a + val + replace_all_spec(b, pat, val),
    decreases a.len(),
{
    let s = a + pat + b;
    if a.len() == 0 {
        assert(s.subrange(0, pat.len() as int) =~= pat);
        assert(s.skip(pat.len() as int) =~= b);
        assert(a + val + replace_all_spec(b, pat, val) =~= val + replace_all_spec(b, pat, val));
    } else {
        assert(s.len() >= pat.len());
        assert(s.subrange(0, pat.len() as int) != pat) by {
            if s.subrange(0, pat.len() as int) == pat {
                assert(match_at(s, pat, 0));
            }
        }
        let a1 = a.skip(1);
        assert(s.skip(1) =~= a1 + pat + b);
        assert forall|i: int| 0 <= i < a1.len() implies !match_at(a1 + pat + b, pat, i) by {
            if match_at(a1 + pat + b, pat, i) {
                assert(s.subrange(i + 1, i + 1 + pat.len()) =~= (a1 + pat + b).subrange(
                    i,
                    i + pat.len(),
                ));
                assert(match_at(s, pat, i + 1));
            }
        }
        lemma_replace_first(a1, pat, b, val);
        assert(seq![s[0]] + (a1 + val + replace_all_spec(b, pat, val)) =~= a + val
            + replace_all_spec(b, pat, val));
    }
}

/// On a mapping of one tag, the engine's pass is exactly the single-
/// pattern pass for that tag's token.
pub proof fn lemma_single_tag(s: Seq<char>, name: Seq<char>, val: Seq<char>)
    ensures
        replace_tags_spec(s, seq![(name, val)]) == replace_all_spec(s, tag_token(name), val),
    decreases s.len(),
{
    let tags = seq![(name, val)];
    let pat = tag_token(name);
    if s.len() == 0 {
    } else {
        if match_at(s, pat, 0) {
            assert(head_tag(s, tags) == Some(0int));
            lemma_single_tag(s.skip(pat.len() as int), name, val);
        } else {
            assert(tags.drop_first().len() == 0);
            assert(head_tag(s, tags.drop_first()) is None);
            assert(head_tag(s, tags) is None);
            lemma_single_tag(s.skip(1), name, val);
            if s.len() < pat.len() {
                assert(seq![s[0]] + s.skip(1) =~= s);
            }
        }
    }
}

/// Substitution correctness: in a template `a ++ {{ name }} ++ b` whose
/// shown token is its only occurrence, the engine yields `a ++ val ++ b`,
/// so the value stands exactly where the token stood; and provided the
/// replacement does not itself rebuild the token, no occurrence of the
/// token is left in the output.  (With `val` equal to the tag's inner
/// text, as in template `{{ {{ x }} }}` with value `x`, the output forms
/// a fresh token; the last hypothesis rules such inputs out.)
pub proof fn lemma_substitution_correctness(
    a: Seq<char>,
    name: Seq<char>,
    b: Seq<char>,
    val: Seq<char>,
)
    requires
        forall|i: int|
            0 <= i < a.len() ==> !match_at(a + tag_token(name) + b, tag_token(name), i),
        !occurs(b, tag_token(name)),
        !occurs(a + val + b, tag_token(name)),
    ensures
        replace_tags_spec(a + tag_token(name) + b, seq![(name, val)]) == a + val + b,
        replace_tags_spec(a + tag_token(name) + b, seq![(name, val)]).subrange(
            a.len() as int,
            a.len() + val.len() as int,
        ) == val,
        !occurs(replace_tags_spec(a + tag_token(name) + b, seq![(name, val)]), tag_token(name)),
{
    let pat = tag_token(name);
    lemma_single_tag(a + pat + b, name, val);
    lemma_no_match_identity(b, pat, val);
    lemma_replace_first(a, pat, b, val);
    assert(a + val + replace_all_spec(b, pat, val) =~= a + val + b);
    assert((a + val + b).subrange(a.len() as int, a.len() + val.len() as int) =~= val);
}

/// A template in which none of the mapped tags' tokens occur passes
/// through the whole pass unchanged.
pub proof fn lemma_untouched_template(s: Seq<char>, tags: Seq<(Seq<char>, Seq<char>)>)
    requires
        forall|k: int| 0 <= k < tags.len() ==> !occurs(s, tag_token(#[trigger] tags[k].0)),
    ensures
        replace_tags_spec(s, tags) == s,
    decreases s.len(),
{
    if s.len() > 0 {
        lemma_head_tag(s, tags);
        if head_tag(s, tags) is Some {
            let k = head_tag(s, tags)->0;
            assert(match_at(s, tag_token(tags[k].0), 0));
            assert(occurs(s, tag_token(tags[k].0)));
            assert(false);
        }
        assert forall|k: int| 0 <= k < tags.len() implies !occurs(
            s.skip(1),
            tag_token(#[trigger] tags[k].0),
        ) by {
            if occurs(s.skip(1), tag_token(tags[k].0)) {
                let i = choose|i: int| match_at(s.skip(1), tag_token(tags[k].0), i);
                assert(s.subrange(i + 1, i + 1 + tag_token(tags[k].0).len()) =~= s.skip(
                    1,
                ).subrange(i, i + tag_token(tags[k].0).len()));
                assert(match_at(s, tag_token(tags[k].0), i + 1));
            }
        }
        lemma_untouched_template(s.skip(1), tags);
        assert(seq![s[0]] + s.skip(1) =~= s);
    }
}

/// As long as no mapped tag's token matches, the pass copies the text:
/// a prefix in which no token of the mapping starts is kept verbatim,
/// and the pass goes on with the remainder alone.
pub proof fn lemma_prefix_untouched(a: Seq<char>, b: Seq<char>, tags: Seq<(Seq<char>, Seq<char>)>)
    requires
        forall|k: int, i: int|
            0 <= k < tags.len() && 0 <= i < a.len() ==> !(#[trigger] match_at(
                a + b,
                tag_token(tags[k].0),
                i,
            )),
    ensures
        replace_tags_spec(a + b, tags) == a + replace_tags_spec(b, tags),
    decreases a.len(),
{
    let s = a + b;
    if a.len() == 0 {
        assert(s =~= b);
        assert(a + replace_tags_spec(b, tags) =~= replace_tags_spec(b, tags));
    } else {
        lemma_head_tag(s, tags);
        match head_tag(s, tags) {
            Some(k) => {
                assert(match_at(s, tag_token(tags[k].0), 0));
                assert(false);
            },
            None => {},
        }
        let a1 = a.skip(1);
        assert(s.skip(1) =~= a1 + b);
        assert forall|k: int, i: int|
            0 <= k < tags.len() && 0 <= i < a1.len() implies !(#[trigger] match_at(
            a1 + b,
            tag_token(tags[k].0),
            i,
        )) by {
            if match_at(a1 + b, tag_token(tags[k].0), i) {
                assert(s.subrange(i + 1, i + 1 + tag_token(tags[k].0).len()) =~= (a1
                    + b).subrange(i, i + tag_token(tags[k].0).len()));
                assert(match_at(s, tag_token(tags[k].0), i + 1));
            }
        }
        lemma_prefix_untouched(a1, b, tags);
        assert(seq![s[0]] + (a1 + replace_tags_spec(b, tags)) =~= a + replace_tags_spec(b, tags));
    }
}

/// A placeholder with no entry in the mapping is left untouched: when no
/// mapped tag's token matches before or inside the shown token — as none
/// can when the keys are brace-free identifiers and none is `name` — the
/// token stands verbatim at its original position in the output.
pub proof fn lemma_unmapped_token_preserved(
    a: Seq<char>,
    name: Seq<char>,
    b: Seq<char>,
    tags: Seq<(Seq<char>, Seq<char>)>,
)
    requires
        forall|k: int, i: int|
            0 <= k < tags.len() && 0 <= i < a.len() + tag_token(name).len() ==> !(#[trigger] match_at(
                a + tag_token(name) + b,
                tag_token(tags[k].0),
                i,
            )),
    ensures
        replace_tags_spec(a + tag_token(name) + b, tags) == a + tag_token(name)
            + replace_tags_spec(b, tags),
        replace_tags_spec(a + tag_token(name) + b, tags).subrange(
            a.len() as int,
            a.len() + tag_token(name).len() as int,
        ) == tag_token(name),
{
    let tok = tag_token(name);
    assert(a + tok + b =~= (a + tok) + b);
    assert forall|k: int, i: int|
        0 <= k < tags.len() && 0 <= i < (a + tok).len() implies !(#[trigger] match_at(
        (a + tok) + b,
        tag_token(tags[k].0),
        i,
    )) by {
        assert((a + tok) + b =~= a + tok + b);
    }
    lemma_prefix_untouched(a + tok, b, tags);
    assert(replace_tags_spec(a + tok + b, tags) =~= a + tok + replace_tags_spec(b, tags));
    assert((a + tok + replace_tags_spec(b, tags)).subrange(
        a.len() as int,
        a.len() + tok.len() as int,
    ) =~= tok);
}

/// Does the pattern stand at character position `i` of `content`?
fn is_match_at(content: &str, pat: &str, i: usize) -> (b: bool)
    requires
        i + pat@.len() <= content@.len(),
        content@.len() <= usize::MAX,
    ensures
        b == match_at(content@, pat@, i as int),
{
    let m: usize = pat.unicode_len();
    let mut j: usize = 0;
    while j < m
        invariant
            j <= m,
            m == pat@.len(),
            i + m <= content@.len(),
            content@.len() <= usize::MAX,
            forall|k: int| 0 <= k < j ==> content@[i + k] == pat@[k],
        decreases m - j,
    {
        if content.get_char(i + j) != pat.get_char(j) {
            assert(content@.subrange(i as int, i + pat@.len()) != pat@) by {
                assert(content@.subrange(i as int, i + pat@.len())[j as int] == content@[i + j]);
            }
            return false;
        }
        j += 1;
    }
    assert(content@.subrange(i as int, i + pat@.len()) =~= pat@);
    true
}

/// The index of the first pattern in the list that stands at character
/// position `i` of `content`, if any does.
pub fn first_match(content: &str, patterns: &Vec<String>, i: usize, n: usize) -> (r: Option<
    usize,
>)
    requires
        i <= n,
        n == content@.len(),
    ensures
        r is Some ==> r->0 < patterns@.len() && match_at(
            content@,
            patterns@[r->0 as int]@,
            i as int,
        ),
        r is Some ==> forall|j: int|
            0 <= j < r->0 ==> !match_at(content@, (#[trigger] patterns@[j])@, i as int),
        r is None ==> forall|j: int|
            0 <= j < patterns@.len() ==> !match_at(content@, (#[trigger] patterns@[j])@, i as int),
{
    let mut k: usize = 0;
    while k < patterns.len()
        invariant
            k <= patterns@.len(),
            i <= n,
            n == content@.len(),
            forall|j: int| 0 <= j < k ==> !match_at(content@, (#[trigger] patterns@[j])@, i as int),
        decreases patterns@.len() - k,
    {
        let m: usize = patterns[k].as_str().unicode_len();
        if m <= n - i {
            if is_match_at(content, patterns[k].as_str(), i) {
                return Some(k);
            }
        }
        k += 1;
    }
    None
}

/// Replaces every occurrence of `pat` in `content` by `val`, in a single
/// left-to-right pass, exactly as `str::replace` does.
pub fn replace_all(content: &str, pat: &str, val: &str) -> (r: String)
    ensures
        r@ == replace_all_spec(content@, pat@, val@),
{
    let n: usize = content.unicode_len();
    let m: usize = pat.unicode_len();
    if m == 0 {
        return String::from_str(content);
    }
    let mut r = String::new();
    let mut i: usize = 0;
    proof {
        assert(content@.skip(0) =~= content@);
        assert(r@ + replace_all_spec(content@, pat@, val@) =~= replace_all_spec(
            content@,
            pat@,
            val@,
        ));
    }
    if m <= n {
        while i <= n - m
            invariant
                1 <= m <= n,
                i <= n,
                n == content@.len(),
                m == pat@.len(),
                replace_all_spec(content@, pat@, val@) == r@ + replace_all_spec(
                    content@.skip(i as int),
                    pat@,
                    val@,
                ),
            decreases n - i,
        {
            let rest = Ghost(content@.skip(i as int));
            if is_match_at(content, pat, i) {
                r.append(val);
                proof {
                    assert(rest@.subrange(0, pat@.len() as int) =~= content@.subrange(
                        i as int,
                        i + pat@.len(),
                    ));
                    assert(rest@.skip(pat@.len() as int) =~= content@.skip(i + m));
                }
                i += m;
            } else {
                let c = content.substring_char(i, i + 1);
                r.append(c);
                proof {
                    assert(rest@.subrange(0, pat@.len() as int) =~= content@.subrange(
                        i as int,
                        i + pat@.len(),
                    ));
                    assert(rest@.len() >= pat@.len());
                    assert(c@ =~= seq![rest@[0]]);
                    assert(rest@.skip(1) =~= content@.skip(i + 1));
                }
                i += 1;
            }
        }
    }
    let tail = content.substring_char(i, n);
    r.append(tail);
    proof {
        assert(content@.skip(i as int).len() < pat@.len());
        assert(tail@ =~= content@.skip(i as int));
    }
    r
}

} // verus!
