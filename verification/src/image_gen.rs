//! The renderers: tag replacement over a template, and the computation
//! of each renderer's substitution mapping.  Reading a template file and
//! writing the finished image are the caller's concern; these functions
//! turn template text and a `Stats` value into the finished markup.

use vstd::multiset::Multiset;
use vstd::prelude::*;

use crate::stats::{distinct_language_names, Language, Stats};
use crate::subst::{
    first_match, head_tag, lemma_head_tag, match_at, replace_tags_spec, tag_token, tags_view,
};
use crate::text::{
    dec_int, dec_nat, dec_two_places, i64_to_string, proportion_to_string, u64_to_string,
};

verus! {

/// Knows where templates are read from and where finished images are
/// written to; the paths are used by the I/O shell around the library.
pub struct ImageGen {
    pub template_folder: String,
    pub output_folder: String,
}

/// The overview card's substitution mapping: scalar totals as decimal
/// strings, and the sum of lines added and removed.
pub open spec fn overview_tags_spec(stats: Stats) -> Seq<(Seq<char>, Seq<char>)> {
    seq![
        ("name"@, stats.name@),
        ("stars"@, dec_int(stats.stargazers as int)),
        ("forks"@, dec_int(stats.forks as int)),
        ("contributions"@, dec_int(stats.total_contributions as int)),
        ("lines_changed"@, dec_int(stats.lines_changed.0 + stats.lines_changed.1)),
        ("views"@, dec_int(stats.views as int)),
        ("repos"@, dec_nat(stats.repos@.len())),
    ]
}

impl ImageGen {
    pub fn new(template_folder: String, output_folder: String) -> (r: Self)
        ensures
            r.template_folder@ == template_folder@,
            r.output_folder@ == output_folder@,
    {
        Self { template_folder, output_folder }
    }

    /// Substitutes the tags in a single pass over the original text: at
    /// each position, the first listed tag whose `{{ tag }}` token
    /// starts there is replaced by its value and the scan resumes after
    /// the token.  Values are inserted verbatim and never rescanned.
    pub fn replace_tags(content: String, replacements: &Vec<(String, String)>) -> (r: String)
        ensures
            r@ == replace_tags_spec(content@, tags_view(replacements@)),
    {
        let ghost tags = tags_view(replacements@);
        let mut patterns: Vec<String> = Vec::new();
        let mut k: usize = 0;
        while k < replacements.len()
            invariant
                k <= replacements@.len(),
                tags == tags_view(replacements@),
                patterns@.len() == k,
                forall|j: int| 0 <= j < k ==> (#[trigger] patterns@[j])@ == tag_token(tags[j].0),
            decreases replacements@.len() - k,
        {
            let mut pattern = String::from_str("{{ ");
            pattern.append(replacements[k].0.as_str());
            pattern.append(" }}");
            proof {
                reveal_strlit("{{ ");
                reveal_strlit(" }}");
                assert(pattern@ =~= tag_token(tags[k as int].0));
            }
            patterns.push(pattern);
            k += 1;
        }
        let n: usize = content.as_str().unicode_len();
        let mut r = String::new();
        let mut i: usize = 0;
        proof {
            assert(content@.skip(0) =~= content@);
            assert(r@ + replace_tags_spec(content@, tags) =~= replace_tags_spec(content@, tags));
        }
        while i < n
            invariant
                i <= n,
                n == content@.len(),
                tags == tags_view(replacements@),
                patterns@.len() == replacements@.len(),
                forall|j: int|
                    0 <= j < patterns@.len() ==> (#[trigger] patterns@[j])@ == tag_token(
                        tags[j].0,
                    ),
                replace_tags_spec(content@, tags) == r@ + replace_tags_spec(
                    content@.skip(i as int),
                    tags,
                ),
            decreases n - i,
        {
            let ghost rest = content@.skip(i as int);
            proof {
                lemma_head_tag(rest, tags);
                assert forall|j: int| 0 <= j < patterns@.len() implies match_at(
                    content@,
                    (#[trigger] patterns@[j])@,
                    i as int,
                ) == match_at(rest, tag_token(tags[j].0), 0) by {
                    let pat = tag_token(tags[j].0);
                    if i + pat.len() <= n {
                        assert(content@.subrange(i as int, i + pat.len()) =~= rest.subrange(
                            0,
                            pat.len() as int,
                        ));
                    }
                }
            }
            match first_match(content.as_str(), &patterns, i, n) {
                Some(k) => {
                    r.append(replacements[k].1.as_str());
                    let m: usize = patterns[k].as_str().unicode_len();
                    proof {
                        assert(match_at(rest, tag_token(tags[k as int].0), 0));
                        match head_tag(rest, tags) {
                            Some(k2) => {
                                if k2 < k as int {
                                    assert(match_at(rest, tag_token(tags[k2].0), 0));
                                    assert(match_at(content@, patterns@[k2]@, i as int));
                                    assert(false);
                                }
                                if k2 > k as int {
                                    assert(!match_at(rest, tag_token(tags[k as int].0), 0));
                                    assert(false);
                                }
                            },
                            None => {
                                assert(!match_at(rest, tag_token(tags[k as int].0), 0));
                                assert(false);
                            },
                        }
                        assert(head_tag(rest, tags) == Some(k as int));
                        assert(rest.skip(m as int) =~= content@.skip(i + m));
                    }
                    i += m;
                },
                None => {
                    let c = content.as_str().substring_char(i, i + 1);
                    r.append(c);
                    proof {
                        match head_tag(rest, tags) {
                            Some(k2) => {
                                assert(match_at(rest, tag_token(tags[k2].0), 0));
                                assert(match_at(content@, patterns@[k2]@, i as int));
                                assert(false);
                            },
                            None => {},
                        }
                        assert(head_tag(rest, tags) is None);
                        assert(c@ =~= seq![rest[0]]);
                        assert(rest.skip(1) =~= content@.skip(i + 1));
                    }
                    i += 1;
                },
            }
        }
        proof {
            assert(content@.skip(n as int) =~= Seq::<char>::empty());
            assert(r@ + replace_tags_spec(content@.skip(n as int), tags) =~= r@);
        }
        r
    }
}

/// Builds the overview card's substitution mapping from a snapshot.
pub fn overview_tags(stats: &Stats) -> (r: Vec<(String, String)>)
    requires
        i64::MIN <= stats.lines_changed.0 + stats.lines_changed.1 <= i64::MAX,
    ensures
        tags_view(r@) == overview_tags_spec(*stats),
{
    let mut r: Vec<(String, String)> = Vec::new();
    r.push((String::from_str("name"), stats.name.clone()));
    r.push((String::from_str("stars"), i64_to_string(stats.stargazers as i64)));
    r.push((String::from_str("forks"), i64_to_string(stats.forks)));
    r.push((String::from_str("contributions"), i64_to_string(stats.total_contributions)));
    r.push((String::from_str("lines_changed"), i64_to_string(
        stats.lines_changed.0 + stats.lines_changed.1,
    )));
    r.push((String::from_str("views"), i64_to_string(stats.views)));
    r.push((String::from_str("repos"), u64_to_string(stats.repos.len() as u64)));
    proof {
        assert(tags_view(r@) =~= overview_tags_spec(*stats));
    }
    r
}

/// The overview renderer's computation: fills the overview template with
/// the snapshot's scalar totals.
pub fn overview_content(template: &str, stats: &Stats) -> (r: String)
    requires
        i64::MIN <= stats.lines_changed.0 + stats.lines_changed.1 <= i64::MAX,
    ensures
        r@ == replace_tags_spec(template@, overview_tags_spec(*stats)),
{
    let tags = overview_tags(stats);
    ImageGen::replace_tags(String::from_str(template), &tags)
}

/// The language entries in non-increasing order of size: larger
/// languages first, as the bar and the legend list them.
pub open spec fn sorted_desc(s: Seq<Language>) -> bool {
    forall|i: int, j: int| 0 <= i < j < s.len() ==> s[i].size >= s[j].size
}

/// Inserts one entry into a run already ordered largest-first, behind
/// every entry at least as large.
pub open spec fn insert_desc(s: Seq<Language>, x: Language) -> Seq<Language>
    decreases s.len(),
{
    if s.len() == 0 {
        seq![x]
    } else if s[0].size >= x.size {
        seq![s[0]] + insert_desc(s.drop_first(), x)
    } else {
        seq![x] + s
    }
}

/// Insertion sort, largest size first; entries of equal size keep their
/// relative order.
pub open spec fn sort_desc(s: Seq<Language>) -> Seq<Language>
    decreases s.len(),
{
    if s.len() == 0 {
        Seq::<Language>::empty()
    } else {
        insert_desc(sort_desc(s.drop_last()), s.last())
    }
}

proof fn lemma_insert_desc_at(s: Seq<Language>, x: Language, j: int)
    requires
        0 <= j <= s.len(),
        forall|k: int| 0 <= k < j ==> s[k].size >= x.size,
        j < s.len() ==> s[j].size < x.size,
    ensures
        insert_desc(s, x) == s.take(j) + seq![x] + s.skip(j),
    decreases j,
{
    if j == 0 {
        assert(insert_desc(s, x) =~= s.take(0) + seq![x] + s.skip(0));
    } else {
        assert(s[0].size >= x.size);
        lemma_insert_desc_at(s.drop_first(), x, j - 1);
        assert(seq![s[0]] + (s.drop_first().take(j - 1) + seq![x] + s.drop_first().skip(j - 1))
            =~= s.take(j) + seq![x] + s.skip(j));
    }
}

proof fn lemma_insert_desc_sorted(s: Seq<Language>, x: Language)
    requires
        sorted_desc(s),
    ensures
        sorted_desc(insert_desc(s, x)),
        insert_desc(s, x).to_multiset() == s.to_multiset().insert(x),
    decreases s.len(),
{
    s.to_multiset_ensures();
    insert_desc(s, x).to_multiset_ensures();
    if s.len() == 0 {
        assert(insert_desc(s, x) =~= seq![x]);
        assert(seq![x] =~= Seq::<Language>::empty().push(x));
        Seq::<Language>::empty().to_multiset_ensures();
        assert(insert_desc(s, x).to_multiset() == s.to_multiset().insert(x));
    } else if s[0].size >= x.size {
        assert(sorted_desc(s.drop_first()));
        lemma_insert_desc_sorted(s.drop_first(), x);
        let t = insert_desc(s.drop_first(), x);
        assert forall|i: int, j: int|
            0 <= i < j < (seq![s[0]] + t).len() implies (seq![s[0]] + t)[i].size >= (seq![s[0]]
            + t)[j].size by {
            if i > 0 {
                assert(t[i - 1].size >= t[j - 1].size);
            } else {
                // every element of t is either x or from s.drop_first(),
                // and s[0] is at least as large as either
                lemma_insert_desc_members(s.drop_first(), x, j - 1);
            }
        }
        lemma_multiset_concat_head(s, t, x);
    } else {
        assert(insert_desc(s, x) =~= seq![x] + s);
        assert forall|i: int, j: int|
            0 <= i < j < (seq![x] + s).len() implies (seq![x] + s)[i].size >= (seq![x]
            + s)[j].size by {
            if i == 0 {
                if j > 1 {
                    assert(s[0].size >= s[j - 1].size);
                }
            }
        }
        lemma_multiset_prepend(s, x);
    }
}

/// Every element of `insert_desc(s, x)` is `x` or an element of `s`.
proof fn lemma_insert_desc_members(s: Seq<Language>, x: Language, i: int)
    requires
        0 <= i < insert_desc(s, x).len(),
    ensures
        insert_desc(s, x)[i] == x || exists|k: int| 0 <= k < s.len() && s[k] == insert_desc(s, x)[i],
    decreases s.len(),
{
    if s.len() == 0 {
    } else if s[0].size >= x.size {
        if i > 0 {
            lemma_insert_desc_members(s.drop_first(), x, i - 1);
            if insert_desc(s.drop_first(), x)[i - 1] != x {
                let k = choose|k: int|
                    0 <= k < s.drop_first().len() && s.drop_first()[k] == insert_desc(
                        s.drop_first(),
                        x,
                    )[i - 1];
                assert(s[k + 1] == insert_desc(s, x)[i]);
            }
        }
    }
}

proof fn lemma_multiset_prepend(s: Seq<Language>, x: Language)
    ensures
        (seq![x] + s).to_multiset() == s.to_multiset().insert(x),
{
    (seq![x] + s).to_multiset_ensures();
    s.to_multiset_ensures();
    vstd::seq_lib::lemma_multiset_commutative(seq![x], s);
    seq![x].to_multiset_ensures();
    assert(seq![x] =~= Seq::<Language>::empty().push(x));
    Seq::<Language>::empty().to_multiset_ensures();
    assert(seq![x].to_multiset() == Multiset::<Language>::empty().insert(x));
    assert(Multiset::<Language>::empty().insert(x).add(s.to_multiset()) =~= s.to_multiset().insert(
        x,
    ));
}

proof fn lemma_multiset_concat_head(s: Seq<Language>, t: Seq<Language>, x: Language)
    requires
        s.len() > 0,
        t.to_multiset() == s.drop_first().to_multiset().insert(x),
    ensures
        (seq![s[0]] + t).to_multiset() == s.to_multiset().insert(x),
{
    lemma_multiset_prepend(t, s[0]);
    lemma_multiset_prepend(s.drop_first(), s[0]);
    assert(seq![s[0]] + s.drop_first() =~= s);
    assert(s.to_multiset() == s.drop_first().to_multiset().insert(s[0]));
    assert(t.to_multiset().insert(s[0]) =~= s.drop_first().to_multiset().insert(x).insert(s[0]));
    assert(s.drop_first().to_multiset().insert(x).insert(s[0])
        =~= s.drop_first().to_multiset().insert(s[0]).insert(x));
}

/// The sort orders largest-first and keeps exactly the entries it was
/// given.
pub proof fn lemma_sort_desc_ensures(s: Seq<Language>)
    ensures
        sorted_desc(sort_desc(s)),
        sort_desc(s).to_multiset() == s.to_multiset(),
        sort_desc(s).len() == s.len(),
    decreases s.len(),
{
    s.to_multiset_ensures();
    sort_desc(s).to_multiset_ensures();
    if s.len() == 0 {
        assert(s =~= Seq::<Language>::empty());
    } else {
        lemma_sort_desc_ensures(s.drop_last());
        lemma_insert_desc_sorted(sort_desc(s.drop_last()), s.last());
        assert(sort_desc(s) == insert_desc(sort_desc(s.drop_last()), s.last()));
        s.drop_last().to_multiset_ensures();
        assert(s.drop_last().push(s.last()).to_multiset() =~= s.drop_last().to_multiset().insert(
            s.last(),
        ));
        assert(s.drop_last().push(s.last()) =~= s);
        assert(sort_desc(s).to_multiset() == sort_desc(s.drop_last()).to_multiset().insert(
            s.last(),
        ));
    }
}

fn insert_sorted(res: &mut Vec<Language>, x: Language)
    ensures
        final(res)@ == insert_desc(old(res)@, x),
{
    let mut j: usize = 0;
    while j < res.len() && res[j].size >= x.size
        invariant
            j <= res@.len(),
            *res == *old(res),
            forall|k: int| 0 <= k < j ==> res@[k].size >= x.size,
        decreases res@.len() - j,
    {
        j += 1;
    }
    proof {
        lemma_insert_desc_at(res@, x, j as int);
    }
    res.insert(j, x);
    proof {
        assert(final(res)@ =~= old(res)@.take(j as int) + seq![x] + old(res)@.skip(j as int));
    }
}

/// Orders the language entries largest size first, as the original
/// ascending sort read in reverse does.
pub fn sort_languages(input: &Vec<Language>) -> (r: Vec<Language>)
    ensures
        r@ == sort_desc(input@),
{
    let mut r: Vec<Language> = Vec::new();
    let mut i: usize = 0;
    while i < input.len()
        invariant
            i <= input@.len(),
            r@ == sort_desc(input@.take(i as int)),
        decreases input@.len() - i,
    {
        let x = input[i].clone();
        insert_sorted(&mut r, x);
        proof {
            assert(input@.take(i + 1).drop_last() =~= input@.take(i as int));
            assert(input@.take(i + 1).last() == input@[i as int]);
        }
        i += 1;
    }
    proof {
        assert(input@.take(input@.len() as int) =~= input@);
    }
    r
}

/// One segment of the stacked progress bar: the language's color and
/// its proportional width.
pub open spec fn progress_item(l: Language) -> Seq<char> {
    "<span style=\"background-color: "@ + l.color@ + "; width: "@ + dec_two_places(
        l.proportion as nat,
    ) + "%;\" class=\"progress-item\"></span>"@
}

/// The bar segments concatenated in the order of `s`.
pub open spec fn progress_list(s: Seq<Language>) -> Seq<char>
    decreases s.len(),
{
    if s.len() == 0 {
        Seq::<char>::empty()
    } else {
        progress_list(s.drop_last()) + progress_item(s.last())
    }
}

/// One legend entry: the entry at rank `idx` (0-based, largest first)
/// appears `150 * idx` milliseconds after the first.
pub open spec fn lang_item(l: Language, idx: nat) -> Seq<char> {
    "<li style=\"animation-delay: "@ + dec_nat(150 * idx)
        + "ms;\">\n<svg xmlns=\"http://www.w3.org/2000/svg\" class=\"octicon\" style=\"fill:"@
        + l.color@
        + ";\"\nviewBox=\"0 0 16 16\" version=\"1.1\" width=\"16\" height=\"16\"><path\nfill-rule=\"evenodd\" d=\"M8 4a4 4 0 100 8 4 4 0 000-8z\"></path></svg>\n<span class=\"lang\">"@
        + l.name@ + "</span>\n<span class=\"percent\">"@ + dec_two_places(l.proportion as nat)
        + "%</span>\n</li>\n\n            "@
}

/// The legend entries concatenated in the order of `s`.
pub open spec fn lang_list(s: Seq<Language>) -> Seq<char>
    decreases s.len(),
{
    if s.len() == 0 {
        Seq::<char>::empty()
    } else {
        lang_list(s.drop_last()) + lang_item(s.last(), (s.len() - 1) as nat)
    }
}

/// The language bar's substitution mapping: bar and legend fragments,
/// both built over the entries in non-increasing order of size.
pub open spec fn languages_tags_spec(stats: Stats) -> Seq<(Seq<char>, Seq<char>)> {
    seq![
        ("progress"@, progress_list(sort_desc(stats.languages@))),
        ("lang_list"@, lang_list(sort_desc(stats.languages@))),
    ]
}

/// Builds the language bar's substitution mapping from a snapshot.
#[verifier::rlimit(60)]
pub fn languages_tags(stats: &Stats) -> (r: Vec<(String, String)>)
    requires
        distinct_language_names(stats.languages@),
        150 * stats.languages@.len() <= u64::MAX,
    ensures
        tags_view(r@) == languages_tags_spec(*stats),
{
    let sorted = sort_languages(&stats.languages);
    proof {
        lemma_sort_desc_ensures(stats.languages@);
    }
    let mut progress = String::new();
    let mut list = String::new();
    let mut i: usize = 0;
    proof {
        assert(sorted@.take(0) =~= Seq::<Language>::empty());
    }
    while i < sorted.len()
        invariant
            i <= sorted@.len(),
            sorted@ == sort_desc(stats.languages@),
            sorted@.len() == stats.languages@.len(),
            150 * stats.languages@.len() <= u64::MAX,
            progress@ == progress_list(sorted@.take(i as int)),
            list@ == lang_list(sorted@.take(i as int)),
        decreases sorted@.len() - i,
    {
        let ghost pre = sorted@.take(i as int);
        let l = &sorted[i];
        let prop = proportion_to_string(l.proportion);
        progress.append("<span style=\"background-color: ");
        progress.append(l.color.as_str());
        progress.append("; width: ");
        progress.append(prop.as_str());
        progress.append("%;\" class=\"progress-item\"></span>");

        let delay = u64_to_string(150 * (i as u64));
        list.append("<li style=\"animation-delay: ");
        list.append(delay.as_str());
        list.append(
            "ms;\">\n<svg xmlns=\"http://www.w3.org/2000/svg\" class=\"octicon\" style=\"fill:",
        );
        list.append(l.color.as_str());
        list.append(
            ";\"\nviewBox=\"0 0 16 16\" version=\"1.1\" width=\"16\" height=\"16\"><path\nfill-rule=\"evenodd\" d=\"M8 4a4 4 0 100 8 4 4 0 000-8z\"></path></svg>\n<span class=\"lang\">",
        );
        list.append(l.name.as_str());
        list.append("</span>\n<span class=\"percent\">");
        list.append(prop.as_str());
        list.append("%</span>\n</li>\n\n            ");
        proof {
            assert(sorted@.take(i + 1).drop_last() =~= pre);
            assert(sorted@.take(i + 1).last() == sorted@[i as int]);
            assert(progress@ =~= progress_list(pre) + progress_item(sorted@[i as int]));
            assert(list@ =~= lang_list(pre) + lang_item(sorted@[i as int], i as nat));
        }
        i += 1;
    }
    proof {
        assert(sorted@.take(sorted@.len() as int) =~= sorted@);
    }
    let mut r: Vec<(String, String)> = Vec::new();
    r.push((String::from_str("progress"), progress));
    r.push((String::from_str("lang_list"), list));
    proof {
        assert(tags_view(r@) =~= languages_tags_spec(*stats));
    }
    r
}

/// The language bar renderer's computation: fills the language template
/// with the proportional bar and the animated legend.
pub fn languages_content(template: &str, stats: &Stats) -> (r: String)
    requires
        distinct_language_names(stats.languages@),
        150 * stats.languages@.len() <= u64::MAX,
    ensures
        r@ == replace_tags_spec(template@, languages_tags_spec(*stats)),
{
    let tags = languages_tags(stats);
    ImageGen::replace_tags(String::from_str(template), &tags)
}

/// Rendering the language bar is a function of the template and the
/// snapshot alone: two runs over equal inputs agree byte for byte.
pub proof fn lemma_languages_idempotent(
    template: Seq<char>,
    stats1: Stats,
    stats2: Stats,
    r1: Seq<char>,
    r2: Seq<char>,
)
    requires
        stats1 == stats2,
        r1 == replace_tags_spec(template, languages_tags_spec(stats1)),
        r2 == replace_tags_spec(template, languages_tags_spec(stats2)),
    ensures
        r1 == r2,
{
}

/// Rendering the overview card is a function of the template and the
/// snapshot alone: two runs over equal inputs agree byte for byte.
pub proof fn lemma_overview_idempotent(
    template: Seq<char>,
    stats1: Stats,
    stats2: Stats,
    r1: Seq<char>,
    r2: Seq<char>,
)
    requires
        stats1 == stats2,
        r1 == replace_tags_spec(template, overview_tags_spec(stats1)),
        r2 == replace_tags_spec(template, overview_tags_spec(stats2)),
    ensures
        r1 == r2,
{
}

} // verus!
