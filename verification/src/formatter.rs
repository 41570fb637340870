//! The description formatter: strips the configured cleanup patterns,
//! truncates to a grapheme-cluster budget, harvests the links that the
//! truncation discarded, and appends the time-range suffix.

use vstd::prelude::*;
use vstd::string::StrSliceExecFns;
use vstd::string::StringExecFns;
use crate::event::FormattedNotification;
use crate::event::KhalEvent;
use crate::event::formatted_title_spec;
use crate::order::has_link;
use crate::order::sort_dedup;
use crate::order::strictly_sorted;
use crate::patterns::found_matches;
use crate::patterns::is_substring;
use crate::patterns::pattern_of;
use crate::patterns::regex_find_matches;
use crate::patterns::regex_replace_all;
use crate::patterns::replaced_all;
use crate::segmentation::grapheme_clusters;
use crate::segmentation::graphemes_of;
use crate::text::push_char;
use crate::text::views_of_strings;

verus! {

/// The pattern texts of a vector of compiled regexes, in order.
pub open spec fn patterns_of(res: Seq<regex::Regex>) -> Seq<Seq<char>> {
    res.map_values(|re: regex::Regex| pattern_of(re))
}

/// The description after each cleanup pattern has removed its matches,
/// applied in order.
pub open spec fn cleaned_spec(pats: Seq<Seq<char>>, d: Seq<char>) -> Seq<char>
    decreases pats.len(),
{
    if pats.len() == 0 {
        d
    } else {
        cleaned_spec(pats.drop_first(), replaced_all(pats[0], d, Seq::empty()))
    }
}

/// Strip every cleanup pattern from the description, in order; each
/// match is replaced with empty text.
pub fn clean_description(strip_res: &Vec<regex::Regex>, desc: &str) -> (r: String)
    ensures
        r@ == cleaned_spec(patterns_of(strip_res@), desc@),
{
    let mut cur: String = String::from_str(desc);
    let n = strip_res.len();
    proof {
        assert(patterns_of(strip_res@).skip(0) =~= patterns_of(strip_res@));
    }
    let mut i: usize = 0;
    while i < n
        invariant
            n == strip_res@.len(),
            i <= n,
            cleaned_spec(patterns_of(strip_res@), desc@) == cleaned_spec(
                patterns_of(strip_res@).skip(i as int),
                cur@,
            ),
        decreases n - i,
    {
        let next = regex_replace_all(&strip_res[i], cur.as_str(), "");
        proof {
            let pats = patterns_of(strip_res@);
            assert(pats.skip(i as int)[0] == pats[i as int]);
            assert(pats[i as int] == pattern_of(strip_res@[i as int]));
            assert(pats.skip(i as int).drop_first() =~= pats.skip(i as int + 1));
            assert(""@ =~= Seq::<char>::empty()) by {
                reveal_strlit("");
            }
        }
        cur = next;
        i = i + 1;
    }
    proof {
        assert(patterns_of(strip_res@).skip(n as int) =~= Seq::<Seq<char>>::empty());
    }
    cur
}

/// Concatenation of the clusters `from..to`, as a string.
fn concat_range(gs: &Vec<String>, from: usize, to: usize) -> (r: String)
    requires
        from <= to <= gs@.len(),
    ensures
        r@ == views_of_strings(gs@).subrange(from as int, to as int).flatten(),
{
    let mut out = String::new();
    proof {
        let cv = views_of_strings(gs@);
        assert(cv.subrange(from as int, from as int) =~= Seq::<Seq<char>>::empty());
        assert(Seq::<Seq<char>>::empty().flatten() =~= Seq::<char>::empty());
    }
    let mut i: usize = from;
    while i < to
        invariant
            from <= i <= to <= gs@.len(),
            out@ == views_of_strings(gs@).subrange(from as int, i as int).flatten(),
        decreases to - i,
    {
        out.append(gs[i].as_str());
        proof {
            let cv = views_of_strings(gs@);
            assert(cv.subrange(from as int, i as int + 1) =~= cv.subrange(
                from as int,
                i as int,
            ).push(cv[i as int]));
            cv.subrange(from as int, i as int).lemma_flatten_push(cv[i as int]);
            assert(cv[i as int] == gs@[i as int]@);
        }
        i = i + 1;
    }
    out
}

/// A minimal clickable fragment for one harvested link.
pub open spec fn link_fragment(l: Seq<char>) -> Seq<char> {
    "<a href=\""@ + l + "\"></a>"@
}

/// The fragments of all harvested links, in order.
pub open spec fn fragments_concat(ls: Seq<Seq<char>>) -> Seq<char>
    decreases ls.len(),
{
    if ls.len() == 0 {
        Seq::empty()
    } else {
        fragments_concat(ls.drop_last()) + link_fragment(ls.last())
    }
}

fn append_fragments(out: &mut String, links: &Vec<String>)
    ensures
        final(out)@ == old(out)@ + fragments_concat(views_of_strings(links@)),
{
    let n = links.len();
    proof {
        let lv = views_of_strings(links@);
        assert(lv.take(0) =~= Seq::<Seq<char>>::empty());
        assert(old(out)@ + fragments_concat(lv.take(0)) =~= old(out)@);
    }
    let mut j: usize = 0;
    while j < n
        invariant
            n == links@.len(),
            j <= n,
            out@ == old(out)@ + fragments_concat(views_of_strings(links@).take(j as int)),
        decreases n - j,
    {
        out.append("<a href=\"");
        out.append(links[j].as_str());
        out.append("\"></a>");
        proof {
            let lv = views_of_strings(links@);
            assert(lv.take(j as int + 1).drop_last() =~= lv.take(j as int));
            assert(lv.take(j as int + 1).last() == lv[j as int]);
            assert(lv[j as int] == links@[j as int]@);
            assert(out@ =~= old(out)@ + fragments_concat(lv.take(j as int + 1)));
        }
        j = j + 1;
    }
    proof {
        assert(views_of_strings(links@).take(n as int) =~= views_of_strings(links@));
    }
}

/// The body with the event's time range appended: a timed event's body
/// is made to end with a newline, then the time-range label follows;
/// an all-day event's body is unchanged.
pub open spec fn with_time_suffix(body: Seq<char>, label: Seq<char>, all_day: bool) -> Seq<char> {
    if all_day {
        body
    } else if body.len() > 0 && body.last() == '\n' {
        body + label
    } else {
        body + seq!['\n'] + label
    }
}

fn append_time_suffix(body: &mut String, label: &String, all_day: bool)
    ensures
        final(body)@ == with_time_suffix(old(body)@, label@, all_day),
{
    if !all_day {
        let n = body.as_str().unicode_len();
        let needs_newline: bool = if n == 0 {
            true
        } else {
            body.as_str().get_char(n - 1) != '\n'
        };
        if needs_newline {
            push_char(body, '\n');
        }
        body.append(label.as_str());
        proof {
            assert(final(body)@ =~= with_time_suffix(old(body)@, label@, all_day));
        }
    }
}

/// Whether `links` is exactly the harvest of `tail`: the matches of the
/// link pattern in `tail`, deduplicated and sorted, each lying whole
/// within `tail`.
pub open spec fn harvest_ok(links: Seq<String>, url_pat: Seq<char>, tail: Seq<char>) -> bool {
    &&& strictly_sorted(links)
    &&& forall|x: Seq<char>| has_link(links, x) == found_matches(url_pat, tail).contains(x)
    &&& forall|i: int| 0 <= i < links.len() ==> is_substring(#[trigger] links[i]@, tail)
}

/// Collect the link-pattern matches of the truncated-away tail,
/// deduplicated and sorted lexicographically.
pub fn harvest_links(url_re: &regex::Regex, tail: &str) -> (r: Vec<String>)
    ensures
        harvest_ok(r@, pattern_of(*url_re), tail@),
{
    let raw = regex_find_matches(url_re, tail);
    let ghost fm = found_matches(pattern_of(*url_re), tail@);
    let links = sort_dedup(raw);
    proof {
        assert forall|x: Seq<char>| has_link(links@, x) == fm.contains(x) by {
            assert(has_link(links@, x) == has_link(raw@, x));
            if has_link(raw@, x) {
                let i = choose|i: int| 0 <= i < raw@.len() && raw@[i]@ == x;
                assert(views_of_strings(raw@)[i] == x);
                assert(fm.contains(x));
            }
            if fm.contains(x) {
                let i = choose|i: int| 0 <= i < fm.len() && fm[i] == x;
                assert(views_of_strings(raw@)[i] == raw@[i]@);
                assert(has_link(raw@, x));
            }
        }
        assert forall|i: int| 0 <= i < links@.len() implies is_substring(
            #[trigger] links@[i]@,
            tail@,
        ) by {
            assert(has_link(links@, links@[i]@));
            assert(has_link(raw@, links@[i]@));
            let w = choose|w: int| 0 <= w < raw@.len() && raw@[w]@ == links@[i]@;
            assert(is_substring(raw@[w]@, tail@));
        }
    }
    links
}

/// Format one event for display.  The title carries the repeat marker;
/// the body is the cleaned description, truncated at the cluster budget
/// with an ellipsis and the tail's harvested links when it overflows,
/// and a timed event's time range closes the body.
pub fn format_event(
    event: &KhalEvent,
    strip_res: &Vec<regex::Regex>,
    url_re: &regex::Regex,
    budget: usize,
) -> (r: FormattedNotification)
    ensures
        r.display_title@ == formatted_title_spec(event.title@, event.repeat_symbol@),
        ({
            let cleaned = cleaned_spec(patterns_of(strip_res@), event.description@);
            let gs = graphemes_of(cleaned);
            &&& (gs.len() <= budget ==> r.extracted_links@.len() == 0 && r.display_body@
                == with_time_suffix(cleaned, event.start_end_time_style@, event.all_day))
            &&& (gs.len() > budget ==> harvest_ok(
                r.extracted_links@,
                pattern_of(*url_re),
                gs.skip(budget as int).flatten(),
            ) && r.display_body@ == with_time_suffix(
                gs.take(budget as int).flatten() + "..."@ + fragments_concat(
                    views_of_strings(r.extracted_links@),
                ),
                event.start_end_time_style@,
                event.all_day,
            ))
        }),
{
    let display_title = event.formatted_title();
    let cleaned = clean_description(strip_res, event.description.as_str());
    let gs = grapheme_clusters(cleaned.as_str());
    let ghost gsv = graphemes_of(cleaned@);
    if gs.len() <= budget {
        let mut body = cleaned;
        append_time_suffix(&mut body, &event.start_end_time_style, event.all_day);
        FormattedNotification {
            display_title,
            display_body: body,
            extracted_links: Vec::new(),
        }
    } else {
        let mut body = concat_range(&gs, 0, budget);
        proof {
            assert(views_of_strings(gs@).subrange(0, budget as int) =~= gsv.take(budget as int));
        }
        body.append("...");
        let tail = concat_range(&gs, budget, gs.len());
        proof {
            assert(views_of_strings(gs@).subrange(budget as int, gs@.len() as int) =~= gsv.skip(
                budget as int,
            ));
        }
        let links = harvest_links(url_re, tail.as_str());
        append_fragments(&mut body, &links);
        proof {
            assert(body@ =~= gsv.take(budget as int).flatten() + "..."@ + fragments_concat(
                views_of_strings(links@),
            ));
        }
        append_time_suffix(&mut body, &event.start_end_time_style, event.all_day);
        FormattedNotification { display_title, display_body: body, extracted_links: links }
    }
}

/// Splitting a cluster sequence anywhere keeps every character: the
/// flattened prefix and the flattened suffix together are exactly the
/// flattened whole.
pub proof fn lemma_flatten_split(gs: Seq<Seq<char>>, b: int)
    requires
        0 <= b <= gs.len(),
    ensures
        gs.take(b).flatten() + gs.skip(b).flatten() == gs.flatten(),
    decreases b,
{
    if b == 0 {
        assert(gs.take(0) =~= Seq::<Seq<char>>::empty());
        assert(Seq::<Seq<char>>::empty().flatten() =~= Seq::<char>::empty());
        assert(gs.skip(0) =~= gs);
        assert(Seq::<char>::empty() + gs.flatten() =~= gs.flatten());
    } else {
        lemma_flatten_split(gs, b - 1);
        assert(gs.take(b) =~= gs.take(b - 1).push(gs[b - 1]));
        gs.take(b - 1).lemma_flatten_push(gs[b - 1]);
        assert(gs.skip(b - 1).first() == gs[b - 1]);
        assert(gs.skip(b - 1).drop_first() =~= gs.skip(b));
        assert(gs.skip(b - 1).flatten() == gs[b - 1] + gs.skip(b).flatten());
        assert((gs.take(b - 1).flatten() + gs[b - 1]) + gs.skip(b).flatten() =~= gs.take(
            b - 1,
        ).flatten() + (gs[b - 1] + gs.skip(b).flatten()));
    }
}

/// Truncation keeps whole clusters: the kept prefix consists of exactly
/// `min(budget, total)` of the text's grapheme clusters, so no
/// multi-code-unit character is ever split.
pub proof fn lemma_kept_cluster_count(s: Seq<char>, budget: int)
    requires
        budget >= 0,
    ensures
        ({
            let gs = graphemes_of(s);
            let kept = if gs.len() <= budget {
                gs
            } else {
                gs.take(budget)
            };
            kept.len() == if gs.len() <= budget {
                gs.len() as int
            } else {
                budget
            }
        }),
{
}

} // verus!
