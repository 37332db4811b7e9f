//! The content extractor: fragments are captured tag by tag, cleaned one by
//! one, and joined into a single text.

use vstd::prelude::*;
use crate::engine::{accepts, engine_accepts, engine_first_groups, first_groups};
use crate::error::ConvertError;
use crate::lines::{
    join_fragments, join_lines, lemma_reflowed_has_no_blank_line, no_blank_line, reflow, reflowed,
};
use crate::rules::{
    apply_rules, fence_rule_table, fence_rules, markup_rule_table, markup_rules, models,
    rules_accepted, rules_applied, rules_pass, Rule,
};

verus! {

/// The capture patterns, one per tag, in scan order: anchors, paragraphs,
/// the six heading levels, spans. The first group of each is written to
/// take what stands between an opening tag, with or without attributes, and
/// the nearest closing tag of the same name. The `s` flag lets the dot of
/// the group match a line break too, so that an element is captured whole
/// however many lines its content spans.
pub open spec fn tag_patterns() -> Seq<Seq<char>> {
    seq![
        "(?s)<a[^>]*>(.*?)</a>"@,
        "(?s)<p[^>]*>(.*?)</p>"@,
        "(?s)<h1[^>]*>(.*?)</h1>"@,
        "(?s)<h2[^>]*>(.*?)</h2>"@,
        "(?s)<h3[^>]*>(.*?)</h3>"@,
        "(?s)<h4[^>]*>(.*?)</h4>"@,
        "(?s)<h5[^>]*>(.*?)</h5>"@,
        "(?s)<h6[^>]*>(.*?)</h6>"@,
        "(?s)<span[^>]*>(.*?)</span>"@,
    ]
}

/// The engine accepts every pattern in `patterns`.
pub open spec fn patterns_accepted(patterns: Seq<Seq<char>>) -> bool {
    forall|i: int| 0 <= i < patterns.len() ==> engine_accepts(#[trigger] patterns[i])
}

/// The engine accepts every pattern that the content extractor uses.
pub open spec fn pipeline_accepted() -> bool {
    &&& patterns_accepted(tag_patterns())
    &&& rules_accepted(markup_rules())
    &&& rules_accepted(fence_rules())
}

/// The groups that took part in their match, in order.
pub open spec fn present_groups(groups: Seq<Option<Seq<char>>>) -> Seq<Seq<char>> {
    groups.filter_map(|group: Option<Seq<char>>| group)
}

/// What the patterns capture from `markup`: all captures of the first
/// pattern in match order, then all of the second, and so on.
pub open spec fn captured(patterns: Seq<Seq<char>>, markup: Seq<char>) -> Seq<Seq<char>>
    decreases patterns.len(),
{
    if patterns.len() == 0 {
        Seq::<Seq<char>>::empty()
    } else {
        captured(patterns.drop_last(), markup) + present_groups(
            engine_first_groups(patterns.last(), markup),
        )
    }
}

/// The fragments of a page, in output order.
pub open spec fn fragments_of(markup: Seq<char>) -> Seq<Seq<char>> {
    captured(tag_patterns(), markup)
}

/// A fragment after the markup rules and the re-flow, before the fence rules.
pub open spec fn flowed(fragment: Seq<char>) -> Seq<char> {
    reflowed(rules_applied(markup_rules(), fragment))
}

/// A fragment after cleaning: the markup rules, the re-flow, the fence rules.
///
/// The fence rules come last and pad every fence marker with newlines, so
/// a finished fragment that holds a fence holds empty lines again, and the
/// language tag of an opener stands on its own line below the marker.
pub open spec fn cleaned(fragment: Seq<char>) -> Seq<char> {
    rules_applied(fence_rules(), flowed(fragment))
}

/// The fence rules leave the re-flowed fragment as it is.
pub open spec fn fences_idle(fragment: Seq<char>) -> bool {
    rules_applied(fence_rules(), flowed(fragment)) == flowed(fragment)
}

/// Every fragment cleaned, order kept.
pub open spec fn cleaned_all(fragments: Seq<Seq<char>>) -> Seq<Seq<char>> {
    fragments.map_values(|fragment: Seq<char>| cleaned(fragment))
}

/// The text that the content extractor makes of a page.
pub open spec fn body_text(markup: Seq<char>) -> Seq<char> {
    join_lines(cleaned_all(fragments_of(markup)))
}

/// What earlier patterns capture comes before what later patterns capture.
pub proof fn lemma_captured_in_pattern_order(
    earlier: Seq<Seq<char>>,
    later: Seq<Seq<char>>,
    markup: Seq<char>,
)
    ensures
        captured(earlier + later, markup) == captured(earlier, markup) + captured(later, markup),
    decreases later.len(),
{
    if later.len() == 0 {
        assert(earlier + later == earlier);
    } else {
        assert((earlier + later).drop_last() == earlier + later.drop_last());
        assert((earlier + later).last() == later.last());
        lemma_captured_in_pattern_order(earlier, later.drop_last(), markup);
    }
}

/// Before the fence rules run, a fragment has no empty line, whatever it
/// held when it was captured.
pub proof fn lemma_flowed_has_no_blank_line(fragment: Seq<char>)
    ensures
        no_blank_line(flowed(fragment)),
{
    lemma_reflowed_has_no_blank_line(rules_applied(markup_rules(), fragment));
}

/// A finished fragment has no empty line, provided the fence rules found
/// nothing to change in it. Where they do change it they put empty lines
/// around the fences, so the proviso cannot be dropped.
pub proof fn lemma_cleaned_has_no_blank_line(fragment: Seq<char>)
    requires
        fences_idle(fragment),
    ensures
        no_blank_line(cleaned(fragment)),
{
    lemma_flowed_has_no_blank_line(fragment);
}

/// A page from which nothing is captured has an empty body.
pub proof fn lemma_no_fragments_empty_body(markup: Seq<char>)
    requires
        fragments_of(markup).len() == 0,
    ensures
        body_text(markup) == Seq::<char>::empty(),
{
}

/// The capture patterns in scan order.
pub fn tag_pattern_table() -> (patterns: Vec<&'static str>)
    ensures
        patterns.deep_view() == tag_patterns(),
{
    let patterns = vec![
        "(?s)<a[^>]*>(.*?)</a>",
        "(?s)<p[^>]*>(.*?)</p>",
        "(?s)<h1[^>]*>(.*?)</h1>",
        "(?s)<h2[^>]*>(.*?)</h2>",
        "(?s)<h3[^>]*>(.*?)</h3>",
        "(?s)<h4[^>]*>(.*?)</h4>",
        "(?s)<h5[^>]*>(.*?)</h5>",
        "(?s)<h6[^>]*>(.*?)</h6>",
        "(?s)<span[^>]*>(.*?)</span>",
    ];
    assert(patterns.deep_view() =~= tag_patterns());
    patterns
}

/// Appends to `fragments` the groups that took part in their match, in order.
pub fn collect_present(groups: &Vec<Option<String>>, fragments: &mut Vec<String>)
    ensures
        final(fragments).deep_view() == old(fragments).deep_view() + present_groups(
            groups.deep_view(),
        ),
{
    let ghost before = fragments.deep_view();
    let ghost pick = |group: Option<Seq<char>>| group;
    let mut i: usize = 0;
    while i < groups.len()
        invariant
            i <= groups@.len(),
            pick == |group: Option<Seq<char>>| group,
            fragments.deep_view() == before + groups.deep_view().take(i as int).filter_map(pick),
        decreases groups@.len() - i,
    {
        proof {
            groups.deep_view().lemma_filter_map_take_succ(pick, i as int);
        }
        let ghost held = fragments.deep_view();
        match &groups[i] {
            Some(text) => {
                fragments.push(text.clone());
                assert(fragments.deep_view() == held.push(text@));
            },
            None => {},
        }
        i += 1;
    }
    assert(groups.deep_view().take(groups@.len() as int) == groups.deep_view());
}

/// Tells whether the engine accepts every pattern of the table.
pub fn patterns_pass(patterns: &Vec<&'static str>) -> (ok: bool)
    ensures
        ok == patterns_accepted(patterns.deep_view()),
{
    let mut i: usize = 0;
    while i < patterns.len()
        invariant
            i <= patterns@.len(),
            forall|j: int| 0 <= j < i ==> engine_accepts(#[trigger] patterns.deep_view()[j]),
        decreases patterns@.len() - i,
    {
        if !accepts(patterns[i]) {
            assert(!engine_accepts(patterns.deep_view()[i as int]));
            return false;
        }
        i += 1;
    }
    true
}

/// The content pipeline with its patterns checked against the engine once.
///
/// A value of this type holds the capture patterns and the two rule tables,
/// all of them accepted by the engine, so that its methods cannot fail.
pub struct ContentExtractor {
    tags: Vec<&'static str>,
    markup: Vec<Rule>,
    fences: Vec<Rule>,
}

impl ContentExtractor {
    #[verifier::type_invariant]
    closed spec fn ready(self) -> bool {
        &&& self.tags.deep_view() == tag_patterns()
        &&& models(self.markup@) == markup_rules()
        &&& models(self.fences@) == fence_rules()
        &&& pipeline_accepted()
    }

    /// Sets the pipeline up. Fails exactly when the engine refuses one of
    /// the patterns.
    pub fn new() -> (result: Result<ContentExtractor, ConvertError>)
        ensures
            result is Ok == pipeline_accepted(),
            result matches Err(e) ==> e == ConvertError::RejectedPattern,
    {
        let tags = tag_pattern_table();
        let markup = markup_rule_table();
        let fences = fence_rule_table();
        if patterns_pass(&tags) && rules_pass(&markup) && rules_pass(&fences) {
            Ok(ContentExtractor { tags, markup, fences })
        } else {
            Err(ConvertError::RejectedPattern)
        }
    }

    /// Captures the fragments of `markup`: for each tag in scan order, the
    /// inner text of every match of its pattern, in match order.
    pub fn extract_fragments(&self, markup: &str) -> (fragments: Vec<String>)
        ensures
            fragments.deep_view() == fragments_of(markup@),
    {
        proof {
            use_type_invariant(self);
        }
        let mut fragments: Vec<String> = Vec::new();
        let mut i: usize = 0;
        while i < self.tags.len()
            invariant
                i <= self.tags@.len(),
                self.tags.deep_view() == tag_patterns(),
                patterns_accepted(tag_patterns()),
                fragments.deep_view() == captured(tag_patterns().take(i as int), markup@),
            decreases self.tags@.len() - i,
        {
            proof {
                let done = tag_patterns().take(i as int);
                let next = tag_patterns().take(i + 1);
                assert(next.drop_last() == done);
                assert(next.last() == self.tags.deep_view()[i as int]);
                assert(engine_accepts(tag_patterns()[i as int]));
            }
            let groups = first_groups(self.tags[i], markup);
            collect_present(&groups, &mut fragments);
            i += 1;
        }
        assert(tag_patterns().take(self.tags@.len() as int) == tag_patterns());
        fragments
    }

    /// Cleans one fragment: the markup rules in order, then the re-flow that
    /// drops empty lines, then the fence rules in order.
    pub fn clean_fragment(&self, fragment: &str) -> (text: String)
        ensures
            text@ == cleaned(fragment@),
            fences_idle(fragment@) ==> no_blank_line(text@),
    {
        proof {
            use_type_invariant(self);
        }
        let stripped = apply_rules(&self.markup, fragment.to_owned());
        let flowed = reflow(stripped.as_str());
        apply_rules(&self.fences, flowed)
    }

    /// Cleans every fragment, order kept. A cleaned fragment has no empty
    /// line unless the fence rules changed it.
    pub fn clean_fragments(&self, fragments: &Vec<String>) -> (texts: Vec<String>)
        ensures
            texts.deep_view() == cleaned_all(fragments.deep_view()),
            forall|i: int|
                0 <= i < fragments@.len() && fences_idle(#[trigger] fragments.deep_view()[i])
                    ==> no_blank_line(texts.deep_view()[i]),
    {
        let mut texts: Vec<String> = Vec::new();
        let mut i: usize = 0;
        while i < fragments.len()
            invariant
                i <= fragments@.len(),
                texts.deep_view() == cleaned_all(fragments.deep_view().take(i as int)),
            decreases fragments@.len() - i,
        {
            let text = self.clean_fragment(fragments[i].as_str());
            let ghost held = texts.deep_view();
            texts.push(text);
            assert(texts.deep_view() == held.push(text@));
            assert(cleaned_all(fragments.deep_view().take(i + 1)) == held.push(text@));
            i += 1;
        }
        proof {
            assert(fragments.deep_view().take(fragments@.len() as int) == fragments.deep_view());
            assert forall|i: int|
                0 <= i < fragments@.len() && fences_idle(
                    #[trigger] fragments.deep_view()[i],
                ) implies no_blank_line(texts.deep_view()[i]) by {
                lemma_cleaned_has_no_blank_line(fragments.deep_view()[i]);
            }
        }
        texts
    }

    /// The cleaned fragments of `markup`, in output order. A cleaned
    /// fragment has no empty line unless the fence rules changed it.
    pub fn cleaned_fragments(&self, markup: &str) -> (texts: Vec<String>)
        ensures
            texts.deep_view() == cleaned_all(fragments_of(markup@)),
            forall|i: int|
                0 <= i < fragments_of(markup@).len() && fences_idle(
                    #[trigger] fragments_of(markup@)[i],
                ) ==> no_blank_line(texts.deep_view()[i]),
    {
        let fragments = self.extract_fragments(markup);
        self.clean_fragments(&fragments)
    }

    /// The whole body text of `markup`.
    pub fn body(&self, markup: &str) -> (text: String)
        ensures
            text@ == body_text(markup@),
    {
        let texts = self.cleaned_fragments(markup);
        join_fragments(&texts)
    }
}

/// Extracts the readable content of a page: the fragments of the tags in
/// scan order, each cleaned, joined with newlines. A page without any such
/// tag gives the empty text. Fails only when the engine refuses one of the
/// pipeline's patterns.
pub fn get_all_text_anchors(html_body: String) -> (result: Result<String, ConvertError>)
    ensures
        result is Ok == pipeline_accepted(),
        result matches Ok(text) ==> text@ == body_text(html_body@),
        result matches Err(e) ==> e == ConvertError::RejectedPattern,
{
    match ContentExtractor::new() {
        Ok(extractor) => Ok(extractor.body(html_body.as_str())),
        Err(e) => Err(e),
    }
}

} // verus!
