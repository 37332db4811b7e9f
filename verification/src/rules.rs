//! The ordered rewrite rules of the content pipeline.
//!
//! Order matters: a later rule works on what the earlier ones left behind.

use vstd::prelude::*;
use crate::engine::{accepts, engine_accepts, engine_replaced, replace_all};
use crate::error::ConvertError;

verus! {

/// One rewrite: every match of `pattern` is replaced by `replacement`.
#[derive(Clone, Copy, Debug)]
pub struct Rule {
    /// What the rule is for.
    pub name: &'static str,
    /// The regular expression to look for.
    pub pattern: &'static str,
    /// The text that takes the place of each match.
    pub replacement: &'static str,
}

/// A rule as contracts see it: its three texts as character sequences.
pub struct RuleModel {
    pub name: Seq<char>,
    pub pattern: Seq<char>,
    pub replacement: Seq<char>,
}

impl View for Rule {
    type V = RuleModel;

    open spec fn view(&self) -> RuleModel {
        RuleModel {
            name: self.name@,
            pattern: self.pattern@,
            replacement: self.replacement@,
        }
    }
}

/// The markup rules, applied to a fragment before it is re-flowed.
///
/// A fragment may span several lines. The attribute rules and the comment
/// rule therefore carry the `s` flag: an attribute value runs to the next
/// quote and a comment to the next `-->`, line breaks included. (A value
/// that holds an escaped quote is cut short at that quote; this is known
/// and left as it is.) The tag rules need no flag: `[^>]` matches a line
/// break anyway.
pub open spec fn markup_rules() -> Seq<RuleModel> {
    seq![
        RuleModel { name: "drop image elements"@, pattern: "<img[^>]*>"@, replacement: ""@ },
        RuleModel {
            name: "open a code block"@,
            pattern: "<code[^>]*>"@,
            replacement: "\n```rust\n"@,
        },
        RuleModel { name: "close a code block"@, pattern: "</code[^>]*>"@, replacement: "\n```"@ },
        RuleModel { name: "drop section marks"@, pattern: "\u{a7}"@, replacement: ""@ },
        RuleModel { name: "halve doubled newlines"@, pattern: "\\n\\n"@, replacement: "\n"@ },
        RuleModel { name: "drop href attributes"@, pattern: "(?s)href=\".*?\""@, replacement: ""@ },
        RuleModel {
            name: "drop title attributes"@,
            pattern: "(?s)title=\".*?\""@,
            replacement: ""@,
        },
        RuleModel {
            name: "drop class attributes"@,
            pattern: "(?s)class=\".*?\""@,
            replacement: ""@,
        },
        RuleModel { name: "drop id attributes"@, pattern: "(?s)id=\".*?\""@, replacement: ""@ },
        RuleModel { name: "drop d attributes"@, pattern: "(?s)d=\".*?\""@, replacement: ""@ },
        RuleModel { name: "drop anchor openers"@, pattern: "<a[^>]*>"@, replacement: ""@ },
        RuleModel { name: "drop anchor closers"@, pattern: "</a[^>]*>"@, replacement: ""@ },
        RuleModel { name: "drop svg openers"@, pattern: "<svg[^>]*>"@, replacement: ""@ },
        RuleModel { name: "drop svg closers"@, pattern: "</svg[^>]*>"@, replacement: ""@ },
        RuleModel {
            name: "drop decorative comments"@,
            pattern: "(?s)<!--!.*?-->"@,
            replacement: ""@,
        },
        RuleModel { name: "drop div openers"@, pattern: "<div[^>]*>"@, replacement: ""@ },
        RuleModel { name: "drop path openers"@, pattern: "<path[^>]*>"@, replacement: ""@ },
        RuleModel { name: "drop path closers"@, pattern: "</path[^>]*>"@, replacement: ""@ },
        RuleModel {
            name: "drop hidden icon spans"@,
            pattern: "<span  aria-hidden=\"true\">"@,
            replacement: ""@,
        },
    ]
}

/// The fence rules, applied to a fragment after it is re-flowed.
///
/// How the fences are padded is a choice, and this is the one made here:
/// the three substitutions below run in this order, each over the whole
/// text, and nothing is re-flowed after them. So
///
/// * every fence marker ends up on a line of its own;
/// * the first substitution parts an opener from its language tag, which
///   then stands on a line of its own below the marker (the opener rule
///   that follows finds nothing left to match);
/// * a fragment that holds a fence marker holds empty lines again when it
///   is finished: the re-flowed text ```` ```rust ```` / `x` / ```` ``` ````
///   becomes an empty line, the marker, an empty line, `rust`, `x`, an
///   empty line, the marker and two empty lines.
///
/// A fragment in which no fence rule finds a match leaves these rules as it
/// entered them, without an empty line.
pub open spec fn fence_rules() -> Seq<RuleModel> {
    seq![
        RuleModel {
            name: "fence function signatures"@,
            pattern: "pub fn"@,
            replacement: "```rust\npub fn"@,
        },
        RuleModel { name: "break after fences"@, pattern: "```"@, replacement: "```\n"@ },
        RuleModel { name: "set openers apart"@, pattern: "```rust"@, replacement: "\n```rust\n"@ },
        RuleModel { name: "set fences apart"@, pattern: "```"@, replacement: "\n```\n"@ },
    ]
}

/// The rule sequence that a vector of rules stands for.
pub open spec fn models(rules: Seq<Rule>) -> Seq<RuleModel> {
    rules.map_values(|rule: Rule| rule@)
}

/// The engine accepts the pattern of every rule.
pub open spec fn rules_accepted(rules: Seq<RuleModel>) -> bool {
    forall|i: int| 0 <= i < rules.len() ==> engine_accepts(#[trigger] rules[i].pattern)
}

/// The text after one rule.
pub open spec fn rule_applied(rule: RuleModel, text: Seq<char>) -> Seq<char> {
    engine_replaced(rule.pattern, text, rule.replacement)
}

/// The text after all the rules, the first rule first.
pub open spec fn rules_applied(rules: Seq<RuleModel>, text: Seq<char>) -> Seq<char>
    decreases rules.len(),
{
    if rules.len() == 0 {
        text
    } else {
        rule_applied(rules.last(), rules_applied(rules.drop_last(), text))
    }
}

/// The markup rules, in the order in which they are applied.
pub fn markup_rule_table() -> (rules: Vec<Rule>)
    ensures
        models(rules@) == markup_rules(),
{
    let rules = vec![
        Rule { name: "drop image elements", pattern: "<img[^>]*>", replacement: "" },
        Rule { name: "open a code block", pattern: "<code[^>]*>", replacement: "\n```rust\n" },
        Rule { name: "close a code block", pattern: "</code[^>]*>", replacement: "\n```" },
        Rule { name: "drop section marks", pattern: "\u{a7}", replacement: "" },
        Rule { name: "halve doubled newlines", pattern: "\\n\\n", replacement: "\n" },
        Rule { name: "drop href attributes", pattern: "(?s)href=\".*?\"", replacement: "" },
        Rule { name: "drop title attributes", pattern: "(?s)title=\".*?\"", replacement: "" },
        Rule { name: "drop class attributes", pattern: "(?s)class=\".*?\"", replacement: "" },
        Rule { name: "drop id attributes", pattern: "(?s)id=\".*?\"", replacement: "" },
        Rule { name: "drop d attributes", pattern: "(?s)d=\".*?\"", replacement: "" },
        Rule { name: "drop anchor openers", pattern: "<a[^>]*>", replacement: "" },
        Rule { name: "drop anchor closers", pattern: "</a[^>]*>", replacement: "" },
        Rule { name: "drop svg openers", pattern: "<svg[^>]*>", replacement: "" },
        Rule { name: "drop svg closers", pattern: "</svg[^>]*>", replacement: "" },
        Rule { name: "drop decorative comments", pattern: "(?s)<!--!.*?-->", replacement: "" },
        Rule { name: "drop div openers", pattern: "<div[^>]*>", replacement: "" },
        Rule { name: "drop path openers", pattern: "<path[^>]*>", replacement: "" },
        Rule { name: "drop path closers", pattern: "</path[^>]*>", replacement: "" },
        Rule {
            name: "drop hidden icon spans",
            pattern: "<span  aria-hidden=\"true\">",
            replacement: "",
        },
    ];
    assert(models(rules@) =~= markup_rules());
    rules
}

/// The fence rules, in the order in which they are applied.
pub fn fence_rule_table() -> (rules: Vec<Rule>)
    ensures
        models(rules@) == fence_rules(),
{
    let rules = vec![
        Rule {
            name: "fence function signatures",
            pattern: "pub fn",
            replacement: "```rust\npub fn",
        },
        Rule { name: "break after fences", pattern: "```", replacement: "```\n" },
        Rule { name: "set openers apart", pattern: "```rust", replacement: "\n```rust\n" },
        Rule { name: "set fences apart", pattern: "```", replacement: "\n```\n" },
    ];
    assert(models(rules@) =~= fence_rules());
    rules
}

/// Tells whether the engine accepts the pattern of every rule.
pub fn rules_pass(rules: &Vec<Rule>) -> (ok: bool)
    ensures
        ok == rules_accepted(models(rules@)),
{
    let mut i: usize = 0;
    while i < rules.len()
        invariant
            i <= rules@.len(),
            forall|j: int| 0 <= j < i ==> engine_accepts(#[trigger] models(rules@)[j].pattern),
        decreases rules@.len() - i,
    {
        if !accepts(rules[i].pattern) {
            assert(!engine_accepts(models(rules@)[i as int].pattern));
            return false;
        }
        i += 1;
    }
    true
}

/// Applies one rule to `text`. Fails exactly when the engine refuses the
/// rule's pattern.
pub fn apply_rule(rule: &Rule, text: &str) -> (result: Result<String, ConvertError>)
    ensures
        result is Ok == engine_accepts(rule@.pattern),
        result matches Ok(rewritten) ==> rewritten@ == rule_applied(rule@, text@),
        result matches Err(e) ==> e == ConvertError::RejectedPattern,
{
    if accepts(rule.pattern) {
        Ok(replace_all(rule.pattern, text, rule.replacement))
    } else {
        Err(ConvertError::RejectedPattern)
    }
}

/// Applies the rules to `text` one after the other, the first rule first.
pub fn apply_rules(rules: &Vec<Rule>, text: String) -> (result: String)
    requires
        rules_accepted(models(rules@)),
    ensures
        result@ == rules_applied(models(rules@), text@),
{
    let ghost start = text@;
    let mut current = text;
    let mut i: usize = 0;
    while i < rules.len()
        invariant
            i <= rules@.len(),
            rules_accepted(models(rules@)),
            current@ == rules_applied(models(rules@).take(i as int), start),
        decreases rules@.len() - i,
    {
        proof {
            let done = models(rules@).take(i as int);
            let next = models(rules@).take(i + 1);
            assert(next.drop_last() == done);
            assert(next.last() == rules@[i as int]@);
            assert(engine_accepts(models(rules@)[i as int].pattern));
        }
        current = replace_all(rules[i].pattern, current.as_str(), rules[i].replacement);
        i += 1;
    }
    assert(models(rules@).take(rules@.len() as int) == models(rules@));
    current
}

} // verus!
