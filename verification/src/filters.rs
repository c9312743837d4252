//! Filter rules: which rule, if any, decides what happens to a message.

use vstd::prelude::*;
use crate::models::{FilterAction, FilterRule, FilterRuleView, ReceivedMessage, ReceivedMessageView};

verus! {

/// What the `regex` crate makes of a pattern and a text: `None` where the
/// pattern does not compile, else whether it matches anywhere in the text.
pub uninterp spec fn regex_search(pattern: Seq<char>, text: Seq<char>) -> Option<bool>;

/// Compiles `pattern` with `regex::Regex::new` and searches `text` with
/// `Regex::is_match`. The contract only names the outcome: the same pattern
/// and text always give the same answer.
#[verifier::external_body]
pub(crate) fn pattern_matches(pattern: &str, text: &str) -> (r: Option<bool>)
    ensures
        r == regex_search(pattern@, text@),
{
    match regex::Regex::new(pattern) {
        Ok(re) => Some(re.is_match(text)),
        Err(_) => None,
    }
}

/// The action of the first rule whose verdict is a match. `verdicts` holds
/// one verdict for each rule, in order; a rule without a verdict, or whose
/// pattern did not compile, is passed over.
pub open spec fn first_match(rules: Seq<FilterRuleView>, verdicts: Seq<Option<bool>>) -> Option<
    FilterAction,
>
    decreases rules.len(),
{
    if rules.len() == 0 || verdicts.len() == 0 {
        None
    } else if verdicts[0] == Some(true) {
        Some(rules[0].action)
    } else {
        first_match(rules.drop_first(), verdicts.drop_first())
    }
}

/// The verdict of each rule on `text`.
pub open spec fn verdicts_of(rules: Seq<FilterRuleView>, text: Seq<char>) -> Seq<Option<bool>> {
    Seq::new(rules.len(), |i: int| regex_search(rules[i].regex, text))
}

/// What the rules of a subscription decide for a message: nothing without
/// rules, else the action of the first rule that matches the message's
/// filter text.
pub open spec fn filter_action(rules: Option<Seq<FilterRuleView>>, msg: ReceivedMessageView) -> Option<
    FilterAction,
> {
    match rules {
        None => None,
        Some(r) => first_match(r, verdicts_of(r, msg.filter_text())),
    }
}

/// First match wins: `first_match` gives the action of rule `i` exactly when
/// rule `i` matches and no rule before it does, and gives nothing exactly
/// when no rule matches.
pub proof fn lemma_first_match_wins(rules: Seq<FilterRuleView>, verdicts: Seq<Option<bool>>)
    requires
        rules.len() == verdicts.len(),
    ensures
        first_match(rules, verdicts) is None <==> forall|i: int|
            0 <= i < verdicts.len() ==> verdicts[i] != Some(true),
        forall|i: int|
            0 <= i < verdicts.len() && verdicts[i] == Some(true) && (forall|j: int|
                0 <= j < i ==> verdicts[j] != Some(true)) ==> first_match(rules, verdicts) == Some(
                rules[i].action,
            ),
    decreases rules.len(),
{
    if rules.len() > 0 {
        let r = rules.drop_first();
        let v = verdicts.drop_first();
        lemma_first_match_wins(r, v);
        if verdicts[0] != Some(true) {
            assert forall|i: int|
                0 <= i < verdicts.len() && verdicts[i] == Some(true) && (forall|j: int|
                    0 <= j < i ==> verdicts[j] != Some(true)) implies first_match(rules, verdicts)
                == Some(rules[i].action) by {
                assert(v[i - 1] == verdicts[i]);
                assert forall|j: int| 0 <= j < i - 1 implies v[j] != Some(true) by {
                    assert(v[j] == verdicts[j + 1]);
                }
                assert(r[i - 1] == rules[i]);
            }
            if first_match(rules, verdicts) is None {
                assert forall|i: int| 0 <= i < verdicts.len() implies verdicts[i] != Some(
                    true,
                ) by {
                    if i > 0 {
                        assert(v[i - 1] == verdicts[i]);
                    }
                }
            } else {
                let i = choose|i: int| 0 <= i < v.len() && v[i] == Some(true);
                assert(verdicts[i + 1] == Some(true));
            }
        }
    }
}

/// Picks the action of the first rule whose verdict is a match.
pub fn select_action(rules: &Vec<FilterRule>, verdicts: &Vec<Option<bool>>) -> (r: Option<
    FilterAction,
>)
    ensures
        r == first_match(rules.deep_view(), verdicts@),
{
    let mut i: usize = 0;
    assert(rules.deep_view().subrange(0, rules.len() as int) =~= rules.deep_view());
    assert(verdicts@.subrange(0, verdicts.len() as int) =~= verdicts@);
    while i < rules.len() && i < verdicts.len()
        invariant
            i <= rules.len(),
            i <= verdicts.len(),
            first_match(rules.deep_view(), verdicts@) == first_match(
                rules.deep_view().subrange(i as int, rules.len() as int),
                verdicts@.subrange(i as int, verdicts.len() as int),
            ),
        decreases rules.len() - i,
    {
        let ghost r = rules.deep_view().subrange(i as int, rules.len() as int);
        let ghost v = verdicts@.subrange(i as int, verdicts.len() as int);
        assert(r.drop_first() =~= rules.deep_view().subrange(i + 1, rules.len() as int));
        assert(v.drop_first() =~= verdicts@.subrange(i + 1, verdicts.len() as int));
        assert(v[0] == verdicts@[i as int]);
        assert(r[0] == rules@[i as int]@);
        match verdicts[i] {
            Some(true) => {
                return Some(rules[i].action);
            },
            _ => {},
        }
        i = i + 1;
    }
    None
}

/// The text of a message that filter rules are matched against.
pub fn filter_text(msg: &ReceivedMessage) -> (r: String)
    ensures
        r@ == msg@.filter_text(),
{
    let mut text = match &msg.title {
        Some(t) => t.clone(),
        None => String::new(),
    };
    proof {
        reveal_strlit(" ");
    }
    text.append(" ");
    match &msg.message {
        Some(m) => text.append(m.as_str()),
        None => {},
    }
    assert(text@ =~= msg@.filter_text());
    text
}

/// Asks the `regex` crate for the verdict of each rule on `text`.
pub fn rule_verdicts(rules: &Vec<FilterRule>, text: &str) -> (r: Vec<Option<bool>>)
    ensures
        r@ == verdicts_of(rules.deep_view(), text@),
{
    let mut out: Vec<Option<bool>> = Vec::new();
    let mut i: usize = 0;
    while i < rules.len()
        invariant
            i <= rules.len(),
            out.len() == i,
            forall|k: int| 0 <= k < i ==> out@[k] == regex_search(rules@[k].regex@, text@),
        decreases rules.len() - i,
    {
        out.push(pattern_matches(rules[i].regex.as_str(), text));
        i = i + 1;
    }
    assert(out@ =~= verdicts_of(rules.deep_view(), text@));
    out
}

/// What the rules decide for `msg`: the action of the first rule whose
/// pattern compiles and matches the message's title, a space and its body.
pub fn check_filters(rules: &Option<Vec<FilterRule>>, msg: &ReceivedMessage) -> (r: Option<
    FilterAction,
>)
    ensures
        r == filter_action(rules.deep_view(), msg@),
{
    match rules {
        None => None,
        Some(list) => {
            let text = filter_text(msg);
            let verdicts = rule_verdicts(list, text.as_str());
            select_action(list, &verdicts)
        },
    }
}

} // verus!
