//! The routing policy: an ordered table of matchers, each naming the upstream
//! resolver that handles the names it accepts. The first rule that accepts a
//! name decides; the last rule of every policy accepts every name.

use vstd::prelude::*;
use crate::name::{in_domain, name_in_domain};

verus! {

/// Names one upstream resolver.
#[derive(Clone, Copy, Debug, PartialEq, Eq, Structural)]
pub enum UpstreamId {
    /// The resolver that the local system is configured with.
    Default,
    /// The fixed public recursive resolver.
    Public,
    /// Any further resolver, by number.
    Other(u16),
}

/// Decides whether a rule applies to a name.
#[derive(Debug)]
pub enum Matcher {
    /// Accepts the names that lie under this domain (see `in_domain`).
    Domain(String),
    /// Accepts every name.
    Any,
}

/// One row of the routing table.
#[derive(Debug)]
pub struct RoutingRule {
    pub matcher: Matcher,
    pub upstream: UpstreamId,
}

/// What a matcher is, with its domain as a sequence of characters.
pub enum MatcherView {
    Domain(Seq<char>),
    Any,
}

/// What a rule is.
pub struct RuleView {
    pub matcher: MatcherView,
    pub upstream: UpstreamId,
}

impl View for Matcher {
    type V = MatcherView;

    open spec fn view(&self) -> MatcherView {
        match self {
            Matcher::Domain(zone) => MatcherView::Domain(zone@),
            Matcher::Any => MatcherView::Any,
        }
    }
}

impl View for RoutingRule {
    type V = RuleView;

    open spec fn view(&self) -> RuleView {
        RuleView { matcher: self.matcher@, upstream: self.upstream }
    }
}

/// The rules of a table, each by its view.
pub open spec fn rules_view(rules: Seq<RoutingRule>) -> Seq<RuleView> {
    rules.map_values(|r: RoutingRule| r@)
}

/// Whether a matcher accepts a name.
pub open spec fn accepts(matcher: MatcherView, name: Seq<char>) -> bool {
    match matcher {
        MatcherView::Domain(zone) => in_domain(name, zone),
        MatcherView::Any => true,
    }
}

/// A table that can route every name: it has a last rule, and that rule
/// accepts everything.
pub open spec fn is_total(rules: Seq<RuleView>) -> bool {
    rules.len() > 0 && rules.last().matcher is Any
}

/// Whether every rule of the table names one of the upstreams at hand.
pub open spec fn routes_within(rules: Seq<RuleView>, available: Seq<UpstreamId>) -> bool {
    forall|i: int| 0 <= i < rules.len() ==> available.contains((#[trigger] rules[i]).upstream)
}

/// Whether rule `i` is the first of the table that accepts the name.
pub open spec fn is_first_match(rules: Seq<RuleView>, name: Seq<char>, i: int) -> bool {
    &&& 0 <= i < rules.len()
    &&& accepts(rules[i].matcher, name)
    &&& forall|j: int| 0 <= j < i ==> !accepts(#[trigger] rules[j].matcher, name)
}

/// The upstream of the first rule that accepts the name. A table without such
/// a rule, which no policy holds, routes to the public resolver.
pub open spec fn route(rules: Seq<RuleView>, name: Seq<char>) -> UpstreamId
    decreases rules.len(),
{
    if rules.len() == 0 {
        UpstreamId::Public
    } else if accepts(rules[0].matcher, name) {
        rules[0].upstream
    } else {
        route(rules.drop_first(), name)
    }
}

/// The table of the stock relay: names under `cn.` go to the system's
/// resolver, all others to the public one.
pub open spec fn standard_rules() -> Seq<RuleView> {
    seq![
        RuleView { matcher: MatcherView::Domain("cn."@), upstream: UpstreamId::Default },
        RuleView { matcher: MatcherView::Any, upstream: UpstreamId::Public },
    ]
}

/// `route` gives the upstream of the first matching rule, whichever it is.
pub proof fn lemma_route_first_match(rules: Seq<RuleView>, name: Seq<char>, i: int)
    requires
        is_first_match(rules, name, i),
    ensures
        route(rules, name) == rules[i].upstream,
    decreases rules.len(),
{
    if i > 0 {
        let rest = rules.drop_first();
        assert(!accepts(rules[0].matcher, name));
        assert forall|j: int| 0 <= j < i - 1 implies !accepts(
            #[trigger] rest[j].matcher,
            name,
        ) by {
            assert(rest[j] == rules[j + 1]);
        }
        lemma_route_first_match(rest, name, i - 1);
    }
}

impl Matcher {
    /// Whether this matcher accepts `name`.
    pub fn matches(&self, name: &str) -> (b: bool)
        ensures
            b == accepts(self@, name@),
    {
        match self {
            Matcher::Domain(zone) => name_in_domain(name, zone.as_str()),
            Matcher::Any => true,
        }
    }
}

/// A routing table that is known to end in a catch-all rule.
#[derive(Debug)]
pub struct RoutingPolicy {
    rules: Vec<RoutingRule>,
}

impl View for RoutingPolicy {
    type V = Seq<RuleView>;

    closed spec fn view(&self) -> Seq<RuleView> {
        rules_view(self.rules@)
    }
}

impl RoutingPolicy {
    #[verifier::type_invariant]
    spec fn total(&self) -> bool {
        is_total(rules_view(self.rules@))
    }

    /// Makes a policy of the rules, in their order. Refuses a table whose
    /// last rule is not a catch-all, and an empty one.
    pub fn new(rules: Vec<RoutingRule>) -> (policy: Option<RoutingPolicy>)
        ensures
            policy is Some <==> is_total(rules_view(rules@)),
            policy matches Some(p) ==> p@ == rules_view(rules@),
    {
        let n = rules.len();
        if n == 0 {
            return None;
        }
        match rules[n - 1].matcher {
            Matcher::Any => Some(RoutingPolicy { rules }),
            Matcher::Domain(_) => None,
        }
    }

    /// The policy of the stock relay.
    pub fn standard() -> (policy: RoutingPolicy)
        ensures
            policy@ == standard_rules(),
    {
        let mut rules: Vec<RoutingRule> = Vec::new();
        rules.push(
            RoutingRule {
                matcher: Matcher::Domain("cn.".to_owned()),
                upstream: UpstreamId::Default,
            },
        );
        rules.push(RoutingRule { matcher: Matcher::Any, upstream: UpstreamId::Public });
        let policy = RoutingPolicy { rules };
        assert(policy@ =~= standard_rules());
        policy
    }

    /// Whether every rule names one of the upstreams in `available`, so
    /// that no name is routed to an upstream that is not there.
    pub fn uses_only(&self, available: &[UpstreamId]) -> (b: bool)
        ensures
            b == routes_within(self@, available@),
    {
        let mut i: usize = 0;
        while i < self.rules.len()
            invariant
                i <= self.rules.len(),
                forall|k: int|
                    0 <= k < i ==> available@.contains((#[trigger] self@[k]).upstream),
            decreases self.rules.len() - i,
        {
            assert(self@[i as int] == self.rules[i as int]@);
            let wanted = self.rules[i].upstream;
            let mut found = false;
            let mut j: usize = 0;
            while j < available.len()
                invariant
                    j <= available.len(),
                    found <==> exists|k: int| 0 <= k < j && available@[k] == wanted,
                decreases available.len() - j,
            {
                if available[j] == wanted {
                    found = true;
                }
                j = j + 1;
            }
            if !found {
                assert(!available@.contains(self@[i as int].upstream));
                return false;
            }
            i = i + 1;
        }
        true
    }

    /// The number of rules.
    pub fn len(&self) -> (n: usize)
        ensures
            n == self@.len(),
            n > 0,
    {
        proof {
            use_type_invariant(self);
        }
        self.rules.len()
    }

    /// The upstream that handles `name`: that of the first rule, in table
    /// order, whose matcher accepts the name.
    pub fn classify(&self, name: &str) -> (upstream: UpstreamId)
        ensures
            upstream == route(self@, name@),
            exists|i: int| is_first_match(self@, name@, i) && upstream == self@[i].upstream,
    {
        proof {
            use_type_invariant(self);
        }
        let ghost rules = self@;
        let mut i: usize = 0;
        while i < self.rules.len() - 1
            invariant
                i < self.rules.len(),
                rules == self@,
                rules == rules_view(self.rules@),
                is_total(rules),
                forall|j: int| 0 <= j < i ==> !accepts(#[trigger] rules[j].matcher, name@),
            decreases self.rules.len() - i,
        {
            if self.rules[i].matcher.matches(name) {
                proof {
                    assert(is_first_match(rules, name@, i as int));
                    lemma_route_first_match(rules, name@, i as int);
                }
                return self.rules[i].upstream;
            }
            i = i + 1;
        }
        proof {
            assert(is_first_match(rules, name@, i as int));
            lemma_route_first_match(rules, name@, i as int);
        }
        self.rules[i].upstream
    }
}

} // verus!
