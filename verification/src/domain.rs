//! The domain patch: bare host names get the configured domain appended.

use vstd::prelude::*;
use vstd::string::*;
use crate::annotations::Annotations;
use crate::error::StructuralError;
use crate::model::{
    copy_routing, copy_text, patch_view, rules_of, IngressResource, IngressSpec, IngressSpecView,
    IngressView, Rule, RuleView,
};
use crate::text::contains_dot;

verus! {

/// A rule is bare when it has a host and that host holds no `.`.
pub open spec fn is_bare(rule: RuleView) -> bool {
    rule.host matches Some(host) && !host.contains('.')
}

/// The host `host` under the domain `domain`: the two joined by a `.`.
pub open spec fn qualified_host(host: Seq<char>, domain: Seq<char>) -> Seq<char> {
    host + seq!['.'] + domain
}

/// The rule after the domain pass: a bare host is qualified and what the rule
/// routes to is kept; any other rule is left as it is.
pub open spec fn qualified_rule(rule: RuleView, domain: Seq<char>) -> RuleView {
    match rule.host {
        Some(host) if !host.contains('.') => RuleView {
            host: Some(qualified_host(host, domain)),
            http: rule.http,
        },
        _ => rule,
    }
}

/// Every rule of `rules` after the domain pass, in the same order.
pub open spec fn qualified_rules(rules: Seq<RuleView>, domain: Seq<char>) -> Seq<RuleView> {
    rules.map_values(|rule: RuleView| qualified_rule(rule, domain))
}

/// Whether at least one rule of `rules` is bare.
pub open spec fn any_bare(rules: Seq<RuleView>) -> bool {
    exists|i: int| 0 <= i < rules.len() && is_bare(#[trigger] rules[i])
}

/// The domain patch for `object` under the domain `domain`.
///
/// An object without a spec is malformed. An object without rules, or with no
/// bare rule, gets no patch. Any other object gets a patch that sets the name
/// and the whole rewritten rule list, and nothing else.
pub open spec fn domain_patch(object: IngressView, domain: Seq<char>) -> Result<
    Option<IngressView>,
    StructuralError,
> {
    match object.spec {
        None => Err(StructuralError::MissingSpec),
        Some(spec) => match spec.rules {
            Some(rules) if any_bare(rules) => Ok(
                Some(
                    IngressView {
                        name: object.name,
                        namespace: None,
                        annotations: Map::empty(),
                        spec: Some(
                            IngressSpecView {
                                rules: Some(qualified_rules(rules, domain)),
                                tls: None,
                            },
                        ),
                    },
                ),
            ),
            _ => Ok(None),
        },
    }
}

/// Runs the domain pass over one rule.
fn qualify_rule(rule: &Rule, domain: &str) -> (outcome: (Rule, bool))
    ensures
        outcome.0@ == qualified_rule(rule@, domain@),
        outcome.1 == is_bare(rule@),
{
    let http = copy_routing(&rule.http);
    match &rule.host {
        Some(host) => {
            if contains_dot(host.as_str()) {
                (Rule { host: Some(host.clone()), http }, false)
            } else {
                let joined = host.clone().concat(".").concat(domain);
                proof {
                    reveal_strlit(".");
                    assert("."@ =~= seq!['.']);
                }
                (Rule { host: Some(joined), http }, true)
            }
        },
        None => (Rule { host: None, http }, false),
    }
}

/// Computes the domain patch for `generator` under the domain `domain`.
///
/// Returns an error where the object has no spec, `Ok(None)` where it has no
/// rules or no bare host, and otherwise the partial object that
/// [`domain_patch`] describes: the name and the whole rule list, with
/// `.` and `domain` appended to every bare host.
pub fn patch_domain(generator: &IngressResource, domain: &str) -> (result: Result<
    Option<IngressResource>,
    StructuralError,
>)
    ensures
        patch_view(result) == domain_patch(generator@, domain@),
{
    let spec = match &generator.spec {
        Some(spec) => spec,
        None => {
            return Err(StructuralError::MissingSpec);
        },
    };
    let rules = match &spec.rules {
        Some(rules) => rules,
        None => {
            return Ok(None);
        },
    };
    let ghost before = rules_of(rules@);
    let mut patched = false;
    let mut rewritten: Vec<Rule> = Vec::new();
    let mut i: usize = 0;
    while i < rules.len()
        invariant
            i <= rules.len(),
            before == rules_of(rules@),
            rewritten.len() == i,
            forall|j: int| 0 <= j < i ==> (#[trigger] rewritten@[j])@ == qualified_rule(before[j], domain@),
            patched == any_bare(before.take(i as int)),
        decreases rules.len() - i,
    {
        let (rule, bare) = qualify_rule(&rules[i], domain);
        proof {
            let seen = before.take(i as int);
            let grown = before.take(i + 1);
            assert(grown[i as int] == before[i as int]);
            if any_bare(seen) {
                let k = choose|k: int| 0 <= k < seen.len() && is_bare(#[trigger] seen[k]);
                assert(grown[k] == seen[k]);
            }
            if any_bare(grown) && !bare {
                let k = choose|k: int| 0 <= k < grown.len() && is_bare(#[trigger] grown[k]);
                assert(seen[k] == grown[k]);
            }
        }
        rewritten.push(rule);
        if bare {
            patched = true;
        }
        i += 1;
    }
    proof {
        assert(before.take(rules.len() as int) =~= before);
    }
    if !patched {
        return Ok(None);
    }
    proof {
        assert(rules_of(rewritten@) =~= qualified_rules(before, domain@));
    }
    let patch = IngressResource {
        name: copy_text(&generator.name),
        namespace: None,
        annotations: Annotations::new(),
        spec: Some(IngressSpec { rules: Some(rewritten), tls: None }),
    };
    Ok(Some(patch))
}

/// A host with the domain appended holds a `.`.
pub proof fn lemma_qualified_host_has_dot(host: Seq<char>, domain: Seq<char>)
    ensures
        qualified_host(host, domain).contains('.'),
{
    assert(qualified_host(host, domain)[host.len() as int] == '.');
}

/// After the domain pass no rule is bare.
pub proof fn lemma_qualified_rules_not_bare(rules: Seq<RuleView>, domain: Seq<char>)
    ensures
        !any_bare(qualified_rules(rules, domain)),
{
    let after = qualified_rules(rules, domain);
    assert forall|i: int| 0 <= i < after.len() implies !is_bare(#[trigger] after[i]) by {
        if is_bare(rules[i]) {
            lemma_qualified_host_has_dot(rules[i].host->0, domain);
        }
    }
}

/// The domain patch rewrites exactly the bare hosts: where rule `i` of
/// `object` has a host without a `.`, a patch is made and its rule `i` has
/// that host joined to `domain` by a `.`; where rule `i` has a host with a
/// `.` or no host, any patch made holds that host unchanged. The patch has
/// as many rules as the object, and each routes to what it routed to.
pub proof fn domain_patch_qualifies_bare_hosts(object: IngressView, domain: Seq<char>, i: int)
    requires
        object.spec matches Some(spec) && spec.rules matches Some(rules) && 0 <= i < rules.len(),
    ensures
        ({
            let rules = object.spec->0.rules->0;
            let result = domain_patch(object, domain);
            &&& is_bare(rules[i]) ==> result is Ok && result->Ok_0 is Some
            &&& (result matches Ok(Some(patch)) ==> {
                &&& patch.spec->0.rules->0.len() == rules.len()
                &&& patch.spec->0.rules->0[i].host == if is_bare(rules[i]) {
                    Some(rules[i].host->0 + seq!['.'] + domain)
                } else {
                    rules[i].host
                }
                &&& patch.spec->0.rules->0[i].http == rules[i].http
            })
        }),
{
    let rules = object.spec->0.rules->0;
    if is_bare(rules[i]) {
        assert(any_bare(rules));
    }
}

/// An object with a spec whose rules are absent, empty or all not bare (each
/// host holds a `.` or is absent) gets no domain patch.
pub proof fn domain_patch_none_without_bare_host(object: IngressView, domain: Seq<char>)
    requires
        object.spec matches Some(spec) && (spec.rules matches Some(rules) ==> forall|i: int|
            0 <= i < rules.len() ==> !is_bare(#[trigger] rules[i])),
    ensures
        domain_patch(object, domain) == Ok::<Option<IngressView>, StructuralError>(None),
{
}

/// A domain patch sets the name and the rules, and leaves the namespace, the
/// annotations and the TLS block out.
pub proof fn domain_patch_carries_only_its_fields(object: IngressView, domain: Seq<char>)
    requires
        domain_patch(object, domain) matches Ok(Some(_)),
    ensures
        ({
            let patch = domain_patch(object, domain)->Ok_0->0;
            &&& patch.name == object.name
            &&& patch.namespace is None
            &&& patch.annotations == Map::<Seq<char>, Seq<char>>::empty()
            &&& patch.spec is Some
            &&& patch.spec->0.rules is Some
            &&& patch.spec->0.tls is None
        }),
{
}

/// The domain patch is idempotent: computed again on its own output, or on
/// the object with the patched rules merged in, it yields no patch.
pub proof fn domain_patch_is_idempotent(object: IngressView, domain: Seq<char>)
    requires
        domain_patch(object, domain) matches Ok(Some(_)),
    ensures
        ({
            let patch = domain_patch(object, domain)->Ok_0->0;
            let merged = IngressView {
                spec: Some(IngressSpecView { rules: patch.spec->0.rules, ..object.spec->0 }),
                ..object
            };
            &&& domain_patch(patch, domain) == Ok::<Option<IngressView>, StructuralError>(None)
            &&& domain_patch(merged, domain) == Ok::<Option<IngressView>, StructuralError>(None)
        }),
{
    lemma_qualified_rules_not_bare(object.spec->0.rules->0, domain);
}

/// A domain patch is never empty of change: some rule of the patch differs
/// from the rule of the object at the same place.
pub proof fn domain_patch_changes_a_host(object: IngressView, domain: Seq<char>)
    requires
        domain_patch(object, domain) matches Ok(Some(_)),
    ensures
        ({
            let patch = domain_patch(object, domain)->Ok_0->0;
            exists|i: int|
                0 <= i < object.spec->0.rules->0.len() && #[trigger] patch.spec->0.rules->0[i]
                    != object.spec->0.rules->0[i]
        }),
{
    let rules = object.spec->0.rules->0;
    let patch = domain_patch(object, domain)->Ok_0->0;
    let i = choose|i: int| 0 <= i < rules.len() && is_bare(#[trigger] rules[i]);
    lemma_qualified_host_has_dot(rules[i].host->0, domain);
    assert(patch.spec->0.rules->0[i] != rules[i]);
}

} // verus!
