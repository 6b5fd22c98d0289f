//! The TLS patch: certificate wiring for an object that asks for an issuer.

use vstd::prelude::*;
use vstd::string::*;
use crate::annotations::Annotations;
use crate::error::StructuralError;
use crate::model::{
    copy_text, patch_view, rules_of, texts_of, IngressResource, IngressSpec, IngressSpecView,
    IngressView, Rule, RuleView, TlsBlock, TlsBlockView,
};
use crate::text::same_text;

verus! {

/// The hosts of the rules that have one, in rule order, duplicates kept.
pub open spec fn present_hosts(rules: Seq<RuleView>) -> Seq<Seq<char>> {
    rules.filter_map(|rule: RuleView| rule.host)
}

/// The name of the secret that holds the certificate of the object `name`.
pub open spec fn secret_name_for(name: Seq<char>) -> Seq<char> {
    name + "-tls"@
}

/// The annotations that the TLS patch sets for the issuer directive `issuer`.
pub open spec fn tls_annotations(issuer: Seq<char>) -> Map<Seq<char>, Seq<char>> {
    let base = Map::<Seq<char>, Seq<char>>::empty().insert(
        "ingress.kubernetes.io/ssl-redirect"@,
        "true"@,
    );
    if issuer == "auto"@ {
        base.insert("kubernetes.io/tls-acme"@, "true"@)
    } else {
        base.insert("cert-manager.io/cluster-issuer"@, issuer)
    }
}

/// The TLS patch for `object` under the issuer directive `issuer`.
///
/// An object without a name, without a spec or, unless TLS is already
/// configured, without a rule list is malformed. An object that already
/// carries a TLS block gets no patch. Any other object gets a patch that sets
/// the name, the annotations for the issuer and one TLS block, and nothing
/// else.
pub open spec fn tls_patch(object: IngressView, issuer: Seq<char>) -> Result<
    Option<IngressView>,
    StructuralError,
> {
    match (object.name, object.spec) {
        (None, _) => Err(StructuralError::MissingName),
        (Some(_), None) => Err(StructuralError::MissingSpec),
        (Some(name), Some(spec)) => {
            if spec.tls is Some {
                Ok(None)
            } else {
                match spec.rules {
                    None => Err(StructuralError::MissingRules),
                    Some(rules) => Ok(
                        Some(
                            IngressView {
                                name: Some(name),
                                namespace: None,
                                annotations: tls_annotations(issuer),
                                spec: Some(
                                    IngressSpecView {
                                        rules: None,
                                        tls: Some(
                                            TlsBlockView {
                                                hosts: present_hosts(rules),
                                                secret_name: secret_name_for(name),
                                            },
                                        ),
                                    },
                                ),
                            },
                        ),
                    ),
                }
            }
        },
    }
}

/// Collects the hosts of the rules that have one.
fn collect_hosts(rules: &Vec<Rule>) -> (hosts: Vec<String>)
    ensures
        texts_of(hosts@) == present_hosts(rules_of(rules@)),
{
    let mut hosts: Vec<String> = Vec::new();
    let mut i: usize = 0;
    while i < rules.len()
        invariant
            i <= rules.len(),
            texts_of(hosts@) == present_hosts(rules_of(rules@).take(i as int)),
        decreases rules.len() - i,
    {
        let ghost seen = rules_of(rules@).take(i as int);
        let ghost grown = rules_of(rules@).take(i + 1);
        proof {
            assert(grown.drop_last() =~= seen);
            assert(grown.last() == rules@[i as int]@);
        }
        if let Some(host) = &rules[i].host {
            let ghost before = hosts@;
            hosts.push(host.clone());
            proof {
                assert(texts_of(hosts@) =~= texts_of(before) + seq![host@]);
            }
        }
        i += 1;
    }
    proof {
        assert(rules_of(rules@).take(rules.len() as int) =~= rules_of(rules@));
    }
    hosts
}

/// Builds the annotations that the TLS patch sets.
fn build_annotations(issuer: &str) -> (annotations: Annotations)
    ensures
        annotations@ == tls_annotations(issuer@),
{
    let mut annotations = Annotations::new();
    annotations.insert("ingress.kubernetes.io/ssl-redirect".to_owned(), "true".to_owned());
    if same_text(issuer, "auto") {
        annotations.insert("kubernetes.io/tls-acme".to_owned(), "true".to_owned());
    } else {
        annotations.insert("cert-manager.io/cluster-issuer".to_owned(), issuer.to_owned());
    }
    annotations
}

/// Computes the TLS patch for `generator` under the issuer directive `issuer`.
///
/// Returns `Ok(None)` where the object already carries a TLS block, an error
/// where it lacks its name, its spec or its rule list, and otherwise the
/// partial object that [`tls_patch`] describes: the redirect annotation, the
/// annotation for the issuer (`auto` selects the legacy one), and a TLS block
/// over the hosts of the rules with the secret `<name>-tls`.
pub fn patch_tls(generator: &IngressResource, issuer: &str) -> (result: Result<
    Option<IngressResource>,
    StructuralError,
>)
    ensures
        patch_view(result) == tls_patch(generator@, issuer@),
{
    let name = match &generator.name {
        Some(name) => name,
        None => {
            return Err(StructuralError::MissingName);
        },
    };
    let spec = match &generator.spec {
        Some(spec) => spec,
        None => {
            return Err(StructuralError::MissingSpec);
        },
    };
    if spec.tls.is_some() {
        return Ok(None);
    }
    let rules = match &spec.rules {
        Some(rules) => rules,
        None => {
            return Err(StructuralError::MissingRules);
        },
    };
    let hosts = collect_hosts(rules);
    let annotations = build_annotations(issuer);
    let secret_name = name.clone().concat("-tls");
    let patch = IngressResource {
        name: copy_text(&generator.name),
        namespace: None,
        annotations,
        spec: Some(IngressSpec { rules: None, tls: Some(TlsBlock { hosts, secret_name }) }),
    };
    Ok(Some(patch))
}

/// The three annotation keys that a TLS patch may set are pairwise different.
pub proof fn lemma_annotation_keys_differ()
    ensures
        "ingress.kubernetes.io/ssl-redirect"@ != "kubernetes.io/tls-acme"@,
        "ingress.kubernetes.io/ssl-redirect"@ != "cert-manager.io/cluster-issuer"@,
        "kubernetes.io/tls-acme"@ != "cert-manager.io/cluster-issuer"@,
{
    reveal_strlit("ingress.kubernetes.io/ssl-redirect");
    reveal_strlit("kubernetes.io/tls-acme");
    reveal_strlit("cert-manager.io/cluster-issuer");
    assert("ingress.kubernetes.io/ssl-redirect"@.len() == 34);
    assert("kubernetes.io/tls-acme"@.len() == 22);
    assert("cert-manager.io/cluster-issuer"@.len() == 30);
}

/// An object with a name and a spec that already carries a TLS block gets
/// no TLS patch, whatever the issuer directive.
pub proof fn tls_patch_none_when_tls_present(object: IngressView, issuer: Seq<char>)
    requires
        object.name is Some,
        object.spec matches Some(spec) && spec.tls is Some,
    ensures
        tls_patch(object, issuer) == Ok::<Option<IngressView>, StructuralError>(None),
{
}

/// Under the directive `auto` the patch's annotations are the redirect and
/// the legacy auto-TLS annotation, both `true`, and no cluster issuer.
pub proof fn tls_patch_auto_issuer(object: IngressView)
    requires
        tls_patch(object, "auto"@) matches Ok(Some(_)),
    ensures
        ({
            let annotations = tls_patch(object, "auto"@)->Ok_0->0.annotations;
            &&& annotations.contains_pair("ingress.kubernetes.io/ssl-redirect"@, "true"@)
            &&& annotations.contains_pair("kubernetes.io/tls-acme"@, "true"@)
            &&& !annotations.contains_key("cert-manager.io/cluster-issuer"@)
        }),
{
    lemma_annotation_keys_differ();
}

/// Under any directive but `auto` the patch's annotations are the redirect,
/// `true`, and the cluster issuer, set to the directive, and no legacy
/// auto-TLS annotation. The TLS block names the secret `<name>-tls` and lists
/// the hosts of the rules that have one, in rule order.
pub proof fn tls_patch_named_issuer(object: IngressView, issuer: Seq<char>)
    requires
        issuer != "auto"@,
        tls_patch(object, issuer) matches Ok(Some(_)),
    ensures
        ({
            let patch = tls_patch(object, issuer)->Ok_0->0;
            let block = patch.spec->0.tls->0;
            &&& patch.annotations.contains_pair("ingress.kubernetes.io/ssl-redirect"@, "true"@)
            &&& patch.annotations.contains_pair("cert-manager.io/cluster-issuer"@, issuer)
            &&& !patch.annotations.contains_key("kubernetes.io/tls-acme"@)
            &&& block.secret_name == object.name->0 + "-tls"@
            &&& block.hosts == present_hosts(object.spec->0.rules->0)
        }),
{
    lemma_annotation_keys_differ();
}

/// The hosts a TLS block lists are the rules' hosts and nothing else: with a
/// rule appended, its host is appended if it has one.
pub proof fn present_hosts_by_rule(rules: Seq<RuleView>, rule: RuleView)
    ensures
        present_hosts(Seq::<RuleView>::empty()) == Seq::<Seq<char>>::empty(),
        present_hosts(rules.push(rule)) == match rule.host {
            Some(host) => present_hosts(rules).push(host),
            None => present_hosts(rules),
        },
{
    assert(rules.push(rule).drop_last() =~= rules);
    match rule.host {
        Some(host) => {
            assert(present_hosts(rules) + seq![host] =~= present_hosts(rules).push(host));
        },
        None => {},
    }
}

/// A TLS patch sets the name, the annotations and the TLS block, and leaves
/// the namespace and the rules out.
pub proof fn tls_patch_carries_only_its_fields(object: IngressView, issuer: Seq<char>)
    requires
        tls_patch(object, issuer) matches Ok(Some(_)),
    ensures
        ({
            let patch = tls_patch(object, issuer)->Ok_0->0;
            &&& patch.name == object.name
            &&& patch.namespace is None
            &&& patch.spec is Some
            &&& patch.spec->0.rules is None
            &&& patch.spec->0.tls is Some
        }),
{
}

/// Once the TLS patch is merged into the object, the TLS computation yields
/// no further patch.
pub proof fn tls_patch_is_idempotent(object: IngressView, issuer: Seq<char>)
    requires
        tls_patch(object, issuer) matches Ok(Some(_)),
    ensures
        ({
            let patch = tls_patch(object, issuer)->Ok_0->0;
            let merged = IngressView {
                annotations: object.annotations.union_prefer_right(patch.annotations),
                spec: Some(IngressSpecView { tls: patch.spec->0.tls, ..object.spec->0 }),
                ..object
            };
            tls_patch(merged, issuer) == Ok::<Option<IngressView>, StructuralError>(None)
        }),
{
}

} // verus!
