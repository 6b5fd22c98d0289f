//! The ingress object as the reconciler sees it, and its mathematical view.

use vstd::prelude::*;
use k8s_openapi::api::networking::v1::HTTPIngressRuleValue;
use crate::annotations::Annotations;
use crate::error::StructuralError;

verus! {

/// Declares `k8s_openapi::api::networking::v1::HTTPIngressRuleValue`, the
/// HTTP paths and backends of a rule, as an opaque type. Nothing is claimed
/// of what is inside: the reconciler only carries the value from an object's
/// rule to the same rule of a patch.
#[verifier::external_type_specification]
#[verifier::external_body]
pub struct ExHttpRuleValue(HTTPIngressRuleValue);

/// One routing rule. Only its host concerns the reconciler; what the rule
/// routes to is carried along untouched.
#[derive(Clone, Debug, PartialEq)]
pub struct Rule {
    /// The host the rule applies to; absent for a default-backend rule.
    pub host: Option<String>,
    /// The paths and backends that requests for the host are routed to.
    pub http: Option<HTTPIngressRuleValue>,
}

/// TLS configuration: the hosts a certificate covers and the secret that
/// holds it.
#[derive(Clone, Debug, PartialEq, Eq)]
pub struct TlsBlock {
    pub hosts: Vec<String>,
    pub secret_name: String,
}

/// The desired state carried by an ingress object.
#[derive(Clone, Debug, PartialEq)]
pub struct IngressSpec {
    /// The ordered rules; absent is distinct from empty.
    pub rules: Option<Vec<Rule>>,
    /// The TLS block; its mere presence means TLS is already configured.
    pub tls: Option<TlsBlock>,
}

/// An ingress object, whole or partial.
///
/// A live object carries all of its fields. A patch is a partial object: it
/// carries only the fields a writer wants to set and leaves every other field
/// absent or empty.
#[derive(Clone, Debug)]
pub struct IngressResource {
    pub name: Option<String>,
    pub namespace: Option<String>,
    pub annotations: Annotations,
    pub spec: Option<IngressSpec>,
}

/// View of a [`Rule`].
pub struct RuleView {
    pub host: Option<Seq<char>>,
    pub http: Option<HTTPIngressRuleValue>,
}

/// View of a [`TlsBlock`].
pub struct TlsBlockView {
    pub hosts: Seq<Seq<char>>,
    pub secret_name: Seq<char>,
}

/// View of an [`IngressSpec`].
pub struct IngressSpecView {
    pub rules: Option<Seq<RuleView>>,
    pub tls: Option<TlsBlockView>,
}

/// View of an [`IngressResource`].
pub struct IngressView {
    pub name: Option<Seq<char>>,
    pub namespace: Option<Seq<char>>,
    pub annotations: Map<Seq<char>, Seq<char>>,
    pub spec: Option<IngressSpecView>,
}

/// The characters of an optional string.
pub open spec fn text_of(text: Option<String>) -> Option<Seq<char>> {
    match text {
        Some(s) => Some(s@),
        None => None,
    }
}

/// The characters of each string of a list.
pub open spec fn texts_of(list: Seq<String>) -> Seq<Seq<char>> {
    list.map_values(|s: String| s@)
}

/// The view of each rule of a list.
pub open spec fn rules_of(list: Seq<Rule>) -> Seq<RuleView> {
    list.map_values(|rule: Rule| rule@)
}

impl View for Rule {
    type V = RuleView;

    open spec fn view(&self) -> RuleView {
        RuleView { host: text_of(self.host), http: self.http }
    }
}

impl View for TlsBlock {
    type V = TlsBlockView;

    open spec fn view(&self) -> TlsBlockView {
        TlsBlockView { hosts: texts_of(self.hosts@), secret_name: self.secret_name@ }
    }
}

impl View for IngressSpec {
    type V = IngressSpecView;

    open spec fn view(&self) -> IngressSpecView {
        IngressSpecView {
            rules: match self.rules {
                Some(rules) => Some(rules_of(rules@)),
                None => None,
            },
            tls: match self.tls {
                Some(block) => Some(block@),
                None => None,
            },
        }
    }
}

impl View for IngressResource {
    type V = IngressView;

    open spec fn view(&self) -> IngressView {
        IngressView {
            name: text_of(self.name),
            namespace: text_of(self.namespace),
            annotations: self.annotations@,
            spec: match self.spec {
                Some(spec) => Some(spec@),
                None => None,
            },
        }
    }
}

/// What a patch computation returned, by the views of the objects in it.
pub open spec fn patch_view(result: Result<Option<IngressResource>, StructuralError>) -> Result<
    Option<IngressView>,
    StructuralError,
> {
    match result {
        Ok(Some(patch)) => Ok(Some(patch@)),
        Ok(None) => Ok(None),
        Err(error) => Err(error),
    }
}

/// Calls `HTTPIngressRuleValue::clone`, which the defining crate derives for
/// the type and for every type inside it: the copy is the same value.
#[verifier::external_body]
fn clone_rule_value(value: &HTTPIngressRuleValue) -> (copy: HTTPIngressRuleValue)
    ensures
        copy == *value,
{
    value.clone()
}

/// A copy of what a rule routes to.
pub(crate) fn copy_routing(routing: &Option<HTTPIngressRuleValue>) -> (copy: Option<
    HTTPIngressRuleValue,
>)
    ensures
        copy == *routing,
{
    match routing {
        Some(value) => Some(clone_rule_value(value)),
        None => None,
    }
}

/// A copy of an optional string.
pub(crate) fn copy_text(text: &Option<String>) -> (copy: Option<String>)
    ensures
        copy == *text,
{
    match text {
        Some(s) => Some(s.clone()),
        None => None,
    }
}

} // verus!
