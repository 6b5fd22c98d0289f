//! One reconciliation of one object, as a sequence of decisions.
//!
//! A reconciliation runs two pipelines in order, the domain pipeline and the
//! TLS pipeline, and each may ask for one merge write. The writes themselves
//! are the caller's business: [`reconcile`] decides, the caller performs what
//! was decided and reports back how it went.

use vstd::prelude::*;
use vstd::string::*;
use crate::domain::{domain_patch, domain_patch_qualifies_bare_hosts, is_bare, patch_domain};
use crate::error::{Error, ErrorView, ObjectKey, StructuralError};
use crate::model::{IngressResource, IngressView};
use crate::tls::{patch_tls, tls_patch};

verus! {

/// Seconds until the periodic sweep revisits an object whose reconciliation
/// succeeded.
pub const REQUEUE_AFTER_SUCCESS_SECS: u64 = 300;

/// Seconds until an object whose reconciliation failed is tried again.
pub const REQUEUE_AFTER_FAILURE_SECS: u64 = 1;

/// When the next reconciliation of an object is due.
#[derive(Clone, Copy, Debug, PartialEq, Eq, Structural)]
pub struct Action {
    /// Seconds to wait before the object is reconciled again.
    pub requeue_after_secs: u64,
}

/// Which pipeline a reconciliation runs next.
#[derive(Clone, Copy, Debug, PartialEq, Eq, Structural)]
pub enum Stage {
    /// The domain pipeline is next. A reconciliation starts here.
    Domain,
    /// The TLS pipeline is next.
    Tls,
    /// Both pipelines are behind; what is left is to schedule the next sweep.
    Done,
}

/// What the caller reports back before the next decision.
#[derive(Clone, Debug, PartialEq, Eq)]
pub enum Event {
    /// Nothing failed: the reconciliation starts, or the last directive was
    /// carried out.
    Proceed,
    /// The merge write last asked for failed; holds the cause.
    ApplyFailed(String),
}

/// View of an [`Event`].
pub enum EventView {
    Proceed,
    ApplyFailed(Seq<char>),
}

impl View for Event {
    type V = EventView;

    open spec fn view(&self) -> EventView {
        match self {
            Event::Proceed => EventView::Proceed,
            Event::ApplyFailed(cause) => EventView::ApplyFailed(cause@),
        }
    }
}

/// A merge write of a partial object onto the object `namespace`/`name`.
#[derive(Clone, Debug)]
pub struct PatchRequest {
    pub namespace: String,
    pub name: String,
    /// The identity the write is attributed to.
    pub writer: String,
    /// Whether the write takes over fields that another writer owns.
    pub force: bool,
    /// The fields to set.
    pub patch: IngressResource,
}

/// View of a [`PatchRequest`].
pub struct PatchRequestView {
    pub namespace: Seq<char>,
    pub name: Seq<char>,
    pub writer: Seq<char>,
    pub force: bool,
    pub patch: IngressView,
}

impl View for PatchRequest {
    type V = PatchRequestView;

    open spec fn view(&self) -> PatchRequestView {
        PatchRequestView {
            namespace: self.namespace@,
            name: self.name@,
            writer: self.writer@,
            force: self.force,
            patch: self.patch@,
        }
    }
}

/// Why a pipeline asked for no write.
#[derive(Clone, Copy, Debug, PartialEq, Eq, Structural)]
pub enum Skip {
    /// The object does not carry the pipeline's annotation.
    NotRequested,
    /// The object has no rules to rewrite. Worth a warning, not an error.
    NoRules,
    /// No host of the object needs the domain.
    Unchanged,
    /// The object already carries a TLS block.
    TlsPresent,
}

/// What the caller is to do next.
#[derive(Clone, Debug)]
pub enum Directive {
    /// Send this write, then report how it went.
    Apply(PatchRequest),
    /// Nothing to send for the pipeline that just ran: go on.
    Skip(Skip),
    /// The reconciliation succeeded: stop, and come back as the action says.
    Requeue(Action),
    /// The reconciliation failed: stop, and hand the error to [`error_policy`].
    Fail(Error),
}

/// View of a [`Directive`].
pub enum DirectiveView {
    Apply(PatchRequestView),
    Skip(Skip),
    Requeue(Action),
    Fail(ErrorView),
}

impl View for Directive {
    type V = DirectiveView;

    open spec fn view(&self) -> DirectiveView {
        match self {
            Directive::Apply(request) => DirectiveView::Apply(request@),
            Directive::Skip(reason) => DirectiveView::Skip(*reason),
            Directive::Requeue(action) => DirectiveView::Requeue(*action),
            Directive::Fail(error) => DirectiveView::Fail(error@),
        }
    }
}

/// The annotation that asks for the domain pipeline; its value is the domain.
pub open spec fn domain_key() -> Seq<char> {
    "autotls/domain"@
}

/// The annotation that asks for the TLS pipeline; its value is the issuer
/// directive.
pub open spec fn issuer_key() -> Seq<char> {
    "autotls/issuer"@
}

/// The action after a reconciliation that succeeded: the periodic sweep.
pub open spec fn success_action() -> Action {
    Action { requeue_after_secs: REQUEUE_AFTER_SUCCESS_SECS }
}

/// The action after a reconciliation that failed: a quick retry.
pub open spec fn failure_action() -> Action {
    Action { requeue_after_secs: REQUEUE_AFTER_FAILURE_SECS }
}

/// The name and the namespace of `object`, or the first of the two that is
/// missing.
pub open spec fn identity(object: IngressView) -> Result<(Seq<char>, Seq<char>), ObjectKey> {
    match (object.name, object.namespace) {
        (None, _) => Err(ObjectKey::Name),
        (Some(_), None) => Err(ObjectKey::Namespace),
        (Some(name), Some(namespace)) => Ok((name, namespace)),
    }
}

/// Whether `object` has at least one rule.
pub open spec fn has_rules(object: IngressView) -> bool {
    object.spec matches Some(spec) && spec.rules matches Some(rules) && rules.len() > 0
}

/// The decision of the domain pipeline for an object with a full identity.
pub open spec fn domain_step(object: IngressView, name: Seq<char>, namespace: Seq<char>) -> (
    Stage,
    DirectiveView,
) {
    if !object.annotations.contains_key(domain_key()) {
        (Stage::Tls, DirectiveView::Skip(Skip::NotRequested))
    } else {
        match domain_patch(object, object.annotations[domain_key()]) {
            Err(error) => (Stage::Done, DirectiveView::Fail(ErrorView::Unexpected(error))),
            Ok(None) => (
                Stage::Tls,
                DirectiveView::Skip(
                    if has_rules(object) {
                        Skip::Unchanged
                    } else {
                        Skip::NoRules
                    },
                ),
            ),
            Ok(Some(patch)) => (
                Stage::Tls,
                DirectiveView::Apply(
                    PatchRequestView {
                        namespace,
                        name,
                        writer: "domain-patcher"@,
                        force: true,
                        patch,
                    },
                ),
            ),
        }
    }
}

/// The decision of the TLS pipeline for an object with a full identity.
pub open spec fn tls_step(object: IngressView, name: Seq<char>, namespace: Seq<char>) -> (
    Stage,
    DirectiveView,
) {
    if !object.annotations.contains_key(issuer_key()) {
        (Stage::Done, DirectiveView::Skip(Skip::NotRequested))
    } else {
        match tls_patch(object, object.annotations[issuer_key()]) {
            Err(error) => (Stage::Done, DirectiveView::Fail(ErrorView::Unexpected(error))),
            Ok(None) => (Stage::Done, DirectiveView::Skip(Skip::TlsPresent)),
            Ok(Some(patch)) => (
                Stage::Done,
                DirectiveView::Apply(
                    PatchRequestView {
                        namespace,
                        name,
                        writer: "tls-patcher"@,
                        force: false,
                        patch,
                    },
                ),
            ),
        }
    }
}

/// The next stage and the directive for `object` at `stage` after `event`.
///
/// A failed write ends the reconciliation with that failure. Otherwise an
/// object without a full identity ends it with the missing key, and an object
/// with one gets the decision of the pipeline that `stage` names, or, once
/// both are behind, the periodic sweep.
pub open spec fn reconcile_step(object: IngressView, stage: Stage, event: EventView) -> (
    Stage,
    DirectiveView,
) {
    match event {
        EventView::ApplyFailed(cause) => (
            Stage::Done,
            DirectiveView::Fail(ErrorView::PatchApplyFailed(cause)),
        ),
        EventView::Proceed => match identity(object) {
            Err(key) => (Stage::Done, DirectiveView::Fail(ErrorView::MissingObjectKey(key))),
            Ok((name, namespace)) => match stage {
                Stage::Domain => domain_step(object, name, namespace),
                Stage::Tls => tls_step(object, name, namespace),
                Stage::Done => (Stage::Done, DirectiveView::Requeue(success_action())),
            },
        },
    }
}

/// Whether `generator` has at least one rule.
fn rules_present(generator: &IngressResource) -> (present: bool)
    ensures
        present == has_rules(generator@),
{
    match &generator.spec {
        Some(spec) => match &spec.rules {
            Some(rules) => rules.len() > 0,
            None => false,
        },
        None => false,
    }
}

/// Runs the domain pipeline.
fn domain_stage(generator: &IngressResource, name: &String, namespace: &String) -> (step: (
    Stage,
    Directive,
))
    ensures
        step.0 == domain_step(generator@, name@, namespace@).0,
        step.1@ == domain_step(generator@, name@, namespace@).1,
{
    let domain = match generator.annotations.get("autotls/domain") {
        Some(domain) => domain,
        None => {
            return (Stage::Tls, Directive::Skip(Skip::NotRequested));
        },
    };
    match patch_domain(generator, domain.as_str()) {
        Err(error) => (Stage::Done, Directive::Fail(Error::Unexpected(error))),
        Ok(None) => {
            let reason = if rules_present(generator) {
                Skip::Unchanged
            } else {
                Skip::NoRules
            };
            (Stage::Tls, Directive::Skip(reason))
        },
        Ok(Some(patch)) => {
            let request = PatchRequest {
                namespace: namespace.clone(),
                name: name.clone(),
                writer: "domain-patcher".to_owned(),
                force: true,
                patch,
            };
            (Stage::Tls, Directive::Apply(request))
        },
    }
}

/// Runs the TLS pipeline.
fn tls_stage(generator: &IngressResource, name: &String, namespace: &String) -> (step: (
    Stage,
    Directive,
))
    ensures
        step.0 == tls_step(generator@, name@, namespace@).0,
        step.1@ == tls_step(generator@, name@, namespace@).1,
{
    let issuer = match generator.annotations.get("autotls/issuer") {
        Some(issuer) => issuer,
        None => {
            return (Stage::Done, Directive::Skip(Skip::NotRequested));
        },
    };
    match patch_tls(generator, issuer.as_str()) {
        Err(error) => (Stage::Done, Directive::Fail(Error::Unexpected(error))),
        Ok(None) => (Stage::Done, Directive::Skip(Skip::TlsPresent)),
        Ok(Some(patch)) => {
            let request = PatchRequest {
                namespace: namespace.clone(),
                name: name.clone(),
                writer: "tls-patcher".to_owned(),
                force: false,
                patch,
            };
            (Stage::Done, Directive::Apply(request))
        },
    }
}

/// Decides what to do next for `generator` at `stage`, given how the last
/// directive went.
///
/// A reconciliation starts at [`Stage::Domain`] with [`Event::Proceed`]. The
/// caller carries out each directive and calls again with the stage returned,
/// until the directive is [`Directive::Requeue`] or [`Directive::Fail`].
pub fn reconcile(generator: &IngressResource, stage: Stage, event: Event) -> (step: (
    Stage,
    Directive,
))
    ensures
        step.0 == reconcile_step(generator@, stage, event@).0,
        step.1@ == reconcile_step(generator@, stage, event@).1,
{
    if let Event::ApplyFailed(cause) = event {
        return (Stage::Done, Directive::Fail(Error::PatchApplyFailed(cause)));
    }
    let name = match &generator.name {
        Some(name) => name,
        None => {
            return (Stage::Done, Directive::Fail(Error::MissingObjectKey(ObjectKey::Name)));
        },
    };
    let namespace = match &generator.namespace {
        Some(namespace) => namespace,
        None => {
            return (
                Stage::Done,
                Directive::Fail(Error::MissingObjectKey(ObjectKey::Namespace)),
            );
        },
    };
    match stage {
        Stage::Domain => domain_stage(generator, name, namespace),
        Stage::Tls => tls_stage(generator, name, namespace),
        Stage::Done => (
            Stage::Done,
            Directive::Requeue(Action { requeue_after_secs: REQUEUE_AFTER_SUCCESS_SECS }),
        ),
    }
}

/// The schedule after a reconciliation that failed with `error`: whatever the
/// error, a retry after the short interval.
pub fn error_policy(error: &Error) -> (action: Action)
    ensures
        action == failure_action(),
        action.requeue_after_secs == 1,
{
    Action { requeue_after_secs: REQUEUE_AFTER_FAILURE_SECS }
}

impl Stage {
    /// How far a reconciliation has come: the number of pipelines behind it.
    pub open spec fn rank(self) -> nat {
        match self {
            Stage::Domain => 0,
            Stage::Tls => 1,
            Stage::Done => 2,
        }
    }
}

impl DirectiveView {
    /// Whether the directive ends the reconciliation.
    pub open spec fn is_final(self) -> bool {
        self is Requeue || self is Fail
    }
}

/// The directive at which a reconciliation of `object` ends when it is at the
/// TLS stage and every write succeeds.
pub open spec fn settle_from_tls(object: IngressView) -> DirectiveView {
    let step = reconcile_step(object, Stage::Tls, EventView::Proceed);
    if step.1.is_final() {
        step.1
    } else {
        reconcile_step(object, Stage::Done, EventView::Proceed).1
    }
}

/// The directive at which a reconciliation of `object` ends when every write
/// succeeds.
pub open spec fn settle(object: IngressView) -> DirectiveView {
    let step = reconcile_step(object, Stage::Domain, EventView::Proceed);
    if step.1.is_final() {
        step.1
    } else {
        settle_from_tls(object)
    }
}

/// What a reconciliation of `object` comes to when every write succeeds: the
/// first failure among identity, domain patch and TLS patch, each pipeline
/// counted only if its annotation is present, or else the periodic sweep.
pub open spec fn reconciled(object: IngressView) -> Result<Action, ErrorView> {
    let annotations = object.annotations;
    match identity(object) {
        Err(key) => Err(ErrorView::MissingObjectKey(key)),
        Ok(_) => {
            if annotations.contains_key(domain_key()) && domain_patch(
                object,
                annotations[domain_key()],
            ) is Err {
                Err(
                    ErrorView::Unexpected(
                        domain_patch(object, annotations[domain_key()])->Err_0,
                    ),
                )
            } else if annotations.contains_key(issuer_key()) && tls_patch(
                object,
                annotations[issuer_key()],
            ) is Err {
                Err(ErrorView::Unexpected(tls_patch(object, annotations[issuer_key()])->Err_0))
            } else {
                Ok(success_action())
            }
        },
    }
}

/// Every decision moves a reconciliation on: a directive that does not end it
/// leads to the next stage, and one that ends it leads to the last. So a
/// reconciliation asks for at most two writes, the domain write first, and
/// ends at the third decision at the latest.
pub proof fn reconcile_advances(object: IngressView, stage: Stage, event: EventView)
    ensures
        ({
            let step = reconcile_step(object, stage, event);
            &&& step.1.is_final() ==> step.0 == Stage::Done
            &&& !step.1.is_final() ==> step.0.rank() == stage.rank() + 1
            &&& stage == Stage::Done ==> step.1.is_final()
            &&& step.1 matches DirectiveView::Apply(request) ==> request.force == (stage
                == Stage::Domain)
        }),
{
}

/// A reconciliation in which every write succeeds ends as the two pipelines
/// run in order say: with the first failure, or with the periodic sweep.
pub proof fn reconcile_settles(object: IngressView)
    ensures
        settle(object) == match reconciled(object) {
            Ok(action) => DirectiveView::Requeue(action),
            Err(error) => DirectiveView::Fail(error),
        },
{
}

/// A write that failed ends the reconciliation at once, whatever the stage
/// and the object, and no pipeline runs after it.
pub proof fn reconcile_stops_on_failed_write(object: IngressView, stage: Stage, cause: Seq<char>)
    ensures
        reconcile_step(object, stage, EventView::ApplyFailed(cause)) == (
            Stage::Done,
            DirectiveView::Fail(ErrorView::PatchApplyFailed(cause)),
        ),
{
}

/// A pipeline whose annotation is absent asks for no write, and fails on
/// nothing.
pub proof fn reconcile_skips_without_annotation(object: IngressView, stage: Stage)
    requires
        identity(object) is Ok,
        stage == Stage::Domain ==> !object.annotations.contains_key(domain_key()),
        stage == Stage::Tls ==> !object.annotations.contains_key(issuer_key()),
        stage != Stage::Done,
    ensures
        reconcile_step(object, stage, EventView::Proceed).1 == DirectiveView::Skip(
            Skip::NotRequested,
        ),
{
}

/// For an object with a full identity, the domain annotation set to `domain`
/// and a bare host at rule `i`, the domain stage asks for a forced write by
/// the domain patcher onto that object, in which rule `i` has the host joined
/// to `domain` by a `.`.
pub proof fn reconcile_applies_domain(object: IngressView, domain: Seq<char>, i: int)
    requires
        identity(object) is Ok,
        object.annotations.contains_pair(domain_key(), domain),
        object.spec matches Some(spec) && spec.rules matches Some(rules) && 0 <= i < rules.len()
            && is_bare(rules[i]),
    ensures
        ({
            let step = reconcile_step(object, Stage::Domain, EventView::Proceed);
            &&& step.0 == Stage::Tls
            &&& step.1 is Apply
            &&& step.1->Apply_0.name == object.name->0
            &&& step.1->Apply_0.namespace == object.namespace->0
            &&& step.1->Apply_0.writer == "domain-patcher"@
            &&& step.1->Apply_0.force
            &&& Ok::<Option<IngressView>, StructuralError>(
                Some(step.1->Apply_0.patch),
            ) == domain_patch(object, domain)
            &&& step.1->Apply_0.patch.spec->0.rules->0[i].host == Some(
                object.spec->0.rules->0[i].host->0 + seq!['.'] + domain,
            )
        }),
{
    domain_patch_qualifies_bare_hosts(object, domain, i);
}

/// For an object with a full identity, the issuer annotation set and no TLS
/// block yet, the TLS stage either fails on a missing field or asks for an
/// unforced write by the TLS patcher; with a TLS block it asks for nothing.
pub proof fn reconcile_applies_tls(object: IngressView, issuer: Seq<char>)
    requires
        identity(object) is Ok,
        object.annotations.contains_pair(issuer_key(), issuer),
    ensures
        ({
            let step = reconcile_step(object, Stage::Tls, EventView::Proceed);
            &&& step.0 == Stage::Done
            &&& match tls_patch(object, issuer) {
                Ok(Some(patch)) => step.1 == DirectiveView::Apply(
                    PatchRequestView {
                        namespace: object.namespace->0,
                        name: object.name->0,
                        writer: "tls-patcher"@,
                        force: false,
                        patch,
                    },
                ),
                Ok(None) => step.1 == DirectiveView::Skip(Skip::TlsPresent) && object.spec->0.tls
                    is Some,
                Err(error) => step.1 == DirectiveView::Fail(ErrorView::Unexpected(error)),
            }
        }),
{
}

} // verus!
