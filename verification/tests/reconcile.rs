use autotls::{
    error_policy, reconcile, Action, Annotations, Directive, Error, Event, IngressResource,
    IngressSpec, ObjectKey, PatchRequest, Rule, Skip, Stage, StructuralError, TlsBlock,
};

fn live_object(annotations: &[(&str, &str)], rules: Option<Vec<&str>>) -> IngressResource {
    let mut map = Annotations::new();
    for (key, value) in annotations {
        map.insert(key.to_string(), value.to_string());
    }
    IngressResource {
        name: Some("app".to_string()),
        namespace: Some("default".to_string()),
        annotations: map,
        spec: Some(IngressSpec {
            rules: rules
                .map(|hosts| hosts.iter().map(|h| Rule { host: Some(h.to_string()), http: None }).collect()),
            tls: None,
        }),
    }
}

/// Drives a reconciliation to its end; `fail_at` makes the write with that
/// index fail.
fn drive(
    object: &IngressResource,
    fail_at: Option<usize>,
) -> (Vec<PatchRequest>, Vec<Skip>, Result<Action, Error>) {
    let mut requests = Vec::new();
    let mut skips = Vec::new();
    let mut stage = Stage::Domain;
    let mut event = Event::Proceed;
    for _ in 0..8 {
        let (next, directive) = reconcile(object, stage, event);
        stage = next;
        event = Event::Proceed;
        match directive {
            Directive::Apply(request) => {
                if fail_at == Some(requests.len()) {
                    event = Event::ApplyFailed("connection reset".to_string());
                }
                requests.push(request);
            }
            Directive::Skip(reason) => skips.push(reason),
            Directive::Requeue(action) => return (requests, skips, Ok(action)),
            Directive::Fail(error) => return (requests, skips, Err(error)),
        }
    }
    panic!("reconciliation did not end");
}

#[test]
fn scenario_a_domain_write_is_forced_by_the_domain_patcher() {
    let object = live_object(&[("autotls/domain", "example.com")], Some(vec!["app"]));
    let (next, directive) = reconcile(&object, Stage::Domain, Event::Proceed);
    assert_eq!(next, Stage::Tls);
    match directive {
        Directive::Apply(request) => {
            assert_eq!(request.namespace, "default");
            assert_eq!(request.name, "app");
            assert_eq!(request.writer, "domain-patcher");
            assert_eq!(request.force, true);
            assert_eq!(request.patch.name, Some("app".to_string()));
            assert_eq!(
                request.patch.spec.unwrap().rules,
                Some(vec![Rule { host: Some("app.example.com".to_string()), http: None }])
            );
        }
        other => panic!("expected a write, got {:?}", other),
    }
}

#[test]
fn scenario_b_tls_write_is_unforced_by_the_tls_patcher() {
    let object = live_object(
        &[("autotls/domain", "example.com"), ("autotls/issuer", "letsencrypt")],
        Some(vec!["app.example.com"]),
    );
    let (next, directive) = reconcile(&object, Stage::Tls, Event::Proceed);
    assert_eq!(next, Stage::Done);
    match directive {
        Directive::Apply(request) => {
            assert_eq!(request.namespace, "default");
            assert_eq!(request.name, "app");
            assert_eq!(request.writer, "tls-patcher");
            assert_eq!(request.force, false);
            let patch = request.patch;
            assert_eq!(patch.annotations.len(), 2);
            assert_eq!(
                patch.annotations.get("ingress.kubernetes.io/ssl-redirect").map(|v| v.as_str()),
                Some("true")
            );
            assert_eq!(
                patch.annotations.get("cert-manager.io/cluster-issuer").map(|v| v.as_str()),
                Some("letsencrypt")
            );
            assert_eq!(
                patch.spec.unwrap().tls,
                Some(TlsBlock {
                    hosts: vec!["app.example.com".to_string()],
                    secret_name: "app-tls".to_string()
                })
            );
        }
        other => panic!("expected a write, got {:?}", other),
    }
}

#[test]
fn scenario_c_no_rules_is_a_warning_not_an_error() {
    let object = live_object(&[("autotls/domain", "example.com")], None);
    let (next, directive) = reconcile(&object, Stage::Domain, Event::Proceed);
    assert_eq!(next, Stage::Tls);
    assert!(matches!(directive, Directive::Skip(Skip::NoRules)));
    let (requests, skips, result) = drive(&object, None);
    assert_eq!(requests.len(), 0);
    assert_eq!(skips, vec![Skip::NoRules, Skip::NotRequested]);
    assert_eq!(result, Ok(Action { requeue_after_secs: 300 }));
}

#[test]
fn scenario_d_missing_namespace_fails_and_retries_soon() {
    let mut object = live_object(&[("autotls/domain", "example.com")], Some(vec!["app"]));
    object.namespace = None;
    let (next, directive) = reconcile(&object, Stage::Domain, Event::Proceed);
    assert_eq!(next, Stage::Done);
    let error = match directive {
        Directive::Fail(error) => error,
        other => panic!("expected a failure, got {:?}", other),
    };
    assert_eq!(error, Error::MissingObjectKey(ObjectKey::Namespace));
    assert_eq!(error_policy(&error), Action { requeue_after_secs: 1 });
}

#[test]
fn missing_name_fails_before_missing_namespace() {
    let mut object = live_object(&[], Some(vec!["app"]));
    object.name = None;
    object.namespace = None;
    let (_, _, result) = drive(&object, None);
    assert_eq!(result, Err(Error::MissingObjectKey(ObjectKey::Name)));
}

#[test]
fn missing_identity_fails_at_every_stage() {
    let mut object = live_object(&[], Some(vec!["app"]));
    object.name = None;
    for stage in [Stage::Domain, Stage::Tls, Stage::Done] {
        let (next, directive) = reconcile(&object, stage, Event::Proceed);
        assert_eq!(next, Stage::Done);
        assert!(matches!(
            directive,
            Directive::Fail(Error::MissingObjectKey(ObjectKey::Name))
        ));
    }
}

#[test]
fn no_annotations_means_no_writes() {
    let object = live_object(&[("other", "x")], Some(vec!["app"]));
    let (requests, skips, result) = drive(&object, None);
    assert_eq!(requests.len(), 0);
    assert_eq!(skips, vec![Skip::NotRequested, Skip::NotRequested]);
    assert_eq!(result, Ok(Action { requeue_after_secs: 300 }));
}

#[test]
fn both_annotations_give_two_writes_in_order() {
    let object = live_object(
        &[("autotls/issuer", "auto"), ("autotls/domain", "example.com")],
        Some(vec!["app"]),
    );
    let (requests, skips, result) = drive(&object, None);
    assert_eq!(skips, vec![]);
    assert_eq!(requests.len(), 2);
    assert_eq!(requests[0].writer, "domain-patcher");
    assert!(requests[0].force);
    assert_eq!(requests[1].writer, "tls-patcher");
    assert!(!requests[1].force);
    assert_eq!(result, Ok(Action { requeue_after_secs: 300 }));
}

#[test]
fn tls_patch_is_computed_from_the_observed_object() {
    let object = live_object(
        &[("autotls/issuer", "auto"), ("autotls/domain", "example.com")],
        Some(vec!["app"]),
    );
    let (requests, _, _) = drive(&object, None);
    let block = requests[1].patch.spec.as_ref().unwrap().tls.as_ref().unwrap();
    assert_eq!(block.hosts, vec!["app".to_string()]);
}

#[test]
fn failed_domain_write_stops_the_reconciliation() {
    let object = live_object(
        &[("autotls/issuer", "auto"), ("autotls/domain", "example.com")],
        Some(vec!["app"]),
    );
    let (requests, _, result) = drive(&object, Some(0));
    assert_eq!(requests.len(), 1);
    assert_eq!(result, Err(Error::PatchApplyFailed("connection reset".to_string())));
}

#[test]
fn failed_tls_write_fails_the_reconciliation() {
    let object = live_object(
        &[("autotls/issuer", "auto"), ("autotls/domain", "example.com")],
        Some(vec!["app"]),
    );
    let (requests, _, result) = drive(&object, Some(1));
    assert_eq!(requests.len(), 2);
    assert_eq!(result, Err(Error::PatchApplyFailed("connection reset".to_string())));
}

#[test]
fn failed_write_is_reported_whatever_the_stage() {
    let object = live_object(&[], None);
    for stage in [Stage::Domain, Stage::Tls, Stage::Done] {
        let (next, directive) =
            reconcile(&object, stage, Event::ApplyFailed("forbidden".to_string()));
        assert_eq!(next, Stage::Done);
        assert!(matches!(
            directive,
            Directive::Fail(Error::PatchApplyFailed(cause)) if cause == "forbidden"
        ));
    }
}

#[test]
fn unchanged_hosts_are_skipped_silently() {
    let object = live_object(&[("autotls/domain", "example.com")], Some(vec!["app.example.com"]));
    let (next, directive) = reconcile(&object, Stage::Domain, Event::Proceed);
    assert_eq!(next, Stage::Tls);
    assert!(matches!(directive, Directive::Skip(Skip::Unchanged)));
}

#[test]
fn empty_rules_are_reported_as_no_rules() {
    let object = live_object(&[("autotls/domain", "example.com")], Some(vec![]));
    let (_, directive) = reconcile(&object, Stage::Domain, Event::Proceed);
    assert!(matches!(directive, Directive::Skip(Skip::NoRules)));
}

#[test]
fn existing_tls_is_skipped() {
    let mut object = live_object(&[("autotls/issuer", "letsencrypt")], Some(vec!["app"]));
    object.spec.as_mut().unwrap().tls =
        Some(TlsBlock { hosts: vec![], secret_name: "manual".to_string() });
    let (requests, skips, result) = drive(&object, None);
    assert_eq!(requests.len(), 0);
    assert_eq!(skips, vec![Skip::NotRequested, Skip::TlsPresent]);
    assert_eq!(result, Ok(Action { requeue_after_secs: 300 }));
}

#[test]
fn missing_spec_fails_the_domain_stage() {
    let mut object = live_object(&[("autotls/domain", "example.com")], None);
    object.spec = None;
    let (next, directive) = reconcile(&object, Stage::Domain, Event::Proceed);
    assert_eq!(next, Stage::Done);
    assert!(matches!(
        directive,
        Directive::Fail(Error::Unexpected(StructuralError::MissingSpec))
    ));
}

#[test]
fn missing_spec_is_harmless_without_annotations() {
    let mut object = live_object(&[], None);
    object.spec = None;
    let (requests, _, result) = drive(&object, None);
    assert_eq!(requests.len(), 0);
    assert_eq!(result, Ok(Action { requeue_after_secs: 300 }));
}

#[test]
fn tls_failure_comes_after_the_domain_write() {
    let object = live_object(&[("autotls/issuer", "auto")], None);
    let (requests, skips, result) = drive(&object, None);
    assert_eq!(requests.len(), 0);
    assert_eq!(skips, vec![Skip::NotRequested]);
    assert_eq!(result, Err(Error::Unexpected(StructuralError::MissingRules)));
}

#[test]
fn done_stage_requeues_after_the_long_interval() {
    let object = live_object(&[], None);
    let (next, directive) = reconcile(&object, Stage::Done, Event::Proceed);
    assert_eq!(next, Stage::Done);
    assert!(matches!(directive, Directive::Requeue(Action { requeue_after_secs: 300 })));
}

#[test]
fn error_policy_is_one_second_for_every_error() {
    let errors = vec![
        Error::PatchApplyFailed("timeout".to_string()),
        Error::MissingObjectKey(ObjectKey::Name),
        Error::MissingObjectKey(ObjectKey::Namespace),
        Error::Unexpected(StructuralError::MissingSpec),
        Error::Unexpected(StructuralError::MissingName),
        Error::Unexpected(StructuralError::MissingRules),
    ];
    for error in errors {
        assert_eq!(error_policy(&error).requeue_after_secs, 1);
    }
}

#[test]
fn annotation_value_is_the_domain_used() {
    let object = live_object(&[("autotls/domain", "corp.internal")], Some(vec!["db", "cache"]));
    let (requests, _, _) = drive(&object, None);
    assert_eq!(
        requests[0].patch.spec.as_ref().unwrap().rules,
        Some(vec![
            Rule { host: Some("db.corp.internal".to_string()), http: None },
            Rule { host: Some("cache.corp.internal".to_string()), http: None }
        ])
    );
}
