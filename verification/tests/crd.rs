use pingora_gateway::crd::{
    create_annotations, crds_to_register, CrdAction, CrdEvent, CrdFailure, CrdKind, CrdState,
    API_APPROVED_KEY, API_APPROVED_VALUE, WAIT_ATTEMPTS,
};

#[test]
fn standard_crds_in_order() {
    let kinds = crds_to_register(false);
    assert!(
        kinds
            == vec![CrdKind::GatewayClass, CrdKind::Gateway, CrdKind::HTTPRoute, CrdKind::ReferenceGrant]
    );
}

#[test]
fn experimental_crds_in_order() {
    let kinds = crds_to_register(true);
    assert_eq!(kinds.len(), 8);
    assert!(kinds[3] == CrdKind::GRPCRoute);
    assert!(kinds[6] == CrdKind::TLSRoute);
    assert!(kinds[7] == CrdKind::ReferenceGrant);
}

#[test]
fn existing_crd_is_left_alone() {
    let s = CrdState::start();
    assert!(s.action() == CrdAction::Get);
    let s = s.step(CrdEvent::Found);
    assert!(s == CrdState::Registered);
    assert!(s.action() == CrdAction::Done);
}

#[test]
fn lookup_error_fails() {
    let s = CrdState::start().step(CrdEvent::LookupError);
    assert!(s.action() == CrdAction::Fail(CrdFailure::LookupFailed));
}

#[test]
fn missing_crd_is_created_and_awaited() {
    let s = CrdState::start().step(CrdEvent::NotFound);
    assert!(s.action() == CrdAction::Create);
    let s = s.step(CrdEvent::Created);
    assert!(s == CrdState::Await { retries: WAIT_ATTEMPTS });
    assert!(s.action() == CrdAction::AwaitEstablished);
    let s = s.step(CrdEvent::TimedOut).step(CrdEvent::TimedOut).step(CrdEvent::Established);
    assert!(s == CrdState::Registered);
}

#[test]
fn create_error_fails() {
    let s = CrdState::start().step(CrdEvent::NotFound).step(CrdEvent::CreateError);
    assert!(s == CrdState::Failed(CrdFailure::CreateFailed));
}

#[test]
fn ten_timeouts_fail_the_registration() {
    let mut s = CrdState::start().step(CrdEvent::NotFound).step(CrdEvent::Created);
    for _ in 0..9 {
        s = s.step(CrdEvent::TimedOut);
        assert!(s.action() == CrdAction::AwaitEstablished);
    }
    assert!(s == CrdState::Await { retries: 1 });
    s = s.step(CrdEvent::TimedOut);
    assert!(s == CrdState::Failed(CrdFailure::NotEstablished));
    assert!(s.action() == CrdAction::Fail(CrdFailure::NotEstablished));
}

#[test]
fn created_crd_carries_the_api_approval_annotation() {
    let a = create_annotations();
    assert_eq!(
        a,
        vec![(
            "api-approved.kubernetes.io".to_string(),
            "https://github.com/kubernetes/enhancements/pull/1111".to_string()
        )]
    );
    assert_eq!(a[0].0, API_APPROVED_KEY);
    assert_eq!(a[0].1, API_APPROVED_VALUE);
}

#[test]
fn states_expect_only_the_answers_to_their_action() {
    let s = CrdState::start();
    assert!(s.expects_event(CrdEvent::Found));
    assert!(s.expects_event(CrdEvent::NotFound));
    assert!(s.expects_event(CrdEvent::LookupError));
    assert!(!s.expects_event(CrdEvent::Created));
    let c = s.step(CrdEvent::NotFound);
    assert!(c.expects_event(CrdEvent::Created));
    assert!(c.expects_event(CrdEvent::CreateError));
    assert!(!c.expects_event(CrdEvent::Established));
    let w = c.step(CrdEvent::Created);
    assert!(w.expects_event(CrdEvent::TimedOut));
    assert!(w.expects_event(CrdEvent::Established));
    assert!(!w.expects_event(CrdEvent::Found));
    assert!(!CrdState::Await { retries: 0 }.expects_event(CrdEvent::TimedOut));
    assert!(!CrdState::Registered.expects_event(CrdEvent::Found));
    assert!(!CrdState::Failed(CrdFailure::CreateFailed).expects_event(CrdEvent::Created));
}
