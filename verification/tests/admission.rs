use ark_holdings_api::limiter::{Admission, AdmissionController, TokenBucket};

fn controller(
    global_capacity: u64,
    global_interval_ms: u64,
    client_capacity: u64,
    client_interval_ms: u64,
    trust_proxy: bool,
) -> AdmissionController {
    AdmissionController::new(
        global_capacity,
        global_interval_ms,
        client_capacity,
        client_interval_ms,
        trust_proxy,
        0,
    )
}

#[test]
fn bucket_spends_one_token_per_admission() {
    let mut b = TokenBucket::new(2, 1000, 0);
    assert_eq!(b.try_admit(0), Admission::Admitted);
    assert_eq!(b.try_admit(0), Admission::Admitted);
    assert_eq!(b.try_admit(0), Admission::Rejected);
}

#[test]
fn bucket_replenishes_one_token_per_interval() {
    let mut b = TokenBucket::new(1, 1000, 0);
    assert_eq!(b.try_admit(0), Admission::Admitted);
    assert_eq!(b.try_admit(500), Admission::Rejected);
    assert_eq!(b.try_admit(1000), Admission::Admitted);
    assert_eq!(b.try_admit(1999), Admission::Rejected);
    assert_eq!(b.try_admit(2000), Admission::Admitted);
}

#[test]
fn bucket_replenishment_clamps_at_capacity() {
    let mut b = TokenBucket::new(3, 1, 0);
    assert_eq!(b.try_admit(0), Admission::Admitted);
    // A long idle period cannot bank more than the burst capacity.
    let mut admitted = 0;
    for _ in 0..10 {
        if b.try_admit(1_000_000) == Admission::Admitted {
            admitted += 1;
        }
    }
    assert_eq!(admitted, 3);
}

#[test]
fn sustained_volume_is_capped_at_the_global_ceiling() {
    // Global ceiling: burst 3, then one request per second.
    let mut c = controller(3, 1000, 100, 1, false);
    let mut admitted = 0;
    let mut rejected = 0;
    // Five clients, one request each, all inside one interval.
    for client in 0..5 {
        match c.decide(client, 10) {
            Admission::Admitted => admitted += 1,
            Admission::Rejected => rejected += 1,
        }
    }
    assert_eq!(admitted, 3);
    assert_eq!(rejected, 2);
    // After one interval the ceiling grants exactly one more.
    assert_eq!(c.decide(77, 1010), Admission::Admitted);
    assert_eq!(c.decide(78, 1010), Admission::Rejected);
}

#[test]
fn global_exhaustion_rejects_every_client() {
    let mut c = controller(1, 1_000_000, 100, 1, false);
    assert_eq!(c.decide(1, 0), Admission::Admitted);
    assert_eq!(c.decide(2, 0), Admission::Rejected);
    assert_eq!(c.decide(3, 0), Admission::Rejected);
}

#[test]
fn one_client_exceeding_its_ceiling_does_not_affect_others() {
    // Plenty of global headroom; per-client burst of 2.
    let mut c = controller(1000, 1, 2, 500, false);
    let noisy = 1;
    let quiet = 2;
    assert_eq!(c.decide(noisy, 0), Admission::Admitted);
    assert_eq!(c.decide(noisy, 0), Admission::Admitted);
    // The noisy client alone is rejected.
    assert_eq!(c.decide(noisy, 1), Admission::Rejected);
    assert_eq!(c.decide(noisy, 1), Admission::Rejected);
    // An unrelated client is untouched by the noisy one's exhaustion.
    assert_eq!(c.decide(quiet, 1), Admission::Admitted);
    assert_eq!(c.decide(quiet, 1), Admission::Admitted);
    assert_eq!(c.decide(quiet, 2), Admission::Rejected);
    // The noisy client recovers after its own replenishment interval.
    assert_eq!(c.decide(noisy, 501), Admission::Admitted);
}

#[test]
fn client_key_honors_trusted_proxy_toggle() {
    let trusting = controller(10, 1, 10, 1, true);
    assert_eq!(trusting.client_key(7, Some(42)), 42);
    assert_eq!(trusting.client_key(7, None), 7);
    let direct = controller(10, 1, 10, 1, false);
    assert_eq!(direct.client_key(7, Some(42)), 7);
    assert_eq!(direct.client_key(7, None), 7);
}
