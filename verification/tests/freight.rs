use road_freight::Error;
use road_freight::Event;
use road_freight::Identity;
use road_freight::RoadFreight;
use road_freight::Status;

fn ident(tag: u8) -> Identity {
    Identity { bytes: vec![tag, 0xAB, 0xCD] }
}

fn create(
    rf: &mut RoadFreight,
    shipper: &Identity,
    carrier: &Identity,
    price: i128,
    deadline_unix: u64,
    now: u64,
) -> u128 {
    rf.create_contract(
        shipper.clone(),
        carrier.clone(),
        "Rotterdam".to_string(),
        "Munich".to_string(),
        ident(9),
        price,
        deadline_unix,
        [0u8; 32],
        now,
    )
    .unwrap()
}

#[test]
fn monotonic_ids_across_interleaved_calls() {
    let mut rf = RoadFreight::new();
    let shipper = ident(1);
    let carrier = ident(2);

    let id1 = create(&mut rf, &shipper, &carrier, 1000, 100, 10);
    assert_eq!(id1, 1);

    assert_eq!(rf.accept(id1, carrier.clone()), Ok(()));
    // A failing call in between must not disturb the allocator.
    assert_eq!(rf.accept(id1, carrier.clone()), Err(Error::BadState));
    assert_eq!(rf.accept(77, carrier.clone()), Err(Error::NotFound));

    let id2 = create(&mut rf, &shipper, &carrier, 500, 50, 11);
    let id3 = create(&mut rf, &shipper, &carrier, 700, 60, 12);
    assert_eq!(id2, 2);
    assert_eq!(id3, 3);
    assert!(id1 < id2 && id2 < id3);
}

#[test]
fn end_to_end_scenario() {
    let mut rf = RoadFreight::new();
    let shipper = ident(1);
    let carrier = ident(2);
    let stranger = ident(3);

    let id = create(&mut rf, &shipper, &carrier, 1000, 100, 7);
    assert_eq!(id, 1);
    let rec = rf.get_contract(id).unwrap();
    assert_eq!(rec.status, Status::Draft);
    assert_eq!(rec.price, 1000);
    assert_eq!(rec.deadline_unix, 100);
    assert_eq!(rec.created_at, 7);
    assert!(!rec.escrow_funded);
    assert_eq!(rec.last_paid, 0);

    assert_eq!(rf.accept(id, carrier.clone()), Ok(()));
    assert_eq!(rf.get_contract(id).unwrap().status, Status::Active);

    assert_eq!(rf.mark_funded(id, shipper.clone()), Ok(()));
    let rec = rf.get_contract(id).unwrap();
    assert_eq!(rec.status, Status::Active);
    assert!(rec.escrow_funded);

    assert_eq!(rf.start_trip(id, carrier.clone()), Ok(()));
    assert_eq!(rf.get_contract(id).unwrap().status, Status::InTransit);

    assert_eq!(rf.log_telemetry(id, 1200, 100, 50, stranger.clone()), Ok(()));
    assert_eq!(rf.log_telemetry(id, 1200, 150, 70, stranger.clone()), Ok(()));
    assert_eq!(rf.log_telemetry(id, 1200, 250, 80, stranger.clone()), Ok(()));
    let rec = rf.get_contract(id).unwrap();
    assert_eq!(rec.total_secs, 3600);
    assert_eq!(rec.total_km, 500);
    assert_eq!(rec.computed_cost, 200);

    let pod = [0x5Au8; 32];
    assert_eq!(rf.submit_pod(id, pod, shipper.clone()), Ok(()));
    let rec = rf.get_contract(id).unwrap();
    assert_eq!(rec.status, Status::Delivered);
    assert_eq!(rec.doc_hash, pod);

    // Settled at ledger time 90, before the deadline of 100: full price.
    assert_eq!(rf.evaluate_and_settle(id, stranger.clone(), 90), Ok(1000));
    let rec = rf.get_contract(id).unwrap();
    assert_eq!(rec.status, Status::Settled);
    assert_eq!(rec.last_paid, 1000);

    // A second settlement finds the record no longer `Delivered`.
    assert_eq!(rf.evaluate_and_settle(id, stranger, 91), Err(Error::BadState));
}

#[test]
fn authorization_gating() {
    let mut rf = RoadFreight::new();
    let shipper = ident(1);
    let carrier = ident(2);
    let stranger = ident(3);

    let id = create(&mut rf, &shipper, &carrier, 1000, 100, 0);

    // Only the record's carrier may accept.
    assert_eq!(rf.accept(id, stranger.clone()), Err(Error::Unauthorized));
    assert_eq!(rf.accept(id, shipper.clone()), Err(Error::Unauthorized));
    assert_eq!(rf.get_contract(id).unwrap().status, Status::Draft);

    assert_eq!(rf.accept(id, carrier.clone()), Ok(()));

    // Only the record's shipper may fund.
    assert_eq!(rf.mark_funded(id, carrier.clone()), Err(Error::Unauthorized));
    assert_eq!(rf.mark_funded(id, stranger.clone()), Err(Error::Unauthorized));
    assert!(!rf.get_contract(id).unwrap().escrow_funded);

    assert_eq!(rf.mark_funded(id, shipper.clone()), Ok(()));

    // Only a party may start the trip.
    assert_eq!(rf.start_trip(id, stranger.clone()), Err(Error::Unauthorized));
    assert_eq!(rf.get_contract(id).unwrap().status, Status::Active);
    assert_eq!(rf.start_trip(id, shipper.clone()), Ok(()));

    // Only a party may submit the proof of delivery.
    assert_eq!(
        rf.submit_pod(id, [7u8; 32], stranger.clone()),
        Err(Error::Unauthorized)
    );
    let rec = rf.get_contract(id).unwrap();
    assert_eq!(rec.status, Status::InTransit);
    assert_eq!(rec.doc_hash, [0u8; 32]);
}

#[test]
fn funding_gate() {
    let mut rf = RoadFreight::new();
    let shipper = ident(1);
    let carrier = ident(2);

    let id = create(&mut rf, &shipper, &carrier, 1000, 100, 0);
    assert_eq!(rf.accept(id, carrier.clone()), Ok(()));

    // Active but unfunded: the trip may not start.
    assert_eq!(rf.start_trip(id, carrier.clone()), Err(Error::EscrowNotFunded));
    let rec = rf.get_contract(id).unwrap();
    assert_eq!(rec.status, Status::Active);
    assert!(!rec.escrow_funded);

    // After funding, the same call succeeds.
    assert_eq!(rf.mark_funded(id, shipper.clone()), Ok(()));
    assert_eq!(rf.start_trip(id, carrier.clone()), Ok(()));
    assert_eq!(rf.get_contract(id).unwrap().status, Status::InTransit);
}

#[test]
fn telemetry_saturates_and_gates_on_state() {
    let mut rf = RoadFreight::new();
    let shipper = ident(1);
    let carrier = ident(2);
    let oracle = ident(4);

    let id = create(&mut rf, &shipper, &carrier, 1000, 100, 0);

    // Telemetry outside `InTransit` fails and mutates nothing.
    assert_eq!(
        rf.log_telemetry(id, 10, 10, 10, oracle.clone()),
        Err(Error::BadState)
    );
    let rec = rf.get_contract(id).unwrap();
    assert_eq!((rec.total_secs, rec.total_km, rec.computed_cost), (0, 0, 0));

    assert_eq!(rf.accept(id, carrier.clone()), Ok(()));
    assert_eq!(rf.mark_funded(id, shipper.clone()), Ok(()));
    assert_eq!(rf.start_trip(id, carrier.clone()), Ok(()));

    // Clamp, not wraparound.
    assert_eq!(
        rf.log_telemetry(id, u32::MAX, u32::MAX, i128::MAX, oracle.clone()),
        Ok(())
    );
    assert_eq!(
        rf.log_telemetry(id, u32::MAX, u32::MAX, i128::MAX, oracle.clone()),
        Ok(())
    );
    let rec = rf.get_contract(id).unwrap();
    assert_eq!(rec.total_secs, 2 * (u32::MAX as u64));
    assert_eq!(rec.total_km, u32::MAX);
    assert_eq!(rec.computed_cost, i128::MAX);

    // Zero deltas leave the accumulators unchanged.
    assert_eq!(rf.log_telemetry(id, 0, 0, 0, oracle.clone()), Ok(()));
    let rec = rf.get_contract(id).unwrap();
    assert_eq!(rec.total_secs, 2 * (u32::MAX as u64));
    assert_eq!(rec.total_km, u32::MAX);
    assert_eq!(rec.computed_cost, i128::MAX);
}

fn settle_at(price: i128, deadline_unix: u64, now: u64) -> (i128, i128) {
    let mut rf = RoadFreight::new();
    let shipper = ident(1);
    let carrier = ident(2);
    let id = create(&mut rf, &shipper, &carrier, price, deadline_unix, 0);
    rf.accept(id, carrier.clone()).unwrap();
    rf.mark_funded(id, shipper.clone()).unwrap();
    rf.start_trip(id, carrier.clone()).unwrap();
    rf.submit_pod(id, [1u8; 32], carrier.clone()).unwrap();
    let pay = rf.evaluate_and_settle(id, shipper, now).unwrap();
    (pay, rf.get_contract(id).unwrap().last_paid)
}

#[test]
fn settlement_arithmetic() {
    // On or before the deadline: the full price.
    assert_eq!(settle_at(1000, 100, 100), (1000, 1000));
    assert_eq!(settle_at(1000, 100, 0), (1000, 1000));
    // After the deadline: exactly half, truncating toward zero.
    assert_eq!(settle_at(1000, 100, 101), (500, 500));
    assert_eq!(settle_at(1001, 100, 5000), (500, 500));
    assert_eq!(settle_at(-5, 100, 101), (-2, -2));
    assert_eq!(settle_at(0, 100, 101), (0, 0));
    // The extreme price still halves without overflow.
    assert_eq!(settle_at(i128::MIN, 100, 101), (i128::MIN / 2, i128::MIN / 2));
}

#[test]
fn read_after_write_reflects_each_mutation() {
    let mut rf = RoadFreight::new();
    let shipper = ident(1);
    let carrier = ident(2);

    let id = create(&mut rf, &shipper, &carrier, 42, 9, 3);
    let rec = rf.get_contract(id).unwrap();
    assert_eq!(rec.id, id);
    assert_eq!(rec.origin, "Rotterdam".to_string());
    assert_eq!(rec.destination, "Munich".to_string());

    rf.accept(id, carrier.clone()).unwrap();
    assert_eq!(rf.get_contract(id).unwrap().status, Status::Active);

    rf.mark_funded(id, shipper.clone()).unwrap();
    assert!(rf.get_contract(id).unwrap().escrow_funded);

    rf.start_trip(id, shipper.clone()).unwrap();
    assert_eq!(rf.get_contract(id).unwrap().status, Status::InTransit);

    rf.log_telemetry(id, 60, 1, 2, ident(4)).unwrap();
    let rec = rf.get_contract(id).unwrap();
    assert_eq!((rec.total_secs, rec.total_km, rec.computed_cost), (60, 1, 2));

    rf.submit_pod(id, [9u8; 32], carrier.clone()).unwrap();
    let rec = rf.get_contract(id).unwrap();
    assert_eq!(rec.doc_hash, [9u8; 32]);
    assert_eq!(rec.status, Status::Delivered);

    rf.evaluate_and_settle(id, carrier, 9).unwrap();
    let rec = rf.get_contract(id).unwrap();
    assert_eq!(rec.status, Status::Settled);
    assert_eq!(rec.last_paid, 42);
}

#[test]
fn missing_records_are_not_found() {
    let mut rf = RoadFreight::new();
    let someone = ident(5);
    assert!(matches!(rf.get_contract(0), Err(Error::NotFound)));
    assert!(matches!(rf.get_contract(1), Err(Error::NotFound)));
    assert_eq!(rf.accept(1, someone.clone()), Err(Error::NotFound));
    assert_eq!(rf.mark_funded(1, someone.clone()), Err(Error::NotFound));
    assert_eq!(rf.start_trip(1, someone.clone()), Err(Error::NotFound));
    assert_eq!(rf.log_telemetry(1, 1, 1, 1, someone.clone()), Err(Error::NotFound));
    assert_eq!(rf.submit_pod(1, [0u8; 32], someone.clone()), Err(Error::NotFound));
    assert_eq!(rf.evaluate_and_settle(1, someone, 0), Err(Error::NotFound));
}

#[test]
fn out_of_order_operations_fail_with_bad_state() {
    let mut rf = RoadFreight::new();
    let shipper = ident(1);
    let carrier = ident(2);

    let id = create(&mut rf, &shipper, &carrier, 1000, 100, 0);

    // Draft: only accept applies.
    assert_eq!(rf.mark_funded(id, shipper.clone()), Err(Error::BadState));
    assert_eq!(rf.start_trip(id, shipper.clone()), Err(Error::BadState));
    assert_eq!(rf.submit_pod(id, [1u8; 32], shipper.clone()), Err(Error::BadState));
    assert_eq!(rf.evaluate_and_settle(id, shipper.clone(), 0), Err(Error::BadState));

    assert_eq!(rf.accept(id, carrier.clone()), Ok(()));
    // Active: accepting again is out of order.
    assert_eq!(rf.accept(id, carrier.clone()), Err(Error::BadState));
    assert_eq!(rf.submit_pod(id, [1u8; 32], carrier.clone()), Err(Error::BadState));
    assert_eq!(rf.evaluate_and_settle(id, carrier.clone(), 0), Err(Error::BadState));

    assert_eq!(rf.mark_funded(id, shipper.clone()), Ok(()));
    assert_eq!(rf.start_trip(id, carrier.clone()), Ok(()));
    // In transit: funding or starting again is out of order.
    assert_eq!(rf.mark_funded(id, shipper.clone()), Err(Error::BadState));
    assert_eq!(rf.start_trip(id, carrier.clone()), Err(Error::BadState));
}

#[test]
fn one_event_per_successful_call() {
    let mut rf = RoadFreight::new();
    let shipper = ident(1);
    let carrier = ident(2);
    let oracle = ident(4);

    let id = create(&mut rf, &shipper, &carrier, 1000, 100, 0);
    assert_eq!(rf.events().as_slice(), &[Event::Created { id }]);

    // A failing call emits nothing.
    assert_eq!(rf.accept(id, shipper.clone()), Err(Error::Unauthorized));
    assert_eq!(rf.events().len(), 1);

    rf.accept(id, carrier.clone()).unwrap();
    rf.mark_funded(id, shipper.clone()).unwrap();
    rf.start_trip(id, carrier.clone()).unwrap();
    rf.log_telemetry(id, 30, 5, 1, oracle).unwrap();
    rf.submit_pod(id, [3u8; 32], carrier.clone()).unwrap();
    let pay = rf.evaluate_and_settle(id, carrier, 50).unwrap();

    assert_eq!(
        rf.events().as_slice(),
        &[
            Event::Created { id },
            Event::Accepted { id },
            Event::Funded { id },
            Event::Started { id },
            Event::Telemetry { id, add_secs: 30, add_km: 5 },
            Event::Delivered { id },
            Event::Settled { id, pay },
        ]
    );
}
