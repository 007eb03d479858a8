use appointments::booking::Appointment;
use appointments::enrich::{
    distinct_providers, enrich_for_customer, staff_view, FanOut, ProviderInfo, Resolved,
    MAX_IN_FLIGHT,
};
use appointments::error::BookingError;
use appointments::pets::{Pet, PetGender, PetType};
use appointments::status::Status;

fn booking(id: usize, groomer: &str, pet_type: &str) -> Appointment {
    Appointment {
        id: format!("a{id}"),
        user_name: "ann".to_string(),
        groomer_name: groomer.to_string(),
        start_date: id as i64,
        end_date: id as i64 + 10,
        status: Status::Awaiting,
        pets: vec![Pet {
            pet_type: pet_type.to_string(),
            name: format!("pet{id}"),
            gender: "female".to_string(),
            age: id,
            medical_info: String::new(),
        }],
        total_price_cents: 500,
        price_tier: "basic".to_string(),
        transaction_id: String::new(),
    }
}

fn resolved(key: &str) -> Resolved {
    Resolved {
        key: key.to_string(),
        info: ProviderInfo {
            name: format!("Groomer {key}"),
            picture_url: format!("https://pics.example/{key}.png"),
        },
    }
}

const PROVIDERS: [&str; 10] = ["g1", "g2", "g3", "g1", "g4", "g5", "g2", "g6", "g7", "g1"];

#[test]
fn ten_appointments_seven_providers_are_joined() {
    let batch: Vec<Appointment> = PROVIDERS
        .iter()
        .enumerate()
        .map(|(i, g)| booking(i, g, "Cats"))
        .collect();
    let keys = distinct_providers(&batch);
    assert_eq!(keys, vec!["g1", "g2", "g3", "g4", "g5", "g6", "g7"]);
    assert_eq!(MAX_IN_FLIGHT, 3);
    // resolved in an order unrelated to the batch, as lookups finish
    let answers: Vec<Resolved> = keys.iter().rev().map(|k| resolved(k)).collect();
    let views = enrich_for_customer(&batch, &answers).unwrap();
    assert_eq!(views.len(), 10);
    for (i, v) in views.iter().enumerate() {
        assert_eq!(v.groomer_name, format!("Groomer {}", PROVIDERS[i]));
        assert_eq!(v.groomer_picture_url, format!("https://pics.example/{}.png", PROVIDERS[i]));
        assert_eq!((v.start_date, v.end_date), (i as i64, i as i64 + 10));
        assert_eq!(v.pet_names, vec![format!("pet{i}")]);
    }
}

#[test]
fn missing_provider_details_fail_the_batch() {
    let batch = vec![booking(0, "g1", "Cats"), booking(1, "g2", "Cats")];
    let answers = vec![resolved("g1")];
    assert_eq!(enrich_for_customer(&batch, &answers).err(), Some(BookingError::InternalError));
    assert_eq!(enrich_for_customer(&Vec::new(), &Vec::new()).map(|v| v.len()).ok(), Some(0));
    assert!(distinct_providers(&Vec::new()).is_empty());
}

#[test]
fn staff_view_reads_pets_back() {
    let v = staff_view(&booking(2, "g1", "Hamsters")).unwrap();
    assert_eq!(v.id, "a2");
    assert_eq!(v.user_name, "ann");
    assert_eq!(v.pets.len(), 1);
    assert_eq!(v.pets[0].pet_type, PetType::Hamsters);
    assert_eq!(v.pets[0].gender, PetGender::Female);
    assert_eq!(v.pets[0].name, "pet2");
    assert_eq!(v.total_price_cents, 500);
    assert_eq!(
        staff_view(&booking(3, "g1", "Unicorns")).err(),
        Some(BookingError::InternalError)
    );
}

#[test]
fn fan_out_never_runs_more_than_three_lookups() {
    let batch: Vec<Appointment> = PROVIDERS
        .iter()
        .enumerate()
        .map(|(i, g)| booking(i, g, "Dogs"))
        .collect();
    let mut fan = FanOut::new(distinct_providers(&batch));
    let mut running: Vec<String> = Vec::new();
    let mut issued: Vec<String> = Vec::new();
    let mut peak = 0;
    while !fan.is_done() {
        while let Some(k) = fan.issue() {
            issued.push(k.clone());
            running.push(k);
        }
        assert!(fan.in_flight() <= 3);
        peak = peak.max(fan.in_flight());
        assert_eq!(fan.in_flight(), running.len());
        // answers arrive oldest first
        let k = running.remove(0);
        assert_eq!(fan.complete(resolved(&k)), Ok(()));
    }
    assert_eq!(peak, 3);
    issued.sort();
    assert_eq!(issued, vec!["g1", "g2", "g3", "g4", "g5", "g6", "g7"]);
    let answers = fan.into_resolved();
    assert_eq!(answers.len(), 7);
    let views = enrich_for_customer(&batch, &answers).unwrap();
    assert_eq!(views.len(), 10);
    assert_eq!(views[9].groomer_name, "Groomer g1");
    assert_eq!(views[8].groomer_name, "Groomer g7");
}

#[test]
fn answer_without_a_running_lookup_is_refused() {
    let mut fan = FanOut::new(vec!["g1".to_string()]);
    assert_eq!(fan.complete(resolved("g1")), Err(BookingError::InternalError));
    assert_eq!(fan.issue(), Some("g1".to_string()));
    assert_eq!(fan.issue(), None);
    assert!(!fan.is_done());
    assert_eq!(fan.complete(resolved("g1")), Ok(()));
    assert!(fan.is_done());
}
