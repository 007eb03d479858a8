use appointments::booking::{
    admit_booking, identity_gate, prepare_appointment, stored_pets, Appointment, CreateInput,
};
use appointments::ledger::CapacityLedger;
use appointments::error::BookingError;
use appointments::pets::{Pet, PetDecodeError, PetGender, PetInputOutput, PetType};
use appointments::status::Status;
use appointments::store::{AppointmentFilter, AppointmentStore};

fn pet(name: &str, pet_type: PetType, gender: PetGender) -> PetInputOutput {
    PetInputOutput {
        pet_type,
        name: name.to_string(),
        gender,
        age: 3,
        medical_info: "none".to_string(),
    }
}

fn stored(pet_type: &str, gender: &str) -> Pet {
    Pet {
        pet_type: pet_type.to_string(),
        name: "Rex".to_string(),
        gender: gender.to_string(),
        age: 4,
        medical_info: "allergic to fleas".to_string(),
    }
}

fn request(user: &str, groomer: &str) -> CreateInput {
    CreateInput {
        user_name: user.to_string(),
        groomer_name: groomer.to_string(),
        pet_info: vec![
            pet("Rex", PetType::Dogs, PetGender::Male),
            pet("Tom", PetType::Cats, PetGender::Unspecified),
        ],
        price_tier: "gold".to_string(),
        total_price_cents: 12_550,
        start_time: "2024-01-10T10:00:00Z".to_string(),
        end_time: "2024-01-12T09:00:00Z".to_string(),
        transaction_id: "txn-1".to_string(),
    }
}

fn record(id: &str, user: &str, groomer: &str, status: Status, end_date: i64) -> Appointment {
    Appointment {
        id: id.to_string(),
        user_name: user.to_string(),
        groomer_name: groomer.to_string(),
        start_date: 0,
        end_date,
        status,
        pets: vec![stored("Dogs", "male")],
        total_price_cents: 100,
        price_tier: "basic".to_string(),
        transaction_id: format!("txn-{id}"),
    }
}

#[test]
fn pet_names_round_trip_through_storage() {
    let kinds = [
        PetType::Birds,
        PetType::Hamsters,
        PetType::Cats,
        PetType::Dogs,
        PetType::Rabbits,
        PetType::GuineaPigs,
        PetType::Chinchillas,
        PetType::Mice,
        PetType::Fishes,
    ];
    let genders = [PetGender::Male, PetGender::Female, PetGender::Unspecified];
    for t in kinds {
        for g in genders {
            let p = Pet::from_input(pet("Nib", t, g));
            let back = PetInputOutput::try_from_pet(p).unwrap();
            assert_eq!(back.pet_type, t);
            assert_eq!(back.gender, g);
            assert_eq!(back.name, "Nib");
            assert_eq!(back.age, 3);
        }
    }
    let p = Pet::from_input(pet("Nib", PetType::GuineaPigs, PetGender::Female));
    assert_eq!(p.pet_type, "GuineaPigs");
    assert_eq!(p.gender, "female");
}

#[test]
fn unknown_stored_names_are_refused_gender_first() {
    assert_eq!(
        PetInputOutput::try_from_pet(stored("Dragons", "male")).unwrap_err(),
        PetDecodeError::UnknownPetType
    );
    assert_eq!(
        PetInputOutput::try_from_pet(stored("Dogs", "Male")).unwrap_err(),
        PetDecodeError::UnknownGender
    );
    assert_eq!(
        PetInputOutput::try_from_pet(stored("Dragons", "other")).unwrap_err(),
        PetDecodeError::UnknownGender
    );
}

#[test]
fn unknown_customer_stops_before_anything_else() {
    assert_eq!(identity_gate(Some(false), Some(true)), Err(BookingError::CustomerUnknown));
    assert_eq!(identity_gate(Some(false), Some(false)), Err(BookingError::CustomerUnknown));
    assert_eq!(identity_gate(Some(false), None), Err(BookingError::CustomerUnknown));
    assert_eq!(identity_gate(Some(true), Some(false)), Err(BookingError::ProviderUnknown));
    assert_eq!(identity_gate(None, Some(true)), Err(BookingError::InternalError));
    assert_eq!(identity_gate(Some(true), None), Err(BookingError::InternalError));
    assert_eq!(identity_gate(Some(true), Some(true)), Ok(()));
    let refused = prepare_appointment(request("ann", "gus"), 0, 10, Some(false), Some(true));
    assert_eq!(refused.err(), Some(BookingError::CustomerUnknown));
}

#[test]
fn prepared_appointment_awaits_under_a_fresh_id() {
    let a = prepare_appointment(request("ann", "gus"), 5, 10, Some(true), Some(true)).unwrap();
    let b = prepare_appointment(request("ann", "gus"), 5, 10, Some(true), Some(true)).unwrap();
    assert!(!a.id.is_empty() && a.id.len() <= 24);
    assert!(a.id.chars().next().unwrap().is_ascii_lowercase());
    assert_ne!(a.id, b.id);
    assert_eq!(a.status, Status::Awaiting);
    assert_eq!(a.user_name, "ann");
    assert_eq!(a.groomer_name, "gus");
    assert_eq!((a.start_date, a.end_date), (5, 10));
    assert_eq!(a.total_price_cents, 12_550);
    assert_eq!(a.transaction_id, "txn-1");
    let kinds: Vec<(&str, &str, &str)> = a
        .pets
        .iter()
        .map(|p| (p.name.as_str(), p.pet_type.as_str(), p.gender.as_str()))
        .collect();
    assert_eq!(kinds, vec![("Rex", "Dogs", "male"), ("Tom", "Cats", "unspecified")]);
    assert_eq!(stored_pets(Vec::new()).len(), 0);
}

#[test]
fn created_appointment_is_fetched_then_not_found_after_delete() {
    let mut store = AppointmentStore::new();
    let a = prepare_appointment(request("ann", "gus"), 5, 10, Some(true), Some(true)).unwrap();
    let id = a.id.clone();
    assert_eq!(store.insert(a), Ok(()));
    assert_eq!(store.insert(record("other", "bob", "gus", Status::Awaiting, 10)), Ok(()));
    let got = store.get(&id).unwrap();
    assert_eq!(got.user_name, "ann");
    assert_eq!(got.groomer_name, "gus");
    assert_eq!((got.start_date, got.end_date), (5, 10));
    assert_eq!(got.pets.len(), 2);
    assert_eq!(got.pets[1].name, "Tom");
    assert_eq!(store.delete(&id), Ok(()));
    assert_eq!(store.get(&id).err(), Some(BookingError::NotFound));
    assert_eq!(store.delete(&id), Err(BookingError::NotFound));
    assert_eq!(store.get(&"other".to_string()).unwrap().user_name, "bob");
}

#[test]
fn duplicate_identifier_is_a_store_failure() {
    let mut store = AppointmentStore::new();
    assert_eq!(store.insert(record("x", "ann", "gus", Status::Awaiting, 1)), Ok(()));
    assert_eq!(
        store.insert(record("x", "bob", "gus", Status::Awaiting, 1)),
        Err(BookingError::InternalError)
    );
    assert_eq!(store.len(), 1);
    assert_eq!(store.get(&"x".to_string()).unwrap().user_name, "ann");
}

#[test]
fn status_changes_follow_the_rules() {
    let mut store = AppointmentStore::new();
    let id = "a1".to_string();
    assert_eq!(store.insert(record("a1", "ann", "gus", Status::Left, 1)), Ok(()));
    assert_eq!(store.set_status(&id, Status::Staying), Err(BookingError::IncorrectStatusFlow));
    assert_eq!(store.get(&id).unwrap().status, Status::Left);
    assert_eq!(store.set_status(&id, Status::Left), Ok(()));
    assert_eq!(store.set_status(&id, Status::Awaiting), Ok(()));
    assert_eq!(store.get(&id).unwrap().status, Status::Awaiting);
    assert_eq!(store.set_status(&id, Status::Staying), Ok(()));
    assert_eq!(store.set_status(&id, Status::Awaiting), Err(BookingError::IncorrectStatusFlow));
    assert_eq!(store.set_status(&"nope".to_string(), Status::Left), Err(BookingError::NotFound));
}

#[test]
fn dates_move_only_while_awaiting() {
    let mut store = AppointmentStore::new();
    assert_eq!(store.insert(record("w", "ann", "gus", Status::Awaiting, 10)), Ok(()));
    assert_eq!(store.insert(record("s", "ann", "gus", Status::Staying, 10)), Ok(()));
    let w = "w".to_string();
    assert_eq!(store.update_dates(&w, 20, 30), Ok(()));
    let got = store.get(&w).unwrap();
    assert_eq!((got.start_date, got.end_date), (20, 30));
    assert_eq!(store.update_dates(&w, 30, 20), Err(BookingError::InvalidDateRange));
    assert_eq!(store.update_dates(&"s".to_string(), 20, 30), Err(BookingError::NotFound));
    assert_eq!(store.update_dates(&"zz".to_string(), 20, 30), Err(BookingError::NotFound));
    assert_eq!(store.get(&"s".to_string()).unwrap().end_date, 10);
}

#[test]
fn listings_select_by_filter_in_store_order() {
    let mut store = AppointmentStore::new();
    // 2024-02-29T23:59:59Z and 2024-03-01T00:00:00Z
    let feb = 1_709_251_199_000;
    let mar = 1_709_251_200_000;
    assert_eq!(store.insert(record("1", "ann", "gus", Status::Awaiting, feb)), Ok(()));
    assert_eq!(store.insert(record("2", "bob", "gus", Status::Staying, mar)), Ok(()));
    assert_eq!(store.insert(record("3", "ann", "kim", Status::Left, feb)), Ok(()));
    assert_eq!(store.insert(record("4", "ann", "gus", Status::Left, mar)), Ok(()));
    let gus = "gus".to_string();
    let ids = |store: &AppointmentStore, f: AppointmentFilter| -> Vec<String> {
        store.find_all(&f).into_iter().map(|i| store.at(i).id.clone()).collect()
    };
    assert_eq!(ids(&store, AppointmentFilter::ByProvider { provider: gus.clone(), status: None }), vec!["1", "2", "4"]);
    assert_eq!(
        ids(&store, AppointmentFilter::ByProvider { provider: gus.clone(), status: Some(Status::Awaiting) }),
        vec!["1"]
    );
    assert_eq!(
        ids(&store, AppointmentFilter::ByProvider { provider: gus.clone(), status: Some(Status::Staying) }),
        vec!["2"]
    );
    assert_eq!(ids(&store, AppointmentFilter::ByCustomer { customer: "ann".to_string() }), vec!["1", "3", "4"]);
    assert_eq!(
        ids(&store, AppointmentFilter::ByProviderMonth { provider: gus.clone(), month: 3, year: 2024 }),
        vec!["2", "4"]
    );
    assert_eq!(
        ids(&store, AppointmentFilter::ByProviderMonth { provider: gus.clone(), month: 2, year: 2024 }),
        vec!["1"]
    );
    assert_eq!(
        ids(&store, AppointmentFilter::CompletedStay { provider: gus.clone(), customer: "ann".to_string() }),
        vec!["4"]
    );
    assert!(store.exists_completed_stay(&gus, &"ann".to_string()));
    assert!(!store.exists_completed_stay(&gus, &"bob".to_string()));
    assert!(store.exists_completed_stay(&"kim".to_string(), &"ann".to_string()));
}

#[test]
fn admission_reserves_one_unit_per_pet_per_day() {
    let jan_10 = 1_704_880_800_000;
    let jan_12 = 1_705_050_000_000;
    let day_jan_10 = 19_732;
    let gus = "gus".to_string();
    let mut ledger = CapacityLedger::new();
    let a = admit_booking(&mut ledger, request("ann", "gus"), jan_10, jan_12, Some(true), Some(true), 3)
        .unwrap();
    assert_eq!(a.status, Status::Awaiting);
    assert_eq!(ledger.committed_on(&gus, day_jan_10), 2);
    assert_eq!(ledger.committed_on(&gus, day_jan_10 + 1), 2);
    assert_eq!(ledger.committed_on(&gus, day_jan_10 + 2), 0);
    let full = admit_booking(&mut ledger, request("bob", "gus"), jan_10, jan_12, Some(true), Some(true), 3);
    assert_eq!(full.err(), Some(BookingError::OverCapacity));
    assert_eq!(ledger.committed_on(&gus, day_jan_10), 2);
}

#[test]
fn unknown_customer_leaves_the_ledger_untouched() {
    let jan_10 = 1_704_880_800_000;
    let jan_12 = 1_705_050_000_000;
    let gus = "gus".to_string();
    let mut ledger = CapacityLedger::new();
    let r = admit_booking(&mut ledger, request("ann", "gus"), jan_10, jan_12, Some(false), Some(true), 3);
    assert_eq!(r.err(), Some(BookingError::CustomerUnknown));
    let r = admit_booking(&mut ledger, request("ann", "gus"), jan_10, jan_12, Some(true), None, 3);
    assert_eq!(r.err(), Some(BookingError::InternalError));
    assert_eq!(ledger.committed_on(&gus, 19_732), 0);
}

#[test]
fn reversed_window_is_refused_before_identity() {
    let r = prepare_appointment(request("ann", "gus"), 10, 5, Some(false), Some(false));
    assert_eq!(r.err(), Some(BookingError::InvalidDateRange));
    let mut ledger = CapacityLedger::new();
    let r = admit_booking(&mut ledger, request("ann", "gus"), 10, 5, Some(false), None, 3);
    assert_eq!(r.err(), Some(BookingError::InvalidDateRange));
}
