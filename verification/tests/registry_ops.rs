use entity_registry::date::Date;
use entity_registry::registry::{
    AddPersonFormValues, CreateOutcome, DeleteOutcome, PeopleState, Person,
};

fn input(name: &str, dob: &str, nationality: &str) -> AddPersonFormValues {
    AddPersonFormValues {
        name: name.to_string(),
        date_of_birth: dob.to_string(),
        nationality: nationality.to_string(),
    }
}

fn create_ok(state: &mut PeopleState, values: AddPersonFormValues) -> Person {
    match state.create(values) {
        CreateOutcome::Created(person) => person,
        CreateOutcome::Rejected(_, _) => panic!("valid input was rejected"),
    }
}

#[test]
fn created_ids_are_pairwise_distinct() {
    let mut state = PeopleState::new();
    let mut ids: Vec<String> = vec![];
    for k in 0..20 {
        let person = create_ok(&mut state, input(&format!("person {}", k), "1990-05-17", "FR"));
        ids.push(person.id);
    }
    for a in 0..ids.len() {
        for b in (a + 1)..ids.len() {
            assert_ne!(ids[a], ids[b]);
        }
    }
}

#[test]
fn generated_ids_have_uuid_length() {
    let mut state = PeopleState::new();
    let person = create_ok(&mut state, input("Ada", "1815-12-10", "GB"));
    assert_eq!(person.id.len(), 36);
}

#[test]
fn invalid_date_is_rejected_with_field_message() {
    let mut state = PeopleState::new();
    let before = state.get_people().len();
    match state.create(input("Ada", "10-12-1815", "GB")) {
        CreateOutcome::Created(_) => panic!("invalid date was accepted"),
        CreateOutcome::Rejected(errors, echo) => {
            assert_eq!(
                errors.date_of_birth.as_deref(),
                Some("the date of birth is not valid, should be in format YYYY-MM-DD")
            );
            assert!(errors.name.is_none());
            assert!(errors.nationality.is_none());
            assert_eq!(echo.name, "Ada");
            assert_eq!(echo.date_of_birth, "10-12-1815");
            assert_eq!(echo.nationality, "GB");
        }
    }
    assert_eq!(state.get_people().len(), before);
}

#[test]
fn rejection_leaves_registry_unchanged() {
    let mut state = PeopleState::seeded();
    let before: Vec<String> = state.get_people().iter().map(|p| p.id.clone()).collect();
    match state.create(input("", "not a date", "")) {
        CreateOutcome::Created(_) => panic!("invalid date was accepted"),
        CreateOutcome::Rejected(_, _) => {}
    }
    let after: Vec<String> = state.get_people().iter().map(|p| p.id.clone()).collect();
    assert_eq!(before, after);
}

#[test]
fn empty_name_and_nationality_are_accepted() {
    let mut state = PeopleState::new();
    let person = create_ok(&mut state, input("", "1970-01-01", ""));
    assert_eq!(person.name, "");
    assert_eq!(person.nationality, "");
}

#[test]
fn valid_date_is_parsed_into_components() {
    let mut state = PeopleState::new();
    let person = create_ok(&mut state, input("Leap", "2000-02-29", "IE"));
    assert_eq!(person.date_of_birth, Date { year: 2000, month: 2, day: 29 });
}

#[test]
fn impossible_calendar_date_is_rejected() {
    let mut state = PeopleState::new();
    match state.create(input("Nobody", "1999-02-29", "IE")) {
        CreateOutcome::Created(_) => panic!("1999 is not a leap year"),
        CreateOutcome::Rejected(errors, _) => {
            assert!(errors.date_of_birth.is_some());
        }
    }
}

#[test]
fn insertion_order_is_most_recent_first() {
    let mut state = PeopleState::new();
    create_ok(&mut state, input("A", "1980-01-01", "DE"));
    create_ok(&mut state, input("B", "1981-02-02", "DK"));
    let people = state.get_people();
    assert_eq!(people[0].name, "B");
    assert_eq!(people[1].name, "A");
}

#[test]
fn delete_of_absent_id_is_not_found_and_changes_nothing() {
    let mut state = PeopleState::seeded();
    let before: Vec<String> = state.get_people().iter().map(|p| p.id.clone()).collect();
    let outcome = state.delete_by_id(&"no-such-id".to_string());
    assert_eq!(outcome, DeleteOutcome::NotFound);
    let after: Vec<String> = state.get_people().iter().map(|p| p.id.clone()).collect();
    assert_eq!(before, after);
}

#[test]
fn delete_removes_exactly_the_named_record() {
    let mut state = PeopleState::seeded();
    let people = state.get_people();
    assert_eq!(people.len(), 2);
    assert_eq!(people[0].name, "John Doe");
    assert_eq!(people[1].name, "Frankie Smith");
    let john_id = people[0].id.clone();
    let outcome = state.delete_by_id(&john_id);
    assert_eq!(outcome, DeleteOutcome::Deleted);
    let remaining = state.get_people();
    assert_eq!(remaining.len(), 1);
    assert_eq!(remaining[0].name, "Frankie Smith");
}

#[test]
fn delete_then_delete_again_is_not_found() {
    let mut state = PeopleState::seeded();
    let id = state.get_people()[0].id.clone();
    assert_eq!(state.delete_by_id(&id), DeleteOutcome::Deleted);
    assert_eq!(state.delete_by_id(&id), DeleteOutcome::NotFound);
}

#[test]
fn get_person_finds_stored_records() {
    let mut state = PeopleState::new();
    let created = create_ok(&mut state, input("Grace", "1906-12-09", "US"));
    let found = state.get_person(&created.id).expect("stored record not found");
    assert_eq!(found.id, created.id);
    assert_eq!(found.name, "Grace");
    assert_eq!(found.date_of_birth, Date { year: 1906, month: 12, day: 9 });
    assert_eq!(found.nationality, "US");
    assert!(state.get_person(&"absent".to_string()).is_none());
}

#[test]
fn seeded_registry_holds_the_two_sample_records() {
    let state = PeopleState::seeded();
    let people = state.get_people();
    assert_eq!(people.len(), 2);
    assert_eq!(people[0].name, "John Doe");
    assert_eq!(people[0].nationality, "GB");
    assert_eq!(people[0].date_of_birth, Date { year: 1984, month: 1, day: 1 });
    assert_eq!(people[1].name, "Frankie Smith");
    assert_eq!(people[1].nationality, "US");
    assert_eq!(people[1].date_of_birth, Date { year: 1963, month: 12, day: 27 });
    assert_ne!(people[0].id, people[1].id);
}

#[test]
fn default_registry_matches_seeded_shape() {
    let state = PeopleState::default();
    let people = state.get_people();
    assert_eq!(people.len(), 2);
    assert_eq!(people[0].name, "John Doe");
}

#[test]
fn listing_reflects_every_completed_mutation_exactly_once() {
    let mut state = PeopleState::new();
    let mut live: Vec<String> = vec![];
    for k in 0..10 {
        let person = create_ok(&mut state, input(&format!("p{}", k), "1975-06-30", "NL"));
        live.push(person.id);
        if k % 3 == 0 {
            let gone = live.remove(0);
            assert_eq!(state.delete_by_id(&gone), DeleteOutcome::Deleted);
        }
        let mut listed: Vec<String> = state.get_people().iter().map(|p| p.id.clone()).collect();
        for a in 0..listed.len() {
            for b in (a + 1)..listed.len() {
                assert_ne!(listed[a], listed[b]);
            }
        }
        listed.sort();
        let mut expected = live.clone();
        expected.sort();
        assert_eq!(listed, expected);
    }
}

#[test]
fn validate_alone_reports_only_the_date_field() {
    let values = input("Name", "2021-13-01", "SE");
    match values.validate() {
        Ok(_) => panic!("month 13 was accepted"),
        Err(errors) => {
            assert!(errors.date_of_birth.is_some());
            assert!(errors.name.is_none());
            assert!(errors.nationality.is_none());
        }
    }
    let good = input("Name", "2021-12-01", "SE");
    assert_eq!(good.validate().unwrap(), Date { year: 2021, month: 12, day: 1 });
}
