use siggy::backend::native::send::{classify_recipient, own_aci_for_number, RecipientKind};

#[test]
fn own_number_resolves_to_own_aci_without_contacts() {
    let own_aci: uuid::Uuid = "aaaaaaaa-bbbb-cccc-dddd-eeeeeeeeeeee".parse().unwrap();
    assert_eq!(
        own_aci_for_number("+15551234567", "+15551234567", own_aci.as_u128()),
        Some(own_aci.as_u128())
    );
}

#[test]
fn other_numbers_fall_through_to_the_contacts_walk() {
    let own_aci: uuid::Uuid = "aaaaaaaa-bbbb-cccc-dddd-eeeeeeeeeeee".parse().unwrap();
    assert_eq!(
        own_aci_for_number("+15559999999", "+15551234567", own_aci.as_u128()),
        None
    );
}

#[test]
fn uuid_keys_classify_as_aci() {
    let uuid = "aaaaaaaa-bbbb-cccc-dddd-eeeeeeeeeeee";
    assert_eq!(
        classify_recipient(uuid),
        RecipientKind::Aci(uuid.parse::<uuid::Uuid>().unwrap().as_u128())
    );
}

#[test]
fn e164_keys_classify_as_number() {
    assert_eq!(
        classify_recipient("+15551234567"),
        RecipientKind::Number("+15551234567".into())
    );
}

#[test]
fn group_ids_and_garbage_fall_through_as_numbers() {
    assert!(matches!(
        classify_recipient("Z3JvdXBpZGdyb3VwaWRncm91cGlkZ3JvdXBpZA=="),
        RecipientKind::Number(_)
    ));
}

#[test]
fn simple_form_uuid_keys_classify_as_aci() {
    assert_eq!(
        classify_recipient("a1a2a3a4b1b2c1c2d1d2d3d4d5d6d7d8"),
        RecipientKind::Aci(0xa1a2a3a4b1b2c1c2d1d2d3d4d5d6d7d8)
    );
}
