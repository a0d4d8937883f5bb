use say_hi::seed::seed_sum;
use say_hi::service::{BLCardService, CallContext};

fn get_context() -> CallContext {
    CallContext {
        signer_account_id: "bob_near".to_string(),
        block_index: 0,
        random_seed: vec![0, 1, 2, 3, 4, 5, 6],
    }
}

#[test]
fn test_template_method() {
    let context = get_context();

    let _template_name = String::from("new template 1");
    let _content = String::from("This is template's content.");

    let mut bl_card_service = BLCardService::default();
    let create_result = bl_card_service.create_template(&context, &_template_name, &_content, 100);
    assert_eq!(create_result, true);

    let _templates = bl_card_service.list_template(&context);

    match _templates {
        None => assert_eq!(1, 2),
        Some(_temp) => {
            assert_eq!(_temp.len(), 1);
            println!("Templates count: {}", _temp.len());
            println!("{}", _temp[0].name);
        }
    }
}

#[test]
fn test_card_method() {
    let context = get_context();

    let _card_name = String::from("new card 1");

    let mut bl_card_service = BLCardService::default();
    let create_result = bl_card_service.create_card(
        &context,
        &String::from("template_id"),        // tid
        0,                                   // card_type
        &String::from("This is public msg"),  // public
        &String::from("This is private msg"), // private
        &String::from("This is name"),        // name
        1,                                   // count
        1,                                   // amount
        100,                                 // duration
        true,
        &String::from("Receiver"),
    );
    assert_ne!(create_result, "");
    println!("Create card return: {}", create_result);
    let _cards = bl_card_service.list_card(&context);

    match _cards {
        None => assert_eq!(1, 2),
        Some(_temp) => {
            assert_eq!(_temp.len(), 1);
            println!("{}", _temp[0].id);
        }
    }
}

#[test]
fn test_contract_person() {}

#[test]
fn test_random() {
    let random_seed = vec![1u8, 11u8, 34u8, 44u8, 100u8, 145u8, 223u8];

    let mut total = seed_sum(&random_seed);

    assert_eq!(46, total);
    total = total.wrapping_mul(100);
    assert_eq!(248, total);
}
