use std::collections::HashSet;

use say_hi::model::{Certificate, SayHiCard, Template};
use say_hi::render::decimal_string;
use say_hi::seed::{gen_id, random_amount, seed_sum};
use say_hi::service::{BLCardService, CallContext, ServiceParts, NEAR_BASE};
use say_hi::table::{Entry, Table};

fn ctx(signer: &str, seed: Vec<u8>) -> CallContext {
    CallContext { signer_account_id: signer.to_string(), block_index: 7, random_seed: seed }
}

fn make_card(
    svc: &mut BLCardService,
    c: &CallContext,
    card_type: u8,
    count: u64,
    total: u64,
    is_rand: bool,
    target: &str,
) -> String {
    svc.create_card(
        c,
        &"tpl".to_string(),
        card_type,
        &"hello".to_string(),
        &"secret".to_string(),
        &"card".to_string(),
        count,
        total,
        50,
        is_rand,
        &target.to_string(),
    )
}

#[test]
fn ids_are_unpadded_lowercase_hex() {
    assert_eq!(gen_id(&vec![0, 1, 2, 3, 4, 5, 6]), "0123456");
    assert_eq!(gen_id(&vec![255, 16, 10, 171]), "ff10aab");
    assert_eq!(gen_id(&vec![]), "");
}

#[test]
fn seed_sum_wraps() {
    assert_eq!(seed_sum(&vec![200, 100]), 44);
    assert_eq!(seed_sum(&vec![]), 0);
}

#[test]
fn random_share_scales_blocks_of_the_total() {
    // 2550 / 255 = 10 per block; the seed sums to 46.
    assert_eq!(random_amount(2550, &vec![1, 11, 34, 44, 100, 145, 223]), 460);
    // A zero sum counts as one block, 254 and 255 count one block less.
    assert_eq!(random_amount(2550, &vec![0]), 10);
    assert_eq!(random_amount(2550, &vec![253]), 2530);
    assert_eq!(random_amount(2550, &vec![254]), 2530);
    assert_eq!(random_amount(2550, &vec![255]), 2540);
    // Below one block there is nothing to share.
    assert_eq!(random_amount(254, &vec![100]), 0);
    assert!(random_amount(u64::MAX, &vec![255]) <= u64::MAX);
}

#[test]
fn decimal_rendering() {
    assert_eq!(decimal_string(0), "0");
    assert_eq!(decimal_string(100), "100");
    assert_eq!(decimal_string(u64::MAX), "18446744073709551615");
}

#[test]
fn model_constructors_keep_their_arguments() {
    let t = Template::new("t1", "name", "content", "alice", 3, 9);
    assert_eq!(t.id, "t1");
    assert_eq!(t.name, "name");
    assert_eq!(t.content, "content");
    assert_eq!(t.owner, "alice");
    assert_eq!((t.current_block, t.duration), (3, 9));

    let c = SayHiCard::new(
        "c1",
        Some("t1".to_string()),
        "n",
        "pub",
        "priv",
        "alice",
        Some("bob".to_string()),
        4,
        true,
        40,
        3,
        9,
    );
    assert_eq!(c.remaining_count, 4);
    assert_eq!(c.remaining_total, 40);
    assert_eq!(c.target, Some("bob".to_string()));
    assert_eq!(c.tid, Some("t1".to_string()));
    assert!(c.is_avg);

    let mut contacts = HashSet::new();
    contacts.insert("bob".to_string());
    let cert = Certificate::new("x", "key", contacts.clone(), "attrs");
    assert_eq!(cert.contacts, contacts);
    assert_eq!(cert.public_key, "key");
    assert_eq!(cert.other_attrs, "attrs");
}

#[test]
fn templates_are_listed_in_creation_order() {
    let mut svc = BLCardService::default();
    assert!(svc.list_template(&ctx("alice", vec![1])).is_none());
    assert!(svc.create_template(&ctx("alice", vec![1]), &"a".to_string(), &"x".to_string(), 5));
    assert!(svc.create_template(&ctx("alice", vec![2]), &"b".to_string(), &"y".to_string(), 6));
    let list = svc.list_template(&ctx("alice", vec![9])).unwrap();
    assert_eq!(list.len(), 2);
    assert_eq!(list[1].id, "2");
    assert_eq!(list[1].name, "b");
    assert_eq!(list[0].id, "1");
    assert_eq!(list[0].name, "a");
    assert_eq!(list[0].content, "x");
    assert_eq!(list[0].duration, 5);
    let fields = list[0].to_fields();
    assert_eq!(
        fields,
        vec![
            ("id".to_string(), "1".to_string()),
            ("name".to_string(), "a".to_string()),
            ("content".to_string(), "x".to_string()),
            ("duration".to_string(), "5".to_string()),
        ]
    );
}

#[test]
fn a_taken_id_is_refused() {
    let mut svc = BLCardService::default();
    let alice = ctx("alice", vec![1]);
    assert!(svc.create_template(&alice, &"a".to_string(), &"x".to_string(), 5));
    assert!(!svc.create_template(&ctx("bob", vec![1]), &"b".to_string(), &"y".to_string(), 6));
    assert!(svc.list_template(&ctx("bob", vec![])).is_none());
    assert_eq!(svc.list_template(&alice).unwrap()[0].name, "a");

    assert_eq!(make_card(&mut svc, &alice, 0, 1, 1, false, ""), "1");
    assert_eq!(make_card(&mut svc, &alice, 1, 2, 2, false, "bob"), "");
    let list = svc.list_card(&alice).unwrap();
    assert_eq!(list.len(), 1);
    assert_eq!(list[0].count, 1);
}

#[test]
fn unknown_card_type_is_refused() {
    let mut svc = BLCardService::default();
    let c = ctx("alice", vec![1]);
    assert_eq!(make_card(&mut svc, &c, 2, 1, 1, false, "bob"), "");
    assert!(svc.list_card(&c).is_none());
}

#[test]
fn created_cards_are_listed_in_order() {
    let mut svc = BLCardService::default();
    let id1 = make_card(&mut svc, &ctx("alice", vec![10]), 0, 3, 30, false, "");
    let id2 = make_card(&mut svc, &ctx("alice", vec![11]), 1, 1, 0, true, "bob");
    assert_eq!((id1.as_str(), id2.as_str()), ("a", "b"));
    let list = svc.list_card(&ctx("alice", vec![])).unwrap();
    assert_eq!(list.len(), 2);
    assert_eq!(list[0].id, "a");
    assert_eq!(list[1].id, "b");
    assert_eq!(list[0].template_id, "tpl");
    assert_eq!((list[0].count, list[0].total, list[0].duration), (3, 30, 50));
    assert_eq!(
        list[1].to_fields(),
        vec![
            ("id".to_string(), "b".to_string()),
            ("template_id".to_string(), "tpl".to_string()),
            ("public_message".to_string(), "hello".to_string()),
            ("private_message".to_string(), "secret".to_string()),
            ("name".to_string(), "card".to_string()),
            ("count".to_string(), "1".to_string()),
            ("total".to_string(), "0".to_string()),
            ("duration".to_string(), "50".to_string()),
        ]
    );
    assert!(svc.list_card(&ctx("bob", vec![])).is_none());
}

#[test]
fn even_card_pays_equal_shares_until_used_up() {
    let mut svc = BLCardService::default();
    let id = make_card(&mut svc, &ctx("alice", vec![1]), 0, 2, 10, false, "");
    let bob = ctx("bob", vec![]);
    assert!(!svc.scan_card_faults(&bob, &id));
    let r = svc.scan_card(&bob, &id).unwrap();
    assert_eq!(r.card.id, id);
    let p = r.payout.unwrap();
    assert_eq!(p.receiver_id, "bob");
    assert_eq!(p.amount, 5 * NEAR_BASE);
    let carol = ctx("carol", vec![]);
    let r = svc.scan_card(&carol, &id).unwrap();
    assert_eq!(r.payout.unwrap().amount, 5 * NEAR_BASE);
    // Nothing is left: everyone is refused.
    let dave = ctx("dave", vec![]);
    assert!(!svc.scan_card_faults(&dave, &id));
    assert!(svc.scan_card(&dave, &id).is_none());
    assert!(svc.list_contacts(&dave).is_none());
    assert_eq!(svc.list_contacts(&ctx("alice", vec![])).unwrap(), vec!["bob".to_string(), "carol".to_string()]);
}

#[test]
fn scan_makes_mutual_contacts_once() {
    let mut svc = BLCardService::default();
    let id = make_card(&mut svc, &ctx("alice", vec![1]), 0, 5, 0, false, "");
    let bob = ctx("bob", vec![]);
    let r = svc.scan_card(&bob, &id).unwrap();
    // A share of zero is not paid out.
    assert!(r.payout.is_none());
    // A card for anyone is received once per receiver.
    assert!(svc.scan_card(&bob, &id).is_none());
    let again = svc.into_parts();
    assert_eq!(again.cards[0].value.remaining_count, 4);
    let mut svc = BLCardService::from_parts(again).unwrap();
    svc.scan_card(&ctx("carol", vec![]), &id).unwrap();
    assert_eq!(svc.list_contacts(&bob).unwrap(), vec!["alice".to_string()]);
    assert_eq!(
        svc.list_contacts(&ctx("alice", vec![])).unwrap(),
        vec!["bob".to_string(), "carol".to_string()]
    );
    let got = svc.list_recvcard_by_contact(&bob, &"alice".to_string()).unwrap();
    assert_eq!(got.len(), 1);
    assert_eq!(got[0].id, id);
    assert_eq!(svc.list_recvcard_by_contact(&bob, &"carol".to_string()).unwrap().len(), 0);
    assert!(svc.list_recvcard_by_contact(&ctx("alice", vec![]), &"bob".to_string()).is_none());
}

#[test]
fn creator_cannot_receive_own_card() {
    let mut svc = BLCardService::default();
    let alice = ctx("alice", vec![1]);
    let id = make_card(&mut svc, &alice, 0, 5, 10, false, "");
    assert!(svc.scan_card(&alice, &id).is_none());
    assert!(svc.list_contacts(&alice).is_none());
    assert!(svc.scan_card(&alice, &"nothing".to_string()).is_none());
}

#[test]
fn directed_card_goes_to_its_target_only() {
    let mut svc = BLCardService::default();
    let id = make_card(&mut svc, &ctx("alice", vec![1]), 1, 1, 3, false, "bob");
    assert!(svc.scan_card(&ctx("carol", vec![]), &id).is_none());
    let r = svc.scan_card(&ctx("bob", vec![]), &id).unwrap();
    assert_eq!(r.payout.unwrap().amount, 3 * NEAR_BASE);
    // No receipt is left: the target is refused too.
    assert!(!svc.scan_card_faults(&ctx("bob", vec![]), &id));
    assert!(svc.scan_card(&ctx("bob", vec![]), &id).is_none());
    assert!(!svc.scan_card_faults(&ctx("carol", vec![]), &id));
}

#[test]
fn random_card_gives_the_last_receiver_the_rest() {
    let mut svc = BLCardService::default();
    let id = make_card(&mut svc, &ctx("alice", vec![1]), 0, 2, 2550, true, "");
    let r = svc.scan_card(&ctx("bob", vec![46]), &id).unwrap();
    assert_eq!(r.payout.unwrap().amount, 460 * NEAR_BASE);
    let r = svc.scan_card(&ctx("carol", vec![3]), &id).unwrap();
    assert_eq!(r.payout.unwrap().amount, 2090 * NEAR_BASE);
    let parts = svc.into_parts();
    assert_eq!(parts.cards[0].value.remaining_total, 0);
}

#[test]
fn random_shares_beyond_the_rest_fault() {
    let mut svc = BLCardService::default();
    let id = make_card(&mut svc, &ctx("alice", vec![1]), 0, 3, 2550, true, "");
    svc.scan_card(&ctx("bob", vec![254]), &id).unwrap();
    // 2530 of 2550 are handed out; another share of 2530 would exceed the rest.
    assert!(svc.scan_card_faults(&ctx("carol", vec![254]), &id));
    assert!(!svc.scan_card_faults(&ctx("carol", vec![1]), &id));
}

#[test]
fn oversized_share_faults() {
    let mut svc = BLCardService::default();
    let id = make_card(&mut svc, &ctx("alice", vec![1]), 0, 1, u64::MAX, false, "");
    assert!(svc.scan_card_faults(&ctx("bob", vec![]), &id));
}

#[test]
fn transfer_only_positive_amounts() {
    let svc = BLCardService::default();
    assert!(svc.transfer("bob".to_string(), 0).is_none());
    let p = svc.transfer("bob".to_string(), 7).unwrap();
    assert_eq!((p.receiver_id.as_str(), p.amount), ("bob", 7));
}

#[test]
fn parts_round_trip() {
    let mut svc = BLCardService::default();
    let id = make_card(&mut svc, &ctx("alice", vec![1]), 0, 2, 10, false, "");
    svc.scan_card(&ctx("bob", vec![]), &id).unwrap();
    let parts = svc.into_parts();
    assert_eq!(parts.cards.len(), 1);
    assert_eq!(parts.cards[0].value.remaining_count, 1);
    let mut back = BLCardService::from_parts(parts).unwrap();
    assert_eq!(back.list_contacts(&ctx("bob", vec![])).unwrap(), vec!["alice".to_string()]);
    let r = back.scan_card(&ctx("carol", vec![]), &id).unwrap();
    assert_eq!(r.payout.unwrap().amount, 5 * NEAR_BASE);
}

fn empty_parts() -> ServiceParts {
    BLCardService::default().into_parts()
}

#[test]
fn parts_breaking_the_invariant_are_refused() {
    let mut p = empty_parts();
    p.user_contacts.push(Entry { key: "a".to_string(), value: vec!["b".to_string(), "b".to_string()] });
    assert!(BLCardService::from_parts(p).is_none());

    let mut p = empty_parts();
    p.templates.push(Entry { key: "t".to_string(), value: Template::new("t", "", "", "", 0, 0) });
    p.templates.push(Entry { key: "t".to_string(), value: Template::new("t", "", "", "", 0, 0) });
    assert!(BLCardService::from_parts(p).is_none());

    let mut p = empty_parts();
    let mut card = SayHiCard::new("c", None, "", "", "", "alice", None, 1, true, 1, 0, 0);
    card.remaining_count = 2;
    p.cards.push(Entry { key: "c".to_string(), value: card });
    assert!(BLCardService::from_parts(p).is_none());

    let mut p = empty_parts();
    p.card_scan_result.push(Entry { key: "c".to_string(), value: Table::new() });
    assert!(BLCardService::from_parts(p).is_some());
}

#[test]
fn scanned_card_is_listed_once_by_its_creator() {
    let mut svc = BLCardService::default();
    let id = make_card(&mut svc, &ctx("alice", vec![1]), 0, 3, 9, false, "");
    make_card(&mut svc, &ctx("alice", vec![2]), 0, 3, 9, false, "");
    let bob = ctx("bob", vec![]);
    let receipt = svc.scan_card(&bob, &id).unwrap();
    let list = svc.list_recvcard_by_contact(&bob, &"alice".to_string()).unwrap();
    assert_eq!(list.len(), 1);
    assert_eq!(list[0].to_fields(), receipt.card.to_fields());
    assert_eq!(list[0].id, id);
}
