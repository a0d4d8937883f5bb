//! Laws of the card service, stated over the abstract state that the
//! operations' contracts speak of.
use crate::model::CardView;
use crate::service::{
    ContextView, ServiceView, after_create_card, after_create_template, after_scan, card_record,
    card_summaries, card_summary, cards_from, list_card_spec, list_contacts_spec,
    list_recvcard_spec, list_template_spec, recv_amount, scan_receipt, scan_rejected,
    template_record, template_summary, template_summaries, valid_card_type, add_member,
    has_received, scan_outcome, lemma_add_member_keeps_sets, card_wf, NEAR_BASE,
};
use crate::seed::id_from_seed;
use vstd::prelude::*;

verus! {

/// A created template comes last in its creator's template listing, after
/// the entries of the templates the creator had listed before.
pub proof fn law_created_template_is_listed_last(
    s: ServiceView,
    ctx: ContextView,
    name: Seq<char>,
    content: Seq<char>,
    duration: u64,
)
    ensures
        ({
            let t = after_create_template(s, ctx, name, content, duration);
            let before = if s.user_templates.contains_key(ctx.signer) {
                s.user_templates[ctx.signer]
            } else {
                Seq::empty()
            };
            list_template_spec(t, ctx.signer) == Some(
                template_summaries(before, t.templates).push(
                    template_summary(template_record(ctx, name, content, duration)),
                ),
            )
        }),
{
    let t = after_create_template(s, ctx, name, content, duration);
    let before = if s.user_templates.contains_key(ctx.signer) {
        s.user_templates[ctx.signer]
    } else {
        Seq::empty()
    };
    let ids = t.user_templates[ctx.signer];
    assert(ids =~= before.push(id_from_seed(ctx.seed)));
    assert(ids.drop_last() =~= before);
}

/// A created card comes last in its creator's card listing, after the
/// entries of the cards the creator had listed before.
pub proof fn law_created_card_is_listed_last(
    s: ServiceView,
    ctx: ContextView,
    template_id: Seq<char>,
    card_type: u8,
    public_message: Seq<char>,
    private_message: Seq<char>,
    name: Seq<char>,
    count: u64,
    total: u64,
    duration: u64,
    is_rand: bool,
    specify_account: Seq<char>,
)
    requires
        valid_card_type(card_type),
    ensures
        ({
            let t = after_create_card(
                s,
                ctx,
                template_id,
                card_type,
                public_message,
                private_message,
                name,
                count,
                total,
                duration,
                is_rand,
                specify_account,
            );
            let before = if s.card_created.contains_key(ctx.signer) {
                s.card_created[ctx.signer]
            } else {
                Seq::empty()
            };
            list_card_spec(t, ctx.signer) == Some(
                card_summaries(before, t.cards).push(
                    card_summary(
                        card_record(
                            ctx,
                            template_id,
                            card_type,
                            public_message,
                            private_message,
                            name,
                            count,
                            total,
                            duration,
                            is_rand,
                            specify_account,
                        ),
                    ),
                ),
            )
        }),
{
    let t = after_create_card(
        s,
        ctx,
        template_id,
        card_type,
        public_message,
        private_message,
        name,
        count,
        total,
        duration,
        is_rand,
        specify_account,
    );
    let before = if s.card_created.contains_key(ctx.signer) {
        s.card_created[ctx.signer]
    } else {
        Seq::empty()
    };
    let ids = t.card_created[ctx.signer];
    assert(ids =~= before.push(id_from_seed(ctx.seed)));
    assert(ids.drop_last() =~= before);
}

/// A card is never received by its own creator: such a scan is turned down.
pub proof fn law_creator_cannot_receive(s: ServiceView, signer: Seq<char>, card_id: Seq<char>)
    requires
        s.cards.contains_key(card_id),
        s.cards[card_id].creator == signer,
    ensures
        scan_rejected(s, signer, card_id),
{
}

/// A directed card is received by its target alone.
pub proof fn law_directed_card_only_for_target(
    s: ServiceView,
    signer: Seq<char>,
    card_id: Seq<char>,
)
    requires
        s.cards.contains_key(card_id),
        s.cards[card_id].target is Some,
        s.cards[card_id].target->0 != signer,
    ensures
        scan_rejected(s, signer, card_id),
{
}

/// A card refuses every receiver once no receipt of it is left.
pub proof fn law_exhausted_card_refuses(s: ServiceView, signer: Seq<char>, card_id: Seq<char>)
    requires
        s.cards.contains_key(card_id),
        s.cards[card_id].remaining_count == 0,
    ensures
        scan_rejected(s, signer, card_id),
{
}

/// A card for anyone is received once per receiver: a second scan by an
/// account that received it is turned down.
pub proof fn law_no_second_receipt(s: ServiceView, signer: Seq<char>, card_id: Seq<char>)
    requires
        s.cards.contains_key(card_id),
        s.cards[card_id].target is None,
        has_received(s, signer, card_id),
    ensures
        scan_rejected(s, signer, card_id),
{
}

/// After an accepted scan the receiver has received the card, so a card for
/// anyone then refuses that receiver.
pub proof fn law_scanned_card_is_received(
    s: ServiceView,
    signer: Seq<char>,
    card_id: Seq<char>,
    seed: Seq<u8>,
)
    requires
        !scan_rejected(s, signer, card_id),
        s.cards[card_id].target is None,
    ensures
        scan_rejected(after_scan(s, signer, card_id, seed), signer, card_id),
{
    lemma_add_member_has(s.card_recv, signer, card_id);
}

/// The last receiver of a random red packet gets all that is left unclaimed,
/// and nothing stays unclaimed afterwards.
pub proof fn law_last_random_share_takes_rest(
    s: ServiceView,
    signer: Seq<char>,
    card_id: Seq<char>,
    seed: Seq<u8>,
)
    requires
        !scan_rejected(s, signer, card_id),
        !s.cards[card_id].is_avg,
        s.cards[card_id].remaining_count == 1,
    ensures
        recv_amount(s.cards[card_id], seed) == s.cards[card_id].remaining_total,
        after_scan(s, signer, card_id, seed).cards[card_id].remaining_total == 0,
        after_scan(s, signer, card_id, seed).cards[card_id].remaining_count == 0,
{
}

/// An accepted scan makes the receiver and the card's creator each other's
/// contacts and puts the card among the receiver's received cards.
pub proof fn law_scan_links_contacts(
    s: ServiceView,
    signer: Seq<char>,
    card_id: Seq<char>,
    seed: Seq<u8>,
)
    requires
        !scan_rejected(s, signer, card_id),
    ensures
        ({
            let t = after_scan(s, signer, card_id, seed);
            let creator = s.cards[card_id].creator;
            &&& t.user_contacts.contains_key(signer)
            &&& t.user_contacts[signer].contains(creator)
            &&& t.user_contacts.contains_key(creator)
            &&& t.user_contacts[creator].contains(signer)
            &&& t.card_recv.contains_key(signer)
            &&& t.card_recv[signer].contains(card_id)
        }),
{
    let creator = s.cards[card_id].creator;
    lemma_add_member_has(s.user_contacts, signer, creator);
    lemma_add_member_has(add_member(s.user_contacts, signer, creator), creator, signer);
    lemma_add_member_keeps(add_member(s.user_contacts, signer, creator), creator, signer, signer, creator);
    lemma_add_member_has(s.card_recv, signer, card_id);
}

proof fn lemma_add_member_has(m: Map<Seq<char>, Seq<Seq<char>>>, k: Seq<char>, x: Seq<char>)
    ensures
        add_member(m, k, x).contains_key(k),
        add_member(m, k, x)[k].contains(x),
{
    if m.contains_key(k) {
        if !m[k].contains(x) {
            assert(m[k].push(x)[m[k].len() as int] == x);
        }
    } else {
        assert(seq![x][0] == x);
    }
}

proof fn lemma_add_member_keeps(
    m: Map<Seq<char>, Seq<Seq<char>>>,
    k: Seq<char>,
    x: Seq<char>,
    j: Seq<char>,
    y: Seq<char>,
)
    requires
        m.contains_key(j),
        m[j].contains(y),
    ensures
        add_member(m, k, x).contains_key(j),
        add_member(m, k, x)[j].contains(y),
{
    if m.contains_key(k) && !m[k].contains(x) && j == k {
        let i = choose|i: int| 0 <= i < m[j].len() && m[j][i] == y;
        assert(m[j].push(x)[i] == y);
    }
}

/// An accepted scan uses up one receipt of the card and the receiver's share
/// of its red packet, and records that share for the receiver; the card
/// stays well formed, so all shares handed out never exceed the total.
pub proof fn law_scan_uses_one_receipt(
    s: ServiceView,
    signer: Seq<char>,
    card_id: Seq<char>,
    seed: Seq<u8>,
)
    requires
        s.wf(),
        !scan_rejected(s, signer, card_id),
        s.cards[card_id].remaining_count >= 1,
        recv_amount(s.cards[card_id], seed) <= s.cards[card_id].remaining_total,
    ensures
        ({
            let c = s.cards[card_id];
            let t = after_scan(s, signer, card_id, seed);
            let d = t.cards[card_id];
            &&& d.remaining_count == c.remaining_count - 1
            &&& d.remaining_total == c.remaining_total - recv_amount(c, seed)
            &&& d.total - d.remaining_total == (c.total - c.remaining_total) + recv_amount(c, seed)
            &&& d.remaining_total <= d.total
            &&& t.card_scan_result[card_id][signer] == recv_amount(c, seed)
        }),
{
    assert(s.cards.contains_key(card_id));
}

/// An evenly split card hands every receiver `total / count`.
pub proof fn law_even_share(c: CardView, seed: Seq<u8>)
    requires
        c.is_avg,
        c.count > 0,
    ensures
        recv_amount(c, seed) == c.total / c.count,
{
}

/// A scan pays out exactly when the receiver's share is positive, and pays
/// that share in yoctoNEAR to the receiver.
pub proof fn law_scan_pays_share(
    s: ServiceView,
    signer: Seq<char>,
    card_id: Seq<char>,
    seed: Seq<u8>,
)
    requires
        !scan_rejected(s, signer, card_id),
        recv_amount(s.cards[card_id], seed) * NEAR_BASE <= u128::MAX,
    ensures
        ({
            let share = recv_amount(s.cards[card_id], seed);
            let p = scan_receipt(s, signer, card_id, seed).payout;
            &&& (p is Some) == (share * NEAR_BASE > 0)
            &&& p is Some ==> p->0.receiver_id == signer && p->0.amount == share
                * NEAR_BASE
        }),
{
}

/// A contact listing never names an account twice.
pub proof fn law_contacts_are_distinct(s: ServiceView, account: Seq<char>)
    requires
        s.wf(),
        list_contacts_spec(s, account) is Some,
    ensures
        list_contacts_spec(s, account)->0.no_duplicates(),
{
    assert(s.user_contacts.contains_key(account));
}

/// Every entry of a received-card listing by contact is the entry of a
/// received card that `contact` created.
pub proof fn law_received_cards_come_from_contact(
    s: ServiceView,
    account: Seq<char>,
    contact: Seq<char>,
    i: int,
)
    requires
        list_recvcard_spec(s, account, contact) is Some,
        0 <= i < list_recvcard_spec(s, account, contact)->0.len(),
    ensures
        exists|k: Seq<char>|
            #![trigger s.cards[k]]
            {
                &&& s.card_recv[account].contains(k)
                &&& s.cards.contains_key(k)
                &&& s.cards[k].creator == contact
                &&& list_recvcard_spec(s, account, contact)->0[i] == card_summary(s.cards[k])
            },
{
    lemma_cards_from_origin(s.card_recv[account], s.cards, contact, i);
}

proof fn lemma_cards_from_origin(
    ids: Seq<Seq<char>>,
    cards: Map<Seq<char>, CardView>,
    contact: Seq<char>,
    i: int,
)
    requires
        0 <= i < cards_from(ids, cards, contact).len(),
    ensures
        exists|k: Seq<char>|
            #![trigger cards[k]]
            {
                &&& ids.contains(k)
                &&& cards.contains_key(k)
                &&& cards[k].creator == contact
                &&& cards_from(ids, cards, contact)[i] == card_summary(cards[k])
            },
    decreases ids.len(),
{
    let rest = cards_from(ids.drop_last(), cards, contact);
    let k = ids.last();
    if cards.contains_key(k) && cards[k].creator == contact && i == rest.len() {
        assert(ids[ids.len() - 1] == k);
        assert(cards[k].creator == contact);
    } else {
        lemma_cards_from_origin(ids.drop_last(), cards, contact, i);
        let k2 = choose|k2: Seq<char>|
            #![trigger cards[k2]]
            {
                &&& ids.drop_last().contains(k2)
                &&& cards.contains_key(k2)
                &&& cards[k2].creator == contact
                &&& cards_from(ids.drop_last(), cards, contact)[i] == card_summary(cards[k2])
            };
        let j = choose|j: int| 0 <= j < ids.drop_last().len() && ids.drop_last()[j] == k2;
        assert(ids[j] == k2);
        assert(cards[k2].creator == contact);
    }
}

/// Contacts are mutual and nobody is their own contact.
pub open spec fn contacts_symmetric(m: Map<Seq<char>, Seq<Seq<char>>>) -> bool {
    forall|a: Seq<char>, b: Seq<char>|
        m.contains_key(a) && #[trigger] m[a].contains(b) ==> a != b && m.contains_key(b)
            && m[b].contains(a)
}

proof fn lemma_add_member_contains(
    m: Map<Seq<char>, Seq<Seq<char>>>,
    k: Seq<char>,
    x: Seq<char>,
    j: Seq<char>,
    y: Seq<char>,
)
    ensures
        (add_member(m, k, x).contains_key(j) && add_member(m, k, x)[j].contains(y)) <==> ((
        m.contains_key(j) && m[j].contains(y)) || (j == k && y == x)),
{
    let t = add_member(m, k, x);
    if j == k && y == x {
        lemma_add_member_has(m, k, x);
    } else if m.contains_key(j) && m[j].contains(y) {
        lemma_add_member_keeps(m, k, x, j, y);
    } else if t.contains_key(j) && t[j].contains(y) {
        if j == k && m.contains_key(k) && !m[k].contains(x) {
            let i = choose|i: int| 0 <= i < t[j].len() && t[j][i] == y;
            if i < m[k].len() {
                assert(m[k][i] == y);
            }
        } else if j == k && !m.contains_key(k) {
            assert(t[j] == seq![x]);
        }
    }
}

/// Contacts stay mutual and irreflexive: the service starts without
/// contacts, and every scan, by any signer of any card, keeps them so (a
/// turned-down scan changes nothing; an accepted one links two different
/// accounts both ways).
pub proof fn law_contacts_stay_symmetric(
    s: ServiceView,
    signer: Seq<char>,
    card_id: Seq<char>,
    seed: Seq<u8>,
)
    requires
        contacts_symmetric(s.user_contacts),
    ensures
        contacts_symmetric(ServiceView::empty().user_contacts),
        contacts_symmetric(scan_outcome(s, signer, card_id, seed).user_contacts),
{
    if !scan_rejected(s, signer, card_id) {
        let m = s.user_contacts;
        let creator = s.cards[card_id].creator;
        let m1 = add_member(m, signer, creator);
        let t = add_member(m1, creator, signer);
        assert(t == after_scan(s, signer, card_id, seed).user_contacts);
        assert forall|a: Seq<char>, b: Seq<char>| t.contains_key(a) && #[trigger] t[a].contains(
            b,
        ) implies a != b && t.contains_key(b) && t[b].contains(a) by {
            lemma_add_member_contains(m1, creator, signer, a, b);
            lemma_add_member_contains(m, signer, creator, a, b);
            lemma_add_member_contains(m1, creator, signer, b, a);
            lemma_add_member_contains(m, signer, creator, b, a);
            if m.contains_key(a) && m[a].contains(b) {
                assert(m.contains_key(b) && m[b].contains(a));
            }
        }
    }
}

/// A received-card listing shows each card once: its entries have distinct
/// ids.
pub proof fn law_received_cards_listed_once(s: ServiceView, account: Seq<char>, contact: Seq<char>)
    requires
        s.wf(),
        list_recvcard_spec(s, account, contact) is Some,
    ensures
        ({
            let r = list_recvcard_spec(s, account, contact)->0;
            forall|i: int, j: int| 0 <= i < j < r.len() ==> #[trigger] r[i].id != #[trigger] r[j].id
        }),
{
    assert(s.card_recv.contains_key(account));
    assert forall|k: Seq<char>| #[trigger] s.cards.contains_key(k) implies s.cards[k].id == k by {
        assert(crate::service::card_wf(s.cards[k], k));
    }
    lemma_cards_from_distinct(s.card_recv[account], s.cards, contact);
}

proof fn lemma_cards_from_distinct(
    ids: Seq<Seq<char>>,
    cards: Map<Seq<char>, CardView>,
    contact: Seq<char>,
)
    requires
        ids.no_duplicates(),
        forall|k: Seq<char>| #[trigger] cards.contains_key(k) ==> cards[k].id == k,
    ensures
        ({
            let r = cards_from(ids, cards, contact);
            forall|i: int, j: int| 0 <= i < j < r.len() ==> #[trigger] r[i].id != #[trigger] r[j].id
        }),
    decreases ids.len(),
{
    if ids.len() > 0 {
        let d = ids.drop_last();
        let last = ids.last();
        assert forall|a: int, b: int| 0 <= a < d.len() && 0 <= b < d.len() && a != b implies d[a]
            != d[b] by {
            assert(d[a] == ids[a] && d[b] == ids[b]);
        }
        assert(!d.contains(last)) by {
            if d.contains(last) {
                let a = choose|a: int| 0 <= a < d.len() && d[a] == last;
                assert(ids[a] == ids[ids.len() - 1]);
            }
        }
        lemma_cards_from_distinct(d, cards, contact);
        let rest = cards_from(d, cards, contact);
        let r = cards_from(ids, cards, contact);
        if cards.contains_key(last) && cards[last].creator == contact {
            assert forall|i: int, j: int| 0 <= i < j < r.len() implies #[trigger] r[i].id
                != #[trigger] r[j].id by {
                if j == rest.len() {
                    lemma_cards_from_origin(d, cards, contact, i);
                    let k = choose|k: Seq<char>|
                        #![trigger cards[k]]
                        {
                            &&& d.contains(k)
                            &&& cards.contains_key(k)
                            &&& cards[k].creator == contact
                            &&& rest[i] == card_summary(cards[k])
                        };
                    assert(r[i] == rest[i]);
                    assert(r[j] == card_summary(cards[last]));
                } else {
                    assert(r[i] == rest[i] && r[j] == rest[j]);
                }
            }
        }
    }
}

/// After an accepted scan, the receiver's listing of the cards received from
/// the card's creator shows the scanned card exactly once, as the scan's
/// answer showed it.
pub proof fn law_scanned_card_listed_by_creator(
    s: ServiceView,
    signer: Seq<char>,
    card_id: Seq<char>,
    seed: Seq<u8>,
)
    requires
        s.wf(),
        !scan_rejected(s, signer, card_id),
    ensures
        ({
            let t = after_scan(s, signer, card_id, seed);
            let entry = scan_receipt(s, signer, card_id, seed).card;
            let r = list_recvcard_spec(t, signer, s.cards[card_id].creator);
            &&& entry.id == card_id
            &&& r is Some
            &&& exists|i: int| 0 <= i < r->0.len() && #[trigger] r->0[i] == entry
            &&& forall|i: int, j: int|
                0 <= i < r->0.len() && 0 <= j < r->0.len() && #[trigger] r->0[i].id == card_id
                    && #[trigger] r->0[j].id == card_id ==> i == j
        }),
{
    let t = after_scan(s, signer, card_id, seed);
    let creator = s.cards[card_id].creator;
    assert(card_wf(s.cards[card_id], card_id));
    lemma_add_member_has(s.card_recv, signer, card_id);
    lemma_add_member_keeps_sets(s.card_recv, signer, card_id);
    let ids = t.card_recv[signer];
    assert(ids.no_duplicates());
    assert forall|k: Seq<char>| #[trigger] t.cards.contains_key(k) implies t.cards[k].id == k by {
        if k != card_id {
            assert(card_wf(s.cards[k], k));
        }
    }
    lemma_cards_from_has(ids, t.cards, creator, card_id);
    lemma_cards_from_distinct(ids, t.cards, creator);
}

proof fn lemma_cards_from_has(
    ids: Seq<Seq<char>>,
    cards: Map<Seq<char>, CardView>,
    contact: Seq<char>,
    k: Seq<char>,
)
    requires
        ids.contains(k),
        cards.contains_key(k),
        cards[k].creator == contact,
    ensures
        exists|i: int|
            0 <= i < cards_from(ids, cards, contact).len() && #[trigger] cards_from(ids, cards, contact)[i]
                == card_summary(cards[k]),
    decreases ids.len(),
{
    let d = ids.drop_last();
    let r = cards_from(ids, cards, contact);
    let rest = cards_from(d, cards, contact);
    if ids.last() == k {
        assert(r[rest.len() as int] == card_summary(cards[k]));
    } else {
        let a = choose|a: int| 0 <= a < ids.len() && ids[a] == k;
        assert(a < ids.len() - 1);
        assert(d[a] == k);
        lemma_cards_from_has(d, cards, contact, k);
        let i = choose|i: int| 0 <= i < rest.len() && #[trigger] rest[i] == card_summary(cards[k]);
        assert(r[i] == rest[i]);
    }
}

} // verus!
