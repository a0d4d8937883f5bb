//! Laws that say, in terms of the operations' inputs and the stored records
//! themselves, which scans are accepted, what a created record holds, and
//! what the listings show.
use crate::model::{CardView, TemplateView};
use crate::seed::{byte_hex, id_from_seed, random_amount_spec};
use crate::service::{
    CardSummaryView, ContextView, ServiceView, TemplateSummaryView, after_create_card,
    after_create_template, after_scan, card_summaries, card_summary, cards_from, list_card_spec,
    list_contacts_spec, list_recvcard_spec, list_template_spec, recv_amount, scan_rejected, template_summaries, template_summary,
    valid_card_type,
};
use vstd::prelude::*;

verus! {

// ---------------------------------------------------------------------------
// Which scans are accepted
// ---------------------------------------------------------------------------

/// A scan of a card that does not exist is turned down.
pub proof fn law_scan_of_missing_card_refused(s: ServiceView, signer: Seq<char>, card_id: Seq<char>)
    requires
        !s.cards.contains_key(card_id),
    ensures
        scan_rejected(s, signer, card_id),
{
}

/// A scan of an existing card is accepted exactly when receipts of it are
/// left, the signer is not its creator, and either the card is directed at
/// the signer, or it is for anyone and the signer's received list does not
/// hold it. Nothing else about the signer (other cards received, cards
/// created) matters.
pub proof fn law_scan_accepted_exactly_when(s: ServiceView, signer: Seq<char>, card_id: Seq<char>)
    requires
        s.cards.contains_key(card_id),
    ensures
        !scan_rejected(s, signer, card_id) <==> {
            let c = s.cards[card_id];
            &&& c.remaining_count > 0
            &&& signer != c.creator
            &&& match c.target {
                Some(t) => t == signer,
                None => !(s.card_recv.contains_key(signer) && s.card_recv[signer].contains(
                    card_id,
                )),
            }
        },
{
}

// ---------------------------------------------------------------------------
// What a created record holds
// ---------------------------------------------------------------------------

/// A created card holds every argument it was created with, whatever its
/// type: its messages, name and template, the signer as creator, the target
/// (none for type 0, `specify_account` for type 1), count and total with all
/// of both left, the split (even unless `is_rand`), the block and duration.
pub proof fn law_created_card_keeps_arguments(
    s: ServiceView,
    ctx: ContextView,
    template_id: Seq<char>,
    card_type: u8,
    public_message: Seq<char>,
    private_message: Seq<char>,
    name: Seq<char>,
    count: u64,
    total: u64,
    duration: u64,
    is_rand: bool,
    specify_account: Seq<char>,
)
    requires
        valid_card_type(card_type),
    ensures
        ({
            let id = id_from_seed(ctx.seed);
            let t = after_create_card(
                s,
                ctx,
                template_id,
                card_type,
                public_message,
                private_message,
                name,
                count,
                total,
                duration,
                is_rand,
                specify_account,
            );
            let c = t.cards[id];
            &&& t.cards.contains_key(id)
            &&& c.id == id
            &&& c.tid == Some(template_id)
            &&& c.public_message == public_message
            &&& c.private_message == private_message
            &&& c.name == name
            &&& c.creator == ctx.signer
            &&& (card_type == 0 ==> c.target == None::<Seq<char>>)
            &&& (card_type == 1 ==> c.target == Some(specify_account))
            &&& c.count == count && c.remaining_count == count
            &&& c.total == total && c.remaining_total == total
            &&& c.is_avg == !is_rand
            &&& c.current_block == ctx.block_index
            &&& c.duration == duration
            &&& forall|k: Seq<char>| k != id ==> #[trigger] t.cards.contains_key(k) == s.cards.contains_key(k)
                && (s.cards.contains_key(k) ==> t.cards[k] == s.cards[k])
        }),
{
}

/// A created template holds its name, content and duration, the signer as
/// owner and the block it was created in.
pub proof fn law_created_template_keeps_arguments(
    s: ServiceView,
    ctx: ContextView,
    name: Seq<char>,
    content: Seq<char>,
    duration: u64,
)
    ensures
        ({
            let id = id_from_seed(ctx.seed);
            let t = after_create_template(s, ctx, name, content, duration);
            &&& t.templates.contains_key(id)
            &&& t.templates[id] == (TemplateView {
                id: id,
                name: name,
                content: content,
                owner: ctx.signer,
                current_block: ctx.block_index,
                duration: duration,
            })
        }),
{
}

/// A scan changes nothing of the scanned card but what is left of it: one
/// receipt less, and the remaining total lowered.
pub proof fn law_scan_keeps_card_data(
    s: ServiceView,
    signer: Seq<char>,
    card_id: Seq<char>,
    seed: Seq<u8>,
)
    requires
        !scan_rejected(s, signer, card_id),
    ensures
        ({
            let c = s.cards[card_id];
            let t = after_scan(s, signer, card_id, seed);
            let d = t.cards[card_id];
            &&& t.cards.dom() == s.cards.dom()
            &&& d.id == c.id && d.tid == c.tid && d.name == c.name
            &&& d.public_message == c.public_message && d.private_message == c.private_message
            &&& d.creator == c.creator && d.target == c.target
            &&& d.count == c.count && d.total == c.total && d.is_avg == c.is_avg
            &&& d.current_block == c.current_block && d.duration == c.duration
            &&& d.remaining_count == c.remaining_count - 1
            &&& forall|k: Seq<char>| k != card_id && #[trigger] s.cards.contains_key(k) ==> t.cards[k]
                == s.cards[k]
        }),
{
    let t = after_scan(s, signer, card_id, seed);
    assert(t.cards.dom() =~= s.cards.dom());
}

// ---------------------------------------------------------------------------
// What the listings show
// ---------------------------------------------------------------------------

/// A card's listing entry shows the card's own data: its id, its template id
/// (empty when it has none), messages, name, and the count, total and duration
/// it was created with, not what is left of it.
pub proof fn law_card_entry_shows_card(c: CardView)
    ensures
        card_summary(c).id == c.id,
        c.tid matches Some(t) ==> card_summary(c).template_id == t,
        c.tid is None ==> card_summary(c).template_id == Seq::<char>::empty(),
        card_summary(c).public_message == c.public_message,
        card_summary(c).private_message == c.private_message,
        card_summary(c).name == c.name,
        card_summary(c).count == c.count,
        card_summary(c).total == c.total,
        card_summary(c).duration == c.duration,
{
}

/// A template's listing entry shows its id, name, content and duration.
pub proof fn law_template_entry_shows_template(t: TemplateView)
    ensures
        template_summary(t) == (TemplateSummaryView {
            id: t.id,
            name: t.name,
            content: t.content,
            duration: t.duration,
        }),
{
}

/// Whether `k` names a card.
pub open spec fn names_card(cards: Map<Seq<char>, CardView>) -> spec_fn(Seq<char>) -> bool {
    |k: Seq<char>| cards.contains_key(k)
}

/// Whether `k` names a card created by `contact`.
pub open spec fn names_card_of(cards: Map<Seq<char>, CardView>, contact: Seq<char>) -> spec_fn(
    Seq<char>,
) -> bool {
    |k: Seq<char>| cards.contains_key(k) && cards[k].creator == contact
}

/// Whether `k` names a template.
pub open spec fn names_template(templates: Map<Seq<char>, TemplateView>) -> spec_fn(
    Seq<char>,
) -> bool {
    |k: Seq<char>| templates.contains_key(k)
}

/// The entry of the card `k`.
pub open spec fn entry_of_card(cards: Map<Seq<char>, CardView>) -> spec_fn(Seq<char>) -> CardSummaryView {
    |k: Seq<char>| card_summary(cards[k])
}

/// The entry of the template `k`.
pub open spec fn entry_of_template(templates: Map<Seq<char>, TemplateView>) -> spec_fn(
    Seq<char>,
) -> TemplateSummaryView {
    |k: Seq<char>| template_summary(templates[k])
}

proof fn lemma_card_summaries(ids: Seq<Seq<char>>, cards: Map<Seq<char>, CardView>)
    ensures
        card_summaries(ids, cards) == ids.filter(names_card(cards)).map_values(entry_of_card(cards)),
    decreases ids.len(),
{
    reveal(Seq::filter);
    if ids.len() == 0 {
        assert(ids.filter(names_card(cards)) =~= Seq::<Seq<char>>::empty());
        assert(card_summaries(ids, cards) =~= ids.filter(names_card(cards)).map_values(
            entry_of_card(cards),
        ));
    } else {
        lemma_card_summaries(ids.drop_last(), cards);
        assert(card_summaries(ids, cards) =~= ids.filter(names_card(cards)).map_values(
            entry_of_card(cards),
        ));
    }
}

proof fn lemma_cards_from(ids: Seq<Seq<char>>, cards: Map<Seq<char>, CardView>, contact: Seq<char>)
    ensures
        cards_from(ids, cards, contact) == ids.filter(names_card_of(cards, contact)).map_values(
            entry_of_card(cards),
        ),
    decreases ids.len(),
{
    reveal(Seq::filter);
    if ids.len() == 0 {
        assert(ids.filter(names_card_of(cards, contact)) =~= Seq::<Seq<char>>::empty());
        assert(cards_from(ids, cards, contact) =~= ids.filter(
            names_card_of(cards, contact),
        ).map_values(entry_of_card(cards)));
    } else {
        lemma_cards_from(ids.drop_last(), cards, contact);
        assert(cards_from(ids, cards, contact) =~= ids.filter(
            names_card_of(cards, contact),
        ).map_values(entry_of_card(cards)));
    }
}

proof fn lemma_template_summaries(ids: Seq<Seq<char>>, templates: Map<Seq<char>, TemplateView>)
    ensures
        template_summaries(ids, templates) == ids.filter(names_template(templates)).map_values(
            entry_of_template(templates),
        ),
    decreases ids.len(),
{
    reveal(Seq::filter);
    if ids.len() == 0 {
        assert(ids.filter(names_template(templates)) =~= Seq::<Seq<char>>::empty());
        assert(template_summaries(ids, templates) =~= ids.filter(
            names_template(templates),
        ).map_values(entry_of_template(templates)));
    } else {
        lemma_template_summaries(ids.drop_last(), templates);
        assert(template_summaries(ids, templates) =~= ids.filter(
            names_template(templates),
        ).map_values(entry_of_template(templates)));
    }
}

/// An account's card listing has one entry for each id in its created list
/// that names a card, in list order, whatever is left of the card; `None`
/// when the account has no created list.
pub proof fn law_card_listing(s: ServiceView, account: Seq<char>)
    ensures
        list_card_spec(s, account) == if s.card_created.contains_key(account) {
            Some(
                s.card_created[account].filter(names_card(s.cards)).map_values(
                    entry_of_card(s.cards),
                ),
            )
        } else {
            None
        },
{
    if s.card_created.contains_key(account) {
        lemma_card_summaries(s.card_created[account], s.cards);
    }
}

/// An account's template listing has one entry for each id in its template
/// list that names a template, in list order; `None` when it has no list.
pub proof fn law_template_listing(s: ServiceView, account: Seq<char>)
    ensures
        list_template_spec(s, account) == if s.user_templates.contains_key(account) {
            Some(
                s.user_templates[account].filter(names_template(s.templates)).map_values(
                    entry_of_template(s.templates),
                ),
            )
        } else {
            None
        },
{
    if s.user_templates.contains_key(account) {
        lemma_template_summaries(s.user_templates[account], s.templates);
    }
}

/// An account's listing of cards received from `contact` has one entry for
/// each id in its received list that names a card created by `contact`, in
/// list order; `None` when it has received nothing.
pub proof fn law_received_listing(s: ServiceView, account: Seq<char>, contact: Seq<char>)
    ensures
        list_recvcard_spec(s, account, contact) == if s.card_recv.contains_key(account) {
            Some(
                s.card_recv[account].filter(names_card_of(s.cards, contact)).map_values(
                    entry_of_card(s.cards),
                ),
            )
        } else {
            None
        },
{
    if s.card_recv.contains_key(account) {
        lemma_cards_from(s.card_recv[account], s.cards, contact);
    }
}

/// A scan leaves every account's card listing as it was: a used-up or
/// partly claimed card is still listed, with the same entry.
pub proof fn law_scan_keeps_card_listings(
    s: ServiceView,
    signer: Seq<char>,
    card_id: Seq<char>,
    seed: Seq<u8>,
    account: Seq<char>,
)
    requires
        !scan_rejected(s, signer, card_id),
    ensures
        list_card_spec(after_scan(s, signer, card_id, seed), account) == list_card_spec(s, account),
{
    let t = after_scan(s, signer, card_id, seed);
    law_card_listing(s, account);
    law_card_listing(t, account);
    law_scan_keeps_card_data(s, signer, card_id, seed);
    assert(names_card(t.cards) =~= names_card(s.cards));
    assert forall|k: Seq<char>| #[trigger] s.cards.contains_key(k) implies entry_of_card(t.cards)(k)
        == entry_of_card(s.cards)(k) by {
        if k == card_id {
            law_card_entry_shows_card(t.cards[k]);
            law_card_entry_shows_card(s.cards[k]);
        }
    }
    if s.card_created.contains_key(account) {
        let f = s.card_created[account].filter(names_card(s.cards));
        assert forall|i: int| 0 <= i < f.len() implies s.cards.contains_key(#[trigger] f[i]) by {
            s.card_created[account].lemma_filter_pred(names_card(s.cards), i);
        }
        assert(f.map_values(entry_of_card(t.cards)) =~= f.map_values(entry_of_card(s.cards)));
    }
}

/// An account's contact listing is its contact list as stored, in the order
/// the contacts were made; `None` when it has none.
pub proof fn law_contact_listing(s: ServiceView, account: Seq<char>)
    ensures
        s.user_contacts.contains_key(account) ==> list_contacts_spec(s, account) == Some(
            s.user_contacts[account],
        ),
        !s.user_contacts.contains_key(account) ==> list_contacts_spec(s, account) is None,
{
}

// ---------------------------------------------------------------------------
// Shares and ids
// ---------------------------------------------------------------------------

/// A random card with more than one receipt left hands out a random share:
/// a whole number of 255ths of its total (rounded down), at least one and at
/// most 254 of them, never more than the total.
pub proof fn law_random_share_bounds(c: CardView, seed: Seq<u8>)
    requires
        !c.is_avg,
        c.remaining_count > 1,
    ensures
        recv_amount(c, seed) == random_amount_spec(c.total, seed),
        c.total / 255 <= recv_amount(c, seed) <= (c.total / 255) * 254,
        c.total >= 255 ==> recv_amount(c, seed) % (c.total as int / 255) == 0,
        recv_amount(c, seed) <= c.total,
{
    let b: int = c.total as int / 255;
    let f = crate::seed::share_factor(crate::seed::seed_sum_spec(seed)) as int;
    assert(b * f <= b * 254) by (nonlinear_arith)
        requires
            f <= 254,
            b >= 0,
    ;
    assert(b * 254 <= c.total) by (nonlinear_arith)
        requires
            b == c.total / 255,
    ;
    assert(recv_amount(c, seed) == b * f);
    assert(b <= b * f) by (nonlinear_arith)
        requires
            f >= 1,
            b >= 0,
    ;
    if c.total >= 255 {
        assert((b * f) % b == 0) by (nonlinear_arith)
            requires
                b > 0,
        ;
    }
}

/// The numeric value of a lowercase hexadecimal digit.
pub open spec fn hex_value(ch: char) -> int {
    if ch <= '9' {
        ch as int - 48
    } else {
        ch as int - 87
    }
}

/// Whether `ch` is a lowercase hexadecimal digit.
pub open spec fn is_hex_digit(ch: char) -> bool {
    ('0' <= ch <= '9') || ('a' <= ch <= 'f')
}

/// A byte's part of an id is its value in lowercase hexadecimal without a
/// leading zero: one digit below 16, else two digits, the first not zero.
pub proof fn law_byte_hex_reads_back(b: u8)
    ensures
        ({
            let h = byte_hex(b);
            &&& forall|i: int| 0 <= i < h.len() ==> is_hex_digit(#[trigger] h[i])
            &&& b < 16 ==> h.len() == 1 && hex_value(h[0]) == b
            &&& b >= 16 ==> h.len() == 2 && hex_value(h[0]) != 0 && hex_value(h[0]) * 16 + hex_value(
                h[1],
            ) == b
        }),
{
    let h = byte_hex(b);
    if b >= 16 {
        assert((b / 16) * 16 + b % 16 == b);
    }
    assert forall|i: int| 0 <= i < h.len() implies is_hex_digit(#[trigger] h[i]) by {
    }
}

/// The id of a seed is the ids of its parts, one after the other.
pub proof fn law_id_concatenates(a: Seq<u8>, b: Seq<u8>)
    ensures
        id_from_seed(a + b) == id_from_seed(a) + id_from_seed(b),
    decreases b.len(),
{
    if b.len() == 0 {
        assert(a + b =~= a);
        assert(id_from_seed(b) =~= Seq::<char>::empty());
        assert(id_from_seed(a) + id_from_seed(b) =~= id_from_seed(a));
    } else {
        law_id_concatenates(a, b.drop_last());
        assert((a + b).drop_last() =~= a + b.drop_last());
        assert((a + b).last() == b.last());
        assert(id_from_seed(a + b) =~= id_from_seed(a) + id_from_seed(b));
    }
}

} // verus!
