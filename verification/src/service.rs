//! The card service: templates, cards, card scans and the contact lists that
//! scans build up.
//!
//! Every operation takes the call's context (the signing account, the block
//! height and the random seed) as a plain value. A scan that pays out a red
//! packet share hands the payout back to the caller, who performs it.
use crate::model::{
    AccountID, CardID, CardView, Certificate, SayHiCard, Template, TemplateID, TemplateView,
};
use crate::seed::{gen_id, id_from_seed, random_amount, random_amount_spec};
use crate::table::{
    Entry, Table, entries_view, has_unique_keys, keys_unique, lemma_entry_in_view,
    lemma_view_key_has_entry,
};
use vstd::prelude::*;

verus! {

/// One NEAR in yoctoNEAR, the unit that payouts are made in.
pub const NEAR_BASE: u128 = 1_000_000_000_000_000_000_000_000;

// ---------------------------------------------------------------------------
// Values exchanged with the caller
// ---------------------------------------------------------------------------

/// Abstract value of a [`CallContext`].
pub struct ContextView {
    pub signer: Seq<char>,
    pub block_index: u64,
    pub seed: Seq<u8>,
}

/// What the environment tells about a call: who signed it, at which block
/// height it runs, and the random seed of that block.
pub struct CallContext {
    pub signer_account_id: AccountID,
    pub block_index: u64,
    pub random_seed: Vec<u8>,
}

impl View for CallContext {
    type V = ContextView;

    open spec fn view(&self) -> ContextView {
        ContextView {
            signer: self.signer_account_id@,
            block_index: self.block_index,
            seed: self.random_seed@,
        }
    }
}

/// Abstract value of a [`TemplateSummary`].
pub struct TemplateSummaryView {
    pub id: Seq<char>,
    pub name: Seq<char>,
    pub content: Seq<char>,
    pub duration: u64,
}

/// What a template listing shows of a template.
pub struct TemplateSummary {
    pub id: String,
    pub name: String,
    pub content: String,
    pub duration: u64,
}

impl DeepView for TemplateSummary {
    type V = TemplateSummaryView;

    open spec fn deep_view(&self) -> TemplateSummaryView {
        TemplateSummaryView {
            id: self.id@,
            name: self.name@,
            content: self.content@,
            duration: self.duration,
        }
    }
}

/// The listing entry of a template.
pub open spec fn template_summary(t: TemplateView) -> TemplateSummaryView {
    TemplateSummaryView { id: t.id, name: t.name, content: t.content, duration: t.duration }
}

/// Abstract value of a [`CardSummary`].
pub struct CardSummaryView {
    pub id: Seq<char>,
    pub template_id: Seq<char>,
    pub public_message: Seq<char>,
    pub private_message: Seq<char>,
    pub name: Seq<char>,
    pub count: u64,
    pub total: u64,
    pub duration: u64,
}

/// What a card listing (or a scan) shows of a card; a card without a
/// template shows an empty template id.
pub struct CardSummary {
    pub id: String,
    pub template_id: String,
    pub public_message: String,
    pub private_message: String,
    pub name: String,
    pub count: u64,
    pub total: u64,
    pub duration: u64,
}

impl DeepView for CardSummary {
    type V = CardSummaryView;

    open spec fn deep_view(&self) -> CardSummaryView {
        CardSummaryView {
            id: self.id@,
            template_id: self.template_id@,
            public_message: self.public_message@,
            private_message: self.private_message@,
            name: self.name@,
            count: self.count,
            total: self.total,
            duration: self.duration,
        }
    }
}

/// The listing entry of a card.
pub open spec fn card_summary(c: CardView) -> CardSummaryView {
    CardSummaryView {
        id: c.id,
        template_id: match c.tid {
            Some(t) => t,
            None => Seq::empty(),
        },
        public_message: c.public_message,
        private_message: c.private_message,
        name: c.name,
        count: c.count,
        total: c.total,
        duration: c.duration,
    }
}

/// Abstract value of a [`Payout`].
pub struct PayoutView {
    pub receiver_id: Seq<char>,
    pub amount: u128,
}

/// A transfer of `amount` yoctoNEAR to `receiver_id` that the caller is to
/// make.
pub struct Payout {
    pub receiver_id: AccountID,
    pub amount: u128,
}

impl DeepView for Payout {
    type V = PayoutView;

    open spec fn deep_view(&self) -> PayoutView {
        PayoutView { receiver_id: self.receiver_id@, amount: self.amount }
    }
}

/// Abstract value of a [`ScanReceipt`].
pub struct ScanReceiptView {
    pub card: CardSummaryView,
    pub payout: Option<PayoutView>,
}

/// The answer to an accepted scan: the scanned card, and the payout of the
/// receiver's red packet share when that share is not zero.
pub struct ScanReceipt {
    pub card: CardSummary,
    pub payout: Option<Payout>,
}

impl DeepView for ScanReceipt {
    type V = ScanReceiptView;

    open spec fn deep_view(&self) -> ScanReceiptView {
        ScanReceiptView { card: self.card.deep_view(), payout: self.payout.deep_view() }
    }
}

// ---------------------------------------------------------------------------
// The abstract state and its transitions
// ---------------------------------------------------------------------------

/// Abstract value of a [`BLCardService`]: each of its mappings as a `Map`
/// keyed by character sequences. Id lists keep their insertion order; the
/// received-card lists and the contact lists hold each member once.
pub struct ServiceView {
    pub templates: Map<Seq<char>, TemplateView>,
    pub user_templates: Map<Seq<char>, Seq<Seq<char>>>,
    pub cards: Map<Seq<char>, CardView>,
    pub card_created: Map<Seq<char>, Seq<Seq<char>>>,
    pub card_recv: Map<Seq<char>, Seq<Seq<char>>>,
    pub card_scan_result: Map<Seq<char>, Map<Seq<char>, u64>>,
    pub certificates: Map<Seq<char>, crate::model::CertificateView>,
    pub user_certificates: Map<Seq<char>, Seq<Seq<char>>>,
    pub user_contacts: Map<Seq<char>, Seq<Seq<char>>>,
}

/// A stored card is well formed: it is stored under its own id, and what is
/// left of it never exceeds what it started with.
pub open spec fn card_wf(c: CardView, k: Seq<char>) -> bool {
    &&& c.id == k
    &&& c.remaining_count <= c.count
    &&& c.remaining_total <= c.total
}

impl ServiceView {
    /// The state of a service that nobody has used yet.
    pub open spec fn empty() -> ServiceView {
        ServiceView {
            templates: Map::empty(),
            user_templates: Map::empty(),
            cards: Map::empty(),
            card_created: Map::empty(),
            card_recv: Map::empty(),
            card_scan_result: Map::empty(),
            certificates: Map::empty(),
            user_certificates: Map::empty(),
            user_contacts: Map::empty(),
        }
    }

    /// The invariant of the service state.
    pub open spec fn wf(self) -> bool {
        &&& forall|k: Seq<char>| #[trigger] self.cards.contains_key(k) ==> card_wf(self.cards[k], k)
        &&& forall|k: Seq<char>| #[trigger]
            self.card_recv.contains_key(k) ==> self.card_recv[k].no_duplicates()
        &&& forall|k: Seq<char>| #[trigger]
            self.user_contacts.contains_key(k) ==> self.user_contacts[k].no_duplicates()
    }
}

/// `m` with `x` appended to the list of `k` (a new list if `k` had none).
pub open spec fn append_to_list(
    m: Map<Seq<char>, Seq<Seq<char>>>,
    k: Seq<char>,
    x: Seq<char>,
) -> Map<Seq<char>, Seq<Seq<char>>> {
    if m.contains_key(k) {
        m.insert(k, m[k].push(x))
    } else {
        m.insert(k, seq![x])
    }
}

/// `m` with `x` made a member of the list of `k`: appended when it is not
/// there yet, the list unchanged when it is.
pub open spec fn add_member(
    m: Map<Seq<char>, Seq<Seq<char>>>,
    k: Seq<char>,
    x: Seq<char>,
) -> Map<Seq<char>, Seq<Seq<char>>> {
    if m.contains_key(k) {
        if m[k].contains(x) {
            m
        } else {
            m.insert(k, m[k].push(x))
        }
    } else {
        m.insert(k, seq![x])
    }
}

/// The template that `create_template` stores.
pub open spec fn template_record(
    ctx: ContextView,
    name: Seq<char>,
    content: Seq<char>,
    duration: u64,
) -> TemplateView {
    TemplateView {
        id: id_from_seed(ctx.seed),
        name: name,
        content: content,
        owner: ctx.signer,
        current_block: ctx.block_index,
        duration: duration,
    }
}

/// Whether the id the seed gives already names a template.
pub open spec fn template_id_taken(s: ServiceView, ctx: ContextView) -> bool {
    s.templates.contains_key(id_from_seed(ctx.seed))
}

/// The state after an accepted `create_template`: the template is stored
/// under the id the seed gives, and that id is appended to the signer's
/// template list.
pub open spec fn after_create_template(
    s: ServiceView,
    ctx: ContextView,
    name: Seq<char>,
    content: Seq<char>,
    duration: u64,
) -> ServiceView {
    let id = id_from_seed(ctx.seed);
    ServiceView {
        templates: s.templates.insert(id, template_record(ctx, name, content, duration)),
        user_templates: append_to_list(s.user_templates, ctx.signer, id),
        ..s
    }
}

/// The listing entries of the templates named by `ids` that exist, in order.
pub open spec fn template_summaries(
    ids: Seq<Seq<char>>,
    templates: Map<Seq<char>, TemplateView>,
) -> Seq<TemplateSummaryView>
    decreases ids.len(),
{
    if ids.len() == 0 {
        Seq::empty()
    } else {
        let rest = template_summaries(ids.drop_last(), templates);
        if templates.contains_key(ids.last()) {
            rest.push(template_summary(templates[ids.last()]))
        } else {
            rest
        }
    }
}

/// What `list_template` returns: nothing for an account without a template
/// list, else the entries of the listed templates.
pub open spec fn list_template_spec(s: ServiceView, account: Seq<char>) -> Option<
    Seq<TemplateSummaryView>,
> {
    if s.user_templates.contains_key(account) {
        Some(template_summaries(s.user_templates[account], s.templates))
    } else {
        None
    }
}

/// Whether `card_type` names a kind of card: 0 for a card anyone may
/// receive, 1 for a card directed at one account.
pub open spec fn valid_card_type(card_type: u8) -> bool {
    card_type == 0 || card_type == 1
}

/// Whether `create_card` accepts: the card type is valid and the id the seed
/// gives names no card yet.
pub open spec fn card_accepted(s: ServiceView, ctx: ContextView, card_type: u8) -> bool {
    valid_card_type(card_type) && !s.cards.contains_key(id_from_seed(ctx.seed))
}

/// The card that `create_card` stores.
pub open spec fn card_record(
    ctx: ContextView,
    template_id: Seq<char>,
    card_type: u8,
    public_message: Seq<char>,
    private_message: Seq<char>,
    name: Seq<char>,
    count: u64,
    total: u64,
    duration: u64,
    is_rand: bool,
    specify_account: Seq<char>,
) -> CardView {
    CardView {
        id: id_from_seed(ctx.seed),
        tid: Some(template_id),
        name: name,
        public_message: public_message,
        private_message: private_message,
        creator: ctx.signer,
        target: if card_type == 0 {
            None
        } else {
            Some(specify_account)
        },
        count: count,
        remaining_count: count,
        is_avg: !is_rand,
        total: total,
        remaining_total: total,
        current_block: ctx.block_index,
        duration: duration,
    }
}

/// The state after an accepted `create_card`: the card is stored under the
/// id the seed gives and that id is appended to the signer's created list.
pub open spec fn after_create_card(
    s: ServiceView,
    ctx: ContextView,
    template_id: Seq<char>,
    card_type: u8,
    public_message: Seq<char>,
    private_message: Seq<char>,
    name: Seq<char>,
    count: u64,
    total: u64,
    duration: u64,
    is_rand: bool,
    specify_account: Seq<char>,
) -> ServiceView {
    let id = id_from_seed(ctx.seed);
    ServiceView {
        cards: s.cards.insert(
            id,
            card_record(
                ctx,
                template_id,
                card_type,
                public_message,
                private_message,
                name,
                count,
                total,
                duration,
                is_rand,
                specify_account,
            ),
        ),
        card_created: append_to_list(s.card_created, ctx.signer, id),
        ..s
    }
}

/// The listing entries of the cards named by `ids` that exist, in order.
pub open spec fn card_summaries(ids: Seq<Seq<char>>, cards: Map<Seq<char>, CardView>) -> Seq<
    CardSummaryView,
>
    decreases ids.len(),
{
    if ids.len() == 0 {
        Seq::empty()
    } else {
        let rest = card_summaries(ids.drop_last(), cards);
        if cards.contains_key(ids.last()) {
            rest.push(card_summary(cards[ids.last()]))
        } else {
            rest
        }
    }
}

/// What `list_card` returns: nothing for an account that never created a
/// card, else the entries of its created cards.
pub open spec fn list_card_spec(s: ServiceView, account: Seq<char>) -> Option<Seq<CardSummaryView>> {
    if s.card_created.contains_key(account) {
        Some(card_summaries(s.card_created[account], s.cards))
    } else {
        None
    }
}

/// Whether `signer` has received `card_id` before.
pub open spec fn has_received(s: ServiceView, signer: Seq<char>, card_id: Seq<char>) -> bool {
    s.card_recv.contains_key(signer) && s.card_recv[signer].contains(card_id)
}

/// Whether the card `card_id`, `c`, refuses `signer` as a receiver: no card
/// is received once no receipt of it is left, nor by its creator; a directed
/// card is received by its target alone, and a card for anyone once per
/// receiver.
pub open spec fn refuses_receiver(
    s: ServiceView,
    c: CardView,
    signer: Seq<char>,
    card_id: Seq<char>,
) -> bool {
    ||| c.remaining_count == 0
    ||| signer == c.creator
    ||| match c.target {
        Some(t) => t != signer,
        None => has_received(s, signer, card_id),
    }
}

/// Whether a scan of `card_id` by `signer` is turned down (the answer is
/// `None` and nothing changes): the card does not exist or refuses the signer.
pub open spec fn scan_rejected(s: ServiceView, signer: Seq<char>, card_id: Seq<char>) -> bool {
    !s.cards.contains_key(card_id) || refuses_receiver(s, s.cards[card_id], signer, card_id)
}

/// The receiver's share of a card's red packet: an even card hands out
/// `total / count`; a random card hands out its random share while more than
/// one receipt is left, and at the last receipt all that is left unclaimed.
pub open spec fn recv_amount(c: CardView, seed: Seq<u8>) -> int {
    if c.is_avg {
        c.total as int / c.count as int
    } else if c.remaining_count > 1 {
        random_amount_spec(c.total, seed) as int
    } else {
        c.remaining_total as int
    }
}

/// Whether an accepted scan cannot be carried out, because its arithmetic
/// would leave the range of its integers: the share exceeds what is left of
/// the red packet, or the share in yoctoNEAR does not fit in a `u128`.
pub open spec fn scan_faults(
    s: ServiceView,
    signer: Seq<char>,
    card_id: Seq<char>,
    seed: Seq<u8>,
) -> bool {
    &&& !scan_rejected(s, signer, card_id)
    &&& {
        let c = s.cards[card_id];
        let r = recv_amount(c, seed);
        ||| r > c.remaining_total
        ||| r * NEAR_BASE > u128::MAX
    }
}

/// The card after one more receipt: one receipt and the receiver's share less
/// are left.
pub open spec fn scanned_card(c: CardView, seed: Seq<u8>) -> CardView {
    CardView {
        remaining_count: (c.remaining_count - 1) as u64,
        remaining_total: (c.remaining_total - recv_amount(c, seed)) as u64,
        ..c
    }
}

/// The state after an accepted scan: the card is among the signer's
/// received cards, signer and creator are each other's contacts, the
/// signer's share is recorded for the card, and the card has one receipt
/// and that share less left.
pub open spec fn after_scan(
    s: ServiceView,
    signer: Seq<char>,
    card_id: Seq<char>,
    seed: Seq<u8>,
) -> ServiceView {
    let c = s.cards[card_id];
    let shares = if s.card_scan_result.contains_key(card_id) {
        s.card_scan_result[card_id]
    } else {
        Map::empty()
    };
    ServiceView {
        cards: s.cards.insert(card_id, scanned_card(c, seed)),
        card_recv: add_member(s.card_recv, signer, card_id),
        user_contacts: add_member(add_member(s.user_contacts, signer, c.creator), c.creator, signer),
        card_scan_result: s.card_scan_result.insert(
            card_id,
            shares.insert(signer, recv_amount(c, seed) as u64),
        ),
        ..s
    }
}

/// The state after a scan: unchanged when the scan is turned down, else
/// `after_scan`.
pub open spec fn scan_outcome(
    s: ServiceView,
    signer: Seq<char>,
    card_id: Seq<char>,
    seed: Seq<u8>,
) -> ServiceView {
    if scan_rejected(s, signer, card_id) {
        s
    } else {
        after_scan(s, signer, card_id, seed)
    }
}

/// A payout of `amount` to `receiver`, when `amount` is positive.
pub open spec fn payout_spec(receiver: Seq<char>, amount: int) -> Option<PayoutView> {
    if amount > 0 {
        Some(PayoutView { receiver_id: receiver, amount: amount as u128 })
    } else {
        None
    }
}

/// The answer to an accepted scan.
pub open spec fn scan_receipt(
    s: ServiceView,
    signer: Seq<char>,
    card_id: Seq<char>,
    seed: Seq<u8>,
) -> ScanReceiptView {
    let c = s.cards[card_id];
    ScanReceiptView {
        card: card_summary(scanned_card(c, seed)),
        payout: payout_spec(signer, recv_amount(c, seed) * NEAR_BASE),
    }
}

/// What `list_contacts` returns: the account's contacts, if it has a list.
pub open spec fn list_contacts_spec(s: ServiceView, account: Seq<char>) -> Option<Seq<Seq<char>>> {
    if s.user_contacts.contains_key(account) {
        Some(s.user_contacts[account])
    } else {
        None
    }
}

/// The listing entries of the cards named by `ids` that exist and were
/// created by `contact`, in order.
pub open spec fn cards_from(
    ids: Seq<Seq<char>>,
    cards: Map<Seq<char>, CardView>,
    contact: Seq<char>,
) -> Seq<CardSummaryView>
    decreases ids.len(),
{
    if ids.len() == 0 {
        Seq::empty()
    } else {
        let rest = cards_from(ids.drop_last(), cards, contact);
        if cards.contains_key(ids.last()) && cards[ids.last()].creator == contact {
            rest.push(card_summary(cards[ids.last()]))
        } else {
            rest
        }
    }
}

/// What `list_recvcard_by_contact` returns: nothing for an account that never
/// received a card, else the entries of its received cards created by
/// `contact`.
pub open spec fn list_recvcard_spec(
    s: ServiceView,
    account: Seq<char>,
    contact: Seq<char>,
) -> Option<Seq<CardSummaryView>> {
    if s.card_recv.contains_key(account) {
        Some(cards_from(s.card_recv[account], s.cards, contact))
    } else {
        None
    }
}

/// Adding a member keeps every list of the map free of duplicates.
pub proof fn lemma_add_member_keeps_sets(m: Map<Seq<char>, Seq<Seq<char>>>, k: Seq<char>, x: Seq<char>)
    requires
        forall|j: Seq<char>| #[trigger] m.contains_key(j) ==> m[j].no_duplicates(),
    ensures
        forall|j: Seq<char>| #[trigger]
            add_member(m, k, x).contains_key(j) ==> add_member(m, k, x)[j].no_duplicates(),
{
    if m.contains_key(k) && !m[k].contains(x) {
        let l = m[k].push(x);
        assert forall|a: int, b: int| 0 <= a < l.len() && 0 <= b < l.len() && a != b implies l[a]
            != l[b] by {
            if a < m[k].len() && b < m[k].len() {
                assert(m[k].no_duplicates());
            } else if a == m[k].len() {
                assert(l[a] == x);
                assert(l[b] == m[k][b]);
            } else {
                assert(l[b] == x);
                assert(l[a] == m[k][a]);
            }
        }
    }
}

// ---------------------------------------------------------------------------
// The service
// ---------------------------------------------------------------------------

/// The card service's state: templates and cards by id, each account's
/// template, created-card and received-card lists, the shares paid out per
/// card, certificates, and each account's contacts.
pub struct BLCardService {
    templates: Table<Template>,
    user_templates: Table<Vec<TemplateID>>,
    cards: Table<SayHiCard>,
    card_created: Table<Vec<CardID>>,
    card_recv: Table<Vec<CardID>>,
    card_scan_result: Table<Table<u64>>,
    certificates: Table<Certificate>,
    user_certificates: Table<Vec<String>>,
    user_contacts: Table<Vec<AccountID>>,
}

impl View for BLCardService {
    type V = ServiceView;

    closed spec fn view(&self) -> ServiceView {
        ServiceView {
            templates: self.templates@,
            user_templates: self.user_templates@,
            cards: self.cards@,
            card_created: self.card_created@,
            card_recv: self.card_recv@,
            card_scan_result: self.card_scan_result@,
            certificates: self.certificates@,
            user_certificates: self.user_certificates@,
            user_contacts: self.user_contacts@,
        }
    }
}

impl BLCardService {
    /// The invariant of the service: its state is well formed and none of
    /// its tables holds a key twice.
    pub closed spec fn inv(&self) -> bool {
        &&& self@.wf()
        &&& self.templates.wf()
        &&& self.user_templates.wf()
        &&& self.cards.wf()
        &&& self.card_created.wf()
        &&& self.card_recv.wf()
        &&& self.card_scan_result.wf()
        &&& self.certificates.wf()
        &&& self.user_certificates.wf()
        &&& self.user_contacts.wf()
    }
}

impl Default for BLCardService {
    /// A service that nobody has used yet.
    fn default() -> (s: Self)
        ensures
            s@ == ServiceView::empty(),
            s.inv(),
    {
        BLCardService {
            templates: Table::new(),
            user_templates: Table::new(),
            cards: Table::new(),
            card_created: Table::new(),
            card_recv: Table::new(),
            card_scan_result: Table::new(),
            certificates: Table::new(),
            user_certificates: Table::new(),
            user_contacts: Table::new(),
        }
    }
}

/// A copy of a list of strings.
fn clone_strings(v: &Vec<String>) -> (r: Vec<String>)
    ensures
        r@ == v@,
{
    let mut r: Vec<String> = Vec::new();
    let mut i: usize = 0;
    while i < v.len()
        invariant
            i <= v@.len(),
            r@ == v@.take(i as int),
        decreases v@.len() - i,
    {
        r.push(v[i].clone());
        assert(r@ =~= v@.take(i + 1));
        i = i + 1;
    }
    assert(v@.take(i as int) =~= v@);
    r
}

/// Whether the list holds `x`.
fn strings_contain(v: &Vec<String>, x: &String) -> (b: bool)
    ensures
        b == v.deep_view().contains(x@),
{
    let mut i: usize = 0;
    while i < v.len()
        invariant
            i <= v@.len(),
            forall|j: int| 0 <= j < i ==> #[trigger] v.deep_view()[j] != x@,
        decreases v@.len() - i,
    {
        if v[i] == *x {
            assert(v.deep_view()[i as int] == x@);
            return true;
        }
        i = i + 1;
    }
    false
}

/// Appends `x` to the list of `key`.
fn table_append(t: &mut Table<Vec<String>>, key: &String, x: String)
    requires
        old(t).wf(),
    ensures
        final(t)@ == append_to_list(old(t)@, key@, x@),
        final(t).wf(),
{
    match t.get(key) {
        Some(list) => {
            let mut l = clone_strings(list);
            let ghost before = l.deep_view();
            l.push(x);
            assert(l.deep_view() =~= before.push(x@));
            t.insert(key.clone(), l);
        },
        None => {
            let mut l: Vec<String> = Vec::new();
            l.push(x);
            assert(l.deep_view() =~= seq![x@]);
            t.insert(key.clone(), l);
        },
    }
}

/// Makes `x` a member of the list of `key`.
fn table_add_member(t: &mut Table<Vec<String>>, key: &String, x: &String)
    requires
        old(t).wf(),
    ensures
        final(t)@ == add_member(old(t)@, key@, x@),
        final(t).wf(),
{
    match t.get(key) {
        Some(list) => {
            if !strings_contain(list, x) {
                let mut l = clone_strings(list);
                let ghost before = l.deep_view();
                l.push(x.clone());
                assert(l.deep_view() =~= before.push(x@));
                t.insert(key.clone(), l);
            }
        },
        None => {
            let mut l: Vec<String> = Vec::new();
            l.push(x.clone());
            assert(l.deep_view() =~= seq![x@]);
            t.insert(key.clone(), l);
        },
    }
}

fn summarize_template(t: &Template) -> (r: TemplateSummary)
    ensures
        r.deep_view() == template_summary(t@),
{
    TemplateSummary {
        id: t.id.clone(),
        name: t.name.clone(),
        content: t.content.clone(),
        duration: t.duration,
    }
}

fn summarize_card(c: &SayHiCard) -> (r: CardSummary)
    ensures
        r.deep_view() == card_summary(c@),
{
    CardSummary {
        id: c.id.clone(),
        template_id: match &c.tid {
            Some(t) => t.clone(),
            None => String::new(),
        },
        public_message: c.public_message.clone(),
        private_message: c.private_message.clone(),
        name: c.name.clone(),
        count: c.count,
        total: c.total,
        duration: c.duration,
    }
}

/// The receiver's share of `card`'s red packet.
fn share_of(card: &SayHiCard, random_seed: &Vec<u8>) -> (r: u64)
    requires
        1 <= card.remaining_count <= card.count,
        card.remaining_total <= card.total,
    ensures
        r == recv_amount(card@, random_seed@),
{
    if card.is_avg {
        card.total / card.count
    } else if card.remaining_count - 1 > 0 {
        random_amount(card.total, random_seed)
    } else {
        card.remaining_total
    }
}

impl BLCardService {
    /// The invariant holds of the service's state.
    pub proof fn lemma_inv_wf(&self)
        requires
            self.inv(),
        ensures
            self@.wf(),
    {
    }

    /// Whether `account` has received `card_id` before.
    fn has_received(&self, account: &String, card_id: &String) -> (b: bool)
        ensures
            b == has_received(self@, account@, card_id@),
    {
        match self.card_recv.get(account) {
            Some(list) => strings_contain(list, card_id),
            None => false,
        }
    }

    /// Whether the card `card_id`, `card`, refuses `account` as a receiver.
    fn refuses(&self, card: &SayHiCard, account: &String, card_id: &String) -> (b: bool)
        ensures
            b == refuses_receiver(self@, card@, account@, card_id@),
    {
        if card.remaining_count == 0 || *account == card.creator {
            return true;
        }
        match &card.target {
            Some(target) => *target != *account,
            None => self.has_received(account, card_id),
        }
    }

    /// Creates a template for the signer under the id the seed gives and
    /// appends that id to the signer's template list, answering `true`. An id
    /// that already names a template is refused with `false` and no change.
    pub fn create_template(
        &mut self,
        ctx: &CallContext,
        name: &String,
        content: &String,
        duration: u64,
    ) -> (ok: bool)
        requires
            old(self).inv(),
        ensures
            ok == !template_id_taken(old(self)@, ctx@),
            ok ==> final(self)@ == after_create_template(old(self)@, ctx@, name@, content@, duration),
            !ok ==> final(self)@ == old(self)@,
            final(self).inv(),
    {
        let account_id = &ctx.signer_account_id;
        let id_str = gen_id(&ctx.random_seed);
        if self.templates.contains_key(&id_str) {
            return false;
        }
        let new_template = Template::new(
            id_str.as_str(),
            name.as_str(),
            content.as_str(),
            account_id.as_str(),
            ctx.block_index,
            duration,
        );
        self.templates.insert(id_str.clone(), new_template);
        table_append(&mut self.user_templates, account_id, id_str);
        true
    }

    /// The signer's templates, as listing entries in list order, skipping
    /// listed ids that name no template; `None` if the signer has no
    /// template list.
    pub fn list_template(&self, ctx: &CallContext) -> (r: Option<Vec<TemplateSummary>>)
        ensures
            r.deep_view() == list_template_spec(self@, ctx@.signer),
    {
        let ids = match self.user_templates.get(&ctx.signer_account_id) {
            Some(ids) => ids,
            None => return None,
        };
        let mut rslt: Vec<TemplateSummary> = Vec::new();
        let mut i: usize = 0;
        while i < ids.len()
            invariant
                i <= ids@.len(),
                rslt.deep_view() == template_summaries(ids.deep_view().take(i as int), self.templates@),
            decreases ids@.len() - i,
        {
            let ghost before = rslt.deep_view();
            assert(ids.deep_view().take(i + 1).drop_last() =~= ids.deep_view().take(i as int));
            assert(ids.deep_view().take(i + 1).last() == ids[i as int]@);
            match self.templates.get(&ids[i]) {
                Some(item) => {
                    rslt.push(summarize_template(item));
                    assert(rslt.deep_view() =~= before.push(template_summary(item@)));
                },
                None => {},
            }
            i = i + 1;
        }
        assert(ids.deep_view().take(i as int) =~= ids.deep_view());
        Some(rslt)
    }

    /// Creates a card for the signer under the id the seed gives and appends
    /// that id to the signer's created list. A card type other than 0 (for
    /// anyone) and 1 (directed at `specify_account`), and an id that already
    /// names a card, are refused with an empty id and no change. The card
    /// starts with all of `count` and `total` left, and splits its red packet
    /// evenly unless `is_rand`.
    pub fn create_card(
        &mut self,
        ctx: &CallContext,
        template_id: &String,
        card_type: u8,
        public_message: &String,
        private_message: &String,
        name: &String,
        count: u64,
        total: u64,
        duration: u64,
        is_rand: bool,
        specify_account: &String,
    ) -> (id: String)
        requires
            old(self).inv(),
        ensures
            final(self).inv(),
            card_accepted(old(self)@, ctx@, card_type) ==> {
                &&& id@ == id_from_seed(ctx@.seed)
                &&& final(self)@ == after_create_card(
                    old(self)@,
                    ctx@,
                    template_id@,
                    card_type,
                    public_message@,
                    private_message@,
                    name@,
                    count,
                    total,
                    duration,
                    is_rand,
                    specify_account@,
                )
            },
            !card_accepted(old(self)@, ctx@, card_type) ==> {
                &&& id@ == Seq::<char>::empty()
                &&& final(self)@ == old(self)@
            },
    {
        if card_type != 0 && card_type != 1 {
            return String::new();
        }
        let account_id = &ctx.signer_account_id;
        let id_str = gen_id(&ctx.random_seed);
        if self.cards.contains_key(&id_str) {
            return String::new();
        }
        let rslt = id_str.clone();
        let target = if card_type == 0 {
            None
        } else {
            Some(specify_account.clone())
        };
        let new_card = SayHiCard::new(
            id_str.as_str(),
            Some(template_id.clone()),
            name.as_str(),
            public_message.as_str(),
            private_message.as_str(),
            account_id.as_str(),
            target,
            count,
            !is_rand,
            total,
            ctx.block_index,
            duration,
        );
        let ghost s0 = self@;
        self.cards.insert(id_str.clone(), new_card);
        table_append(&mut self.card_created, account_id, id_str);
        proof {
            let id = id_from_seed(ctx@.seed);
            assert(self@.card_recv == s0.card_recv);
            assert(self@.user_contacts == s0.user_contacts);
            assert forall|k: Seq<char>| #[trigger] self@.cards.contains_key(k) implies card_wf(
                self@.cards[k],
                k,
            ) by {
                if k != id {
                    assert(s0.cards.contains_key(k));
                }
            }
        }
        rslt
    }

    /// The cards the signer created, as listing entries in creation order,
    /// skipping ids that name no card; `None` if the signer never created one.
    pub fn list_card(&self, ctx: &CallContext) -> (r: Option<Vec<CardSummary>>)
        ensures
            r.deep_view() == list_card_spec(self@, ctx@.signer),
    {
        let ids = match self.card_created.get(&ctx.signer_account_id) {
            Some(ids) => ids,
            None => return None,
        };
        let mut rslt: Vec<CardSummary> = Vec::new();
        let mut i: usize = 0;
        while i < ids.len()
            invariant
                i <= ids@.len(),
                rslt.deep_view() == card_summaries(ids.deep_view().take(i as int), self.cards@),
            decreases ids@.len() - i,
        {
            let ghost before = rslt.deep_view();
            assert(ids.deep_view().take(i + 1).drop_last() =~= ids.deep_view().take(i as int));
            assert(ids.deep_view().take(i + 1).last() == ids[i as int]@);
            match self.cards.get(&ids[i]) {
                Some(item) => {
                    rslt.push(summarize_card(item));
                    assert(rslt.deep_view() =~= before.push(card_summary(item@)));
                },
                None => {},
            }
            i = i + 1;
        }
        assert(ids.deep_view().take(i as int) =~= ids.deep_view());
        Some(rslt)
    }

    /// The payout of `amount` to `target_account`, when the amount is positive.
    pub fn transfer(&self, target_account: String, amount: u128) -> (p: Option<Payout>)
        ensures
            p.deep_view() == payout_spec(target_account@, amount as int),
    {
        if 0 < amount {
            return Some(Payout { receiver_id: target_account, amount });
        }
        None
    }

    /// Whether a scan of `card_id` by the signer would be accepted but could
    /// not be carried out (see [`scan_faults`]); callers test this before
    /// `scan_card`.
    pub fn scan_card_faults(&self, ctx: &CallContext, card_id: &String) -> (b: bool)
        requires
            self.inv(),
        ensures
            b == scan_faults(self@, ctx@.signer, card_id@, ctx@.seed),
    {
        let card = match self.cards.get(card_id) {
            Some(card) => card,
            None => return false,
        };
        if self.refuses(card, &ctx.signer_account_id, card_id) {
            return false;
        }
        assert(card_wf(self@.cards[card_id@], card_id@));
        let recv_total = share_of(card, &ctx.random_seed);
        if recv_total > card.remaining_total {
            return true;
        }
        let limit: u128 = u128::MAX / NEAR_BASE;
        proof {
            let r = recv_total as int;
            if r <= limit {
                assert(r * NEAR_BASE <= limit * NEAR_BASE) by (nonlinear_arith)
                    requires
                        r <= limit,
                ;
            } else {
                assert(r * NEAR_BASE >= (limit + 1) * NEAR_BASE) by (nonlinear_arith)
                    requires
                        r >= limit + 1,
                ;
            }
        }
        (recv_total as u128) > limit
    }

    /// The signer scans (receives) a card. A card that does not exist, or
    /// that refuses the signer, is answered with `None` and changes nothing.
    /// Otherwise the card joins the signer's received cards, signer and
    /// creator become each other's contacts, the signer's share of the red
    /// packet is recorded and paid out (when positive), and the card has one
    /// receipt and that share less left; the answer is the card's entry and
    /// the payout.
    pub fn scan_card(&mut self, ctx: &CallContext, card_id: &String) -> (r: Option<ScanReceipt>)
        requires
            old(self).inv(),
            !scan_faults(old(self)@, ctx@.signer, card_id@, ctx@.seed),
        ensures
            final(self).inv(),
            final(self)@ == scan_outcome(old(self)@, ctx@.signer, card_id@, ctx@.seed),
            scan_rejected(old(self)@, ctx@.signer, card_id@) ==> r is None && final(self)@ == old(
                self,
            )@,
            !scan_rejected(old(self)@, ctx@.signer, card_id@) ==> {
                &&& r.deep_view() == Some(scan_receipt(old(self)@, ctx@.signer, card_id@, ctx@.seed))
                &&& final(self)@ == after_scan(old(self)@, ctx@.signer, card_id@, ctx@.seed)
            },
    {
        let account_id = &ctx.signer_account_id;
        let mut card = match self.cards.get(card_id) {
            Some(card) => card.clone(),
            None => return None,
        };
        if self.refuses(&card, account_id, card_id) {
            return None;
        }
        let ghost s0 = self@;
        table_add_member(&mut self.card_recv, account_id, card_id);
        table_add_member(&mut self.user_contacts, account_id, &card.creator);
        table_add_member(&mut self.user_contacts, &card.creator, account_id);
        proof {
            lemma_add_member_keeps_sets(s0.card_recv, account_id@, card_id@);
            lemma_add_member_keeps_sets(s0.user_contacts, account_id@, card@.creator);
            lemma_add_member_keeps_sets(
                add_member(s0.user_contacts, account_id@, card@.creator),
                card@.creator,
                account_id@,
            );
        }
        let recv_total = share_of(&card, &ctx.random_seed);
        let mut item = match self.card_scan_result.get(card_id) {
            Some(shares) => shares.copy(),
            None => Table::new(),
        };
        item.insert(account_id.clone(), recv_total);
        let payout = self.transfer(account_id.clone(), recv_total as u128 * NEAR_BASE);
        self.card_scan_result.insert(card_id.clone(), item);
        card.remaining_count = card.remaining_count - 1;
        card.remaining_total = card.remaining_total - recv_total;
        let summary = summarize_card(&card);
        self.cards.insert(card_id.clone(), card);
        proof {
            assert(self@ == after_scan(s0, ctx@.signer, card_id@, ctx@.seed));
        }
        Some(ScanReceipt { card: summary, payout })
    }

    /// The signer's contacts, in the order they were made; `None` if the
    /// signer has none yet.
    pub fn list_contacts(&self, ctx: &CallContext) -> (r: Option<Vec<String>>)
        ensures
            r.deep_view() == list_contacts_spec(self@, ctx@.signer),
    {
        match self.user_contacts.get(&ctx.signer_account_id) {
            Some(contact_sets) => {
                let list = clone_strings(contact_sets);
                Some(list)
            },
            None => None,
        }
    }

    /// The cards the signer received that were created by `contact`, as
    /// listing entries in the order they were received, skipping ids that
    /// name no card; `None` if the signer never received a card.
    pub fn list_recvcard_by_contact(&self, ctx: &CallContext, contact: &String) -> (r: Option<
        Vec<CardSummary>,
    >)
        ensures
            r.deep_view() == list_recvcard_spec(self@, ctx@.signer, contact@),
    {
        let ids = match self.card_recv.get(&ctx.signer_account_id) {
            Some(ids) => ids,
            None => return None,
        };
        let mut rslt: Vec<CardSummary> = Vec::new();
        let mut i: usize = 0;
        while i < ids.len()
            invariant
                i <= ids@.len(),
                rslt.deep_view() == cards_from(ids.deep_view().take(i as int), self.cards@, contact@),
            decreases ids@.len() - i,
        {
            let ghost before = rslt.deep_view();
            assert(ids.deep_view().take(i + 1).drop_last() =~= ids.deep_view().take(i as int));
            assert(ids.deep_view().take(i + 1).last() == ids[i as int]@);
            match self.cards.get(&ids[i]) {
                Some(card) => {
                    if card.creator == *contact {
                        rslt.push(summarize_card(card));
                        assert(rslt.deep_view() =~= before.push(card_summary(card@)));
                    }
                },
                None => {},
            }
            i = i + 1;
        }
        assert(ids.deep_view().take(i as int) =~= ids.deep_view());
        Some(rslt)
    }
}

// ---------------------------------------------------------------------------
// The state as plain data
// ---------------------------------------------------------------------------

/// The service's state as plain data, for storing it between calls: the
/// entries of each of its tables.
pub struct ServiceParts {
    pub templates: Vec<Entry<Template>>,
    pub user_templates: Vec<Entry<Vec<TemplateID>>>,
    pub cards: Vec<Entry<SayHiCard>>,
    pub card_created: Vec<Entry<Vec<CardID>>>,
    pub card_recv: Vec<Entry<Vec<CardID>>>,
    pub card_scan_result: Vec<Entry<Table<u64>>>,
    pub certificates: Vec<Entry<Certificate>>,
    pub user_certificates: Vec<Entry<Vec<String>>>,
    pub user_contacts: Vec<Entry<Vec<AccountID>>>,
}

/// The state that the parts stand for.
pub open spec fn parts_view(p: ServiceParts) -> ServiceView {
    ServiceView {
        templates: entries_view(p.templates@),
        user_templates: entries_view(p.user_templates@),
        cards: entries_view(p.cards@),
        card_created: entries_view(p.card_created@),
        card_recv: entries_view(p.card_recv@),
        card_scan_result: entries_view(p.card_scan_result@),
        certificates: entries_view(p.certificates@),
        user_certificates: entries_view(p.user_certificates@),
        user_contacts: entries_view(p.user_contacts@),
    }
}

/// Every list among the entries holds each member once.
pub open spec fn lists_are_sets(s: Seq<Entry<Vec<String>>>) -> bool {
    forall|i: int| 0 <= i < s.len() ==> (#[trigger] s[i]).value.deep_view().no_duplicates()
}

/// Every card among the entries is well formed under its key.
pub open spec fn cards_are_wf(s: Seq<Entry<SayHiCard>>) -> bool {
    forall|i: int| 0 <= i < s.len() ==> card_wf((#[trigger] s[i]).value@, s[i].key@)
}

/// Parts that a service can be rebuilt from: no table holds a key twice,
/// every card is well formed, and the received-card and contact lists hold
/// each member once.
pub open spec fn parts_ok(p: ServiceParts) -> bool {
    &&& keys_unique(p.templates@)
    &&& keys_unique(p.user_templates@)
    &&& keys_unique(p.cards@)
    &&& keys_unique(p.card_created@)
    &&& keys_unique(p.card_recv@)
    &&& keys_unique(p.card_scan_result@)
    &&& keys_unique(p.certificates@)
    &&& keys_unique(p.user_certificates@)
    &&& keys_unique(p.user_contacts@)
    &&& cards_are_wf(p.cards@)
    &&& lists_are_sets(p.card_recv@)
    &&& lists_are_sets(p.user_contacts@)
}

/// Whether the list holds each member once.
fn strings_distinct(v: &Vec<String>) -> (b: bool)
    ensures
        b == v.deep_view().no_duplicates(),
{
    let mut j: usize = 0;
    while j < v.len()
        invariant
            j <= v@.len(),
            forall|a: int, b: int|
                0 <= a < j && 0 <= b < j && a != b ==> v.deep_view()[a] != v.deep_view()[b],
        decreases v@.len() - j,
    {
        let mut i: usize = 0;
        while i < j
            invariant
                i <= j < v@.len(),
                forall|a: int| 0 <= a < i ==> v.deep_view()[a] != v.deep_view()[j as int],
            decreases j - i,
        {
            if v[i] == v[j] {
                assert(v.deep_view()[i as int] == v.deep_view()[j as int]);
                return false;
            }
            i = i + 1;
        }
        j = j + 1;
    }
    true
}

fn all_lists_distinct(entries: &Vec<Entry<Vec<String>>>) -> (b: bool)
    ensures
        b == lists_are_sets(entries@),
{
    let mut i: usize = 0;
    while i < entries.len()
        invariant
            i <= entries@.len(),
            forall|j: int| 0 <= j < i ==> (#[trigger] entries@[j]).value.deep_view().no_duplicates(),
        decreases entries@.len() - i,
    {
        if !strings_distinct(&entries[i].value) {
            return false;
        }
        i = i + 1;
    }
    true
}

fn all_cards_wf(entries: &Vec<Entry<SayHiCard>>) -> (b: bool)
    ensures
        b == cards_are_wf(entries@),
{
    let mut i: usize = 0;
    while i < entries.len()
        invariant
            i <= entries@.len(),
            forall|j: int| 0 <= j < i ==> card_wf((#[trigger] entries@[j]).value@, entries@[j].key@),
        decreases entries@.len() - i,
    {
        let e = &entries[i];
        if !(e.value.id == e.key && e.value.remaining_count <= e.value.count
            && e.value.remaining_total <= e.value.total) {
            return false;
        }
        i = i + 1;
    }
    true
}

impl BLCardService {
    /// The state as plain data.
    pub fn into_parts(self) -> (p: ServiceParts)
        requires
            self.inv(),
        ensures
            parts_ok(p),
            parts_view(p) == self@,
    {
        let ghost v = self@;
        assert(v.wf());
        let p = ServiceParts {
            templates: self.templates.into_entries(),
            user_templates: self.user_templates.into_entries(),
            cards: self.cards.into_entries(),
            card_created: self.card_created.into_entries(),
            card_recv: self.card_recv.into_entries(),
            card_scan_result: self.card_scan_result.into_entries(),
            certificates: self.certificates.into_entries(),
            user_certificates: self.user_certificates.into_entries(),
            user_contacts: self.user_contacts.into_entries(),
        };
        proof {
            assert forall|i: int| 0 <= i < p.cards@.len() implies card_wf(
                (#[trigger] p.cards@[i]).value@,
                p.cards@[i].key@,
            ) by {
                lemma_entry_in_view(p.cards@, i);
                let k = p.cards@[i].key@;
                assert(v.cards.contains_key(k));
                assert(card_wf(v.cards[k], k));
            }
            assert forall|i: int| 0 <= i < p.card_recv@.len() implies (
            #[trigger] p.card_recv@[i]).value.deep_view().no_duplicates() by {
                lemma_entry_in_view(p.card_recv@, i);
                let k = p.card_recv@[i].key@;
                assert(v.card_recv.contains_key(k));
                assert(v.card_recv[k].no_duplicates());
            }
            assert forall|i: int| 0 <= i < p.user_contacts@.len() implies (
            #[trigger] p.user_contacts@[i]).value.deep_view().no_duplicates() by {
                lemma_entry_in_view(p.user_contacts@, i);
                let k = p.user_contacts@[i].key@;
                assert(v.user_contacts.contains_key(k));
                assert(v.user_contacts[k].no_duplicates());
            }
        }
        p
    }

    /// Rebuilds a service from its parts; `None` when the parts break the
    /// service's invariant (see [`parts_ok`]).
    pub fn from_parts(parts: ServiceParts) -> (r: Option<BLCardService>)
        ensures
            r is Some <==> parts_ok(parts),
            r matches Some(s) ==> s@ == parts_view(parts) && s.inv(),
    {
        let ok = has_unique_keys(&parts.templates) && has_unique_keys(&parts.user_templates)
            && has_unique_keys(&parts.cards) && has_unique_keys(&parts.card_created)
            && has_unique_keys(&parts.card_recv) && has_unique_keys(&parts.card_scan_result)
            && has_unique_keys(&parts.certificates) && has_unique_keys(&parts.user_certificates)
            && has_unique_keys(&parts.user_contacts) && all_cards_wf(&parts.cards)
            && all_lists_distinct(&parts.card_recv) && all_lists_distinct(&parts.user_contacts);
        if !ok {
            return None;
        }
        let ghost p = parts;
        let s = BLCardService {
            templates: Table::from_entries(parts.templates),
            user_templates: Table::from_entries(parts.user_templates),
            cards: Table::from_entries(parts.cards),
            card_created: Table::from_entries(parts.card_created),
            card_recv: Table::from_entries(parts.card_recv),
            card_scan_result: Table::from_entries(parts.card_scan_result),
            certificates: Table::from_entries(parts.certificates),
            user_certificates: Table::from_entries(parts.user_certificates),
            user_contacts: Table::from_entries(parts.user_contacts),
        };
        proof {
            let v = parts_view(p);
            assert forall|k: Seq<char>| #[trigger] v.cards.contains_key(k) implies card_wf(
                v.cards[k],
                k,
            ) by {
                lemma_view_key_has_entry(p.cards@, k);
                let i = choose|i: int|
                    crate::table::first_with_key(p.cards@, i, k) && entries_view(p.cards@)[k]
                        == #[trigger] p.cards@[i].value.deep_view();
                assert(card_wf(p.cards@[i].value@, p.cards@[i].key@));
            }
            assert forall|k: Seq<char>| #[trigger]
                v.card_recv.contains_key(k) implies v.card_recv[k].no_duplicates() by {
                lemma_view_key_has_entry(p.card_recv@, k);
                let i = choose|i: int|
                    crate::table::first_with_key(p.card_recv@, i, k) && entries_view(p.card_recv@)[k]
                        == #[trigger] p.card_recv@[i].value.deep_view();
                assert(p.card_recv@[i].value.deep_view().no_duplicates());
            }
            assert forall|k: Seq<char>| #[trigger]
                v.user_contacts.contains_key(k) implies v.user_contacts[k].no_duplicates() by {
                lemma_view_key_has_entry(p.user_contacts@, k);
                let i = choose|i: int|
                    crate::table::first_with_key(p.user_contacts@, i, k) && entries_view(
                        p.user_contacts@,
                    )[k] == #[trigger] p.user_contacts@[i].value.deep_view();
                assert(p.user_contacts@[i].value.deep_view().no_duplicates());
            }
        }
        Some(s)
    }
}

} // verus!
