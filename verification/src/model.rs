//! The records the service keeps: templates, cards and certificates.
//!
//! A template pre-defines a kind of card; a card carries its messages, its
//! creator, an optional target account and its red-packet bookkeeping.
use std::collections::HashSet;
use vstd::prelude::*;

verus! {

pub type TemplateID = String;

pub type CardID = String;

pub type AccountID = String;

pub type CertificateID = String;

/// Abstract value of a [`Template`].
pub struct TemplateView {
    pub id: Seq<char>,
    pub name: Seq<char>,
    pub content: Seq<char>,
    pub owner: Seq<char>,
    pub current_block: u64,
    pub duration: u64,
}

/// A card template: its id, name (the default card name), content (the
/// default public message), owner, the block it was created in and its
/// lifetime in blocks.
#[derive(Default)]
pub struct Template {
    pub id: TemplateID,
    pub name: String,
    pub content: String,
    pub owner: AccountID,
    pub current_block: u64,
    pub duration: u64,
}

impl View for Template {
    type V = TemplateView;

    open spec fn view(&self) -> TemplateView {
        TemplateView {
            id: self.id@,
            name: self.name@,
            content: self.content@,
            owner: self.owner@,
            current_block: self.current_block,
            duration: self.duration,
        }
    }
}

impl DeepView for Template {
    type V = TemplateView;

    open spec fn deep_view(&self) -> TemplateView {
        self@
    }
}

impl Clone for Template {
    fn clone(&self) -> (res: Self)
        ensures
            res == *self,
    {
        Template {
            id: self.id.clone(),
            name: self.name.clone(),
            content: self.content.clone(),
            owner: self.owner.clone(),
            current_block: self.current_block,
            duration: self.duration,
        }
    }
}

impl Template {
    /// Builds a template from its parts.
    pub fn new(
        id: &str,
        new_name: &str,
        content: &str,
        owner: &str,
        new_current_block: u64,
        new_duration: u64,
    ) -> (t: Self)
        ensures
            t@ == (TemplateView {
                id: id@,
                name: new_name@,
                content: content@,
                owner: owner@,
                current_block: new_current_block,
                duration: new_duration,
            }),
    {
        Template {
            id: id.to_owned(),
            name: new_name.to_owned(),
            content: content.to_owned(),
            owner: owner.to_owned(),
            current_block: new_current_block,
            duration: new_duration,
        }
    }
}

/// Abstract value of a [`SayHiCard`].
pub struct CardView {
    pub id: Seq<char>,
    pub tid: Option<Seq<char>>,
    pub name: Seq<char>,
    pub public_message: Seq<char>,
    pub private_message: Seq<char>,
    pub creator: Seq<char>,
    pub target: Option<Seq<char>>,
    pub count: u64,
    pub remaining_count: u64,
    pub is_avg: bool,
    pub total: u64,
    pub remaining_total: u64,
    pub current_block: u64,
    pub duration: u64,
}

/// The view of an optional string.
pub open spec fn opt_view(o: Option<String>) -> Option<Seq<char>> {
    match o {
        Some(s) => Some(s@),
        None => None,
    }
}

/// A card. `target` is `None` for a card that anyone may receive (up to
/// `count` times) and names the one account that may receive a directed
/// card. `is_avg` tells whether the red packet is split evenly or at random;
/// `remaining_count` and `remaining_total` are what is left to hand out.
#[derive(Default)]
pub struct SayHiCard {
    pub id: CardID,
    pub tid: Option<TemplateID>,
    pub name: String,
    pub public_message: String,
    pub private_message: String,
    pub creator: AccountID,
    pub target: Option<AccountID>,
    pub count: u64,
    pub remaining_count: u64,
    pub is_avg: bool,
    pub total: u64,
    pub remaining_total: u64,
    pub current_block: u64,
    pub duration: u64,
}

impl View for SayHiCard {
    type V = CardView;

    open spec fn view(&self) -> CardView {
        CardView {
            id: self.id@,
            tid: opt_view(self.tid),
            name: self.name@,
            public_message: self.public_message@,
            private_message: self.private_message@,
            creator: self.creator@,
            target: opt_view(self.target),
            count: self.count,
            remaining_count: self.remaining_count,
            is_avg: self.is_avg,
            total: self.total,
            remaining_total: self.remaining_total,
            current_block: self.current_block,
            duration: self.duration,
        }
    }
}

impl DeepView for SayHiCard {
    type V = CardView;

    open spec fn deep_view(&self) -> CardView {
        self@
    }
}

/// Copies an optional string.
pub fn clone_opt(o: &Option<String>) -> (res: Option<String>)
    ensures
        res == *o,
{
    match o {
        Some(s) => Some(s.clone()),
        None => None,
    }
}

impl Clone for SayHiCard {
    fn clone(&self) -> (res: Self)
        ensures
            res == *self,
    {
        SayHiCard {
            id: self.id.clone(),
            tid: clone_opt(&self.tid),
            name: self.name.clone(),
            public_message: self.public_message.clone(),
            private_message: self.private_message.clone(),
            creator: self.creator.clone(),
            target: clone_opt(&self.target),
            count: self.count,
            remaining_count: self.remaining_count,
            is_avg: self.is_avg,
            total: self.total,
            remaining_total: self.remaining_total,
            current_block: self.current_block,
            duration: self.duration,
        }
    }
}

impl SayHiCard {
    /// Builds a fresh card: nothing of it has been handed out yet, so the
    /// remaining count and total start at `count` and `total`.
    pub fn new(
        id: &str,
        tid: Option<TemplateID>,
        name: &str,
        public_message: &str,
        private_message: &str,
        creator: &str,
        target: Option<AccountID>,
        count: u64,
        is_avg: bool,
        total: u64,
        current_block: u64,
        duration: u64,
    ) -> (card: Self)
        ensures
            card@ == (CardView {
                id: id@,
                tid: opt_view(tid),
                name: name@,
                public_message: public_message@,
                private_message: private_message@,
                creator: creator@,
                target: opt_view(target),
                count: count,
                remaining_count: count,
                is_avg: is_avg,
                total: total,
                remaining_total: total,
                current_block: current_block,
                duration: duration,
            }),
    {
        SayHiCard {
            id: id.to_owned(),
            tid: tid,
            name: name.to_owned(),
            public_message: public_message.to_owned(),
            private_message: private_message.to_owned(),
            creator: creator.to_owned(),
            target: target,
            count: count,
            remaining_count: count,
            is_avg: is_avg,
            total: total,
            remaining_total: total,
            current_block: current_block,
            duration: duration,
        }
    }
}

/// Abstract value of a [`Certificate`].
pub struct CertificateView {
    pub id: Seq<char>,
    pub public_key: Seq<char>,
    pub contacts: Set<Seq<char>>,
    pub other_attrs: Seq<char>,
}

/// A certificate describes attributes of a user: a public key, a set of
/// contacts and further attributes.
#[derive(Default)]
pub struct Certificate {
    pub id: CertificateID,
    pub public_key: String,
    pub contacts: HashSet<String>,
    pub other_attrs: String,
}

impl View for Certificate {
    type V = CertificateView;

    open spec fn view(&self) -> CertificateView {
        CertificateView {
            id: self.id@,
            public_key: self.public_key@,
            contacts: self.contacts.deep_view(),
            other_attrs: self.other_attrs@,
        }
    }
}

impl DeepView for Certificate {
    type V = CertificateView;

    open spec fn deep_view(&self) -> CertificateView {
        self@
    }
}

impl Certificate {
    /// Builds a certificate from its parts; the contact set is taken as given.
    pub fn new(id: &str, public_key: &str, contacts: HashSet<String>, other_attrs: &str) -> (c: Self)
        ensures
            c@ == (CertificateView {
                id: id@,
                public_key: public_key@,
                contacts: contacts.deep_view(),
                other_attrs: other_attrs@,
            }),
            c.contacts == contacts,
    {
        Certificate {
            id: id.to_owned(),
            public_key: public_key.to_owned(),
            contacts: contacts,
            other_attrs: other_attrs.to_owned(),
        }
    }
}

} // verus!
