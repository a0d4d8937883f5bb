//! The listing entries as key/value string pairs, the form in which the
//! service's callers receive them; numbers are written in decimal.
use crate::seed::{hex_digit, hex_digit_str};
use crate::service::{CardSummary, TemplateSummary};
use vstd::prelude::*;

verus! {

/// `n` in decimal, without leading zeros.
pub open spec fn decimal(n: nat) -> Seq<char>
    decreases n,
{
    if n < 10 {
        seq![hex_digit(n as u8)]
    } else {
        decimal(n / 10).push(hex_digit((n % 10) as u8))
    }
}

fn push_decimal(out: &mut String, n: u64)
    ensures
        final(out)@ == old(out)@ + decimal(n as nat),
    decreases n,
{
    if n >= 10 {
        push_decimal(out, n / 10);
    }
    let ghost mid = out@;
    out.append(hex_digit_str((n % 10) as u8));
    proof {
        if n >= 10 {
            assert(decimal(n as nat) == decimal((n / 10) as nat).push(hex_digit((n % 10) as u8)));
        }
        assert(out@ =~= old(out)@ + decimal(n as nat));
    }
}

/// `n` in decimal, without leading zeros.
pub fn decimal_string(n: u64) -> (s: String)
    ensures
        s@ == decimal(n as nat),
{
    let mut s = String::new();
    push_decimal(&mut s, n);
    assert(s@ =~= decimal(n as nat));
    s
}

fn field(key: &str, value: String) -> (f: (String, String))
    ensures
        f.0@ == key@,
        f.1@ == value@,
{
    (key.to_owned(), value)
}

impl TemplateSummary {
    /// The entry's fields: id, name, content and duration.
    pub fn to_fields(&self) -> (r: Vec<(String, String)>)
        ensures
            r.deep_view() == seq![
                ("id"@, self.id@),
                ("name"@, self.name@),
                ("content"@, self.content@),
                ("duration"@, decimal(self.duration as nat)),
            ],
    {
        let mut r: Vec<(String, String)> = Vec::new();
        r.push(field("id", self.id.clone()));
        r.push(field("name", self.name.clone()));
        r.push(field("content", self.content.clone()));
        r.push(field("duration", decimal_string(self.duration)));
        assert(r.deep_view() =~= seq![
            ("id"@, self.id@),
            ("name"@, self.name@),
            ("content"@, self.content@),
            ("duration"@, decimal(self.duration as nat)),
        ]);
        r
    }
}

impl CardSummary {
    /// The entry's fields: id, template id, public and private message,
    /// name, count, total and duration.
    pub fn to_fields(&self) -> (r: Vec<(String, String)>)
        ensures
            r.deep_view() == seq![
                ("id"@, self.id@),
                ("template_id"@, self.template_id@),
                ("public_message"@, self.public_message@),
                ("private_message"@, self.private_message@),
                ("name"@, self.name@),
                ("count"@, decimal(self.count as nat)),
                ("total"@, decimal(self.total as nat)),
                ("duration"@, decimal(self.duration as nat)),
            ],
    {
        let mut r: Vec<(String, String)> = Vec::new();
        r.push(field("id", self.id.clone()));
        r.push(field("template_id", self.template_id.clone()));
        r.push(field("public_message", self.public_message.clone()));
        r.push(field("private_message", self.private_message.clone()));
        r.push(field("name", self.name.clone()));
        r.push(field("count", decimal_string(self.count)));
        r.push(field("total", decimal_string(self.total)));
        r.push(field("duration", decimal_string(self.duration)));
        assert(r.deep_view() =~= seq![
            ("id"@, self.id@),
            ("template_id"@, self.template_id@),
            ("public_message"@, self.public_message@),
            ("private_message"@, self.private_message@),
            ("name"@, self.name@),
            ("count"@, decimal(self.count as nat)),
            ("total"@, decimal(self.total as nat)),
            ("duration"@, decimal(self.duration as nat)),
        ]);
        r
    }
}

} // verus!
