//! Address text and the autonomous-system record shown for an address.
use vstd::prelude::*;

use crate::text::{decimal, decimal_string, digits_value, is_digit, lemma_decimal_reads_back};

verus! {

/// The text shown where a value could not be found.
pub const UNKNOWN: &'static str = "unknown";

/// An address as the text that names it, tagged with its family.
#[derive(Debug, Clone)]
pub enum Ip {
    V4(String),
    V6(String),
}

impl Ip {
    /// The address text, whichever the family.
    pub open spec fn text(&self) -> Seq<char> {
        match self {
            Ip::V4(s) => s@,
            Ip::V6(s) => s@,
        }
    }

    /// The address text, whichever the family.
    pub fn to_string(&self) -> (s: String)
        ensures
            s@ == self.text(),
    {
        match self {
            Ip::V4(ip) => ip.clone(),
            Ip::V6(ip) => ip.clone(),
        }
    }
}

/// The text of `value`, or `UNKNOWN` where there is none.
pub open spec fn known_or_unknown(value: Option<Seq<char>>) -> Seq<char> {
    match value {
        Some(v) => v,
        None => UNKNOWN@,
    }
}

/// The view of an optional string.
pub open spec fn opt_view(value: Option<String>) -> Option<Seq<char>> {
    match value {
        Some(v) => Some(v@),
        None => None,
    }
}

/// The given text, or `UNKNOWN` where there is none.
pub fn or_unknown(value: Option<String>) -> (s: String)
    ensures
        s@ == known_or_unknown(opt_view(value)),
{
    match value {
        Some(v) => v,
        None => String::from_str(UNKNOWN),
    }
}

/// The autonomous system that announces an address.
#[derive(Debug, Clone)]
pub struct AS {
    pub asn: String,
    pub org: String,
}

impl Default for AS {
    fn default() -> (r: Self)
        ensures
            r.asn@ == UNKNOWN@,
            r.org@ == UNKNOWN@,
    {
        AS { asn: String::from_str(UNKNOWN), org: String::from_str(UNKNOWN) }
    }
}

/// The text naming an autonomous system number: "AS" and its decimal digits.
pub open spec fn asn_text(number: u32) -> Seq<char> {
    "AS"@ + decimal(number as nat)
}

impl AS {
    /// The record shown for the outcome of an ASN database lookup: `None`
    /// when the lookup failed, else the number and organisation it found.
    pub fn new(found: Option<(Option<u32>, Option<String>)>) -> (r: AS)
        ensures
            found is None ==> r.asn@ == UNKNOWN@ && r.org@ == UNKNOWN@,
            found matches Some((number, org)) ==> {
                &&& r.asn@ == (match number {
                    Some(n) => asn_text(n),
                    None => UNKNOWN@,
                })
                &&& r.org@ == known_or_unknown(opt_view(org))
            },
    {
        match found {
            None => AS::default(),
            Some((number, org)) => {
                let asn = match number {
                    Some(n) => {
                        let digits = decimal_string(n);
                        String::from_str("AS").concat(digits.as_str())
                    },
                    None => String::from_str(UNKNOWN),
                };
                AS { asn, org: or_unknown(org) }
            },
        }
    }
}

impl AS {
    /// The earlier form of the record: the number in plain decimal digits,
    /// without the "AS" in front; otherwise as `AS::new`.
    pub fn from(found: Option<(Option<u32>, Option<String>)>) -> (r: AS)
        ensures
            found is None ==> r.asn@ == UNKNOWN@ && r.org@ == UNKNOWN@,
            found matches Some((number, org)) ==> {
                &&& r.asn@ == (match number {
                    Some(n) => decimal(n as nat),
                    None => UNKNOWN@,
                })
                &&& r.org@ == known_or_unknown(opt_view(org))
            },
    {
        match found {
            None => AS::default(),
            Some((number, org)) => {
                let asn = match number {
                    Some(n) => decimal_string(n),
                    None => String::from_str(UNKNOWN),
                };
                AS { asn, org: or_unknown(org) }
            },
        }
    }
}

/// An autonomous system's text is "AS" and then decimal digits, without a
/// leading zero unless the number is zero, that read back as the number
/// itself, for every 32-bit number.
pub proof fn lemma_asn_text_reads_back(number: u32)
    ensures
        asn_text(number).len() >= 3,
        asn_text(number).take(2) == seq!['A', 'S'],
        forall|i: int| 2 <= i < asn_text(number).len() ==> is_digit(#[trigger] asn_text(number)[i]),
        number > 0 ==> asn_text(number)[2] != '0',
        digits_value(asn_text(number).skip(2)) == number,
{
    reveal_strlit("AS");
    lemma_decimal_reads_back(number as nat);
    let t = asn_text(number);
    assert(t.take(2) =~= seq!['A', 'S']);
    assert(t.skip(2) =~= decimal(number as nat));
    assert forall|i: int| 2 <= i < t.len() implies is_digit(#[trigger] t[i]) by {
        assert(t[i] == decimal(number as nat)[i - 2]);
    }
}

/// In the earlier record, the number's text is decimal digits, without a
/// leading zero unless the number is zero, that read back as the number.
pub proof fn lemma_plain_asn_reads_back(number: u32)
    ensures
        decimal(number as nat).len() >= 1,
        forall|i: int| 0 <= i < decimal(number as nat).len() ==> is_digit(#[trigger] decimal(number as nat)[i]),
        number > 0 ==> decimal(number as nat)[0] != '0',
        digits_value(decimal(number as nat)) == number,
{
    lemma_decimal_reads_back(number as nat);
}

} // verus!
