//! The compact text form of decoded indexes, as ASCII bytes.

use vstd::prelude::*;

use crate::index::{Components, CustomField};

verus! {

/// The decimal digits of a number, most significant first, without leading
/// zeros ("0" for zero).
pub open spec fn decimal(n: nat) -> Seq<u8>
    decreases n,
{
    if n < 10 {
        seq![(48 + n) as u8]
    } else {
        decimal(n / 10).push((48 + n % 10) as u8)
    }
}

/// The digits of each number, one number after the other.
pub open spec fn digits_of_all(ns: Seq<u8>) -> Seq<u8>
    decreases ns.len(),
{
    if ns.len() == 0 {
        Seq::empty()
    } else {
        digits_of_all(ns.drop_last()) + decimal(ns.last() as nat)
    }
}

/// The compact form `mode:[custom:]resolution:base_cell:directions`, with
/// the directions written one after the other.
pub open spec fn compact_form(c: Components) -> Seq<u8> {
    let colon = seq![58u8];
    let custom = match c.custom {
        Some(CustomField::Edge(n)) => decimal(n as nat) + colon,
        Some(CustomField::Vertex(n)) => decimal(n as nat) + colon,
        None => Seq::empty(),
    };
    decimal(c.mode as nat) + colon + custom + decimal(c.resolution as nat) + colon + decimal(
        c.base_cell as nat,
    ) + colon + digits_of_all(c.directions@)
}

/// Appends the decimal digits of `n`.
fn push_decimal(out: &mut Vec<u8>, n: u8)
    ensures
        final(out)@ == old(out)@ + decimal(n as nat),
{
    if n >= 100 {
        out.push(48 + n / 100);
        out.push(48 + (n / 10) % 10);
        out.push(48 + n % 10);
        assert(decimal(n as nat) =~= seq![(48 + n / 100) as u8, (48 + (n / 10) % 10) as u8, (48 + n % 10) as u8]) by {
            assert(decimal((n / 10) as nat) =~= decimal((n / 100) as nat).push((48 + (n / 10) % 10) as u8));
        }
    } else if n >= 10 {
        out.push(48 + n / 10);
        out.push(48 + n % 10);
        assert(decimal((n / 10) as nat) =~= seq![(48 + n / 10) as u8]);
        assert(decimal(n as nat) =~= seq![(48 + n / 10) as u8, (48 + n % 10) as u8]);
    } else {
        out.push(48 + n);
    }
}

/// Appends a colon.
fn push_colon(out: &mut Vec<u8>)
    ensures
        final(out)@ == old(out)@ + seq![58u8],
{
    out.push(58);
    assert(old(out)@.push(58) =~= old(out)@ + seq![58u8]);
}

impl Components {
    /// The compact text form of the components, as ASCII bytes:
    /// `mode:[custom:]resolution:base_cell:directions`.
    pub fn compact_text(&self) -> (r: Vec<u8>)
        ensures
            r@ == compact_form(*self),
    {
        let mut out: Vec<u8> = Vec::new();
        push_decimal(&mut out, self.mode);
        push_colon(&mut out);
        match &self.custom {
            Some(field) => {
                push_decimal(&mut out, field.value());
                push_colon(&mut out);
            },
            None => {},
        }
        push_decimal(&mut out, self.resolution);
        push_colon(&mut out);
        push_decimal(&mut out, self.base_cell);
        push_colon(&mut out);
        let ghost head = out@;
        let mut i: usize = 0;
        while i < self.directions.len()
            invariant
                i <= self.directions.len(),
                out@ == head + digits_of_all(self.directions@.take(i as int)),
            decreases self.directions.len() - i,
        {
            assert(self.directions@.take(i as int + 1).drop_last() =~= self.directions@.take(i as int));
            push_decimal(&mut out, self.directions[i]);
            i = i + 1;
        }
        assert(self.directions@.take(self.directions.len() as int) =~= self.directions@);
        assert(out@ =~= compact_form(*self));
        out
    }
}

} // verus!
