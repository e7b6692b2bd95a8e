//! Identity of a peripheral.

use vstd::prelude::*;
use crate::text;
use crate::text::{push_hex, push_nat};

verus! {

/// Model and serial number, which together tell peripherals apart.
#[derive(Debug, Clone, Copy, PartialEq, Eq, Structural)]
pub struct PeripheralId {
    pub model_number: u64,
    pub serial_number: u64,
}

impl PeripheralId {
    /// How an identity is shown in messages.
    pub open spec fn shown(self) -> Seq<char> {
        "PeripheralId { model_number: "@ + text::nat_text(self.model_number as nat)
            + ", serial_number: "@ + text::nat_text(self.serial_number as nat) + " }"@
    }

    /// How an identity stands in names: both numbers in sixteen hexadecimal digits.
    pub open spec fn in_names(self) -> Seq<char> {
        text::hex_text(self.model_number as nat, 16) + "-"@ + text::hex_text(
            self.serial_number as nat,
            16,
        )
    }

    /// Shows the identity.
    pub fn show(self) -> (s: String)
        ensures
            s@ == self.shown(),
    {
        let mut s = "PeripheralId { model_number: ".to_owned();
        push_nat(&mut s, self.model_number as u128);
        s.push_str(", serial_number: ");
        push_nat(&mut s, self.serial_number as u128);
        s.push_str(" }");
        s
    }

    /// The given text followed by the identity as it stands in names.
    pub fn name_behind(self, start: &str) -> (s: String)
        ensures
            s@ == start@ + self.in_names(),
    {
        let mut s = String::new();
        push_hex(&mut s, self.model_number, 16);
        s.push_str("-");
        push_hex(&mut s, self.serial_number, 16);
        let mut r = start.to_owned();
        assert(s@ =~= self.in_names());
        r.push_str(s.as_str());
        r
    }
}

/// Names of different identities differ.
pub proof fn law_names_tell_identities_apart(a: PeripheralId, b: PeripheralId)
    requires
        a.in_names() == b.in_names(),
    ensures
        a == b,
{
    let am = text::hex_text(a.model_number as nat, 16);
    let bm = text::hex_text(b.model_number as nat, 16);
    let as_ = text::hex_text(a.serial_number as nat, 16);
    let bs = text::hex_text(b.serial_number as nat, 16);
    text::lemma_hex_len(a.model_number as nat, 16);
    text::lemma_hex_len(b.model_number as nat, 16);
    text::lemma_hex_len(a.serial_number as nat, 16);
    text::lemma_hex_len(b.serial_number as nat, 16);
    reveal_strlit("-");
    assert(am =~= a.in_names().take(16));
    assert(bm =~= b.in_names().take(16));
    assert(as_ =~= a.in_names().skip(17));
    assert(bs =~= b.in_names().skip(17));
    text::lemma_hex_injective(a.model_number as nat, b.model_number as nat, 16);
    text::lemma_hex_injective(a.serial_number as nat, b.serial_number as nat, 16);
    text::lemma_sixteen_hex_digits();
}

} // verus!
