//! The texts the photographer reads in the transient toast: what a notice
//! says, and the copy and export confirmations.

use vstd::prelude::*;
use crate::export::decimal;
use crate::names::push_char;
use crate::scan::Entry;
use crate::session::{CullState, Notice};
use crate::timeline::TlBin;

verus! {

/// The name of image `i`, or empty text when there is no such image.
pub open spec fn name_at(entries: Seq<Entry>, i: int) -> Seq<char> {
    if 0 <= i < entries.len() {
        entries[i].name@
    } else {
        Seq::empty()
    }
}

/// What a notice says about the images `entries`.
pub open spec fn notice_message(n: Notice, entries: Seq<Entry>) -> Seq<char> {
    match n {
        Notice::Unrated { forward, index, total } => (if forward {
            "Next unrated"@
        } else {
            "Prev unrated"@
        }) + " · "@ + name_at(entries, index as int) + " ("@ + decimal(index as nat + 1) + "/"@
            + decimal(total as nat) + ")"@,
        Notice::AllReviewed => "No unrated images left — all reviewed"@,
        Notice::ClearedRating { index } => "Cleared rating · "@ + name_at(entries, index as int),
        Notice::ClearedReject { index } => "Cleared reject · "@ + name_at(entries, index as int),
    }
}

/// Append the decimal digits of `n`.
fn push_decimal_u128(s: &mut String, n: u128)
    ensures
        final(s)@ == old(s)@ + decimal(n as nat),
    decreases n,
{
    if n >= 10 {
        push_decimal_u128(s, n / 10);
    }
    let d = (n % 10) as u8;
    push_char(s, (48 + d) as char);
    assert(final(s)@ =~= old(s)@ + decimal(n as nat));
}

impl CullState {
    /// The name of image `i`, or empty text when there is no such image.
    fn name_or_empty(&self, i: usize) -> (r: String)
        ensures
            r@ == name_at(self@.entries, i as int),
    {
        if i < self.entries.len() {
            self.entries[i].name.clone()
        } else {
            String::new()
        }
    }

    /// The toast text of a notice.
    pub fn notice_text(&self, n: &Notice) -> (res: String)
        ensures
            res@ == notice_message(*n, self@.entries),
    {
        match n {
            Notice::Unrated { forward, index, total } => {
                let mut s = if *forward {
                    String::from_str("Next unrated")
                } else {
                    String::from_str("Prev unrated")
                };
                s.append(" · ");
                s.append(self.name_or_empty(*index).as_str());
                s.append(" (");
                push_decimal_u128(&mut s, (*index as u128) + 1);
                s.append("/");
                push_decimal_u128(&mut s, *total as u128);
                s.append(")");
                s
            },
            Notice::AllReviewed => String::from_str("No unrated images left — all reviewed"),
            Notice::ClearedRating { index } => {
                let mut s = String::from_str("Cleared rating · ");
                s.append(self.name_or_empty(*index).as_str());
                s
            },
            Notice::ClearedReject { index } => {
                let mut s = String::from_str("Cleared reject · ");
                s.append(self.name_or_empty(*index).as_str());
                s
            },
        }
    }
}

/// The toast after an image was copied to the clipboard.
pub fn copied_text(name: &str) -> (res: String)
    ensures
        res@ == "Copied · "@ + name@,
{
    let mut s = String::from_str("Copied · ");
    s.append(name);
    s
}

/// The toast after `count` keepers at or above `threshold` stars were exported.
pub fn exported_text(count: usize, threshold: u8) -> (res: String)
    ensures
        res@ == "Exported "@ + decimal(count as nat) + " keepers ≥ "@ + decimal(threshold as nat)
            + "★ (list + .xmp)"@,
{
    let mut s = String::from_str("Exported ");
    push_decimal_u128(&mut s, count as u128);
    s.append(" keepers ≥ ");
    push_decimal_u128(&mut s, threshold as u128);
    s.append("★ (list + .xmp)");
    s
}

/// The toast after an export failed, with the error's text.
pub fn export_failed_text(error: &str) -> (res: String)
    ensures
        res@ == "Export failed: "@ + error@,
{
    let mut s = String::from_str("Export failed: ");
    s.append(error);
    s
}

/// The timeline tooltip of a bin: its start label, its keepers out of its
/// images, and how many of its images are left to rate.
pub fn bin_tooltip_text(label: &str, bin: &TlBin) -> (res: String)
    requires
        bin.handled <= bin.total,
    ensures
        res@ == label@ + "  ·  "@ + decimal(bin.covered as nat) + "/"@ + decimal(bin.total as nat)
            + " keepers  ·  "@ + decimal((bin.total - bin.handled) as nat) + " left to rate"@,
{
    let mut s = String::from_str(label);
    s.append("  ·  ");
    push_decimal_u128(&mut s, bin.covered as u128);
    s.append("/");
    push_decimal_u128(&mut s, bin.total as u128);
    s.append(" keepers  ·  ");
    push_decimal_u128(&mut s, (bin.total - bin.handled) as u128);
    s.append(" left to rate");
    s
}

} // verus!
