//! Speaker layouts: the default for a channel count, and the two WSD
//! channel-assignment flag bytes.
use vstd::prelude::*;
use crate::params::tokens_view;

verus! {

/// The layout assumed for a channel count: mono is centre front, stereo is
/// left and right front; no other count has one.
pub open spec fn default_layout(count: u8) -> Option<Seq<Seq<char>>> {
    if count == 1 {
        Some(seq!["cf"@])
    } else if count == 2 {
        Some(seq!["lf"@, "rf"@])
    } else {
        None
    }
}

pub open spec fn has_token(l: Seq<Seq<char>>, t: Seq<char>) -> bool {
    exists|i: int| 0 <= i < l.len() && l[i] == t
}

pub open spec fn bit_if(present: bool, bit: u8) -> u8 {
    if present {
        bit
    } else {
        0
    }
}

/// Front assignment byte: bit 0 always, then lf, lf-middle, cf, rf-middle,
/// rf and lfe on bits 6 down to 1.
pub open spec fn front_flags(l: Option<Seq<Seq<char>>>) -> u8 {
    match l {
        None => 1,
        Some(l) => (1 + bit_if(has_token(l, "lf"@), 64) + bit_if(has_token(l, "lf-middle"@), 32)
            + bit_if(has_token(l, "cf"@), 16) + bit_if(has_token(l, "rf-middle"@), 8) + bit_if(
            has_token(l, "rf"@),
            4,
        ) + bit_if(has_token(l, "lfe"@), 2)) as u8,
    }
}

/// Rear assignment byte: bit 0 always, then lr, lr-middle, cr, rr-middle and
/// rr on bits 6 down to 2.
pub open spec fn rear_flags(l: Option<Seq<Seq<char>>>) -> u8 {
    match l {
        None => 1,
        Some(l) => (1 + bit_if(has_token(l, "lr"@), 64) + bit_if(has_token(l, "lr-middle"@), 32)
            + bit_if(has_token(l, "cr"@), 16) + bit_if(has_token(l, "rr-middle"@), 8) + bit_if(
            has_token(l, "rr"@),
            4,
        )) as u8,
    }
}

pub fn create_default_channel_layout(channel_count: u8) -> (r: Option<Vec<String>>)
    ensures
        match r {
            Some(v) => default_layout(channel_count) == Some(tokens_view(v@)),
            None => default_layout(channel_count) is None,
        },
{
    if channel_count == 1 {
        let v = vec!["cf".to_string()];
        assert(tokens_view(v@) =~= seq!["cf"@]);
        Some(v)
    } else if channel_count == 2 {
        let v = vec!["lf".to_string(), "rf".to_string()];
        assert(tokens_view(v@) =~= seq!["lf"@, "rf"@]);
        Some(v)
    } else {
        None
    }
}

/// Whether some token of `layout` is `token`.
pub fn layout_has(layout: &Vec<String>, token: &str) -> (r: bool)
    ensures
        r == has_token(tokens_view(layout@), token@),
{
    let t = token.to_string();
    let mut i: usize = 0;
    while i < layout.len()
        invariant
            i <= layout@.len(),
            t@ == token@,
            forall|k: int| 0 <= k < i ==> layout@[k]@ != token@,
        decreases layout@.len() - i,
    {
        if layout[i] == t {
            assert(tokens_view(layout@)[i as int] == token@);
            return true;
        }
        i += 1;
    }
    assert forall|k: int| 0 <= k < tokens_view(layout@).len() implies tokens_view(layout@)[k]
        != token@ by {}
    false
}

fn flag_if(present: bool, bit: u8) -> (r: u8)
    ensures
        r == bit_if(present, bit),
{
    if present {
        bit
    } else {
        0
    }
}

/// The front channel-assignment byte of a layout.
pub fn front_channel_flags(layout: &Option<Vec<String>>) -> (r: u8)
    ensures
        r == front_flags(crate::params::layout_view(*layout)),
{
    match layout {
        None => 1,
        Some(l) => {
            1 + flag_if(layout_has(l, "lf"), 64) + flag_if(layout_has(l, "lf-middle"), 32)
                + flag_if(layout_has(l, "cf"), 16) + flag_if(layout_has(l, "rf-middle"), 8)
                + flag_if(layout_has(l, "rf"), 4) + flag_if(layout_has(l, "lfe"), 2)
        },
    }
}

/// The rear channel-assignment byte of a layout.
pub fn rear_channel_flags(layout: &Option<Vec<String>>) -> (r: u8)
    ensures
        r == rear_flags(crate::params::layout_view(*layout)),
{
    match layout {
        None => 1,
        Some(l) => {
            1 + flag_if(layout_has(l, "lr"), 64) + flag_if(layout_has(l, "lr-middle"), 32)
                + flag_if(layout_has(l, "cr"), 16) + flag_if(layout_has(l, "rr-middle"), 8)
                + flag_if(layout_has(l, "rr"), 4)
        },
    }
}

} // verus!
