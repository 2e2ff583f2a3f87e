//! Textual Sui addresses.

use vstd::prelude::*;

use crate::decimal::push_char;

verus! {

/// The text of the all-zero Sui address: "0x" followed by 64 zero digits.
pub open spec fn zero_address_text() -> Seq<char> {
    seq!['0', 'x'] + Seq::new(64, |i: int| '0')
}

/// The text of the all-zero Sui address, written where an address is
/// unknown or where a cap comes into existence.
pub fn zero_address() -> (res: String)
    ensures
        res@ == zero_address_text(),
{
    let mut res = String::new();
    push_char(&mut res, '0');
    push_char(&mut res, 'x');
    let mut i: usize = 0;
    while i < 64
        invariant
            i <= 64,
            res@ == seq!['0', 'x'] + Seq::new(i as nat, |j: int| '0'),
        decreases 64 - i,
    {
        push_char(&mut res, '0');
        i = i + 1;
        assert(res@ =~= seq!['0', 'x'] + Seq::new(i as nat, |j: int| '0'));
    }
    res
}

} // verus!
