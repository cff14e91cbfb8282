use vstd::prelude::*;

use crate::presence::{KeyboardInfo, KeyboardRecord};
use crate::text::{decimal, decimal_u8, hex4, push_hex4};

verus! {

/// The arguments that the init command gets for a keyboard: its name, its
/// device node, its xinput id in decimal, and vendor and product as
/// `vvvv:pppp` in lowercase hexadecimal.
pub open spec fn init_args(k: KeyboardRecord) -> Seq<Seq<char>> {
    seq![
        k.name,
        k.device_node,
        decimal(k.xinput_id as nat),
        hex4(k.vendor_id) + seq![':'] + hex4(k.product_id),
    ]
}

/// The identity of a keyboard as `vvvv:pppp`.
pub fn vendor_product(vendor_id: u16, product_id: u16) -> (r: String)
    ensures
        r@ == hex4(vendor_id) + seq![':'] + hex4(product_id),
{
    let mut s = String::new();
    push_hex4(&mut s, vendor_id);
    s.append(":");
    proof {
        reveal_strlit(":");
    }
    push_hex4(&mut s, product_id);
    s
}

/// The positional arguments of the init command for a keyboard, in order.
pub fn init_command_args(keyboard: &KeyboardInfo) -> (r: Vec<String>)
    ensures
        r@.len() == 4,
        forall|i: int| 0 <= i < 4 ==> #[trigger] r@[i]@ == init_args(keyboard@)[i],
{
    let mut args: Vec<String> = Vec::new();
    args.push(keyboard.name.clone());
    args.push(keyboard.device_node.clone());
    args.push(decimal_u8(keyboard.xinput_id));
    args.push(vendor_product(keyboard.vendor_id, keyboard.product_id));
    args
}

} // verus!
