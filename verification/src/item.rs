//! The item record stored by the inventory manager.

use vstd::prelude::*;

verus! {

/// Mathematical model of an item record: the two strings as character
/// sequences, the quantity as it is.
pub struct ItemModel {
    pub code: Seq<char>,
    pub name: Seq<char>,
    pub quantity: u32,
}

/// An inventory record. Identity is the `code` field; `name` and `quantity`
/// are payload. Empty strings are permitted everywhere.
#[derive(Debug)]
pub struct InventoryItem {
    pub code: String,
    pub name: String,
    pub quantity: u32,
}

impl View for InventoryItem {
    type V = ItemModel;

    open spec fn view(&self) -> ItemModel {
        ItemModel { code: self.code@, name: self.name@, quantity: self.quantity }
    }
}

impl Clone for InventoryItem {
    fn clone(&self) -> (res: Self)
        ensures
            res@ == self@,
    {
        InventoryItem {
            code: self.code.clone(),
            name: self.name.clone(),
            quantity: self.quantity,
        }
    }
}

} // verus!
