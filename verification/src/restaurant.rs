//! The restaurant: front of house seats customers, back of house cooks and
//! fixes orders.

use vstd::prelude::*;
use vstd::string::StrSliceExecFns;

verus! {

/// Put a party on the waitlist.
pub fn add_to_waitlist() {
}

/// Hand a finished order to its table.
pub fn deliver_order() {
}

/// Cook an order.
pub fn cook_order() {
}

/// Cook a replacement and bring it out personally.
pub fn fix_incorrect_order() {
    cook_order();
    deliver_order();
}

/// Come in for a meal: join the waitlist, twice over.
pub fn eat_at_restaurant() {
    add_to_waitlist();
    add_to_waitlist();
}

/// A breakfast order: the customer picks the toast, the chef picks the
/// fruit.
pub struct Breakfast {
    pub toast: String,
    seasonal_fruit: String,
}

impl Breakfast {
    /// The toast the customer picked.
    pub closed spec fn spec_toast(&self) -> Seq<char> {
        self.toast@
    }

    /// Which fruit the chef put on the plate.
    pub closed spec fn spec_fruit(&self) -> Seq<char> {
        self.seasonal_fruit@
    }

    /// The summer menu: the chosen toast, served with peaches.
    pub fn summer(toast: &str) -> (b: Breakfast)
        ensures
            b.spec_toast() == toast@,
            b.spec_fruit() == "peaches"@,
    {
        Breakfast {
            toast: toast.to_owned(),
            seasonal_fruit: "peaches".to_owned(),
        }
    }
}

/// The appetizers on the menu.
#[derive(Clone, Copy, Debug, PartialEq, Eq, Structural)]
pub enum Appetizer {
    Soup,
    Salad,
}

/// Order one of each appetizer.
pub fn eat_at_restaurant_enum() {
    let _order1 = Appetizer::Soup;
    let _order2 = Appetizer::Salad;
}

} // verus!
