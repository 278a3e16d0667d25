use vstd::prelude::*;

verus! {

/// The largest bit pattern of a non-negative double: positive infinity.
pub const COST_BITS_POSITIVE_MAX: u64 = 0x7FF0_0000_0000_0000u64;

/// The bit pattern of negative zero, which compares equal to zero.
pub const COST_BITS_NEGATIVE_ZERO: u64 = 0x8000_0000_0000_0000u64;

/// Whether the double with this bit pattern is at least zero.
///
/// Every pattern up to positive infinity has its sign bit clear and is not a
/// NaN; negative zero is the one pattern with the sign bit set that still
/// compares as zero.
pub open spec fn cost_is_non_negative(bits: u64) -> bool {
    bits <= COST_BITS_POSITIVE_MAX || bits == COST_BITS_NEGATIVE_ZERO
}

/// What a [`Product`] holds, as mathematical values.
pub struct ProductView {
    pub id: Option<u32>,
    pub name: Seq<char>,
    pub cost: u64,
    pub active: bool,
}

impl ProductView {
    /// The field constraints that a product must meet to be stored.
    pub open spec fn valid(self) -> bool {
        self.name.len() > 0 && cost_is_non_negative(self.cost)
    }
}

/// A product of the catalog. `cost` is kept as the bit pattern of an IEEE-754
/// double, so that the amount is carried without any rounding.
#[derive(Debug)]
pub struct Product {
    id: Option<u32>,
    name: String,
    cost: u64,
    active: bool,
}

impl View for Product {
    type V = ProductView;

    closed spec fn view(&self) -> ProductView {
        ProductView { id: self.id, name: self.name@, cost: self.cost, active: self.active }
    }
}

impl Product {
    pub fn new(name: String, cost: u64, active: bool, id: Option<u32>) -> (p: Product)
        ensures
            p@ == (ProductView { id, name: name@, cost, active }),
    {
        Product { name, cost, active, id }
    }

    pub fn id(&self) -> (id: Option<u32>)
        ensures
            id == self@.id,
    {
        self.id
    }

    pub fn name(&self) -> (name: &str)
        ensures
            name@ == self@.name,
    {
        self.name.as_str()
    }

    pub fn cost(&self) -> (cost: u64)
        ensures
            cost == self@.cost,
    {
        self.cost
    }

    pub fn active(&self) -> (active: bool)
        ensures
            active == self@.active,
    {
        self.active
    }

    /// Whether the product meets its field constraints: a name that is not
    /// empty and a cost that is not negative.
    pub fn is_valid(&self) -> (ok: bool)
        ensures
            ok == self@.valid(),
    {
        !self.name.as_str().is_empty() && (self.cost <= COST_BITS_POSITIVE_MAX
            || self.cost == COST_BITS_NEGATIVE_ZERO)
    }
}

} // verus!
