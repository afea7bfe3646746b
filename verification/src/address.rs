use vstd::prelude::*;

verus! {

/// An account or contract address, held as its textual key (a Stellar strkey such as `G...`
/// or `C...`). Two addresses are the same address exactly when their keys are equal.
#[derive(Clone, Debug, PartialEq, Eq)]
pub struct Address {
    pub key: String,
}

impl View for Address {
    type V = Seq<char>;

    open spec fn view(&self) -> Seq<char> {
        self.key@
    }
}

impl Address {
    /// Wraps a textual address key.
    pub fn new(key: String) -> (r: Address)
        ensures
            r@ == key@,
    {
        Address { key }
    }

    /// Compares two addresses by their keys.
    pub fn same(&self, other: &Address) -> (b: bool)
        ensures
            b == (self@ == other@),
    {
        self.key == other.key
    }

    /// Returns an identical copy of this address.
    pub fn duplicate(&self) -> (r: Address)
        ensures
            r == *self,
            r@ == self@,
    {
        Address { key: self.key.clone() }
    }
}

/// The keys of a sequence of addresses.
pub open spec fn keys_of(s: Seq<Address>) -> Seq<Seq<char>> {
    s.map_values(|a: Address| a@)
}

/// Returns a copy of a byte string.
pub fn copy_bytes(v: &Vec<u8>) -> (r: Vec<u8>)
    ensures
        r@ == v@,
{
    let mut r: Vec<u8> = Vec::new();
    let mut i: usize = 0;
    while i < v.len()
        invariant
            i <= v.len(),
            r@ == v@.subrange(0, i as int),
        decreases v.len() - i,
    {
        r.push(v[i]);
        i = i + 1;
        assert(r@ =~= v@.subrange(0, i as int));
    }
    assert(r@ =~= v@);
    r
}

/// Returns a copy of a list of addresses.
pub fn copy_addresses(v: &Vec<Address>) -> (r: Vec<Address>)
    ensures
        r@ == v@,
{
    let mut r: Vec<Address> = Vec::new();
    let mut i: usize = 0;
    while i < v.len()
        invariant
            i <= v.len(),
            r@ == v@.subrange(0, i as int),
        decreases v.len() - i,
    {
        r.push(v[i].duplicate());
        i = i + 1;
        assert(r@ =~= v@.subrange(0, i as int));
    }
    assert(r@ =~= v@);
    r
}

/// Whether `a` is one of the addresses in `list`.
pub fn contains_address(list: &Vec<Address>, a: &Address) -> (b: bool)
    ensures
        b == keys_of(list@).contains(a@),
{
    let mut i: usize = 0;
    while i < list.len()
        invariant
            i <= list.len(),
            forall|j: int| 0 <= j < i ==> list@[j]@ != a@,
        decreases list.len() - i,
    {
        if list[i].same(a) {
            assert(keys_of(list@)[i as int] == a@);
            return true;
        }
        i = i + 1;
    }
    assert(!keys_of(list@).contains(a@)) by {
        if keys_of(list@).contains(a@) {
            let k = choose|k: int| 0 <= k < keys_of(list@).len() && keys_of(list@)[k] == a@;
            assert(list@[k]@ == a@);
        }
    }
    false
}

} // verus!
