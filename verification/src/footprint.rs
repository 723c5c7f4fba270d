//! Which storage entries each resolver operation reads and writes.
//!
//! Storage is keyed by name (forward records) and by address (reverse
//! entries and primary names).  Each operation has a footprint: a set of
//! names and a set of addresses.  Run on the storage cut down to its
//! footprint, the operation gives the same result, and writing that
//! outcome back over the footprint gives the state it gives on the whole
//! storage.
use crate::resolver::{ResolverContract, ResolverView};
use vstd::prelude::*;

verus! {

/// The storage entries under `names` and `addresses`, with the registry.
pub open spec fn restrict(s: ResolverView, names: Set<Seq<char>>, addresses: Set<Seq<char>>) -> ResolverView {
    ResolverView {
        forward: s.forward.restrict(names),
        reverse: s.reverse.restrict(addresses),
        primary: s.primary.restrict(addresses),
        ..s
    }
}

/// `s` with its entries under `names` and `addresses` replaced by those of
/// `u` (an entry absent from `u` is taken out), and the registry of `u`.
pub open spec fn overlay(
    s: ResolverView,
    names: Set<Seq<char>>,
    addresses: Set<Seq<char>>,
    u: ResolverView,
) -> ResolverView {
    ResolverView {
        registry: u.registry,
        forward: s.forward.remove_keys(names).union_prefer_right(u.forward.restrict(names)),
        reverse: s.reverse.remove_keys(addresses).union_prefer_right(u.reverse.restrict(addresses)),
        primary: s.primary.remove_keys(addresses).union_prefer_right(u.primary.restrict(addresses)),
        max_text_records: s.max_text_records,
    }
}

/// `f` is a footprint of `step` from `s`: the step from the cut-down
/// storage gives the same result, and its outcome written back gives the
/// outcome from `s`.
pub open spec fn is_footprint(
    s: ResolverView,
    names: Set<Seq<char>>,
    addresses: Set<Seq<char>>,
    whole: (ResolverView, Result<(), crate::record::ResolverError>),
    cut: (ResolverView, Result<(), crate::record::ResolverError>),
) -> bool {
    &&& whole.1 == cut.1
    &&& whole.0 == overlay(s, names, addresses, cut.0)
}

/// Writing back the cut-down storage unchanged gives the storage.
pub proof fn lemma_overlay_restrict(s: ResolverView, names: Set<Seq<char>>, addresses: Set<Seq<char>>)
    ensures
        overlay(s, names, addresses, restrict(s, names, addresses)) == s,
{
    let o = overlay(s, names, addresses, restrict(s, names, addresses));
    assert(o.forward =~= s.forward);
    assert(o.reverse =~= s.reverse);
    assert(o.primary =~= s.primary);
}

/// The footprint of an operation on one name only.
pub open spec fn name_only(name: Seq<char>) -> Set<Seq<char>> {
    Set::empty().insert(name)
}

/// The footprint of `initialize`: no entries.
pub proof fn lemma_initialize_footprint(s: ResolverView, registry: Seq<char>)
    ensures
        is_footprint(
            s,
            Set::empty(),
            Set::empty(),
            s.initialize_step(registry),
            restrict(s, Set::empty(), Set::empty()).initialize_step(registry),
        ),
{
    lemma_overlay_restrict(s, Set::empty(), Set::empty());
    let t = restrict(s, Set::empty(), Set::empty());
    let o = overlay(s, Set::empty(), Set::empty(), t.initialize_step(registry).0);
    assert(o.forward =~= s.forward);
    assert(o.reverse =~= s.reverse);
    assert(o.primary =~= s.primary);
}

/// The footprint of `set_record`: the name and the address it sets.
pub proof fn lemma_set_record_footprint(
    s: ResolverView,
    name: Seq<char>,
    owner: Seq<char>,
    address: Seq<char>,
    now_unix: u64,
    name_is_valid: bool,
    backing: Option<Seq<char>>,
)
    ensures
        is_footprint(
            s,
            name_only(name),
            name_only(address),
            s.set_record_outcome(name, owner, address, now_unix, name_is_valid, backing),
            restrict(s, name_only(name), name_only(address)).set_record_outcome(
                name,
                owner,
                address,
                now_unix,
                name_is_valid,
                backing,
            ),
        ),
{
    let n = name_only(name);
    let a = name_only(address);
    let t = restrict(s, n, a);
    lemma_overlay_restrict(s, n, a);
    let cut = t.set_record_outcome(name, owner, address, now_unix, name_is_valid, backing);
    let whole = s.set_record_outcome(name, owner, address, now_unix, name_is_valid, backing);
    if whole.1 is Ok {
        let o = overlay(s, n, a, cut.0);
        assert(o.forward =~= whole.0.forward);
        assert(o.reverse =~= whole.0.reverse);
        assert(o.primary =~= whole.0.primary);
    }
}

/// The footprint of `set_text_record`: the name.
pub proof fn lemma_set_text_record_footprint(
    s: ResolverView,
    name: Seq<char>,
    caller: Seq<char>,
    key: Seq<char>,
    value: Seq<char>,
    now_unix: u64,
    backing: Option<Seq<char>>,
)
    ensures
        is_footprint(
            s,
            name_only(name),
            Set::empty(),
            s.set_text_record_step(name, caller, key, value, now_unix, backing),
            restrict(s, name_only(name), Set::empty()).set_text_record_step(
                name,
                caller,
                key,
                value,
                now_unix,
                backing,
            ),
        ),
{
    let n = name_only(name);
    let a = Set::<Seq<char>>::empty();
    let t = restrict(s, n, a);
    lemma_overlay_restrict(s, n, a);
    let cut = t.set_text_record_step(name, caller, key, value, now_unix, backing);
    let whole = s.set_text_record_step(name, caller, key, value, now_unix, backing);
    if whole.1 is Ok {
        let o = overlay(s, n, a, cut.0);
        assert(o.forward =~= whole.0.forward);
        assert(o.reverse =~= whole.0.reverse);
        assert(o.primary =~= whole.0.primary);
    }
}

/// The footprint of `set_primary_name`: the name and the address.
pub proof fn lemma_set_primary_name_footprint(
    s: ResolverView,
    address: Seq<char>,
    caller: Seq<char>,
    name: Seq<char>,
    backing: Option<Seq<char>>,
)
    ensures
        is_footprint(
            s,
            name_only(name),
            name_only(address),
            s.set_primary_name_step(address, caller, name, backing),
            restrict(s, name_only(name), name_only(address)).set_primary_name_step(
                address,
                caller,
                name,
                backing,
            ),
        ),
{
    let n = name_only(name);
    let a = name_only(address);
    let t = restrict(s, n, a);
    lemma_overlay_restrict(s, n, a);
    let cut = t.set_primary_name_step(address, caller, name, backing);
    let whole = s.set_primary_name_step(address, caller, name, backing);
    if whole.1 is Ok {
        let o = overlay(s, n, a, cut.0);
        assert(o.forward =~= whole.0.forward);
        assert(o.reverse =~= whole.0.reverse);
        assert(o.primary =~= whole.0.primary);
    }
}

/// The addresses `remove_record` touches: that of the record, if any.
pub open spec fn record_address(s: ResolverView, name: Seq<char>) -> Set<Seq<char>> {
    if s.forward.contains_key(name) {
        name_only(s.forward[name].address)
    } else {
        Set::empty()
    }
}

/// The footprint of `remove_record`: the name and the address of its
/// record.
pub proof fn lemma_remove_record_footprint(
    s: ResolverView,
    name: Seq<char>,
    caller: Seq<char>,
    backing: Option<Seq<char>>,
)
    ensures
        is_footprint(
            s,
            name_only(name),
            record_address(s, name),
            s.remove_record_step(name, caller, backing),
            restrict(s, name_only(name), record_address(s, name)).remove_record_step(
                name,
                caller,
                backing,
            ),
        ),
{
    let n = name_only(name);
    let a = record_address(s, name);
    let t = restrict(s, n, a);
    lemma_overlay_restrict(s, n, a);
    let cut = t.remove_record_step(name, caller, backing);
    let whole = s.remove_record_step(name, caller, backing);
    if whole.1 is Ok {
        let o = overlay(s, n, a, cut.0);
        assert(o.forward =~= whole.0.forward);
        assert(o.reverse =~= whole.0.reverse);
        assert(o.primary =~= whole.0.primary);
    }
}

/// The footprint of `update_owner`: the name.
pub proof fn lemma_update_owner_footprint(s: ResolverView, name: Seq<char>, new_owner: Seq<char>)
    ensures
        is_footprint(
            s,
            name_only(name),
            Set::empty(),
            s.update_owner_step(name, new_owner),
            restrict(s, name_only(name), Set::empty()).update_owner_step(name, new_owner),
        ),
{
    let n = name_only(name);
    let a = Set::<Seq<char>>::empty();
    let t = restrict(s, n, a);
    lemma_overlay_restrict(s, n, a);
    let cut = t.update_owner_step(name, new_owner);
    let whole = s.update_owner_step(name, new_owner);
    if whole.1 is Ok {
        let o = overlay(s, n, a, cut.0);
        assert(o.forward =~= whole.0.forward);
        assert(o.reverse =~= whole.0.reverse);
        assert(o.primary =~= whole.0.primary);
    }
}

/// The footprint of `transfer_record_owner`: the name.
pub proof fn lemma_transfer_record_owner_footprint(
    s: ResolverView,
    name: Seq<char>,
    caller: Seq<char>,
    new_owner: Seq<char>,
)
    ensures
        is_footprint(
            s,
            name_only(name),
            Set::empty(),
            s.transfer_record_owner_step(name, caller, new_owner),
            restrict(s, name_only(name), Set::empty()).transfer_record_owner_step(
                name,
                caller,
                new_owner,
            ),
        ),
{
    let n = name_only(name);
    let a = Set::<Seq<char>>::empty();
    let t = restrict(s, n, a);
    lemma_overlay_restrict(s, n, a);
    let cut = t.transfer_record_owner_step(name, caller, new_owner);
    let whole = s.transfer_record_owner_step(name, caller, new_owner);
    if whole.1 is Ok {
        let o = overlay(s, n, a, cut.0);
        assert(o.forward =~= whole.0.forward);
        assert(o.reverse =~= whole.0.reverse);
        assert(o.primary =~= whole.0.primary);
    }
}

/// The queries read only their footprint: `resolve` and `has_record` the
/// name, `reverse` the address.
pub proof fn lemma_query_footprints(s: ResolverView, name: Seq<char>, address: Seq<char>)
    ensures
        restrict(s, name_only(name), Set::empty()).forward.contains_key(name)
            == s.forward.contains_key(name),
        s.forward.contains_key(name) ==> restrict(s, name_only(name), Set::empty()).forward[name]
            == s.forward[name],
        restrict(s, Set::empty(), name_only(address)).reverse_lookup(address) == s.reverse_lookup(
            address,
        ),
        record_address(restrict(s, name_only(name), Set::empty()), name) == record_address(s, name),
{
}

/// The keys of an operation's footprint: at most one name and at most one
/// address.
pub struct Footprint {
    pub name: Option<String>,
    pub address: Option<String>,
}

/// The set holding the key, if there is one.
pub open spec fn key_set(key: Option<String>) -> Set<Seq<char>> {
    match key {
        Some(k) => name_only(k@),
        None => Set::empty(),
    }
}

impl Footprint {
    /// The names of the footprint.
    pub open spec fn names(&self) -> Set<Seq<char>> {
        key_set(self.name)
    }

    /// The addresses of the footprint.
    pub open spec fn addresses(&self) -> Set<Seq<char>> {
        key_set(self.address)
    }
}

/// The footprint of `initialize`.
pub fn initialize_footprint() -> (f: Footprint)
    ensures
        f.names() == Set::<Seq<char>>::empty(),
        f.addresses() == Set::<Seq<char>>::empty(),
{
    Footprint { name: None, address: None }
}

/// The footprint of `set_record` for `name` and `address`.
pub fn set_record_footprint(name: &String, address: &String) -> (f: Footprint)
    ensures
        f.names() == name_only(name@),
        f.addresses() == name_only(address@),
{
    Footprint { name: Some(name.clone()), address: Some(address.clone()) }
}

/// The footprint of `set_primary_name` for `address` and `name`.
pub fn set_primary_name_footprint(address: &String, name: &String) -> (f: Footprint)
    ensures
        f.names() == name_only(name@),
        f.addresses() == name_only(address@),
{
    Footprint { name: Some(name.clone()), address: Some(address.clone()) }
}

/// The footprint of the operations on one name: `set_text_record`,
/// `update_owner`, `transfer_record_owner`, `resolve` and `has_record`.
pub fn name_footprint(name: &String) -> (f: Footprint)
    ensures
        f.names() == name_only(name@),
        f.addresses() == Set::<Seq<char>>::empty(),
{
    Footprint { name: Some(name.clone()), address: None }
}

/// The footprint of `reverse` for `address`.
pub fn reverse_footprint(address: &String) -> (f: Footprint)
    ensures
        f.names() == Set::<Seq<char>>::empty(),
        f.addresses() == name_only(address@),
{
    Footprint { name: None, address: Some(address.clone()) }
}

impl ResolverContract {
    /// The footprint of `remove_record` for `name`: the name and the
    /// address of its record.  It is found the same from the storage cut
    /// down to the name (see `lemma_query_footprints`).
    pub fn remove_record_footprint(&self, name: &String) -> (f: Footprint)
        ensures
            f.names() == name_only(name@),
            f.addresses() == record_address(self@, name@),
    {
        match self.resolve(name.clone()) {
            Some(record) => Footprint { name: Some(name.clone()), address: Some(record.address) },
            None => Footprint { name: Some(name.clone()), address: None },
        }
    }
}

} // verus!
