//! Properties of the resolver that span its operations, proved over the
//! outcomes that the operations' contracts are stated in.
use crate::record::{RecordView, ResolverError};
use crate::resolver::{
    lemma_stored_text_records_finite, may_act, text_records_bounded,
    ResolverContract, ResolverView,
};
use vstd::prelude::*;

verus! {

/// A record written by `set_record` is what `resolve` then reads back: the
/// given owner and address, the time of the write, and the text records
/// the name already had (none for a new name).  The address then resolves
/// back to the name unless it has a primary name.  Other names keep their
/// records.
pub proof fn lemma_set_record_then_resolve(
    s: ResolverView,
    name: Seq<char>,
    owner: Seq<char>,
    address: Seq<char>,
    now_unix: u64,
    backing: Option<Seq<char>>,
)
    requires
        s.set_record_step(name, owner, address, now_unix, backing).1 is Ok,
    ensures
        ({
            let t = s.set_record_step(name, owner, address, now_unix, backing).0;
            &&& t.forward.contains_key(name)
            &&& t.forward[name].owner == owner
            &&& t.forward[name].address == address
            &&& t.forward[name].updated_at == now_unix
            &&& t.forward[name].text_records == (if s.forward.contains_key(name) {
                s.forward[name].text_records
            } else {
                Map::empty()
            })
            &&& t.reverse.contains_key(address) && t.reverse[address] == name
            &&& !s.primary.contains_key(address) ==> t.reverse_lookup(address) == Some(name)
            &&& forall|other: Seq<char>|
                other != name ==> #[trigger] t.forward.contains_key(other) == s.forward.contains_key(
                    other,
                ) && t.forward[other] == s.forward[other]
        }),
{
}

/// The registry can be set once: after a successful `initialize`, every
/// later `initialize` is refused as unauthorized and changes nothing.
pub proof fn lemma_initialize_once(s: ResolverView, first: Seq<char>, second: Seq<char>)
    requires
        s.initialize_step(first).1 is Ok,
    ensures
        ({
            let t = s.initialize_step(first).0;
            &&& t.registry == Some(first)
            &&& t.initialize_step(second) == (t, Err::<(), ResolverError>(ResolverError::Unauthorized))
        }),
{
}

/// After `set_primary_name` succeeds, the address resolves back to the name.
pub proof fn lemma_primary_name_then_reverse(
    s: ResolverView,
    address: Seq<char>,
    caller: Seq<char>,
    name: Seq<char>,
    backing: Option<Seq<char>>,
)
    requires
        s.set_primary_name_step(address, caller, name, backing).1 is Ok,
    ensures
        s.set_primary_name_step(address, caller, name, backing).0.reverse_lookup(address) == Some(
            name,
        ),
{
}

/// After `remove_record` succeeds, the name has no record and the address
/// it pointed at resolves back to nothing.
pub proof fn lemma_remove_record_then_gone(
    s: ResolverView,
    name: Seq<char>,
    caller: Seq<char>,
    backing: Option<Seq<char>>,
)
    requires
        s.remove_record_step(name, caller, backing).1 is Ok,
    ensures
        ({
            let t = s.remove_record_step(name, caller, backing).0;
            &&& !t.forward.contains_key(name)
            &&& t.reverse_lookup(s.forward[name].address) is None
        }),
{
}

/// A refused request changes nothing, whichever operation it was.
pub proof fn lemma_refused_requests_change_nothing(
    s: ResolverView,
    name: Seq<char>,
    owner: Seq<char>,
    address: Seq<char>,
    caller: Seq<char>,
    key: Seq<char>,
    value: Seq<char>,
    now_unix: u64,
    name_is_valid: bool,
    backing: Option<Seq<char>>,
    registry: Seq<char>,
)
    ensures
        s.initialize_step(registry).1 is Err ==> s.initialize_step(registry).0 == s,
        s.set_record_outcome(name, owner, address, now_unix, name_is_valid, backing).1 is Err
            ==> s.set_record_outcome(name, owner, address, now_unix, name_is_valid, backing).0 == s,
        s.set_text_record_step(name, caller, key, value, now_unix, backing).1 is Err
            ==> s.set_text_record_step(name, caller, key, value, now_unix, backing).0 == s,
        s.set_primary_name_step(address, caller, name, backing).1 is Err
            ==> s.set_primary_name_step(address, caller, name, backing).0 == s,
        s.remove_record_step(name, caller, backing).1 is Err ==> s.remove_record_step(
            name,
            caller,
            backing,
        ).0 == s,
        s.update_owner_step(name, owner).1 is Err ==> s.update_owner_step(name, owner).0 == s,
        s.transfer_record_owner_step(name, caller, owner).1 is Err
            ==> s.transfer_record_owner_step(name, caller, owner).0 == s,
{
}

/// Only the holder of a record changes it: where `set_text_record`,
/// `set_primary_name` or `remove_record` succeeds, the caller is the owner
/// that the registry reported or, without a registry, the record's owner;
/// where `set_record` replaces a record without a registry, the new owner
/// is the old one; where a registry answered, `set_record` stores its owner.
pub proof fn lemma_only_holder_changes_record(
    s: ResolverView,
    name: Seq<char>,
    owner: Seq<char>,
    address: Seq<char>,
    caller: Seq<char>,
    key: Seq<char>,
    value: Seq<char>,
    now_unix: u64,
    backing: Option<Seq<char>>,
)
    ensures
        s.set_text_record_step(name, caller, key, value, now_unix, backing).1 is Ok ==> may_act(
            s.forward[name],
            caller,
            backing,
        ),
        s.set_primary_name_step(address, caller, name, backing).1 is Ok ==> may_act(
            s.forward[name],
            caller,
            backing,
        ),
        s.remove_record_step(name, caller, backing).1 is Ok ==> may_act(
            s.forward[name],
            caller,
            backing,
        ),
        s.set_record_step(name, owner, address, now_unix, backing).1 is Ok && s.forward.contains_key(
            name,
        ) && backing is None ==> s.forward[name].owner == owner,
        s.set_record_step(name, owner, address, now_unix, backing).1 is Ok && backing is Some
            ==> backing == Some(owner),
{
}

/// After a transfer from `caller` to someone else, `caller` can no longer
/// transfer the record; the record keeps its address, text records and
/// time of update, with the new owner.
pub proof fn lemma_transfer_moves_control(
    s: ResolverView,
    name: Seq<char>,
    caller: Seq<char>,
    new_owner: Seq<char>,
    next_owner: Seq<char>,
)
    requires
        s.transfer_record_owner_step(name, caller, new_owner).1 is Ok,
        new_owner != caller,
    ensures
        ({
            let t = s.transfer_record_owner_step(name, caller, new_owner).0;
            &&& t.forward[name] == RecordView { owner: new_owner, ..s.forward[name] }
            &&& t.transfer_record_owner_step(name, caller, next_owner) == (
                t,
                Err::<(), ResolverError>(ResolverError::Unauthorized),
            )
        }),
{
}

/// `update_owner` changes the owner of a record and nothing else.
pub proof fn lemma_update_owner_changes_only_owner(
    s: ResolverView,
    name: Seq<char>,
    new_owner: Seq<char>,
)
    requires
        s.update_owner_step(name, new_owner).1 is Ok,
    ensures
        s.update_owner_step(name, new_owner).0 == s.with_record(
            name,
            RecordView { owner: new_owner, ..s.forward[name] },
        ),
{
}

/// A text record that a name already has can always be overwritten by the
/// holder of the record, even when the name holds as many text records as
/// allowed; the new value is then stored under the key.
pub proof fn lemma_overwrite_at_limit(
    s: ResolverView,
    name: Seq<char>,
    caller: Seq<char>,
    key: Seq<char>,
    value: Seq<char>,
    now_unix: u64,
    backing: Option<Seq<char>>,
)
    requires
        s.forward.contains_key(name),
        may_act(s.forward[name], caller, backing),
        s.forward[name].text_records.contains_key(key),
    ensures
        s.set_text_record_step(name, caller, key, value, now_unix, backing).1 is Ok,
        s.set_text_record_step(name, caller, key, value, now_unix, backing).0.forward[name].text_records
            == s.forward[name].text_records.insert(key, value),
{
}

/// `set_record` keeps every name within the text-record limit.
pub proof fn lemma_set_record_keeps_bound(
    s: ResolverView,
    name: Seq<char>,
    owner: Seq<char>,
    address: Seq<char>,
    now_unix: u64,
    backing: Option<Seq<char>>,
)
    requires
        text_records_bounded(s),
    ensures
        text_records_bounded(s.set_record_step(name, owner, address, now_unix, backing).0),
{
    let t = s.set_record_step(name, owner, address, now_unix, backing).0;
    assert forall|n: Seq<char>| #[trigger] t.forward.contains_key(n) implies t.forward[n].text_records.dom().finite()
        && t.forward[n].text_records.len() <= t.max_text_records by {
        if n == name && !s.forward.contains_key(name) {
            assert(t.forward[n].text_records.dom() =~= Set::<Seq<char>>::empty());
        }
    }
}

/// `set_text_record` keeps every name within the text-record limit.
pub proof fn lemma_set_text_record_keeps_bound(
    s: ResolverView,
    name: Seq<char>,
    caller: Seq<char>,
    key: Seq<char>,
    value: Seq<char>,
    now_unix: u64,
    backing: Option<Seq<char>>,
)
    requires
        text_records_bounded(s),
    ensures
        text_records_bounded(s.set_text_record_step(name, caller, key, value, now_unix, backing).0),
{
    let u = s.set_text_record_step(name, caller, key, value, now_unix, backing).0;
    assert forall|n: Seq<char>| #[trigger] u.forward.contains_key(n) implies u.forward[n].text_records.dom().finite()
        && u.forward[n].text_records.len() <= u.max_text_records by {
        if n == name && s.set_text_record_step(name, caller, key, value, now_unix, backing).1 is Ok {
            let old_text = s.forward[name].text_records;
            assert(s.forward.contains_key(name));
            if old_text.contains_key(key) {
                assert(old_text.insert(key, value).dom() =~= old_text.dom());
            } else {
                assert(old_text.insert(key, value).dom() =~= old_text.dom().insert(key));
            }
        }
    }
}

/// `remove_record` keeps every name within the text-record limit.
pub proof fn lemma_remove_record_keeps_bound(
    s: ResolverView,
    name: Seq<char>,
    caller: Seq<char>,
    backing: Option<Seq<char>>,
)
    requires
        text_records_bounded(s),
    ensures
        text_records_bounded(s.remove_record_step(name, caller, backing).0),
{
    let w = s.remove_record_step(name, caller, backing).0;
    assert forall|n: Seq<char>| #[trigger] w.forward.contains_key(n) implies w.forward[n].text_records.dom().finite()
        && w.forward[n].text_records.len() <= w.max_text_records by {
        assert(s.forward.contains_key(n));
    }
}

/// No operation lets a name hold more text records than the resolver
/// allows.
pub proof fn lemma_text_records_stay_bounded(
    s: ResolverView,
    name: Seq<char>,
    owner: Seq<char>,
    address: Seq<char>,
    caller: Seq<char>,
    key: Seq<char>,
    value: Seq<char>,
    now_unix: u64,
    name_is_valid: bool,
    backing: Option<Seq<char>>,
    registry: Seq<char>,
)
    requires
        text_records_bounded(s),
    ensures
        text_records_bounded(s.initialize_step(registry).0),
        text_records_bounded(
            s.set_record_outcome(name, owner, address, now_unix, name_is_valid, backing).0,
        ),
        text_records_bounded(s.set_text_record_step(name, caller, key, value, now_unix, backing).0),
        text_records_bounded(s.set_primary_name_step(address, caller, name, backing).0),
        text_records_bounded(s.remove_record_step(name, caller, backing).0),
        text_records_bounded(s.update_owner_step(name, owner).0),
        text_records_bounded(s.transfer_record_owner_step(name, caller, owner).0),
{
    lemma_set_record_keeps_bound(s, name, owner, address, now_unix, backing);
    lemma_set_text_record_keeps_bound(s, name, caller, key, value, now_unix, backing);
    lemma_remove_record_keeps_bound(s, name, caller, backing);
}

/// Every record holds no more text records than the resolver allows.
pub open spec fn text_records_within_limit(s: ResolverView) -> bool {
    forall|name: Seq<char>| #[trigger]
        s.forward.contains_key(name) ==> s.forward[name].text_records.len() <= s.max_text_records
}

/// For a resolver, keeping within the text-record limit is all the bound
/// asks: its text records are always finite.
pub proof fn lemma_limit_gives_bound(c: &ResolverContract)
    requires
        text_records_within_limit(c@),
    ensures
        text_records_bounded(c@),
{
    lemma_stored_text_records_finite(c);
}

/// A request to the resolver, with the registry's answer where it is asked.
pub enum Request {
    Initialize { registry: Seq<char> },
    SetRecord {
        name: Seq<char>,
        owner: Seq<char>,
        address: Seq<char>,
        now_unix: u64,
        name_is_valid: bool,
        backing: Option<Seq<char>>,
    },
    SetTextRecord {
        name: Seq<char>,
        caller: Seq<char>,
        key: Seq<char>,
        value: Seq<char>,
        now_unix: u64,
        backing: Option<Seq<char>>,
    },
    SetPrimaryName {
        address: Seq<char>,
        caller: Seq<char>,
        name: Seq<char>,
        backing: Option<Seq<char>>,
    },
    RemoveRecord { name: Seq<char>, caller: Seq<char>, backing: Option<Seq<char>> },
    UpdateOwner { name: Seq<char>, new_owner: Seq<char> },
    TransferRecordOwner { name: Seq<char>, caller: Seq<char>, new_owner: Seq<char> },
}

/// The outcome of one request.
pub open spec fn apply(s: ResolverView, request: Request) -> (ResolverView, Result<(), ResolverError>) {
    match request {
        Request::Initialize { registry } => s.initialize_step(registry),
        Request::SetRecord { name, owner, address, now_unix, name_is_valid, backing } => s.set_record_outcome(
            name,
            owner,
            address,
            now_unix,
            name_is_valid,
            backing,
        ),
        Request::SetTextRecord { name, caller, key, value, now_unix, backing } => s.set_text_record_step(
            name,
            caller,
            key,
            value,
            now_unix,
            backing,
        ),
        Request::SetPrimaryName { address, caller, name, backing } => s.set_primary_name_step(
            address,
            caller,
            name,
            backing,
        ),
        Request::RemoveRecord { name, caller, backing } => s.remove_record_step(name, caller, backing),
        Request::UpdateOwner { name, new_owner } => s.update_owner_step(name, new_owner),
        Request::TransferRecordOwner { name, caller, new_owner } => s.transfer_record_owner_step(
            name,
            caller,
            new_owner,
        ),
    }
}

/// The state after the requests, one after another.
pub open spec fn run(s: ResolverView, requests: Seq<Request>) -> ResolverView
    decreases requests.len(),
{
    if requests.len() == 0 {
        s
    } else {
        run(apply(s, requests[0]).0, requests.drop_first())
    }
}

/// Once a registry is set it stays set, whatever requests follow, and every
/// later `initialize` is refused as unauthorized and changes nothing.
pub proof fn lemma_registry_set_once(
    s: ResolverView,
    requests: Seq<Request>,
    registry: Seq<char>,
    other: Seq<char>,
)
    requires
        s.registry == Some(registry),
    ensures
        run(s, requests).registry == Some(registry),
        run(s, requests).initialize_step(other) == (
            run(s, requests),
            Err::<(), ResolverError>(ResolverError::Unauthorized),
        ),
    decreases requests.len(),
{
    if requests.len() > 0 {
        lemma_registry_set_once(apply(s, requests[0]).0, requests.drop_first(), registry, other);
    }
}

/// Whatever requests come, no name ends up with more text records than the
/// resolver allows.
pub proof fn lemma_text_records_bounded_over_requests(s: ResolverView, requests: Seq<Request>)
    requires
        text_records_bounded(s),
    ensures
        text_records_bounded(run(s, requests)),
    decreases requests.len(),
{
    if requests.len() > 0 {
        let t = apply(s, requests[0]).0;
        match requests[0] {
            Request::SetRecord { name, owner, address, now_unix, name_is_valid, backing } => {
                if name_is_valid {
                    lemma_set_record_keeps_bound(s, name, owner, address, now_unix, backing);
                }
            },
            Request::SetTextRecord { name, caller, key, value, now_unix, backing } => {
                lemma_set_text_record_keeps_bound(s, name, caller, key, value, now_unix, backing);
            },
            Request::RemoveRecord { name, caller, backing } => {
                lemma_remove_record_keeps_bound(s, name, caller, backing);
            },
            _ => {},
        }
        lemma_text_records_bounded_over_requests(t, requests.drop_first());
    }
}

/// `caller` holds the record of `name`: the registry reported `caller`,
/// or, where the registry was not asked, `caller` is the record's owner.
pub open spec fn holds_record(s: ResolverView, name: Seq<char>, caller: Seq<char>, backing: Option<
    Seq<char>,
>) -> bool {
    ||| backing == Some(caller)
    ||| backing is None && s.forward[name].owner == caller
}

/// Which parts of the storage each operation may change: `set_record` the
/// forward records and reverse entries, `set_text_record`, `update_owner`
/// and `transfer_record_owner` the forward records, `set_primary_name` the
/// primary names; none of them the registry or the limit.  In particular a
/// new record never touches an address's primary name, so `reverse` keeps
/// answering it.
pub proof fn lemma_what_each_operation_changes(
    s: ResolverView,
    name: Seq<char>,
    owner: Seq<char>,
    address: Seq<char>,
    caller: Seq<char>,
    key: Seq<char>,
    value: Seq<char>,
    now_unix: u64,
    name_is_valid: bool,
    backing: Option<Seq<char>>,
    other_address: Seq<char>,
)
    ensures
        ({
            let t = s.set_record_outcome(name, owner, address, now_unix, name_is_valid, backing).0;
            &&& t.primary == s.primary
            &&& t.registry == s.registry && t.max_text_records == s.max_text_records
            &&& s.primary.contains_key(other_address) ==> t.reverse_lookup(other_address)
                == s.reverse_lookup(other_address)
        }),
        ({
            let t = s.set_text_record_step(name, caller, key, value, now_unix, backing).0;
            &&& t.reverse == s.reverse && t.primary == s.primary && t.registry == s.registry
        }),
        ({
            let t = s.update_owner_step(name, owner).0;
            &&& t.reverse == s.reverse && t.primary == s.primary && t.registry == s.registry
        }),
        ({
            let t = s.transfer_record_owner_step(name, caller, owner).0;
            &&& t.reverse == s.reverse && t.primary == s.primary && t.registry == s.registry
        }),
        ({
            let t = s.set_primary_name_step(address, caller, name, backing).0;
            &&& t.forward == s.forward && t.reverse == s.reverse && t.registry == s.registry
        }),
        ({
            let t = s.remove_record_step(name, caller, backing).0;
            &&& t.registry == s.registry
            &&& forall|n: Seq<char>|
                n != name ==> #[trigger] t.forward.contains_key(n) == s.forward.contains_key(n)
        }),
{
}

/// The holder of a record may always remove it, whether the registry or the
/// record names the holder; and only the holder may.
pub proof fn lemma_holder_removes(
    s: ResolverView,
    name: Seq<char>,
    caller: Seq<char>,
    backing: Option<Seq<char>>,
)
    requires
        s.forward.contains_key(name),
    ensures
        holds_record(s, name, caller, backing) <==> s.remove_record_step(name, caller, backing).1 is Ok,
        holds_record(s, name, caller, backing) ==> !s.remove_record_step(
            name,
            caller,
            backing,
        ).0.forward.contains_key(name),
{
}

/// The holder of a record may make it the primary name of the address it
/// points at; nobody else may, and no other address.
pub proof fn lemma_holder_sets_primary_name(
    s: ResolverView,
    address: Seq<char>,
    caller: Seq<char>,
    name: Seq<char>,
    backing: Option<Seq<char>>,
)
    requires
        s.forward.contains_key(name),
    ensures
        (holds_record(s, name, caller, backing) && s.forward[name].address == address) <==> s.set_primary_name_step(
            address,
            caller,
            name,
            backing,
        ).1 is Ok,
{
}

/// The holder of a record may set a text record on it, unless that would
/// add a new key past the limit; nobody else may.
pub proof fn lemma_holder_sets_text_record(
    s: ResolverView,
    name: Seq<char>,
    caller: Seq<char>,
    key: Seq<char>,
    value: Seq<char>,
    now_unix: u64,
    backing: Option<Seq<char>>,
)
    requires
        s.forward.contains_key(name),
    ensures
        (holds_record(s, name, caller, backing) && (s.forward[name].text_records.contains_key(key)
            || s.forward[name].text_records.len() < s.max_text_records)) <==> s.set_text_record_step(
            name,
            caller,
            key,
            value,
            now_unix,
            backing,
        ).1 is Ok,
        s.set_text_record_step(name, caller, key, value, now_unix, backing).1 is Ok ==> {
            let t = s.set_text_record_step(name, caller, key, value, now_unix, backing).0;
            &&& t.forward[name].text_records == s.forward[name].text_records.insert(key, value)
            &&& t.forward[name].updated_at == now_unix
            &&& t.forward[name].owner == s.forward[name].owner
            &&& t.forward[name].address == s.forward[name].address
        },
{
}

/// A record's owner may always hand it on, whether or not a registry is
/// set; nobody else may.
pub proof fn lemma_owner_transfers(
    s: ResolverView,
    name: Seq<char>,
    caller: Seq<char>,
    new_owner: Seq<char>,
)
    requires
        s.forward.contains_key(name),
    ensures
        (s.forward[name].owner == caller) <==> s.transfer_record_owner_step(name, caller, new_owner).1 is Ok,
        s.forward[name].owner == caller ==> s.transfer_record_owner_step(
            name,
            caller,
            new_owner,
        ).0.forward[name].owner == new_owner,
{
}

/// `set_record` for a well-formed name succeeds exactly when the owner is
/// the one the registry reported or, without a registry answer, the name is
/// new or already held by that owner.
pub proof fn lemma_who_may_set_record(
    s: ResolverView,
    name: Seq<char>,
    owner: Seq<char>,
    address: Seq<char>,
    now_unix: u64,
    backing: Option<Seq<char>>,
)
    ensures
        (backing == Some(owner) || (backing is None && (!s.forward.contains_key(name)
            || s.forward[name].owner == owner))) <==> s.set_record_step(
            name,
            owner,
            address,
            now_unix,
            backing,
        ).1 is Ok,
{
}

/// `update_owner` succeeds exactly when the name has a record, and then
/// changes its owner only: the address, text records and time of update
/// stay, and no other name's record changes.
pub proof fn lemma_update_owner_keeps_record(s: ResolverView, name: Seq<char>, new_owner: Seq<char>)
    ensures
        s.forward.contains_key(name) <==> s.update_owner_step(name, new_owner).1 is Ok,
        s.forward.contains_key(name) ==> {
            let t = s.update_owner_step(name, new_owner).0;
            &&& t.forward.contains_key(name)
            &&& t.forward[name].owner == new_owner
            &&& t.forward[name].address == s.forward[name].address
            &&& t.forward[name].text_records == s.forward[name].text_records
            &&& t.forward[name].updated_at == s.forward[name].updated_at
            &&& forall|n: Seq<char>|
                n != name ==> #[trigger] t.forward.contains_key(n) == s.forward.contains_key(n)
                    && t.forward[n] == s.forward[n]
        },
{
}

/// `reverse` answers an address's primary name where it has one, else its
/// reverse entry, else nothing.
pub proof fn lemma_reverse_prefers_primary(s: ResolverView, address: Seq<char>)
    ensures
        s.primary.contains_key(address) ==> s.reverse_lookup(address) == Some(s.primary[address]),
        !s.primary.contains_key(address) && s.reverse.contains_key(address) ==> s.reverse_lookup(
            address,
        ) == Some(s.reverse[address]),
        !s.primary.contains_key(address) && !s.reverse.contains_key(address) ==> s.reverse_lookup(
            address,
        ) is None,
{
}

/// `initialize` succeeds exactly when no registry is set, and then sets
/// the given one and nothing else.
pub proof fn lemma_initialize_sets_registry(s: ResolverView, registry: Seq<char>)
    ensures
        s.registry is None <==> s.initialize_step(registry).1 is Ok,
        s.registry is None ==> {
            let t = s.initialize_step(registry).0;
            &&& t.registry == Some(registry)
            &&& t.forward == s.forward && t.reverse == s.reverse && t.primary == s.primary
        },
{
}

} // verus!
