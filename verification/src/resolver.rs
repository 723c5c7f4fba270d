//! The resolver contract: forward records from names to addresses, reverse
//! entries and primary names from addresses to names, and an optional
//! registry whose answer decides who owns a name.
//!
//! The contract's storage is held in the value itself.  Two things come
//! from outside: whether a name is a well-formed fully qualified name (the
//! caller's verdict is passed in), and who the registry says owns a name
//! (asked through a closure, only where the operation reaches that point).
use crate::record::{RecordView, ResolutionRecord, ResolverError};
use crate::laws::{
    lemma_remove_record_keeps_bound, lemma_set_record_keeps_bound, lemma_set_text_record_keeps_bound,
};
use crate::table::Table;
use vstd::prelude::*;

verus! {

/// The resolver's whole state, as plain values.
pub struct ResolverView {
    /// The registry contract, once the resolver is initialized.
    pub registry: Option<Seq<char>>,
    /// Name to record.
    pub forward: Map<Seq<char>, RecordView>,
    /// Address to a name: written by `set_record` for the address it sets,
    /// cleared by `remove_record` for the address of the removed record.
    pub reverse: Map<Seq<char>, Seq<char>>,
    /// Address to the name its owner chose as primary.
    pub primary: Map<Seq<char>, Seq<char>>,
    /// How many text records one name may hold.
    pub max_text_records: u32,
}

/// `owner` is a possible answer of `resolve` when asked who owns `name` at
/// `now_unix` by the registry `registry`.
pub open spec fn answered_by<F: Fn(&String, &String, u64) -> String>(
    resolve: F,
    registry: Seq<char>,
    name: Seq<char>,
    now_unix: u64,
    owner: Seq<char>,
) -> bool {
    exists|reg: String, n: String, o: String|
        reg@ == registry && n@ == name && o@ == owner && #[trigger] call_ensures(
            resolve,
            (&reg, &n, now_unix),
            o,
        )
}

/// `backing` is what the registry lookup can give: nothing without a
/// registry, else a possible answer of the registry.
pub open spec fn possible_backing<F: Fn(&String, &String, u64) -> String>(
    resolve: F,
    registry: Option<Seq<char>>,
    name: Seq<char>,
    now_unix: u64,
    backing: Option<Seq<char>>,
) -> bool {
    match registry {
        None => backing is None,
        Some(reg) => backing is Some && answered_by(resolve, reg, name, now_unix, backing->0),
    }
}

/// `resolve` can be asked who owns `name` at `now_unix` wherever a registry
/// is set; nothing is asked of it where none is.
pub open spec fn callable_for<F: Fn(&String, &String, u64) -> String>(
    resolve: F,
    registry: Option<Seq<char>>,
    name: Seq<char>,
    now_unix: u64,
) -> bool {
    registry is Some ==> forall|reg: &String, n: &String|
        reg@ == registry->0 && n@ == name ==> #[trigger] call_requires(resolve, (reg, n, now_unix))
}

/// `caller` may act on `record`: the registry's owner where the registry
/// answered, else the record's own owner.
pub open spec fn may_act(record: RecordView, caller: Seq<char>, backing: Option<Seq<char>>) -> bool {
    match backing {
        Some(owner) => owner == caller,
        None => record.owner == caller,
    }
}

/// Every record holds a finite set of text records.
pub open spec fn text_records_finite(s: ResolverView) -> bool {
    forall|name: Seq<char>| #[trigger]
        s.forward.contains_key(name) ==> s.forward[name].text_records.dom().finite()
}

/// Every record holds a finite set of text records, no more than the
/// resolver allows.
pub open spec fn text_records_bounded(s: ResolverView) -> bool {
    forall|name: Seq<char>| #[trigger]
        s.forward.contains_key(name) ==> s.forward[name].text_records.dom().finite()
            && s.forward[name].text_records.len() <= s.max_text_records
}

impl ResolverView {
    /// The state with `record` stored under `name`.
    pub open spec fn with_record(self, name: Seq<char>, record: RecordView) -> Self {
        ResolverView { forward: self.forward.insert(name, record), ..self }
    }

    /// Outcome of `initialize`.
    pub open spec fn initialize_step(self, registry: Seq<char>) -> (Self, Result<(), ResolverError>) {
        if self.registry is Some {
            (self, Err(ResolverError::Unauthorized))
        } else {
            (ResolverView { registry: Some(registry), ..self }, Ok(()))
        }
    }

    /// Outcome of `set_record` for a well-formed name, given what the
    /// registry lookup gave.
    pub open spec fn set_record_step(
        self,
        name: Seq<char>,
        owner: Seq<char>,
        address: Seq<char>,
        now_unix: u64,
        backing: Option<Seq<char>>,
    ) -> (Self, Result<(), ResolverError>) {
        if backing is Some && backing->0 != owner {
            (self, Err(ResolverError::Unauthorized))
        } else if self.forward.contains_key(name) && backing is None && self.forward[name].owner
            != owner {
            (self, Err(ResolverError::Unauthorized))
        } else {
            let text_records = if self.forward.contains_key(name) {
                self.forward[name].text_records
            } else {
                Map::empty()
            };
            let record = RecordView { owner, address, text_records, updated_at: now_unix };
            (
                ResolverView {
                    forward: self.forward.insert(name, record),
                    reverse: self.reverse.insert(address, name),
                    ..self
                },
                Ok(()),
            )
        }
    }

    /// Outcome of `set_record`.
    pub open spec fn set_record_outcome(
        self,
        name: Seq<char>,
        owner: Seq<char>,
        address: Seq<char>,
        now_unix: u64,
        name_is_valid: bool,
        backing: Option<Seq<char>>,
    ) -> (Self, Result<(), ResolverError>) {
        if !name_is_valid {
            (self, Err(ResolverError::Validation))
        } else {
            self.set_record_step(name, owner, address, now_unix, backing)
        }
    }

    /// Outcome of `set_text_record`, given what the registry lookup gave.
    pub open spec fn set_text_record_step(
        self,
        name: Seq<char>,
        caller: Seq<char>,
        key: Seq<char>,
        value: Seq<char>,
        now_unix: u64,
        backing: Option<Seq<char>>,
    ) -> (Self, Result<(), ResolverError>) {
        if !self.forward.contains_key(name) {
            (self, Err(ResolverError::RecordNotFound))
        } else {
            let record = self.forward[name];
            if !may_act(record, caller, backing) {
                (self, Err(ResolverError::Unauthorized))
            } else if !record.text_records.contains_key(key) && record.text_records.len()
                >= self.max_text_records {
                (self, Err(ResolverError::TooManyTextRecords))
            } else {
                (
                    self.with_record(
                        name,
                        RecordView {
                            text_records: record.text_records.insert(key, value),
                            updated_at: now_unix,
                            ..record
                        },
                    ),
                    Ok(()),
                )
            }
        }
    }

    /// Outcome of `set_primary_name`, given what the registry lookup gave.
    pub open spec fn set_primary_name_step(
        self,
        address: Seq<char>,
        caller: Seq<char>,
        name: Seq<char>,
        backing: Option<Seq<char>>,
    ) -> (Self, Result<(), ResolverError>) {
        if !self.forward.contains_key(name) {
            (self, Err(ResolverError::RecordNotFound))
        } else {
            let record = self.forward[name];
            if !may_act(record, caller, backing) {
                (self, Err(ResolverError::Unauthorized))
            } else if record.address != address {
                (self, Err(ResolverError::Unauthorized))
            } else {
                (ResolverView { primary: self.primary.insert(record.address, name), ..self }, Ok(()))
            }
        }
    }

    /// Outcome of `remove_record`, given what the registry lookup gave.
    pub open spec fn remove_record_step(
        self,
        name: Seq<char>,
        caller: Seq<char>,
        backing: Option<Seq<char>>,
    ) -> (Self, Result<(), ResolverError>) {
        if !self.forward.contains_key(name) {
            (self, Err(ResolverError::RecordNotFound))
        } else {
            let record = self.forward[name];
            if !may_act(record, caller, backing) {
                (self, Err(ResolverError::Unauthorized))
            } else {
                (
                    ResolverView {
                        forward: self.forward.remove(name),
                        reverse: self.reverse.remove(record.address),
                        primary: self.primary.remove(record.address),
                        ..self
                    },
                    Ok(()),
                )
            }
        }
    }

    /// Outcome of `update_owner`.
    pub open spec fn update_owner_step(self, name: Seq<char>, new_owner: Seq<char>) -> (
        Self,
        Result<(), ResolverError>,
    ) {
        if !self.forward.contains_key(name) {
            (self, Err(ResolverError::RecordNotFound))
        } else {
            (
                self.with_record(name, RecordView { owner: new_owner, ..self.forward[name] }),
                Ok(()),
            )
        }
    }

    /// Outcome of `transfer_record_owner`.
    pub open spec fn transfer_record_owner_step(
        self,
        name: Seq<char>,
        caller: Seq<char>,
        new_owner: Seq<char>,
    ) -> (Self, Result<(), ResolverError>) {
        if !self.forward.contains_key(name) {
            (self, Err(ResolverError::RecordNotFound))
        } else if self.forward[name].owner != caller {
            (self, Err(ResolverError::Unauthorized))
        } else {
            (
                self.with_record(name, RecordView { owner: new_owner, ..self.forward[name] }),
                Ok(()),
            )
        }
    }

    /// What `reverse` answers for `address`: the primary name, else the
    /// reverse entry.
    pub open spec fn reverse_lookup(self, address: Seq<char>) -> Option<Seq<char>> {
        if self.primary.contains_key(address) {
            Some(self.primary[address])
        } else if self.reverse.contains_key(address) {
            Some(self.reverse[address])
        } else {
            None
        }
    }
}

/// The resolver contract and its storage.
pub struct ResolverContract {
    registry: Option<String>,
    forward: Table<ResolutionRecord>,
    reverse_names: Table<String>,
    primary_names: Table<String>,
    max_text_records: u32,
}

impl View for ResolverContract {
    type V = ResolverView;

    closed spec fn view(&self) -> ResolverView {
        ResolverView {
            registry: self.registry.deep_view(),
            forward: self.forward@,
            reverse: self.reverse_names@,
            primary: self.primary_names@,
            max_text_records: self.max_text_records,
        }
    }
}

/// The records of a resolver hold finitely many text records each.
pub proof fn lemma_stored_text_records_finite(c: &ResolverContract)
    ensures
        text_records_finite(c@),
{
    assert forall|name: Seq<char>| #[trigger] c@.forward.contains_key(name) implies c@.forward[name].text_records.dom().finite() by {
        let record = c.forward.lemma_value_stored(name);
        record.text_records.lemma_finite();
    }
}

/// `record` is held by `caller`, given what the registry lookup gave.
fn assert_owner(record: &ResolutionRecord, caller: &String, backing: &Option<String>) -> (r: Result<
    (),
    ResolverError,
>)
    ensures
        r is Ok <==> may_act(record@, caller@, backing.deep_view()),
        r is Err ==> r == Err::<(), ResolverError>(ResolverError::Unauthorized),
{
    match backing {
        Some(owner) => {
            if !(*owner == *caller) {
                return Err(ResolverError::Unauthorized);
            }
            Ok(())
        },
        None => {
            if !(record.owner == *caller) {
                return Err(ResolverError::Unauthorized);
            }
            Ok(())
        },
    }
}

impl ResolverContract {
    /// A resolver with empty storage, allowing `max_text_records` text
    /// records per name.
    pub fn new(max_text_records: u32) -> (c: Self)
        ensures
            c@.registry is None,
            c@.forward == Map::<Seq<char>, RecordView>::empty(),
            c@.reverse == Map::<Seq<char>, Seq<char>>::empty(),
            c@.primary == Map::<Seq<char>, Seq<char>>::empty(),
            c@.max_text_records == max_text_records,
            text_records_bounded(c@),
    {
        ResolverContract {
            registry: None,
            forward: Table::new(),
            reverse_names: Table::new(),
            primary_names: Table::new(),
            max_text_records,
        }
    }

    /// A resolver holding the given storage: the registry, the forward
    /// records, the reverse entries and the primary names.
    pub fn from_parts(
        registry: Option<String>,
        forward: Table<ResolutionRecord>,
        reverse_names: Table<String>,
        primary_names: Table<String>,
        max_text_records: u32,
    ) -> (c: Self)
        ensures
            c@ == (ResolverView {
                registry: registry.deep_view(),
                forward: forward@,
                reverse: reverse_names@,
                primary: primary_names@,
                max_text_records,
            }),
    {
        ResolverContract { registry, forward, reverse_names, primary_names, max_text_records }
    }

    /// The storage of the resolver: the registry, the forward records, the
    /// reverse entries and the primary names.
    pub fn into_parts(self) -> (r: (
        Option<String>,
        Table<ResolutionRecord>,
        Table<String>,
        Table<String>,
    ))
        ensures
            r.0.deep_view() == self@.registry,
            r.1@ == self@.forward,
            r.2@ == self@.reverse,
            r.3@ == self@.primary,
    {
        (self.registry, self.forward, self.reverse_names, self.primary_names)
    }

    /// How many text records one name may hold.
    pub fn max_text_records(&self) -> (m: u32)
        ensures
            m == self@.max_text_records,
    {
        self.max_text_records
    }

    /// Sets the registry whose answers decide ownership; only once.
    pub fn initialize(&mut self, registry: String) -> (r: Result<(), ResolverError>)
        ensures
            (final(self)@, r) == old(self)@.initialize_step(registry@),
            text_records_bounded(old(self)@) ==> text_records_bounded(final(self)@),
    {
        if self.registry.is_some() {
            return Err(ResolverError::Unauthorized);
        }
        self.registry = Some(registry);
        Ok(())
    }

    /// The registry, or `NotInitialized`.
    pub fn get_registry(&self) -> (r: Result<String, ResolverError>)
        ensures
            match r {
                Ok(reg) => self@.registry == Some(reg@),
                Err(e) => self@.registry is None && e == ResolverError::NotInitialized,
            },
    {
        match &self.registry {
            Some(reg) => Ok(reg.clone()),
            None => Err(ResolverError::NotInitialized),
        }
    }

    /// Who the registry says owns `name` at `now_unix`; nothing without a
    /// registry.  The registry is asked through `resolve`.
    pub fn registry_owner<F: Fn(&String, &String, u64) -> String>(
        &self,
        name: &String,
        now_unix: u64,
        resolve: &F,
    ) -> (r: Option<String>)
        requires
            callable_for(*resolve, self@.registry, name@, now_unix),
        ensures
            possible_backing(*resolve, self@.registry, name@, now_unix, r.deep_view()),
    {
        match &self.registry {
            Some(reg) => {
                let owner = resolve(reg, name, now_unix);
                assert(answered_by(*resolve, reg@, name@, now_unix, owner@));
                Some(owner)
            },
            None => None,
        }
    }

    /// A copy of the record stored under `name`, or `RecordNotFound`.
    fn get_record(&self, name: &String) -> (r: Result<ResolutionRecord, ResolverError>)
        ensures
            match r {
                Ok(record) => self@.forward.contains_key(name@) && record@ == self@.forward[name@],
                Err(e) => !self@.forward.contains_key(name@) && e == ResolverError::RecordNotFound,
            },
    {
        match self.forward.get(name) {
            Some(record) => Ok(record.copy()),
            None => Err(ResolverError::RecordNotFound),
        }
    }

    /// Stores `record` under `name`.
    fn put_record(&mut self, name: String, record: ResolutionRecord)
        ensures
            final(self)@ == old(self)@.with_record(name@, record@),
    {
        self.forward.insert(name, record);
    }

    /// `set_record` once the name is known to be well formed and the
    /// registry lookup, if any, has been made.
    pub fn set_record_backed(
        &mut self,
        name: String,
        owner: String,
        address: String,
        now_unix: u64,
        backing: Option<String>,
    ) -> (r: Result<(), ResolverError>)
        ensures
            (final(self)@, r) == old(self)@.set_record_step(
                name@,
                owner@,
                address@,
                now_unix,
                backing.deep_view(),
            ),
            text_records_bounded(old(self)@) ==> text_records_bounded(final(self)@),
    {
        proof {
            if text_records_bounded(self@) {
                lemma_set_record_keeps_bound(
                    self@,
                    name@,
                    owner@,
                    address@,
                    now_unix,
                    backing.deep_view(),
                );
            }
        }
        let canonical_owner = match &backing {
            Some(registry_owner) => {
                if !(*registry_owner == owner) {
                    return Err(ResolverError::Unauthorized);
                }
                registry_owner.clone()
            },
            None => owner,
        };
        let text_records = match self.forward.get(&name) {
            Some(existing) => {
                if backing.is_none() && !(existing.owner == canonical_owner) {
                    return Err(ResolverError::Unauthorized);
                }
                existing.text_records.copy()
            },
            None => Table::new(),
        };
        let record = ResolutionRecord {
            owner: canonical_owner,
            address: address.clone(),
            text_records,
            updated_at: now_unix,
        };
        self.put_record(name.clone(), record);
        self.reverse_names.insert(address, name);
        Ok(())
    }

    /// Points `name` at `address` for `owner`.  A well-formed name is
    /// required; where a registry is set, `owner` must be the owner it
    /// reports (asked through `resolve` with `now_unix`); else an existing
    /// record may only be replaced by its owner.  Text records are kept.
    pub fn set_record<F: Fn(&String, &String, u64) -> String>(
        &mut self,
        name: String,
        owner: String,
        address: String,
        now_unix: u64,
        name_is_valid: bool,
        resolve: F,
    ) -> (r: Result<(), ResolverError>)
        requires
            name_is_valid ==> callable_for(resolve, old(self)@.registry, name@, now_unix),
        ensures
            !name_is_valid ==> final(self)@ == old(self)@ && r == Err::<(), ResolverError>(
                ResolverError::Validation,
            ),
            name_is_valid ==> exists|backing: Option<Seq<char>>|
                #[trigger] possible_backing(resolve, old(self)@.registry, name@, now_unix, backing)
                    && (final(self)@, r) == old(self)@.set_record_step(
                    name@,
                    owner@,
                    address@,
                    now_unix,
                    backing,
                ),
            text_records_bounded(old(self)@) ==> text_records_bounded(final(self)@),
    {
        if !name_is_valid {
            return Err(ResolverError::Validation);
        }
        let backing = self.registry_owner(&name, now_unix, &resolve);
        let ghost b = backing.deep_view();
        let r = self.set_record_backed(name, owner, address, now_unix, backing);
        assert(possible_backing(resolve, old(self)@.registry, name@, now_unix, b));
        r
    }

    /// `set_text_record` once the registry lookup, if any, has been made.
    pub fn set_text_record_backed(
        &mut self,
        name: String,
        caller: String,
        key: String,
        value: String,
        now_unix: u64,
        backing: Option<String>,
    ) -> (r: Result<(), ResolverError>)
        ensures
            (final(self)@, r) == old(self)@.set_text_record_step(
                name@,
                caller@,
                key@,
                value@,
                now_unix,
                backing.deep_view(),
            ),
            text_records_bounded(old(self)@) ==> text_records_bounded(final(self)@),
    {
        proof {
            if text_records_bounded(self@) {
                lemma_set_text_record_keeps_bound(
                    self@,
                    name@,
                    caller@,
                    key@,
                    value@,
                    now_unix,
                    backing.deep_view(),
                );
            }
        }
        let mut record = self.get_record(&name)?;
        assert_owner(&record, &caller, &backing)?;
        let count = record.text_records.len();
        if !record.text_records.contains_key(&key) && count >= self.max_text_records as usize {
            return Err(ResolverError::TooManyTextRecords);
        }
        record.text_records.insert(key, value);
        record.updated_at = now_unix;
        self.put_record(name, record);
        Ok(())
    }

    /// Sets the text record `key` of `name` to `value`.  The record must
    /// exist and `caller` must hold it (the registry's owner, asked through
    /// `resolve` with `now_unix`, where a registry is set); a new key is
    /// refused once the record holds the maximum number of keys.
    pub fn set_text_record<F: Fn(&String, &String, u64) -> String>(
        &mut self,
        name: String,
        caller: String,
        key: String,
        value: String,
        now_unix: u64,
        resolve: F,
    ) -> (r: Result<(), ResolverError>)
        requires
            old(self)@.forward.contains_key(name@) ==> callable_for(
                resolve,
                old(self)@.registry,
                name@,
                now_unix,
            ),
        ensures
            !old(self)@.forward.contains_key(name@) ==> final(self)@ == old(self)@ && r == Err::<
                (),
                ResolverError,
            >(ResolverError::RecordNotFound),
            old(self)@.forward.contains_key(name@) ==> exists|backing: Option<Seq<char>>|
                #[trigger] possible_backing(resolve, old(self)@.registry, name@, now_unix, backing)
                    && (final(self)@, r) == old(self)@.set_text_record_step(
                    name@,
                    caller@,
                    key@,
                    value@,
                    now_unix,
                    backing,
                ),
            text_records_bounded(old(self)@) ==> text_records_bounded(final(self)@),
    {
        if !self.forward.contains_key(&name) {
            return Err(ResolverError::RecordNotFound);
        }
        let backing = self.registry_owner(&name, now_unix, &resolve);
        let ghost b = backing.deep_view();
        let r = self.set_text_record_backed(name, caller, key, value, now_unix, backing);
        assert(possible_backing(resolve, old(self)@.registry, name@, now_unix, b));
        r
    }

    /// `set_primary_name` once the registry lookup, if any, has been made.
    pub fn set_primary_name_backed(
        &mut self,
        address: String,
        caller: String,
        name: String,
        backing: Option<String>,
    ) -> (r: Result<(), ResolverError>)
        ensures
            (final(self)@, r) == old(self)@.set_primary_name_step(
                address@,
                caller@,
                name@,
                backing.deep_view(),
            ),
            text_records_bounded(old(self)@) ==> text_records_bounded(final(self)@),
    {
        let record = self.get_record(&name)?;
        assert_owner(&record, &caller, &backing)?;
        if !(record.address == address) {
            return Err(ResolverError::Unauthorized);
        }
        self.primary_names.insert(record.address, name);
        Ok(())
    }

    /// Makes `name` the primary name of `address`.  The record of `name`
    /// must exist, be held by `caller` (the registry's owner, asked through
    /// `resolve` at time 0, where a registry is set) and point at `address`.
    pub fn set_primary_name<F: Fn(&String, &String, u64) -> String>(
        &mut self,
        address: String,
        caller: String,
        name: String,
        resolve: F,
    ) -> (r: Result<(), ResolverError>)
        requires
            old(self)@.forward.contains_key(name@) ==> callable_for(
                resolve,
                old(self)@.registry,
                name@,
                0,
            ),
        ensures
            !old(self)@.forward.contains_key(name@) ==> final(self)@ == old(self)@ && r == Err::<
                (),
                ResolverError,
            >(ResolverError::RecordNotFound),
            old(self)@.forward.contains_key(name@) ==> exists|backing: Option<Seq<char>>|
                #[trigger] possible_backing(resolve, old(self)@.registry, name@, 0, backing) && (
                final(self)@,
                r,
            ) == old(self)@.set_primary_name_step(address@, caller@, name@, backing),
            text_records_bounded(old(self)@) ==> text_records_bounded(final(self)@),
    {
        if !self.forward.contains_key(&name) {
            return Err(ResolverError::RecordNotFound);
        }
        let backing = self.registry_owner(&name, 0, &resolve);
        let ghost b = backing.deep_view();
        let r = self.set_primary_name_backed(address, caller, name, backing);
        assert(possible_backing(resolve, old(self)@.registry, name@, 0, b));
        r
    }

    /// `remove_record` once the registry lookup, if any, has been made.
    pub fn remove_record_backed(&mut self, name: String, caller: String, backing: Option<String>) -> (r:
        Result<(), ResolverError>)
        ensures
            (final(self)@, r) == old(self)@.remove_record_step(name@, caller@, backing.deep_view()),
            text_records_bounded(old(self)@) ==> text_records_bounded(final(self)@),
    {
        proof {
            if text_records_bounded(self@) {
                lemma_remove_record_keeps_bound(self@, name@, caller@, backing.deep_view());
            }
        }
        let record = self.get_record(&name)?;
        assert_owner(&record, &caller, &backing)?;
        self.forward.remove(&name);
        self.reverse_names.remove(&record.address);
        self.primary_names.remove(&record.address);
        Ok(())
    }

    /// Removes the record of `name`, with the reverse entry and the primary
    /// name of its address.  The record must exist and be held by `caller`
    /// (the registry's owner, asked through `resolve` at time 0, where a
    /// registry is set).
    pub fn remove_record<F: Fn(&String, &String, u64) -> String>(
        &mut self,
        name: String,
        caller: String,
        resolve: F,
    ) -> (r: Result<(), ResolverError>)
        requires
            old(self)@.forward.contains_key(name@) ==> callable_for(
                resolve,
                old(self)@.registry,
                name@,
                0,
            ),
        ensures
            !old(self)@.forward.contains_key(name@) ==> final(self)@ == old(self)@ && r == Err::<
                (),
                ResolverError,
            >(ResolverError::RecordNotFound),
            old(self)@.forward.contains_key(name@) ==> exists|backing: Option<Seq<char>>|
                #[trigger] possible_backing(resolve, old(self)@.registry, name@, 0, backing) && (
                final(self)@,
                r,
            ) == old(self)@.remove_record_step(name@, caller@, backing),
            text_records_bounded(old(self)@) ==> text_records_bounded(final(self)@),
    {
        if !self.forward.contains_key(&name) {
            return Err(ResolverError::RecordNotFound);
        }
        let backing = self.registry_owner(&name, 0, &resolve);
        let ghost b = backing.deep_view();
        let r = self.remove_record_backed(name, caller, backing);
        assert(possible_backing(resolve, old(self)@.registry, name@, 0, b));
        r
    }

    /// Sets the owner of the record of `name`, which must exist.
    pub fn update_owner(&mut self, name: String, new_owner: String) -> (r: Result<(), ResolverError>)
        ensures
            (final(self)@, r) == old(self)@.update_owner_step(name@, new_owner@),
            text_records_bounded(old(self)@) ==> text_records_bounded(final(self)@),
    {
        let mut record = self.get_record(&name)?;
        record.owner = new_owner;
        self.put_record(name, record);
        Ok(())
    }

    /// The record of `name`, if there is one.
    pub fn resolve(&self, name: String) -> (r: Option<ResolutionRecord>)
        ensures
            match r {
                Some(record) => self@.forward.contains_key(name@) && record@ == self@.forward[name@],
                None => !self@.forward.contains_key(name@),
            },
    {
        match self.forward.get(&name) {
            Some(record) => Some(record.copy()),
            None => None,
        }
    }

    /// Whether `name` has a record.
    pub fn has_record(&self, name: String) -> (r: bool)
        ensures
            r == self@.forward.contains_key(name@),
    {
        self.forward.contains_key(&name)
    }

    /// The name that `address` resolves back to: its primary name, else its
    /// reverse entry (see `ResolverView::reverse_lookup`).
    pub fn reverse(&self, address: String) -> (r: Option<String>)
        ensures
            r.deep_view() == self@.reverse_lookup(address@),
    {
        match self.primary_names.get(&address) {
            Some(name) => Some(name.clone()),
            None => match self.reverse_names.get(&address) {
                Some(name) => Some(name.clone()),
                None => None,
            },
        }
    }

    /// Hands the record of `name` to `new_owner`; only its owner may.
    pub fn transfer_record_owner(&mut self, name: String, caller: String, new_owner: String) -> (r:
        Result<(), ResolverError>)
        ensures
            (final(self)@, r) == old(self)@.transfer_record_owner_step(name@, caller@, new_owner@),
            text_records_bounded(old(self)@) ==> text_records_bounded(final(self)@),
    {
        let mut record = self.get_record(&name)?;
        if !(record.owner == caller) {
            return Err(ResolverError::Unauthorized);
        }
        record.owner = new_owner;
        self.put_record(name, record);
        Ok(())
    }
}

} // verus!
