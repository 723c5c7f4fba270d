use xlm_ns::record::{ResolutionRecord, ResolverError};
use xlm_ns::table::Table;
use xlm_ns::footprint::{
    initialize_footprint, name_footprint, reverse_footprint, set_primary_name_footprint,
    set_record_footprint,
};
use xlm_ns::resolver::ResolverContract;

fn s(v: &str) -> String {
    v.to_string()
}

fn no_registry(_registry: &String, _name: &String, _now: u64) -> String {
    panic!("the registry must not be asked when none is set")
}

#[test]
fn set_record_then_resolve_reads_it_back() {
    let mut c = ResolverContract::new(4);
    assert_eq!(
        c.set_record(s("pay.timmy.xlm"), s("OWNER"), s("GABC"), 102, true, no_registry),
        Ok(())
    );
    assert!(c.has_record(s("pay.timmy.xlm")));
    let record = c.resolve(s("pay.timmy.xlm")).unwrap();
    assert_eq!(record.owner, "OWNER");
    assert_eq!(record.address, "GABC");
    assert_eq!(record.updated_at, 102);
    assert_eq!(record.text_records.len(), 0);
    assert_eq!(c.reverse(s("GABC")), Some(s("pay.timmy.xlm")));
    assert!(!c.has_record(s("other.xlm")));
    assert!(c.resolve(s("other.xlm")).is_none());
    assert_eq!(c.reverse(s("GXYZ")), None);
}

#[test]
fn invalid_name_is_refused_before_anything_else() {
    let mut c = ResolverContract::new(4);
    assert_eq!(c.initialize(s("REGISTRY")), Ok(()));
    assert_eq!(
        c.set_record(s("bad name"), s("OWNER"), s("GABC"), 1, false, no_registry),
        Err(ResolverError::Validation)
    );
    assert!(!c.has_record(s("bad name")));
}

#[test]
fn only_the_record_owner_replaces_a_record_without_registry() {
    let mut c = ResolverContract::new(4);
    c.set_record(s("a.xlm"), s("ALICE"), s("GA"), 1, true, no_registry).unwrap();
    assert_eq!(
        c.set_record(s("a.xlm"), s("MALLORY"), s("GM"), 2, true, no_registry),
        Err(ResolverError::Unauthorized)
    );
    let record = c.resolve(s("a.xlm")).unwrap();
    assert_eq!(record.owner, "ALICE");
    assert_eq!(record.address, "GA");
    assert_eq!(c.reverse(s("GM")), None);
}

#[test]
fn set_record_keeps_text_records() {
    let mut c = ResolverContract::new(4);
    c.set_record(s("a.xlm"), s("ALICE"), s("GA"), 1, true, no_registry).unwrap();
    c.set_text_record(s("a.xlm"), s("ALICE"), s("url"), s("https://a"), 2, no_registry).unwrap();
    c.set_record(s("a.xlm"), s("ALICE"), s("GB"), 3, true, no_registry).unwrap();
    let record = c.resolve(s("a.xlm")).unwrap();
    assert_eq!(record.address, "GB");
    assert_eq!(record.updated_at, 3);
    assert_eq!(record.text_records.get(&s("url")), Some(&s("https://a")));
    // the old address still resolves back to the name
    assert_eq!(c.reverse(s("GA")), Some(s("a.xlm")));
    assert_eq!(c.reverse(s("GB")), Some(s("a.xlm")));
}

#[test]
fn registry_owner_decides_when_registry_is_set() {
    let mut c = ResolverContract::new(4);
    assert_eq!(c.initialize(s("REGISTRY")), Ok(()));
    let registry = |reg: &String, name: &String, now: u64| -> String {
        assert_eq!(reg, "REGISTRY");
        assert_eq!(name, "a.xlm");
        assert_eq!(now, 7);
        s("ALICE")
    };
    assert_eq!(
        c.set_record(s("a.xlm"), s("BOB"), s("GB"), 7, true, registry),
        Err(ResolverError::Unauthorized)
    );
    assert!(!c.has_record(s("a.xlm")));
    assert_eq!(c.set_record(s("a.xlm"), s("ALICE"), s("GA"), 7, true, registry), Ok(()));
    assert_eq!(c.resolve(s("a.xlm")).unwrap().owner, "ALICE");
}

#[test]
fn registry_owner_overrides_record_owner() {
    let mut c = ResolverContract::new(4);
    c.set_record(s("a.xlm"), s("ALICE"), s("GA"), 1, true, no_registry).unwrap();
    c.initialize(s("REGISTRY")).unwrap();
    let says_bob = |_r: &String, _n: &String, _t: u64| s("BOB");
    // the registry now reports BOB: BOB may replace ALICE's record
    assert_eq!(c.set_record(s("a.xlm"), s("BOB"), s("GB"), 2, true, says_bob), Ok(()));
    assert_eq!(c.resolve(s("a.xlm")).unwrap().owner, "BOB");
    assert_eq!(
        c.set_text_record(s("a.xlm"), s("ALICE"), s("k"), s("v"), 3, says_bob),
        Err(ResolverError::Unauthorized)
    );
    assert_eq!(c.set_text_record(s("a.xlm"), s("BOB"), s("k"), s("v"), 3, says_bob), Ok(()));
}

#[test]
fn primary_and_remove_consult_registry_at_time_zero() {
    let mut c = ResolverContract::new(4);
    c.set_record(s("a.xlm"), s("ALICE"), s("GA"), 1, true, no_registry).unwrap();
    c.initialize(s("REGISTRY")).unwrap();
    let at_zero = |_r: &String, _n: &String, t: u64| -> String {
        assert_eq!(t, 0);
        s("ALICE")
    };
    assert_eq!(c.set_primary_name(s("GA"), s("ALICE"), s("a.xlm"), at_zero), Ok(()));
    assert_eq!(c.remove_record(s("a.xlm"), s("ALICE"), at_zero), Ok(()));
    assert!(!c.has_record(s("a.xlm")));
}

#[test]
fn initialize_only_once() {
    let mut c = ResolverContract::new(4);
    assert_eq!(c.get_registry(), Err(ResolverError::NotInitialized));
    assert_eq!(c.initialize(s("R1")), Ok(()));
    assert_eq!(c.initialize(s("R2")), Err(ResolverError::Unauthorized));
    assert_eq!(c.get_registry(), Ok(s("R1")));
}

#[test]
fn text_records_are_capped() {
    let mut c = ResolverContract::new(2);
    assert_eq!(c.max_text_records(), 2);
    c.set_record(s("a.xlm"), s("ALICE"), s("GA"), 1, true, no_registry).unwrap();
    assert_eq!(c.set_text_record(s("a.xlm"), s("ALICE"), s("k1"), s("v1"), 2, no_registry), Ok(()));
    assert_eq!(c.set_text_record(s("a.xlm"), s("ALICE"), s("k2"), s("v2"), 3, no_registry), Ok(()));
    assert_eq!(
        c.set_text_record(s("a.xlm"), s("ALICE"), s("k3"), s("v3"), 4, no_registry),
        Err(ResolverError::TooManyTextRecords)
    );
    // an existing key may still be overwritten
    assert_eq!(c.set_text_record(s("a.xlm"), s("ALICE"), s("k1"), s("w1"), 5, no_registry), Ok(()));
    let record = c.resolve(s("a.xlm")).unwrap();
    assert_eq!(record.text_records.len(), 2);
    assert_eq!(record.text_records.get(&s("k1")), Some(&s("w1")));
    assert_eq!(record.text_records.get(&s("k3")), None);
    assert_eq!(record.updated_at, 5);
}

#[test]
fn text_record_errors() {
    let mut c = ResolverContract::new(2);
    assert_eq!(
        c.set_text_record(s("none.xlm"), s("ALICE"), s("k"), s("v"), 1, no_registry),
        Err(ResolverError::RecordNotFound)
    );
    c.set_record(s("a.xlm"), s("ALICE"), s("GA"), 1, true, no_registry).unwrap();
    assert_eq!(
        c.set_text_record(s("a.xlm"), s("BOB"), s("k"), s("v"), 2, no_registry),
        Err(ResolverError::Unauthorized)
    );
    assert_eq!(c.resolve(s("a.xlm")).unwrap().updated_at, 1);
}

#[test]
fn primary_name_wins_reverse_lookup() {
    let mut c = ResolverContract::new(2);
    c.set_record(s("a.xlm"), s("ALICE"), s("GA"), 1, true, no_registry).unwrap();
    c.set_record(s("b.xlm"), s("ALICE"), s("GA"), 2, true, no_registry).unwrap();
    assert_eq!(c.reverse(s("GA")), Some(s("b.xlm")));
    assert_eq!(c.set_primary_name(s("GA"), s("ALICE"), s("a.xlm"), no_registry), Ok(()));
    assert_eq!(c.reverse(s("GA")), Some(s("a.xlm")));
}

#[test]
fn primary_name_errors() {
    let mut c = ResolverContract::new(2);
    assert_eq!(
        c.set_primary_name(s("GA"), s("ALICE"), s("a.xlm"), no_registry),
        Err(ResolverError::RecordNotFound)
    );
    c.set_record(s("a.xlm"), s("ALICE"), s("GA"), 1, true, no_registry).unwrap();
    assert_eq!(
        c.set_primary_name(s("GA"), s("BOB"), s("a.xlm"), no_registry),
        Err(ResolverError::Unauthorized)
    );
    // the record does not point at GZ
    assert_eq!(
        c.set_primary_name(s("GZ"), s("ALICE"), s("a.xlm"), no_registry),
        Err(ResolverError::Unauthorized)
    );
    assert_eq!(c.reverse(s("GZ")), None);
}

#[test]
fn remove_record_clears_reverse_and_primary() {
    let mut c = ResolverContract::new(2);
    c.set_record(s("a.xlm"), s("ALICE"), s("GA"), 1, true, no_registry).unwrap();
    c.set_primary_name(s("GA"), s("ALICE"), s("a.xlm"), no_registry).unwrap();
    assert_eq!(c.remove_record(s("a.xlm"), s("BOB"), no_registry), Err(ResolverError::Unauthorized));
    assert!(c.has_record(s("a.xlm")));
    assert_eq!(c.remove_record(s("a.xlm"), s("ALICE"), no_registry), Ok(()));
    assert!(!c.has_record(s("a.xlm")));
    assert_eq!(c.reverse(s("GA")), None);
    assert_eq!(c.remove_record(s("a.xlm"), s("ALICE"), no_registry), Err(ResolverError::RecordNotFound));
}

#[test]
fn update_owner_changes_only_the_owner() {
    let mut c = ResolverContract::new(2);
    assert_eq!(c.update_owner(s("a.xlm"), s("BOB")), Err(ResolverError::RecordNotFound));
    c.set_record(s("a.xlm"), s("ALICE"), s("GA"), 1, true, no_registry).unwrap();
    c.set_text_record(s("a.xlm"), s("ALICE"), s("k"), s("v"), 2, no_registry).unwrap();
    assert_eq!(c.update_owner(s("a.xlm"), s("BOB")), Ok(()));
    let record = c.resolve(s("a.xlm")).unwrap();
    assert_eq!(record.owner, "BOB");
    assert_eq!(record.address, "GA");
    assert_eq!(record.updated_at, 2);
    assert_eq!(record.text_records.get(&s("k")), Some(&s("v")));
}

#[test]
fn transfer_moves_control_of_the_record() {
    let mut c = ResolverContract::new(2);
    c.set_record(s("pay.timmy.xlm"), s("SUBOWNER"), s("GABC"), 102, true, no_registry).unwrap();
    c.set_primary_name(s("GABC"), s("SUBOWNER"), s("pay.timmy.xlm"), no_registry).unwrap();
    assert_eq!(
        c.transfer_record_owner(s("pay.timmy.xlm"), s("SUBOWNER"), s("NEXT")),
        Ok(())
    );
    assert_eq!(
        c.transfer_record_owner(s("pay.timmy.xlm"), s("SUBOWNER"), s("CONTROLLER")),
        Err(ResolverError::Unauthorized)
    );
    assert_eq!(
        c.set_record(s("pay.timmy.xlm"), s("SUBOWNER"), s("GDEF"), 103, true, no_registry),
        Err(ResolverError::Unauthorized)
    );
    assert_eq!(
        c.set_record(s("pay.timmy.xlm"), s("NEXT"), s("GDEF"), 103, true, no_registry),
        Ok(())
    );
    c.set_primary_name(s("GDEF"), s("NEXT"), s("pay.timmy.xlm"), no_registry).unwrap();
    let record = c.resolve(s("pay.timmy.xlm")).unwrap();
    assert_eq!(record.owner, "NEXT");
    assert_eq!(record.address, "GDEF");
    assert_eq!(c.reverse(s("GDEF")), Some(s("pay.timmy.xlm")));
    assert_eq!(
        c.transfer_record_owner(s("missing.xlm"), s("NEXT"), s("X")),
        Err(ResolverError::RecordNotFound)
    );
}

#[test]
fn backed_operations_take_the_registry_answer() {
    let mut c = ResolverContract::new(2);
    assert_eq!(
        c.set_record_backed(s("a.xlm"), s("ALICE"), s("GA"), 1, Some(s("BOB"))),
        Err(ResolverError::Unauthorized)
    );
    assert_eq!(c.set_record_backed(s("a.xlm"), s("BOB"), s("GA"), 1, Some(s("BOB"))), Ok(()));
    assert_eq!(
        c.set_text_record_backed(s("a.xlm"), s("BOB"), s("k"), s("v"), 2, Some(s("CAROL"))),
        Err(ResolverError::Unauthorized)
    );
    assert_eq!(
        c.set_text_record_backed(s("a.xlm"), s("CAROL"), s("k"), s("v"), 2, Some(s("CAROL"))),
        Ok(())
    );
    assert_eq!(
        c.set_primary_name_backed(s("GA"), s("CAROL"), s("a.xlm"), Some(s("CAROL"))),
        Ok(())
    );
    assert_eq!(c.remove_record_backed(s("a.xlm"), s("BOB"), None), Ok(()));
    assert!(!c.has_record(s("a.xlm")));
}

#[test]
fn registry_owner_lookup() {
    let mut c = ResolverContract::new(2);
    let answer = |_r: &String, _n: &String, _t: u64| s("ALICE");
    assert_eq!(c.registry_owner(&s("a.xlm"), 1, &answer), None);
    c.initialize(s("REGISTRY")).unwrap();
    assert_eq!(c.registry_owner(&s("a.xlm"), 1, &answer), Some(s("ALICE")));
}

#[test]
fn error_codes() {
    assert_eq!(ResolverError::Validation.code(), 1);
    assert_eq!(ResolverError::RecordNotFound.code(), 2);
    assert_eq!(ResolverError::Unauthorized.code(), 3);
    assert_eq!(ResolverError::TooManyTextRecords.code(), 4);
    assert_eq!(ResolverError::NotInitialized.code(), 5);
}

#[test]
fn storage_round_trips_through_parts() {
    let mut text = Table::new();
    text.insert(s("k"), s("v"));
    let forward = Table::from_entries(vec![(
        s("a.xlm"),
        ResolutionRecord { owner: s("ALICE"), address: s("GA"), text_records: text, updated_at: 9 },
    )]);
    let reverse = Table::from_entries(vec![(s("GA"), s("old.xlm")), (s("GA"), s("a.xlm"))]);
    let primary: Table<String> = Table::new();
    let mut c = ResolverContract::from_parts(Some(s("REG")), forward, reverse, primary, 3);
    assert_eq!(c.get_registry(), Ok(s("REG")));
    assert_eq!(c.max_text_records(), 3);
    assert_eq!(c.reverse(s("GA")), Some(s("a.xlm")));
    assert_eq!(c.update_owner(s("a.xlm"), s("BOB")), Ok(()));
    let (registry, forward, reverse, primary) = c.into_parts();
    assert_eq!(registry, Some(s("REG")));
    let records = forward.into_entries();
    assert_eq!(records.len(), 1);
    assert_eq!(records[0].0, "a.xlm");
    assert_eq!(records[0].1.owner, "BOB");
    assert_eq!(records[0].1.text_records.get(&s("k")), Some(&s("v")));
    assert_eq!(reverse.into_entries(), vec![(s("GA"), s("a.xlm"))]);
    assert!(primary.into_entries().is_empty());
}

#[test]
fn removing_a_record_clears_the_reverse_entry_of_its_address() {
    let mut c = ResolverContract::new(2);
    c.set_record(s("a.xlm"), s("ALICE"), s("GA"), 1, true, no_registry).unwrap();
    c.set_record(s("b.xlm"), s("ALICE"), s("GA"), 2, true, no_registry).unwrap();
    assert_eq!(c.reverse(s("GA")), Some(s("b.xlm")));
    assert_eq!(c.remove_record(s("a.xlm"), s("ALICE"), no_registry), Ok(()));
    assert!(c.has_record(s("b.xlm")));
    assert_eq!(c.reverse(s("GA")), None);
}

#[test]
fn registry_not_asked_for_a_missing_record() {
    let mut c = ResolverContract::new(2);
    c.initialize(s("REGISTRY")).unwrap();
    assert_eq!(
        c.set_text_record(s("none.xlm"), s("ALICE"), s("k"), s("v"), 1, no_registry),
        Err(ResolverError::RecordNotFound)
    );
    assert_eq!(c.remove_record(s("none.xlm"), s("ALICE"), no_registry), Err(ResolverError::RecordNotFound));
    assert_eq!(
        c.set_primary_name(s("GA"), s("ALICE"), s("none.xlm"), no_registry),
        Err(ResolverError::RecordNotFound)
    );
}

#[test]
fn footprints_name_the_storage_keys() {
    let f = set_record_footprint(&s("a.xlm"), &s("GA"));
    assert_eq!((f.name, f.address), (Some(s("a.xlm")), Some(s("GA"))));
    let f = set_primary_name_footprint(&s("GA"), &s("a.xlm"));
    assert_eq!((f.name, f.address), (Some(s("a.xlm")), Some(s("GA"))));
    let f = name_footprint(&s("a.xlm"));
    assert_eq!((f.name, f.address), (Some(s("a.xlm")), None));
    let f = reverse_footprint(&s("GA"));
    assert_eq!((f.name, f.address), (None, Some(s("GA"))));
    let f = initialize_footprint();
    assert_eq!((f.name, f.address), (None, None));

    let mut c = ResolverContract::new(2);
    let f = c.remove_record_footprint(&s("a.xlm"));
    assert_eq!((f.name, f.address), (Some(s("a.xlm")), None));
    c.set_record(s("a.xlm"), s("ALICE"), s("GA"), 1, true, no_registry).unwrap();
    let f = c.remove_record_footprint(&s("a.xlm"));
    assert_eq!((f.name, f.address), (Some(s("a.xlm")), Some(s("GA"))));
}
