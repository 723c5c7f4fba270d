use xlm_ns::availability::{availability_of, Availability, GRACE_SECONDS, REFERENCE_NOW};
use xlm_ns::policy::{validate_contract_policy, CommandKind, ContractIds, ContractKind, PolicyError};
use xlm_ns::signer::resolve_signer;
use xlm_ns::table::Table;

fn ids(kinds: &[ContractKind]) -> ContractIds {
    let pick = |k: ContractKind| {
        if kinds.contains(&k) {
            Some(format!("C{:?}", k))
        } else {
            None
        }
    };
    ContractIds {
        registry_contract_id: pick(ContractKind::Registry),
        registrar_contract_id: pick(ContractKind::Registrar),
        resolver_contract_id: pick(ContractKind::Resolver),
        auction_contract_id: pick(ContractKind::Auction),
        bridge_contract_id: pick(ContractKind::Bridge),
        subdomain_contract_id: pick(ContractKind::Subdomain),
        nft_contract_id: pick(ContractKind::Nft),
    }
}

#[test]
fn policy_accepts_matching_overrides() {
    let cfg = ids(&[ContractKind::Resolver, ContractKind::Registry]);
    assert_eq!(validate_contract_policy(CommandKind::Resolve, &ids(&[ContractKind::Resolver]), &cfg), Ok(()));
    assert_eq!(validate_contract_policy(CommandKind::Whois, &ids(&[ContractKind::Registry, ContractKind::Resolver]), &cfg), Ok(()));
    assert_eq!(validate_contract_policy(CommandKind::Completions, &ids(&[]), &ids(&[])), Ok(()));
    assert_eq!(validate_contract_policy(CommandKind::Availability, &ids(&[]), &ids(&[])), Ok(()));
}

#[test]
fn policy_reports_first_disallowed_override() {
    let cfg = ids(&[ContractKind::Registrar]);
    assert_eq!(
        validate_contract_policy(CommandKind::Register, &ids(&[ContractKind::Nft, ContractKind::Resolver]), &cfg),
        Err(PolicyError::NotAllowed { command: CommandKind::Register, kind: ContractKind::Resolver })
    );
    assert_eq!(
        validate_contract_policy(CommandKind::Completions, &ids(&[ContractKind::Bridge]), &cfg),
        Err(PolicyError::NotAllowed { command: CommandKind::Completions, kind: ContractKind::Bridge })
    );
}

#[test]
fn policy_reports_missing_contract() {
    assert_eq!(
        validate_contract_policy(CommandKind::Whois, &ids(&[ContractKind::Resolver]), &ids(&[ContractKind::Resolver])),
        Err(PolicyError::Missing { command: CommandKind::Whois, kind: ContractKind::Registry })
    );
    assert_eq!(
        validate_contract_policy(CommandKind::Quote, &ids(&[]), &ids(&[])),
        Err(PolicyError::Missing { command: CommandKind::Quote, kind: ContractKind::Registrar })
    );
}

#[test]
fn provided_kinds_in_field_order() {
    let o = ids(&[ContractKind::Nft, ContractKind::Registry, ContractKind::Bridge]);
    assert_eq!(o.provided_kinds(), vec![ContractKind::Registry, ContractKind::Bridge, ContractKind::Nft]);
    assert_eq!(o.contract_id(ContractKind::Bridge), Some("CBridge".to_string()));
    assert_eq!(o.contract_id(ContractKind::Auction), None);
}

#[test]
fn names_and_flags() {
    assert_eq!(CommandKind::ReverseLookup.name(), "reverse-lookup");
    assert_eq!(CommandKind::Availability.name(), "availability");
    assert_eq!(ContractKind::Subdomain.flag_name(), "subdomain-contract-id");
    assert_eq!(CommandKind::Whois.allowed(), vec![ContractKind::Registry, ContractKind::Resolver]);
    assert_eq!(CommandKind::Whois.required(), vec![ContractKind::Registry]);
}

#[test]
fn availability_thresholds() {
    assert_eq!(GRACE_SECONDS, 2_592_000);
    assert_eq!(availability_of(None), Availability::Available);
    assert_eq!(availability_of(Some(None)), Availability::ActiveNoExpiry);
    assert_eq!(availability_of(Some(Some(REFERENCE_NOW - GRACE_SECONDS))), Availability::Claimable);
    assert_eq!(availability_of(Some(Some(0))), Availability::Claimable);
    assert_eq!(availability_of(Some(Some(REFERENCE_NOW - GRACE_SECONDS + 1))), Availability::GracePeriod);
    assert_eq!(availability_of(Some(Some(REFERENCE_NOW))), Availability::GracePeriod);
    assert_eq!(availability_of(Some(Some(REFERENCE_NOW + 1))), Availability::Active);
    assert_eq!(availability_of(Some(Some(REFERENCE_NOW + GRACE_SECONDS))), Availability::Active);
    assert!(Availability::Claimable.is_available());
    assert!(Availability::Available.is_available());
    assert!(!Availability::GracePeriod.is_available());
    assert_eq!(Availability::GracePeriod.label(), "grace-period (expired, in grace window)");
    assert_eq!(Availability::ActiveNoExpiry.label(), "active (no expiry set)");
}

#[test]
fn signer_loaded_only_when_named() {
    let loader = |n: &String| -> Result<String, String> {
        if n == "dev" { Ok(format!("profile:{n}")) } else { Err(format!("no profile {n}")) }
    };
    assert!(matches!(
        resolve_signer(None, |_n: &String| -> Result<String, String> { panic!("not called") }),
        Ok(None)
    ));
    assert_eq!(resolve_signer(Some("dev".to_string()), loader).unwrap(), Some("profile:dev".to_string()));
    let err = resolve_signer(Some("x".to_string()), loader).unwrap_err();
    assert_eq!(err.cause, "no profile x".to_string());
    assert_eq!(err.context(), "failed to load signer profile");
}

#[test]
fn table_insert_replace_remove() {
    let mut t: Table<String> = Table::new();
    t.insert("a".to_string(), "1".to_string());
    t.insert("b".to_string(), "2".to_string());
    t.insert("a".to_string(), "3".to_string());
    assert_eq!(t.len(), 2);
    assert_eq!(t.get(&"a".to_string()), Some(&"3".to_string()));
    assert!(t.contains_key(&"b".to_string()));
    let c = t.copy();
    t.remove(&"a".to_string());
    t.remove(&"zz".to_string());
    assert_eq!(t.len(), 1);
    assert_eq!(t.get(&"a".to_string()), None);
    assert_eq!(c.get(&"a".to_string()), Some(&"3".to_string()));
    assert_eq!(c.len(), 2);
}
