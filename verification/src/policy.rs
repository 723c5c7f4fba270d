//! Which contract-id overrides each command accepts, and which contract ids
//! it needs before it runs.
use vstd::prelude::*;

verus! {

/// The contracts of the name service.
#[derive(Copy, Clone, Debug, PartialEq, Eq, Structural)]
pub enum ContractKind {
    Registry,
    Registrar,
    Resolver,
    Auction,
    Bridge,
    Subdomain,
    Nft,
}

/// The commands of the command-line tool, by kind.
#[derive(Copy, Clone, Debug, PartialEq, Eq, Structural)]
pub enum CommandKind {
    Register,
    Resolve,
    ReverseLookup,
    Text,
    Transfer,
    Renew,
    Auction,
    Completions,
    Bridge,
    Subdomain,
    Nft,
    Whois,
    Portfolio,
    Quote,
    Availability,
}

/// Why a command may not run with the given contract ids.
#[derive(Copy, Clone, Debug, PartialEq, Eq)]
pub enum PolicyError {
    /// An override was given for a contract that the command does not use.
    NotAllowed { command: CommandKind, kind: ContractKind },
    /// The command needs a contract id that is not configured.
    Missing { command: CommandKind, kind: ContractKind },
}

/// One optional contract id per contract.
pub struct ContractIds {
    pub registry_contract_id: Option<String>,
    pub registrar_contract_id: Option<String>,
    pub resolver_contract_id: Option<String>,
    pub auction_contract_id: Option<String>,
    pub bridge_contract_id: Option<String>,
    pub subdomain_contract_id: Option<String>,
    pub nft_contract_id: Option<String>,
}

/// The literal of `seq!` with one kind, or none.
pub open spec fn kind_if(present: bool, kind: ContractKind) -> Seq<ContractKind> {
    if present {
        seq![kind]
    } else {
        Seq::empty()
    }
}

impl ContractIds {
    /// The id given for `kind`, as plain characters.
    pub open spec fn id_of(&self, kind: ContractKind) -> Option<Seq<char>> {
        match kind {
            ContractKind::Registry => self.registry_contract_id.deep_view(),
            ContractKind::Registrar => self.registrar_contract_id.deep_view(),
            ContractKind::Resolver => self.resolver_contract_id.deep_view(),
            ContractKind::Auction => self.auction_contract_id.deep_view(),
            ContractKind::Bridge => self.bridge_contract_id.deep_view(),
            ContractKind::Subdomain => self.subdomain_contract_id.deep_view(),
            ContractKind::Nft => self.nft_contract_id.deep_view(),
        }
    }

    /// The kinds that have an id, in the order registry, registrar,
    /// resolver, auction, bridge, subdomain, nft.
    #[verifier::opaque]
    pub open spec fn provided(&self) -> Seq<ContractKind> {
        kind_if(self.registry_contract_id is Some, ContractKind::Registry) + kind_if(
            self.registrar_contract_id is Some,
            ContractKind::Registrar,
        ) + kind_if(self.resolver_contract_id is Some, ContractKind::Resolver) + kind_if(
            self.auction_contract_id is Some,
            ContractKind::Auction,
        ) + kind_if(self.bridge_contract_id is Some, ContractKind::Bridge) + kind_if(
            self.subdomain_contract_id is Some,
            ContractKind::Subdomain,
        ) + kind_if(self.nft_contract_id is Some, ContractKind::Nft)
    }

    /// The id given for `kind`.
    pub fn contract_id(&self, kind: ContractKind) -> (r: Option<String>)
        ensures
            r.deep_view() == self.id_of(kind),
    {
        let id = match kind {
            ContractKind::Registry => &self.registry_contract_id,
            ContractKind::Registrar => &self.registrar_contract_id,
            ContractKind::Resolver => &self.resolver_contract_id,
            ContractKind::Auction => &self.auction_contract_id,
            ContractKind::Bridge => &self.bridge_contract_id,
            ContractKind::Subdomain => &self.subdomain_contract_id,
            ContractKind::Nft => &self.nft_contract_id,
        };
        match id {
            Some(s) => Some(s.clone()),
            None => None,
        }
    }

    /// The kinds that have an id, in field order.
    pub fn provided_kinds(&self) -> (r: Vec<ContractKind>)
        ensures
            r@ == self.provided(),
    {
        reveal(ContractIds::provided);
        let mut kinds: Vec<ContractKind> = Vec::new();
        let ghost mut acc: Seq<ContractKind> = Seq::empty();
        if self.registry_contract_id.is_some() {
            kinds.push(ContractKind::Registry);
        }
        assert(kinds@ =~= kind_if(self.registry_contract_id is Some, ContractKind::Registry));
        proof {
            acc = kinds@;
        }
        if self.registrar_contract_id.is_some() {
            kinds.push(ContractKind::Registrar);
        }
        assert(kinds@ =~= acc + kind_if(self.registrar_contract_id is Some, ContractKind::Registrar));
        proof {
            acc = kinds@;
        }
        if self.resolver_contract_id.is_some() {
            kinds.push(ContractKind::Resolver);
        }
        assert(kinds@ =~= acc + kind_if(self.resolver_contract_id is Some, ContractKind::Resolver));
        proof {
            acc = kinds@;
        }
        if self.auction_contract_id.is_some() {
            kinds.push(ContractKind::Auction);
        }
        assert(kinds@ =~= acc + kind_if(self.auction_contract_id is Some, ContractKind::Auction));
        proof {
            acc = kinds@;
        }
        if self.bridge_contract_id.is_some() {
            kinds.push(ContractKind::Bridge);
        }
        assert(kinds@ =~= acc + kind_if(self.bridge_contract_id is Some, ContractKind::Bridge));
        proof {
            acc = kinds@;
        }
        if self.subdomain_contract_id.is_some() {
            kinds.push(ContractKind::Subdomain);
        }
        assert(kinds@ =~= acc + kind_if(self.subdomain_contract_id is Some, ContractKind::Subdomain));
        proof {
            acc = kinds@;
        }
        if self.nft_contract_id.is_some() {
            kinds.push(ContractKind::Nft);
        }
        assert(kinds@ =~= acc + kind_if(self.nft_contract_id is Some, ContractKind::Nft));
        kinds
    }
}

impl ContractKind {
    /// The command-line flag that overrides this contract's id, without
    /// its leading dashes.
    pub open spec fn flag_name_spec(self) -> Seq<char> {
        match self {
            ContractKind::Registry => "registry-contract-id"@,
            ContractKind::Registrar => "registrar-contract-id"@,
            ContractKind::Resolver => "resolver-contract-id"@,
            ContractKind::Auction => "auction-contract-id"@,
            ContractKind::Bridge => "bridge-contract-id"@,
            ContractKind::Subdomain => "subdomain-contract-id"@,
            ContractKind::Nft => "nft-contract-id"@,
        }
    }

    /// The command-line flag that overrides this contract's id.
    pub fn flag_name(&self) -> (r: &'static str)
        ensures
            r@ == self.flag_name_spec(),
    {
        match self {
            ContractKind::Registry => "registry-contract-id",
            ContractKind::Registrar => "registrar-contract-id",
            ContractKind::Resolver => "resolver-contract-id",
            ContractKind::Auction => "auction-contract-id",
            ContractKind::Bridge => "bridge-contract-id",
            ContractKind::Subdomain => "subdomain-contract-id",
            ContractKind::Nft => "nft-contract-id",
        }
    }
}

impl CommandKind {
    /// The command's name on the command line.
    pub open spec fn name_spec(self) -> Seq<char> {
        match self {
            CommandKind::Register => "register"@,
            CommandKind::Resolve => "resolve"@,
            CommandKind::ReverseLookup => "reverse-lookup"@,
            CommandKind::Text => "text"@,
            CommandKind::Transfer => "transfer"@,
            CommandKind::Renew => "renew"@,
            CommandKind::Auction => "auction"@,
            CommandKind::Completions => "completions"@,
            CommandKind::Bridge => "bridge"@,
            CommandKind::Subdomain => "subdomain"@,
            CommandKind::Nft => "nft"@,
            CommandKind::Whois => "whois"@,
            CommandKind::Portfolio => "portfolio"@,
            CommandKind::Quote => "quote"@,
            CommandKind::Availability => "availability"@,
        }
    }

    /// The contracts whose ids the command may be given.
    pub open spec fn allowed_spec(self) -> Seq<ContractKind> {
        match self {
            CommandKind::Register => seq![ContractKind::Registrar],
            CommandKind::Resolve => seq![ContractKind::Resolver],
            CommandKind::ReverseLookup => seq![ContractKind::Resolver],
            CommandKind::Text => seq![ContractKind::Resolver],
            CommandKind::Transfer => seq![ContractKind::Registry],
            CommandKind::Renew => seq![ContractKind::Registrar],
            CommandKind::Auction => seq![ContractKind::Auction],
            CommandKind::Completions => Seq::empty(),
            CommandKind::Bridge => seq![ContractKind::Bridge],
            CommandKind::Subdomain => seq![ContractKind::Subdomain],
            CommandKind::Nft => seq![ContractKind::Nft],
            CommandKind::Whois => seq![ContractKind::Registry, ContractKind::Resolver],
            CommandKind::Portfolio => seq![ContractKind::Registry, ContractKind::Resolver],
            CommandKind::Quote => seq![ContractKind::Registrar],
            CommandKind::Availability => seq![ContractKind::Registry],
        }
    }

    /// The contracts whose ids the command needs.
    pub open spec fn required_spec(self) -> Seq<ContractKind> {
        match self {
            CommandKind::Register => seq![ContractKind::Registrar],
            CommandKind::Resolve => seq![ContractKind::Resolver],
            CommandKind::ReverseLookup => seq![ContractKind::Resolver],
            CommandKind::Text => seq![ContractKind::Resolver],
            CommandKind::Transfer => seq![ContractKind::Registry],
            CommandKind::Renew => seq![ContractKind::Registrar],
            CommandKind::Auction => seq![ContractKind::Auction],
            CommandKind::Completions => Seq::empty(),
            CommandKind::Bridge => seq![ContractKind::Bridge],
            CommandKind::Subdomain => seq![ContractKind::Subdomain],
            CommandKind::Nft => seq![ContractKind::Nft],
            CommandKind::Whois => seq![ContractKind::Registry],
            CommandKind::Portfolio => seq![ContractKind::Registry],
            CommandKind::Quote => seq![ContractKind::Registrar],
            CommandKind::Availability => Seq::empty(),
        }
    }

    /// The command's name on the command line.
    pub fn name(&self) -> (r: &'static str)
        ensures
            r@ == self.name_spec(),
    {
        match self {
            CommandKind::Register => "register",
            CommandKind::Resolve => "resolve",
            CommandKind::ReverseLookup => "reverse-lookup",
            CommandKind::Text => "text",
            CommandKind::Transfer => "transfer",
            CommandKind::Renew => "renew",
            CommandKind::Auction => "auction",
            CommandKind::Completions => "completions",
            CommandKind::Bridge => "bridge",
            CommandKind::Subdomain => "subdomain",
            CommandKind::Nft => "nft",
            CommandKind::Whois => "whois",
            CommandKind::Portfolio => "portfolio",
            CommandKind::Quote => "quote",
            CommandKind::Availability => "availability",
        }
    }

    /// The contracts whose ids the command may be given.
    pub fn allowed(&self) -> (r: Vec<ContractKind>)
        ensures
            r@ == self.allowed_spec(),
    {
        let r = match self {
            CommandKind::Register => vec![ContractKind::Registrar],
            CommandKind::Resolve => vec![ContractKind::Resolver],
            CommandKind::ReverseLookup => vec![ContractKind::Resolver],
            CommandKind::Text => vec![ContractKind::Resolver],
            CommandKind::Transfer => vec![ContractKind::Registry],
            CommandKind::Renew => vec![ContractKind::Registrar],
            CommandKind::Auction => vec![ContractKind::Auction],
            CommandKind::Completions => Vec::new(),
            CommandKind::Bridge => vec![ContractKind::Bridge],
            CommandKind::Subdomain => vec![ContractKind::Subdomain],
            CommandKind::Nft => vec![ContractKind::Nft],
            CommandKind::Whois => vec![ContractKind::Registry, ContractKind::Resolver],
            CommandKind::Portfolio => vec![ContractKind::Registry, ContractKind::Resolver],
            CommandKind::Quote => vec![ContractKind::Registrar],
            CommandKind::Availability => vec![ContractKind::Registry],
        };
        assert(r@ =~= self.allowed_spec());
        r
    }

    /// The contracts whose ids the command needs.
    pub fn required(&self) -> (r: Vec<ContractKind>)
        ensures
            r@ == self.required_spec(),
    {
        let r = match self {
            CommandKind::Register => vec![ContractKind::Registrar],
            CommandKind::Resolve => vec![ContractKind::Resolver],
            CommandKind::ReverseLookup => vec![ContractKind::Resolver],
            CommandKind::Text => vec![ContractKind::Resolver],
            CommandKind::Transfer => vec![ContractKind::Registry],
            CommandKind::Renew => vec![ContractKind::Registrar],
            CommandKind::Auction => vec![ContractKind::Auction],
            CommandKind::Completions => Vec::new(),
            CommandKind::Bridge => vec![ContractKind::Bridge],
            CommandKind::Subdomain => vec![ContractKind::Subdomain],
            CommandKind::Nft => vec![ContractKind::Nft],
            CommandKind::Whois => vec![ContractKind::Registry],
            CommandKind::Portfolio => vec![ContractKind::Registry],
            CommandKind::Quote => vec![ContractKind::Registrar],
            CommandKind::Availability => Vec::new(),
        };
        assert(r@ =~= self.required_spec());
        r
    }
}

/// `s[i]` is the first entry of `s` for which `ok` fails.
pub open spec fn first_failing(s: Seq<ContractKind>, ok: spec_fn(ContractKind) -> bool, i: int) -> bool {
    &&& 0 <= i < s.len()
    &&& !ok(s[i])
    &&& forall|j: int| 0 <= j < i ==> ok(#[trigger] s[j])
}

/// Whether `kinds` holds `kind`.
fn holds(kinds: &Vec<ContractKind>, kind: ContractKind) -> (r: bool)
    ensures
        r == kinds@.contains(kind),
{
    let mut i: usize = 0;
    while i < kinds.len()
        invariant
            i <= kinds@.len(),
            forall|j: int| 0 <= j < i ==> kinds@[j] != kind,
        decreases kinds@.len() - i,
    {
        if kinds[i] == kind {
            return true;
        }
        i = i + 1;
    }
    false
}

/// Checks the contract ids for `command`: every override given
/// (`overrides`) must be for a contract the command may use, taken in field
/// order, and every contract the command needs must have a configured id
/// (`configured`).  The first override not allowed, else the first needed
/// contract without an id, is reported.
pub fn validate_contract_policy(
    command: CommandKind,
    overrides: &ContractIds,
    configured: &ContractIds,
) -> (r: Result<(), PolicyError>)
    ensures
        r is Ok <==> (forall|i: int|
            0 <= i < overrides.provided().len() ==> command.allowed_spec().contains(
                #[trigger] overrides.provided()[i],
            )) && (forall|i: int|
            0 <= i < command.required_spec().len() ==> configured.id_of(
                #[trigger] command.required_spec()[i],
            ) is Some),
        r matches Err(PolicyError::NotAllowed { command: c, kind }) ==> c == command && exists|i: int|
            first_failing(
                overrides.provided(),
                |k: ContractKind| command.allowed_spec().contains(k),
                i,
            ) && overrides.provided()[i] == kind,
        r matches Err(PolicyError::Missing { command: c, kind }) ==> c == command && (forall|i: int|
            0 <= i < overrides.provided().len() ==> command.allowed_spec().contains(
                #[trigger] overrides.provided()[i],
            )) && exists|i: int|
            first_failing(
                command.required_spec(),
                |k: ContractKind| configured.id_of(k) is Some,
                i,
            ) && command.required_spec()[i] == kind,
{
    let allowed = command.allowed();
    let required = command.required();
    let provided = overrides.provided_kinds();
    let mut i: usize = 0;
    while i < provided.len()
        invariant
            provided@ == overrides.provided(),
            allowed@ == command.allowed_spec(),
            i <= provided@.len(),
            forall|j: int| 0 <= j < i ==> allowed@.contains(#[trigger] provided@[j]),
        decreases provided@.len() - i,
    {
        let kind = provided[i];
        if !holds(&allowed, kind) {
            let ghost ok = |k: ContractKind| command.allowed_spec().contains(k);
            assert(first_failing(overrides.provided(), ok, i as int));
            return Err(PolicyError::NotAllowed { command, kind });
        }
        i = i + 1;
    }
    let mut j: usize = 0;
    while j < required.len()
        invariant
            required@ == command.required_spec(),
            provided@ == overrides.provided(),
            allowed@ == command.allowed_spec(),
            i == provided@.len(),
            forall|m: int| 0 <= m < i ==> allowed@.contains(#[trigger] provided@[m]),
            j <= required@.len(),
            forall|m: int| 0 <= m < j ==> configured.id_of(#[trigger] required@[m]) is Some,
        decreases required@.len() - j,
    {
        let kind = required[j];
        if configured.contract_id(kind).is_none() {
            let ghost ok = |k: ContractKind| configured.id_of(k) is Some;
            assert(first_failing(command.required_spec(), ok, j as int));
            return Err(PolicyError::Missing { command, kind });
        }
        j = j + 1;
    }
    Ok(())
}

/// Every contract a command needs is one whose id it may be given, so a
/// command given just the ids it needs passes the override check.
pub proof fn lemma_required_contracts_are_allowed(command: CommandKind)
    ensures
        forall|i: int|
            0 <= i < command.required_spec().len() ==> command.allowed_spec().contains(
                #[trigger] command.required_spec()[i],
            ),
{
    assert forall|i: int| 0 <= i < command.required_spec().len() implies command.allowed_spec().contains(
        #[trigger] command.required_spec()[i],
    ) by {
        assert(command.allowed_spec()[0] == command.required_spec()[0]);
    }
}

/// The contract each command works with: the resolver for `resolve`,
/// `reverse-lookup` and `text`; the registrar for `register`, `renew` and
/// `quote`; the registry for `transfer`, `whois` and `portfolio` (the last
/// two may also be given the resolver); the auction, bridge, subdomain and
/// NFT contracts for their commands; `availability` may be given the
/// registry and needs nothing; `completions` takes no contract.
pub proof fn lemma_command_contracts(command: CommandKind, kind: ContractKind)
    ensures
        command.required_spec().contains(kind) <==> match command {
            CommandKind::Resolve | CommandKind::ReverseLookup | CommandKind::Text => kind
                == ContractKind::Resolver,
            CommandKind::Register | CommandKind::Renew | CommandKind::Quote => kind
                == ContractKind::Registrar,
            CommandKind::Transfer | CommandKind::Whois | CommandKind::Portfolio => kind
                == ContractKind::Registry,
            CommandKind::Auction => kind == ContractKind::Auction,
            CommandKind::Bridge => kind == ContractKind::Bridge,
            CommandKind::Subdomain => kind == ContractKind::Subdomain,
            CommandKind::Nft => kind == ContractKind::Nft,
            CommandKind::Availability | CommandKind::Completions => false,
        },
        command.allowed_spec().contains(kind) <==> (command.required_spec().contains(kind) || match command {
            CommandKind::Whois | CommandKind::Portfolio => kind == ContractKind::Resolver,
            CommandKind::Availability => kind == ContractKind::Registry,
            _ => false,
        }),
{
    assert(command.required_spec().contains(kind) ==> command.required_spec()[0] == kind
        || command.required_spec()[1] == kind);
    assert(command.allowed_spec().contains(kind) ==> command.allowed_spec()[0] == kind
        || command.allowed_spec()[1] == kind);
    if command.required_spec().len() > 0 {
        assert(command.required_spec()[0] == command.required_spec()[0]);
    }
    if command.allowed_spec().len() > 0 {
        assert(command.allowed_spec()[0] == command.allowed_spec()[0]);
    }
    if command.allowed_spec().len() > 1 {
        assert(command.allowed_spec()[1] == command.allowed_spec()[1]);
    }
}

} // verus!
