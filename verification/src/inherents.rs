//! The inherent data providers of a node.
//!
//! The provider of the time is registered here. Those of the planned upgrades and of the author's
//! reward belong to the pallets of the runtime: each is kept as plain values, the identifier that it
//! is to be registered under and what it is made from, for the node to register in the order in
//! which they stand.
use std::collections::BTreeMap;

use vstd::prelude::*;

use crate::author;

verus! {

/// The name that a provider is registered under.
pub type InherentIdentifier = [u8; 8];

/// The block that the Slag Ravine hard fork is planned at.
pub const SLAG_RAVINE: u32 = 100000;

/// The registered providers.
#[verifier::external_type_specification]
#[verifier::external_body]
pub struct ExInherentDataProviders(sp_inherents::InherentDataProviders);

/// Why a provider is not registered.
#[verifier::external_type_specification]
#[verifier::external_body]
pub struct ExInherentError(sp_inherents::Error);

/// The identifiers of the providers that are registered, in the order of their registration.
pub uninterp spec fn registered(providers: sp_inherents::InherentDataProviders) -> Seq<Seq<u8>>;

/// The identifier of the provider of the time: `timstap0`.
pub open spec fn timestamp_identifier() -> Seq<u8> {
    seq![116u8, 105, 109, 115, 116, 97, 112, 48]
}

/// `InherentDataProviders::new`: nothing is registered.
#[verifier::external_body]
fn no_providers() -> (providers: sp_inherents::InherentDataProviders)
    ensures
        registered(providers) == Seq::<Seq<u8>>::empty(),
{
    sp_inherents::InherentDataProviders::new()
}

/// `InherentDataProviders::has_provider`: whether a provider is registered under `identifier`.
#[verifier::external_body]
fn has_provider(
    providers: &sp_inherents::InherentDataProviders,
    identifier: &InherentIdentifier,
) -> (has: bool)
    ensures
        has == registered(*providers).contains(identifier@),
{
    providers.has_provider(identifier)
}

/// `sp_timestamp::INHERENT_IDENTIFIER`: the bytes of `timstap0`.
#[verifier::external_body]
fn timestamp() -> (identifier: InherentIdentifier)
    ensures
        identifier@ == timestamp_identifier(),
{
    sp_timestamp::INHERENT_IDENTIFIER
}

/// `InherentDataProviders::register_provider` with the provider of `sp_timestamp`: puts it behind
/// the others, or fails and changes nothing where its identifier is taken.
#[verifier::external_body]
fn register_timestamp(providers: &mut sp_inherents::InherentDataProviders) -> (result: Result<
    (),
    sp_inherents::Error,
>)
    ensures
        result is Ok <==> !registered(*old(providers)).contains(timestamp_identifier()),
        registered(*final(providers)) == if result is Ok {
            registered(*old(providers)).push(timestamp_identifier())
        } else {
            registered(*old(providers))
        },
{
    providers.register_provider(sp_timestamp::InherentDataProvider)
}

/// The identifiers of the providers that the pallets of the runtime have.
#[derive(Clone, Copy, Debug)]
pub struct PalletIdentifiers {
    pub anyupgrade: InherentIdentifier,
    pub rewards: InherentIdentifier,
}

/// What the provider of a pallet is made from.
#[derive(Debug)]
pub enum ProviderData {
    /// The planned upgrades: a start value, and the encoded call to make at each block.
    AnyUpgrade(u32, BTreeMap<u32, Vec<u8>>),
    /// The encoded account of the author who is rewarded.
    Rewards(Vec<u8>),
}

/// The provider of a pallet.
#[derive(Debug)]
pub struct PalletProvider {
    pub identifier: InherentIdentifier,
    pub data: ProviderData,
}

/// The model of [`ProviderData`].
pub ghost enum ProviderDataModel {
    AnyUpgrade(u32, Map<u32, Seq<u8>>),
    Rewards(Seq<u8>),
}

/// The model of [`PalletProvider`].
pub ghost struct ProviderModel {
    pub identifier: Seq<u8>,
    pub data: ProviderDataModel,
}

/// The bytes of the call that is planned for each block.
pub open spec fn calls_by_block(upgrades: Map<u32, Vec<u8>>) -> Map<u32, Seq<u8>> {
    upgrades.map_values(|call: Vec<u8>| call@)
}

impl View for ProviderData {
    type V = ProviderDataModel;

    open spec fn view(&self) -> ProviderDataModel {
        match self {
            ProviderData::AnyUpgrade(start, upgrades) => ProviderDataModel::AnyUpgrade(
                *start,
                calls_by_block(upgrades@),
            ),
            ProviderData::Rewards(account) => ProviderDataModel::Rewards(account@),
        }
    }
}

impl View for PalletProvider {
    type V = ProviderModel;

    open spec fn view(&self) -> ProviderModel {
        ProviderModel { identifier: self.identifier@, data: self.data@ }
    }
}

/// The models of `providers`.
pub open spec fn models(providers: Seq<PalletProvider>) -> Seq<ProviderModel> {
    providers.map_values(|provider: PalletProvider| provider@)
}

/// The identifiers of `providers`.
pub open spec fn identifiers_of(providers: Seq<ProviderModel>) -> Seq<Seq<u8>> {
    providers.map_values(|provider: ProviderModel| provider.identifier)
}

/// Whether `identifier` is taken, be it by what is registered or by what is to be registered.
pub open spec fn is_taken(
    registered: Seq<Seq<u8>>,
    pending: Seq<ProviderModel>,
    identifier: Seq<u8>,
) -> bool {
    registered.contains(identifier) || identifiers_of(pending).contains(identifier)
}

/// What is to be registered once `provider` has been offered too: it comes last, unless its
/// identifier is taken.
pub open spec fn offered(
    registered: Seq<Seq<u8>>,
    pending: Seq<ProviderModel>,
    provider: ProviderModel,
) -> Seq<ProviderModel> {
    if is_taken(registered, pending, provider.identifier) {
        pending
    } else {
        pending.push(provider)
    }
}

/// The upgrades that are planned: one call at the Slag Ravine block.
pub open spec fn planned_upgrades(slag_ravine: Seq<u8>) -> Map<u32, Seq<u8>> {
    map![SLAG_RAVINE => slag_ravine]
}

/// The provider of the planned upgrades.
pub open spec fn upgrade_provider(
    identifiers: PalletIdentifiers,
    slag_ravine: Seq<u8>,
) -> ProviderModel {
    ProviderModel {
        identifier: identifiers.anyupgrade@,
        data: ProviderDataModel::AnyUpgrade(0, planned_upgrades(slag_ravine)),
    }
}

/// The provider of the reward that goes to `account`.
pub open spec fn rewards_provider(
    identifiers: PalletIdentifiers,
    account: Seq<u8>,
) -> ProviderModel {
    ProviderModel { identifier: identifiers.rewards@, data: ProviderDataModel::Rewards(account) }
}

/// What a node is to register behind the provider of the time, where `account` is the encoded
/// account of its author if it has one.
pub open spec fn pending_providers(
    account: Option<Seq<u8>>,
    identifiers: PalletIdentifiers,
    slag_ravine: Seq<u8>,
) -> Seq<ProviderModel> {
    let time = seq![timestamp_identifier()];
    let upgrade = offered(time, Seq::empty(), upgrade_provider(identifiers, slag_ravine));
    match account {
        Some(encoded) => offered(time, upgrade, rewards_provider(identifiers, encoded)),
        None => upgrade,
    }
}

/// Whether the rewards identifier is still free when the author's turn comes.
pub open spec fn rewards_offered(identifiers: PalletIdentifiers) -> bool {
    identifiers.rewards@ != timestamp_identifier() && identifiers.rewards@
        != identifiers.anyupgrade@
}

/// The account that the author's text names. Without an author there is none.
pub open spec fn named_account(author: Option<&str>) -> Option<Seq<u8>> {
    match author {
        Some(text) => author::account_of(text@),
        None => None,
    }
}

/// Whether a node can be made for `author`: there is none, or the author's turn does not come, or
/// the author's text names an account.
pub open spec fn author_acceptable(author: Option<&str>, identifiers: PalletIdentifiers) -> bool {
    author is Some && rewards_offered(identifiers) ==> named_account(author) is Some
}

/// Why a service cannot be made.
#[derive(Debug)]
pub enum ServiceError {
    /// A provider could not be registered.
    InherentData(sp_inherents::Error),
}

/// The providers of a node.
pub struct NodeProviders {
    /// Those that are registered. Clones share them: what is said of them holds when they are handed
    /// over, and registering through any clone changes it.
    pub registered: sp_inherents::InherentDataProviders,
    /// Those that are to be registered behind them, in this order.
    pub pending: Vec<PalletProvider>,
}

impl NodeProviders {
    /// The identifiers that are registered once all is done, in the order of their registration.
    pub open spec fn identifiers(&self) -> Seq<Seq<u8>> {
        registered(self.registered) + identifiers_of(models(self.pending@))
    }

    /// No identifier is registered twice.
    pub open spec fn well_formed(&self) -> bool {
        self.identifiers().no_duplicates()
    }
}

fn same_identifier(a: &InherentIdentifier, b: &InherentIdentifier) -> (same: bool)
    ensures
        same == (a@ == b@),
{
    let mut i: usize = 0;
    while i < 8
        invariant
            i <= 8,
            forall|j: int| 0 <= j < i ==> a@[j] == b@[j],
        decreases 8 - i,
    {
        if a[i] != b[i] {
            return false;
        }
        i += 1;
    }
    assert(a@ =~= b@);
    true
}

/// Whether a node can be made for `author`, which is what [`kulupu_inherent_data_providers`] asks
/// for.
pub fn author_accepted(author: Option<&str>, identifiers: &PalletIdentifiers) -> (accepted: bool)
    ensures
        accepted == author_acceptable(author, *identifiers),
        !accepted <==> (author matches Some(text) && author::account_of(text@) is None
            && identifiers.rewards@ != timestamp_identifier() && identifiers.rewards@
            != identifiers.anyupgrade@),
{
    match author {
        Some(text) => same_identifier(&identifiers.rewards, &timestamp()) || same_identifier(
            &identifiers.rewards,
            &identifiers.anyupgrade,
        ) || author::author_account(text).is_some(),
        None => true,
    }
}

/// Whether `identifier` is taken.
fn taken(
    registered_providers: &sp_inherents::InherentDataProviders,
    pending: &Vec<PalletProvider>,
    identifier: &InherentIdentifier,
) -> (is: bool)
    ensures
        is == is_taken(registered(*registered_providers), models(pending@), identifier@),
{
    if has_provider(registered_providers, identifier) {
        return true;
    }
    let ghost names = identifiers_of(models(pending@));
    let mut i: usize = 0;
    while i < pending.len()
        invariant
            i <= pending@.len(),
            names == identifiers_of(models(pending@)),
            forall|j: int| 0 <= j < i ==> names[j] != identifier@,
        decreases pending@.len() - i,
    {
        assert(names[i as int] == pending@[i as int].identifier@);
        if same_identifier(&pending[i].identifier, identifier) {
            return true;
        }
        i += 1;
    }
    false
}

/// The plan of upgrades, where `slag_ravine` is the encoded call that sets the code of the Slag
/// Ravine hard fork.
pub fn hard_forks(slag_ravine: Vec<u8>) -> (upgrades: BTreeMap<u32, Vec<u8>>)
    ensures
        calls_by_block(upgrades@) == planned_upgrades(slag_ravine@),
        upgrades@.dom() == set![100000u32],
        upgrades@[100000u32]@ == slag_ravine@,
{
    let mut upgrades: BTreeMap<u32, Vec<u8>> = BTreeMap::default();
    upgrades.insert(SLAG_RAVINE, slag_ravine);
    assert(calls_by_block(upgrades@) =~= planned_upgrades(slag_ravine@));
    upgrades
}

/// The inherent data providers of a node: the time, the planned upgrades and, where there is an
/// author, the author's reward. Each is left out where its identifier is taken by an earlier one.
///
/// `slag_ravine` is the encoded call that sets the code of the Slag Ravine hard fork.
pub fn kulupu_inherent_data_providers(
    author: Option<&str>,
    identifiers: &PalletIdentifiers,
    slag_ravine: Vec<u8>,
) -> (result: Result<NodeProviders, ServiceError>)
    requires
        author_acceptable(author, *identifiers),
    ensures
        match result {
            Ok(providers) => {
                &&& registered(providers.registered) == seq![timestamp_identifier()]
                &&& models(providers.pending@) == pending_providers(
                    named_account(author),
                    *identifiers,
                    slag_ravine@,
                )
                &&& providers.well_formed()
                &&& identifiers.anyupgrade@ != timestamp_identifier() ==> {
                    &&& providers.pending@.len() > 0
                    &&& providers.pending@[0].identifier == identifiers.anyupgrade
                    &&& providers.pending@[0].data matches ProviderData::AnyUpgrade(start, upgrades)
                    &&& start == 0
                    &&& upgrades@.dom() == set![100000u32]
                    &&& upgrades@[100000u32]@ == slag_ravine@
                }
                &&& (author matches Some(text) && identifiers.rewards@ != timestamp_identifier()
                    && identifiers.rewards@ != identifiers.anyupgrade@) ==> {
                    &&& providers.pending@.len() > 0
                    &&& providers.pending@.last().identifier == identifiers.rewards
                    &&& providers.pending@.last().data matches ProviderData::Rewards(account)
                    &&& author::account_of(author->0@) == Some(account@)
                }
            },
            Err(_) => false,
        },
{
    let mut inherent_data_providers = no_providers();
    if !has_provider(&inherent_data_providers, &timestamp()) {
        if let Err(error) = register_timestamp(&mut inherent_data_providers) {
            return Err(ServiceError::InherentData(error));
        }
    }
    assert(registered(inherent_data_providers) =~= seq![timestamp_identifier()]);
    assert(registered(inherent_data_providers)[0] == timestamp_identifier());

    let mut pending: Vec<PalletProvider> = Vec::new();
    assert(models(pending@) =~= Seq::empty());
    if !taken(&inherent_data_providers, &pending, &identifiers.anyupgrade) {
        let upgrades = hard_forks(slag_ravine);
        pending.push(
            PalletProvider {
                identifier: identifiers.anyupgrade,
                data: ProviderData::AnyUpgrade(0, upgrades),
            },
        );
    }
    let ghost upgrade = upgrade_provider(*identifiers, slag_ravine@);
    assert(models(pending@) =~= offered(seq![timestamp_identifier()], Seq::empty(), upgrade));
    proof {
        pending_identifiers(None, *identifiers, slag_ravine@);
        pending_identifiers(named_account(author), *identifiers, slag_ravine@);
    }

    if let Some(text) = author {
        if !taken(&inherent_data_providers, &pending, &identifiers.rewards) {
            let account = author::author_account(text).unwrap();
            let ghost before = models(pending@);
            pending.push(
                PalletProvider {
                    identifier: identifiers.rewards,
                    data: ProviderData::Rewards(account),
                },
            );
            assert(models(pending@) =~= before.push(
                rewards_provider(*identifiers, named_account(author)->0),
            ));
        }
    }
    Ok(NodeProviders { registered: inherent_data_providers, pending })
}

/// The identifiers behind a push.
proof fn lemma_identifiers_push(providers: Seq<ProviderModel>, provider: ProviderModel)
    ensures
        identifiers_of(providers.push(provider)) == identifiers_of(providers).push(
            provider.identifier,
        ),
{
    assert(identifiers_of(providers.push(provider)) =~= identifiers_of(providers).push(
        provider.identifier,
    ));
}

/// A provider that has been offered takes its identifier, what was to be registered before stays
/// where it was, and no identifier is taken twice if none was.
pub proof fn offered_keeps_and_takes(
    registered: Seq<Seq<u8>>,
    pending: Seq<ProviderModel>,
    provider: ProviderModel,
)
    requires
        (registered + identifiers_of(pending)).no_duplicates(),
    ensures
        ({
            let after = offered(registered, pending, provider);
            &&& is_taken(registered, after, provider.identifier)
            &&& pending.is_prefix_of(after)
            &&& forall|identifier: Seq<u8>|
                is_taken(registered, pending, identifier) ==> is_taken(
                    registered,
                    after,
                    identifier,
                )
            &&& (registered + identifiers_of(after)).no_duplicates()
        }),
{
    let after = offered(registered, pending, provider);
    if !is_taken(registered, pending, provider.identifier) {
        let names = identifiers_of(pending);
        lemma_identifiers_push(pending, provider);
        let names_after = identifiers_of(after);
        assert(names_after[names.len() as int] == provider.identifier);
        assert forall|identifier: Seq<u8>| is_taken(
            registered,
            pending,
            identifier,
        ) implies is_taken(registered, after, identifier) by {
            if names.contains(identifier) {
                let i = choose|i: int| 0 <= i < names.len() && names[i] == identifier;
                assert(names_after[i] == identifier);
            }
        }
        let all = registered + names;
        assert(registered + names_after =~= all.push(provider.identifier));
        assert forall|i: int| 0 <= i < all.len() implies all[i] != provider.identifier by {
            if i < registered.len() {
                assert(registered.contains(registered[i]));
            } else {
                assert(names.contains(names[i - registered.len()]));
            }
        }
    }
}

/// Whatever the identifiers of the pallets are, each that is offered is taken in the end, and none
/// is registered twice.
pub proof fn pending_identifiers(
    account: Option<Seq<u8>>,
    identifiers: PalletIdentifiers,
    slag_ravine: Seq<u8>,
)
    ensures
        ({
            let time = seq![timestamp_identifier()];
            let pending = pending_providers(account, identifiers, slag_ravine);
            &&& (time + identifiers_of(pending)).no_duplicates()
            &&& is_taken(time, pending, identifiers.anyupgrade@)
            &&& account is Some ==> is_taken(time, pending, identifiers.rewards@)
        }),
{
    let time = seq![timestamp_identifier()];
    let upgrade = upgrade_provider(identifiers, slag_ravine);
    assert(time + identifiers_of(Seq::<ProviderModel>::empty()) =~= time);
    offered_keeps_and_takes(time, Seq::empty(), upgrade);
    if let Some(encoded) = account {
        offered_keeps_and_takes(
            time,
            offered(time, Seq::empty(), upgrade),
            rewards_provider(identifiers, encoded),
        );
    }
}

/// Where all identifiers differ, a node registers behind the time the planned upgrades, then, if and
/// only if it has an author, the author's reward, and nothing else.
pub proof fn node_has_every_provider(
    account: Option<Seq<u8>>,
    identifiers: PalletIdentifiers,
    slag_ravine: Seq<u8>,
)
    requires
        identifiers.anyupgrade@ != timestamp_identifier(),
        rewards_offered(identifiers),
    ensures
        pending_providers(account, identifiers, slag_ravine) == match account {
            Some(encoded) => seq![
                upgrade_provider(identifiers, slag_ravine),
                rewards_provider(identifiers, encoded),
            ],
            None => seq![upgrade_provider(identifiers, slag_ravine)],
        },
{
    let time = seq![timestamp_identifier()];
    let upgrade = upgrade_provider(identifiers, slag_ravine);
    let none = Seq::<ProviderModel>::empty();
    assert(identifiers_of(none) =~= Seq::empty());
    assert(offered(time, none, upgrade) =~= seq![upgrade]);
    lemma_identifiers_push(none, upgrade);
    if let Some(encoded) = account {
        assert(offered(time, seq![upgrade], rewards_provider(identifiers, encoded)) =~= seq![
            upgrade,
            rewards_provider(identifiers, encoded),
        ]);
    }
}

/// The time is registered under the eight characters `timstap0`.
pub proof fn time_has_its_name()
    ensures
        timestamp_identifier().len() == "timstap0"@.len(),
        forall|i: int|
            #![trigger timestamp_identifier()[i]]
            0 <= i < timestamp_identifier().len() ==> timestamp_identifier()[i] as int
                == "timstap0"@[i] as int,
{
    reveal_strlit("timstap0");
}

/// Whatever the call is, it is planned as it is, for block 100000, and nothing is for any other.
pub proof fn one_upgrade_is_planned(slag_ravine: Seq<u8>)
    ensures
        planned_upgrades(slag_ravine).dom() == set![100000u32],
        planned_upgrades(slag_ravine)[100000u32] == slag_ravine,
{
    assert(planned_upgrades(slag_ravine).dom() =~= set![100000u32]);
}

/// Two plans are the same only for the same call.
pub proof fn plans_tell_calls_apart(a: Seq<u8>, b: Seq<u8>)
    requires
        planned_upgrades(a) == planned_upgrades(b),
    ensures
        a == b,
{
    one_upgrade_is_planned(a);
    one_upgrade_is_planned(b);
}

/// A provider is modelled by its identifier and by what it is made from, byte by byte.
pub proof fn model_keeps_provider(
    identifier: InherentIdentifier,
    start: u32,
    upgrades: BTreeMap<u32, Vec<u8>>,
    account: Vec<u8>,
    block: u32,
)
    ensures
        ({
            let model = (PalletProvider {
                identifier,
                data: ProviderData::AnyUpgrade(start, upgrades),
            })@;
            &&& model.identifier == identifier@
            &&& model.data matches ProviderDataModel::AnyUpgrade(modelled, calls)
            &&& modelled == start
            &&& calls.dom() == upgrades@.dom()
            &&& upgrades@.dom().contains(block) ==> calls[block] == upgrades@[block]@
        }),
        (PalletProvider { identifier, data: ProviderData::Rewards(account) })@ == (ProviderModel {
            identifier: identifier@,
            data: ProviderDataModel::Rewards(account@),
        }),
{
    assert(calls_by_block(upgrades@).dom() =~= upgrades@.dom());
}

/// There is one model for each provider and one identifier for each model, in order.
pub proof fn models_keep_order(providers: Seq<PalletProvider>, modelled: Seq<ProviderModel>)
    ensures
        models(providers).len() == providers.len(),
        forall|i: int| 0 <= i < providers.len() ==> #[trigger] models(providers)[i] == providers[i]@,
        identifiers_of(modelled).len() == modelled.len(),
        forall|i: int|
            0 <= i < modelled.len() ==> #[trigger] identifiers_of(modelled)[i]
                == modelled[i].identifier,
{
}

/// An identifier is taken if and only if it is registered or some provider that waits has it; the
/// next provider is put behind those that wait if and only if its own is free.
pub proof fn free_identifiers_are_given(
    registered: Seq<Seq<u8>>,
    pending: Seq<ProviderModel>,
    provider: ProviderModel,
)
    ensures
        is_taken(registered, pending, provider.identifier) <==> registered.contains(
            provider.identifier,
        ) || exists|i: int|
            0 <= i < pending.len() && #[trigger] pending[i].identifier == provider.identifier,
        offered(registered, pending, provider) == if registered.contains(provider.identifier)
            || exists|i: int|
            0 <= i < pending.len() && #[trigger] pending[i].identifier == provider.identifier {
            pending
        } else {
            pending.push(provider)
        },
{
    let names = identifiers_of(pending);
    if exists|i: int|
        0 <= i < pending.len() && #[trigger] pending[i].identifier == provider.identifier {
        let i = choose|i: int|
            0 <= i < pending.len() && #[trigger] pending[i].identifier == provider.identifier;
        assert(names[i] == provider.identifier);
    }
    if names.contains(provider.identifier) {
        let i = choose|i: int| 0 <= i < names.len() && names[i] == provider.identifier;
        assert(pending[i].identifier == provider.identifier);
    }
}

/// What a node registers behind the time: the upgrade pallet's provider, with start value 0 and the
/// given call at block 100000, unless the time has its identifier; then, if there is an account, the
/// rewards pallet's provider with exactly that account, unless one of the two has its identifier;
/// and nothing else.
pub proof fn node_registers_what_it_is_given(
    account: Option<Seq<u8>>,
    identifiers: PalletIdentifiers,
    slag_ravine: Seq<u8>,
)
    ensures
        ({
            let time = seq![116u8, 105, 109, 115, 116, 97, 112, 48];
            let upgrades = if identifiers.anyupgrade@ != time {
                seq![
                    ProviderModel {
                        identifier: identifiers.anyupgrade@,
                        data: ProviderDataModel::AnyUpgrade(0, map![100000u32 => slag_ravine]),
                    },
                ]
            } else {
                Seq::<ProviderModel>::empty()
            };
            let rewards = match account {
                Some(encoded) => if identifiers.rewards@ != time && identifiers.rewards@
                    != identifiers.anyupgrade@ {
                    seq![
                        ProviderModel {
                            identifier: identifiers.rewards@,
                            data: ProviderDataModel::Rewards(encoded),
                        },
                    ]
                } else {
                    Seq::<ProviderModel>::empty()
                },
                None => Seq::<ProviderModel>::empty(),
            };
            pending_providers(account, identifiers, slag_ravine) == upgrades + rewards
        }),
{
    let time = seq![timestamp_identifier()];
    assert(time[0] == timestamp_identifier());
    let none = Seq::<ProviderModel>::empty();
    let upgrade = ProviderModel {
        identifier: identifiers.anyupgrade@,
        data: ProviderDataModel::AnyUpgrade(0, map![100000u32 => slag_ravine]),
    };
    one_upgrade_is_planned(slag_ravine);
    assert(planned_upgrades(slag_ravine) =~= map![100000u32 => slag_ravine]);
    free_identifiers_are_given(time, none, upgrade);
    let waiting = pending_providers(None, identifiers, slag_ravine);
    if identifiers.anyupgrade@ != timestamp_identifier() {
        assert(waiting =~= seq![upgrade]);
        assert(waiting[0].identifier == identifiers.anyupgrade@);
    }
    if let Some(encoded) = account {
        let reward = ProviderModel {
            identifier: identifiers.rewards@,
            data: ProviderDataModel::Rewards(encoded),
        };
        free_identifiers_are_given(time, waiting, reward);
    }
}

/// Where all identifiers differ, an author who spells an account, two digits of either case for each
/// of its 32 bytes, with or without `0x` in front, has exactly that account rewarded.
pub proof fn author_is_rewarded(
    author: &str,
    account: Seq<u8>,
    digits: Seq<char>,
    identifiers: PalletIdentifiers,
    slag_ravine: Seq<u8>,
)
    requires
        author@ == digits || author@ == "0x"@ + digits,
        account.len() == 32,
        digits.len() == 64,
        forall|i: int|
            #![trigger account[i]]
            0 <= i < 32 ==> (digits[2 * i] == "0123456789abcdef"@[account[i] as int / 16]
                || digits[2 * i] == "0123456789ABCDEF"@[account[i] as int / 16]) && (digits[2 * i
                + 1] == "0123456789abcdef"@[account[i] as int % 16] || digits[2 * i + 1]
                == "0123456789ABCDEF"@[account[i] as int % 16]),
        identifiers.rewards@ != timestamp_identifier(),
        identifiers.rewards@ != identifiers.anyupgrade@,
    ensures
        author_acceptable(Some(author), identifiers),
        ({
            let pending = pending_providers(named_account(Some(author)), identifiers, slag_ravine);
            &&& pending.len() > 0
            &&& pending.last() == (ProviderModel {
                identifier: identifiers.rewards@,
                data: ProviderDataModel::Rewards(account),
            })
        }),
{
    author::author_names_what_is_spelt(account, digits);
    node_registers_what_it_is_given(Some(account), identifiers, slag_ravine);
}

/// A node is refused to an author alone, to one whose text names no account and whose provider has
/// an identifier of its own.
pub proof fn only_nameless_authors_are_refused(author: &str, identifiers: PalletIdentifiers)
    ensures
        author_acceptable(None, identifiers),
        named_account(None) is None,
        named_account(Some(author)) == author::account_of(author@),
        !author_acceptable(Some(author), identifiers) <==> author::account_of(author@) is None
            && identifiers.rewards@ != seq![116u8, 105, 109, 115, 116, 97, 112, 48]
            && identifiers.rewards@ != identifiers.anyupgrade@,
{
}

} // verus!
