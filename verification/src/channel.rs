use vstd::prelude::*;

use crate::attribution::{AttributionStore, AttributionView, ChannelAttribution};
use crate::counter::{credential_view, Balance, BalanceView, Counter, CounterView};
use crate::errors::ChannelError;
use crate::identity::Identity;
use crate::metadata::{
    create_metadata, patched_record, shares_view, update_metadata, CreatorShare, CreatorShareView,
    MetadataRecordView, MetadataRegistry, RecordData, RecordDataView,
};
use crate::resolve::{
    channel_namespace, channel_namespace_spec, derived_address, name_namespace,
    name_namespace_spec, normalize_name, normalized, protocol_authority, protocol_authority_spec,
    resolve,
};
use crate::store::{contains_key, lemma_lookup_push, lookup};

verus! {

/// True of an `Option` credential slot exactly when it holds `expected`.
pub fn credential_matches(c: &Option<Identity>, expected: &Identity) -> (r: bool)
    ensures
        r == (credential_view(*c) == Some(expected@)),
{
    match c {
        Some(a) => a == expected,
        None => false,
    }
}

/// True of an `Option` credential slot exactly when it is empty.
pub fn credential_none(c: &Option<Identity>) -> (r: bool)
    ensures
        r == (credential_view(*c) is None),
{
    match c {
        Some(_) => false,
        None => true,
    }
}

/// A copy of a byte string.
fn clone_bytes(v: &Vec<u8>) -> (r: Vec<u8>)
    ensures
        r@ == v@,
{
    let r = v.clone();
    proof {
        assert(r@ =~= v@);
    }
    r
}

/// The creator list every channel's metadata records carry: the protocol's
/// delegated authority as the one verified creator with the full share.
fn share_list(auth: &Identity) -> (r: Vec<CreatorShare>)
    ensures
        shares_view(r@) == seq![
            CreatorShareView { address: auth@, verified: true, share: 100u8 },
        ],
{
    let mut v: Vec<CreatorShare> = Vec::new();
    v.push(CreatorShare { address: auth.clone(), verified: true, share: 100 });
    proof {
        assert(shares_view(v@) =~= seq![
            CreatorShareView { address: auth@, verified: true, share: 100u8 },
        ]);
    }
    v
}

/// The state and arguments one create-channel invocation sees, gathered so
/// that its outcome can be stated as a function of them.
pub ghost struct CreateChannelInput {
    pub program: Seq<u8>,
    pub creator: Seq<u8>,
    pub channel: CounterView,
    pub subscription: CounterView,
    pub channel_balance: BalanceView,
    pub subscription_balance: BalanceView,
    pub attributions: Seq<(Seq<u8>, AttributionView)>,
    pub registry: Seq<(Seq<u8>, MetadataRecordView)>,
    pub subscription_attribution_bump: u8,
    pub mint_auth_bump: u8,
    pub name_attribution_bump: u8,
    pub name: Seq<u8>,
}

/// The preconditions of create-channel over ledger state: both counters are
/// fresh whole-unit counters whose issuance the protocol's authority already
/// controls, the creator's balance records for both are empty, and the two
/// counters are distinct.
pub open spec fn create_preconditions(i: CreateChannelInput, auth: Seq<u8>) -> bool {
    &&& i.channel.decimals == 0
    &&& i.subscription.decimals == 0
    &&& i.channel.supply == 0
    &&& i.subscription.supply == 0
    &&& i.channel.freeze_authority is None
    &&& i.subscription.freeze_authority is None
    &&& i.channel.issuance_authority == Some(auth)
    &&& i.subscription.issuance_authority == Some(auth)
    &&& i.channel_balance.owner == i.creator
    &&& i.channel_balance.counter == i.channel.id
    &&& i.channel_balance.amount == 0
    &&& i.subscription_balance.owner == i.creator
    &&& i.subscription_balance.counter == i.subscription.id
    &&& i.subscription_balance.amount == 0
    &&& i.channel.id != i.subscription.id
}

/// Whether create-channel succeeds and with which error it fails: the three
/// storage locations must be derivable, the supplied bumps must prove the
/// canonical derivations, the preconditions must hold, and neither the
/// attribution addresses nor the counters' metadata slots may be occupied.
pub open spec fn create_channel_outcome(i: CreateChannelInput) -> Result<(), ChannelError> {
    match protocol_authority_spec(i.program) {
        None => Err(ChannelError::AddressExhausted),
        Some(auth) => match derived_address(channel_namespace_spec(), i.subscription.id, i.program) {
            None => Err(ChannelError::AddressExhausted),
            Some(pair) => match derived_address(
                name_namespace_spec(),
                normalized(i.name),
                i.program,
            ) {
                None => Err(ChannelError::AddressExhausted),
                Some(named) => {
                    if i.mint_auth_bump != auth.1 || i.subscription_attribution_bump != pair.1
                        || i.name_attribution_bump != named.1 {
                        Err(ChannelError::PreconditionFailed)
                    } else if !create_preconditions(i, auth.0) {
                        Err(ChannelError::PreconditionFailed)
                    } else if contains_key(i.attributions, pair.0) || contains_key(
                        i.attributions,
                        named.0,
                    ) || pair.0 == named.0 {
                        Err(ChannelError::AlreadyExists)
                    } else if contains_key(i.registry, i.channel.id) || contains_key(
                        i.registry,
                        i.subscription.id,
                    ) {
                        Err(ChannelError::AlreadyExists)
                    } else {
                        Ok(())
                    }
                },
            },
        },
    }
}

/// The metadata record a successful create-channel registers for each of the
/// two counters: the caller's descriptor, no royalties, the protocol's
/// authority as sole verified creator and update authority, mutable, and
/// marked as having had its primary sale (documentation that no market sale
/// occurred, avoiding downstream royalty confusion).
pub open spec fn created_record_view(
    name: Seq<u8>,
    symbol: Seq<u8>,
    uri: Seq<u8>,
    auth: Seq<u8>,
) -> MetadataRecordView {
    MetadataRecordView {
        data: RecordDataView {
            name,
            symbol,
            uri,
            seller_fee_basis_points: 0u16,
            creators: seq![CreatorShareView { address: auth, verified: true, share: 100u8 }],
        },
        update_authority: auth,
        is_mutable: true,
        primary_sale_happened: true,
    }
}

/// Creates a channel: establishes the unique, collision-checked identity for
/// `name`, mints the single ownership unit to the creator, registers the
/// metadata of both counters, writes the pair-indexed and name-indexed
/// attribution records, and finally revokes the ownership counter's issuance
/// authority so the unit can never be reissued. All steps succeed or, as the
/// error cases of `create_channel_outcome` say, nothing changes at all.
///
/// On success: the channel counter's supply is one and its issuance
/// authority is gone, the subscription counter is untouched (its issuance
/// authority still the protocol's), the creator holds the one unit, and
/// exactly one attribution record is resolvable by the counter pair and one
/// by the normalized name, both naming creator, channel and subscription.
#[verifier::rlimit(50)]
pub fn create_channel(
    program: &Identity,
    creator: &Identity,
    channel_counter: &mut Counter,
    subscription_counter: &mut Counter,
    channel_balance: &mut Balance,
    subscription_balance: &Balance,
    attributions: &mut AttributionStore,
    registry: &mut MetadataRegistry,
    subscription_attribution_bump: u8,
    mint_auth_bump: u8,
    name_attribution_bump: u8,
    name: &Vec<u8>,
    symbol: &Vec<u8>,
    uri: &Vec<u8>,
) -> (r: Result<(), ChannelError>)
    requires
        program.wf(),
        creator.wf(),
        old(channel_counter).wf(),
        old(subscription_counter).wf(),
        old(channel_balance).wf(),
        subscription_balance.wf(),
        old(attributions).wf(),
        old(registry).wf(),
    ensures
        r == create_channel_outcome(
            (CreateChannelInput {
                program: program@,
                creator: creator@,
                channel: old(channel_counter)@,
                subscription: old(subscription_counter)@,
                channel_balance: old(channel_balance)@,
                subscription_balance: subscription_balance@,
                attributions: old(attributions)@,
                registry: old(registry)@,
                subscription_attribution_bump,
                mint_auth_bump,
                name_attribution_bump,
                name: name@,
            }),
        ),
        r is Ok ==> ({
            let auth = protocol_authority_spec(program@)->Some_0.0;
            let pair_addr = derived_address(
                channel_namespace_spec(),
                old(subscription_counter)@.id,
                program@,
            )->Some_0.0;
            let name_addr = derived_address(
                name_namespace_spec(),
                normalized(name@),
                program@,
            )->Some_0.0;
            let pair_rec = (AttributionView {
                creator: creator@,
                channel: old(channel_counter)@.id,
                subscription: old(subscription_counter)@.id,
                name: None,
            });
            let name_rec = (AttributionView {
                creator: creator@,
                channel: old(channel_counter)@.id,
                subscription: old(subscription_counter)@.id,
                name: Some(normalized(name@)),
            });
            let rec = created_record_view(name@, symbol@, uri@, auth);
            &&& final(channel_counter)@ == (CounterView {
                supply: 1u64,
                issuance_authority: None,
                ..old(channel_counter)@
            })
            &&& *final(subscription_counter) == *old(subscription_counter)
            &&& final(subscription_counter)@.issuance_authority == Some(auth)
            &&& final(channel_balance)@ == (BalanceView { amount: 1u64, ..old(channel_balance)@ })
            &&& final(attributions)@ == old(attributions)@.push((pair_addr, pair_rec)).push(
                (name_addr, name_rec),
            )
            &&& final(attributions).wf()
            &&& lookup(final(attributions)@, pair_addr) == Some(pair_rec)
            &&& lookup(final(attributions)@, name_addr) == Some(name_rec)
            &&& final(registry).wf()
            &&& final(registry)@.len() == old(registry)@.len() + 2
            &&& forall|k: Seq<u8>|
                #[trigger] lookup(final(registry)@, k) == (if k == old(channel_counter)@.id {
                    Some(rec)
                } else if k == old(subscription_counter)@.id {
                    Some(rec)
                } else {
                    lookup(old(registry)@, k)
                })
        }),
        r is Err ==> {
            &&& *final(channel_counter) == *old(channel_counter)
            &&& *final(subscription_counter) == *old(subscription_counter)
            &&& *final(channel_balance) == *old(channel_balance)
            &&& *final(attributions) == *old(attributions)
            &&& *final(registry) == *old(registry)
        },
{
    let ghost input = (CreateChannelInput {
        program: program@,
        creator: creator@,
        channel: channel_counter@,
        subscription: subscription_counter@,
        channel_balance: channel_balance@,
        subscription_balance: subscription_balance@,
        attributions: attributions@,
        registry: registry@,
        subscription_attribution_bump,
        mint_auth_bump,
        name_attribution_bump,
        name: name@,
    });
    let auth_pair = match protocol_authority(program) {
        Ok(p) => p,
        Err(e) => {
            return Err(e);
        },
    };
    let auth = auth_pair.0;
    let cns = channel_namespace();
    let pair = match resolve(&cns, subscription_counter.id.as_bytes(), program) {
        Ok(p) => p,
        Err(e) => {
            return Err(e);
        },
    };
    let norm = normalize_name(name);
    let nns = name_namespace();
    let named = match resolve(&nns, &norm, program) {
        Ok(p) => p,
        Err(e) => {
            return Err(e);
        },
    };
    if mint_auth_bump != auth_pair.1 || subscription_attribution_bump != pair.1
        || name_attribution_bump != named.1 {
        return Err(ChannelError::PreconditionFailed);
    }
    let preconds_ok = channel_counter.decimals == 0 && subscription_counter.decimals == 0
        && channel_counter.supply == 0 && subscription_counter.supply == 0 && credential_none(
        &channel_counter.freeze_authority,
    ) && credential_none(&subscription_counter.freeze_authority) && credential_matches(
        &channel_counter.issuance_authority,
        &auth,
    ) && credential_matches(&subscription_counter.issuance_authority, &auth)
        && &channel_balance.owner == creator && &channel_balance.counter == &channel_counter.id
        && channel_balance.amount == 0 && &subscription_balance.owner == creator
        && &subscription_balance.counter == &subscription_counter.id && subscription_balance.amount
        == 0 && !(&channel_counter.id == &subscription_counter.id);
    proof {
        assert(preconds_ok == create_preconditions(input, auth@));
    }
    if !preconds_ok {
        return Err(ChannelError::PreconditionFailed);
    }
    let pair_taken = match attributions.read(&pair.0) {
        Some(_) => true,
        None => false,
    };
    let name_taken = match attributions.read(&named.0) {
        Some(_) => true,
        None => false,
    };
    if pair_taken || name_taken || &pair.0 == &named.0 {
        return Err(ChannelError::AlreadyExists);
    }
    let ch_taken = match registry.read(&channel_counter.id) {
        Some(_) => true,
        None => false,
    };
    let sub_taken = match registry.read(&subscription_counter.id) {
        Some(_) => true,
        None => false,
    };
    if ch_taken || sub_taken {
        return Err(ChannelError::AlreadyExists);
    }
    proof {
        assert(create_channel_outcome(input) == Result::<(), ChannelError>::Ok(()));
    }

    let ghost ch0 = channel_counter@;
    let ghost sub0 = subscription_counter@;
    let ghost att0 = attributions@;
    let ghost reg0 = registry@;
    let ghost auth_v = auth@;
    let ghost pair_addr = pair.0@;
    let ghost name_addr = named.0@;
    let ghost rec_f = (MetadataRecordView {
        data: RecordDataView {
            name: name@,
            symbol: symbol@,
            uri: uri@,
            seller_fee_basis_points: 0u16,
            creators: seq![CreatorShareView { address: auth_v, verified: true, share: 100u8 }],
        },
        update_authority: auth_v,
        is_mutable: true,
        primary_sale_happened: false,
    });

    // Step 1: mint the single ownership unit to the creator.
    match crate::counter::mint_one(channel_counter, channel_balance, &auth) {
        Ok(_) => {},
        Err(e) => {
            proof {
                assert(false);
            }
            return Err(e);
        },
    }

    // Steps 2 and 3: register the metadata record of each counter.
    match create_metadata(
        registry,
        channel_counter,
        clone_bytes(name),
        clone_bytes(symbol),
        clone_bytes(uri),
        share_list(&auth),
        0,
        true,
        &auth,
        &auth,
    ) {
        Ok(_) => {},
        Err(e) => {
            proof {
                assert(false);
            }
            return Err(e);
        },
    }
    let ghost reg1 = registry@;
    proof {
        assert(reg1 == reg0.push((ch0.id, rec_f)));
        lemma_lookup_push(reg0, (ch0.id, rec_f), sub0.id);
    }
    match create_metadata(
        registry,
        subscription_counter,
        clone_bytes(name),
        clone_bytes(symbol),
        clone_bytes(uri),
        share_list(&auth),
        0,
        true,
        &auth,
        &auth,
    ) {
        Ok(_) => {},
        Err(e) => {
            proof {
                assert(false);
            }
            return Err(e);
        },
    }
    let ghost reg2 = registry@;
    proof {
        assert(reg2 == reg1.push((sub0.id, rec_f)));
    }

    // Step 4: write the attribution records, pair-indexed then name-indexed.
    let pair_record = ChannelAttribution {
        creator: creator.clone(),
        channel: channel_counter.id.clone(),
        subscription: subscription_counter.id.clone(),
        name: None,
    };
    let ghost pair_rec = pair_record@;
    match attributions.create(pair.0, pair_record) {
        Ok(_) => {},
        Err(e) => {
            proof {
                assert(false);
            }
            return Err(e);
        },
    }
    let ghost att1 = attributions@;
    proof {
        assert(att1 == att0.push((pair_addr, pair_rec)));
        lemma_lookup_push(att0, (pair_addr, pair_rec), name_addr);
    }
    let name_record = ChannelAttribution {
        creator: creator.clone(),
        channel: channel_counter.id.clone(),
        subscription: subscription_counter.id.clone(),
        name: Some(norm),
    };
    let ghost name_rec = name_record@;
    match attributions.create(named.0, name_record) {
        Ok(_) => {},
        Err(e) => {
            proof {
                assert(false);
            }
            return Err(e);
        },
    }

    // Step 5: mark both records as having had their primary sale.
    proof {
        lemma_lookup_push(reg0, (ch0.id, rec_f), ch0.id);
        lemma_lookup_push(reg1, (sub0.id, rec_f), ch0.id);
        assert(lookup(reg2, ch0.id) == Some(rec_f));
    }
    match update_metadata(registry, &channel_counter.id, None, None, Some(true), &auth) {
        Ok(_) => {},
        Err(e) => {
            proof {
                assert(false);
            }
            return Err(e);
        },
    }
    let ghost reg3 = registry@;
    proof {
        lemma_lookup_push(reg1, (sub0.id, rec_f), sub0.id);
        assert(lookup(reg2, sub0.id) == Some(rec_f));
        assert(lookup(reg3, sub0.id) == Some(rec_f));
    }
    match update_metadata(registry, &subscription_counter.id, None, None, Some(true), &auth) {
        Ok(_) => {},
        Err(e) => {
            proof {
                assert(false);
            }
            return Err(e);
        },
    }
    let ghost reg4 = registry@;

    // Step 6: revoke the ownership counter's issuance authority, fixing its
    // supply at one forever.
    match crate::counter::revoke_issuance_authority(channel_counter, &auth) {
        Ok(_) => {},
        Err(e) => {
            proof {
                assert(false);
            }
            return Err(e);
        },
    }

    proof {
        let rec_t = created_record_view(name@, symbol@, uri@, auth_v);
        assert(patched_record(rec_f, None, None, Some(true)) == rec_t);
        assert forall|k: Seq<u8>|
            #[trigger] lookup(reg4, k) == (if k == ch0.id {
                Some(rec_t)
            } else if k == sub0.id {
                Some(rec_t)
            } else {
                lookup(reg0, k)
            }) by {
            lemma_lookup_push(reg0, (ch0.id, rec_f), k);
            lemma_lookup_push(reg1, (sub0.id, rec_f), k);
        }
        lemma_lookup_push(att0, (pair_addr, pair_rec), pair_addr);
        lemma_lookup_push(att1, (name_addr, name_rec), pair_addr);
        lemma_lookup_push(att1, (name_addr, name_rec), name_addr);
    }
    Ok(())
}

/// Whether subscribe succeeds and with which error it fails: the protocol
/// authority must be derivable and proved by the bump, the counter must be a
/// whole-unit counter, the subscriber's balance record must be an empty one
/// for this counter, the counter must have no freeze authority, and its
/// issuance must still be under the protocol's control.
pub open spec fn subscribe_outcome(
    program: Seq<u8>,
    subscriber: Seq<u8>,
    counter: CounterView,
    balance: BalanceView,
    mint_auth_bump: u8,
) -> Result<(), ChannelError> {
    match protocol_authority_spec(program) {
        None => Err(ChannelError::AddressExhausted),
        Some(auth) => {
            if mint_auth_bump != auth.1 {
                Err(ChannelError::PreconditionFailed)
            } else if counter.decimals != 0 {
                Err(ChannelError::SupplyPolicyViolation)
            } else if !(balance.owner == subscriber && balance.counter == counter.id
                && balance.amount == 0) {
                Err(ChannelError::PreconditionFailed)
            } else if !(counter.freeze_authority is None) {
                Err(ChannelError::PreconditionFailed)
            } else if counter.issuance_authority != Some(auth.0) {
                Err(ChannelError::PreconditionFailed)
            } else {
                Ok(())
            }
        },
    }
}

/// The effect of one successful subscription on the counter and the
/// subscriber's balance: each grows by exactly one.
pub open spec fn subscribe_step(c: CounterView, b: BalanceView) -> (CounterView, BalanceView)
    recommends
        c.supply < u64::MAX,
        b.amount < u64::MAX,
{
    (
        CounterView { supply: (c.supply + 1) as u64, ..c },
        BalanceView { amount: (b.amount + 1) as u64, ..b },
    )
}

/// Subscribes `subscriber` to the channel of `subscription_counter`: mints
/// exactly one subscription unit into the subscriber's empty balance record.
/// It increases only that balance and the counter's total supply, each by
/// one, and touches nothing else; distinct subscribers touch distinct
/// balance records, so their calls never conflict.
pub fn subscribe(
    program: &Identity,
    subscriber: &Identity,
    subscription_counter: &mut Counter,
    subscriber_balance: &mut Balance,
    mint_auth_bump: u8,
) -> (r: Result<(), ChannelError>)
    requires
        program.wf(),
        subscriber.wf(),
        old(subscription_counter).wf(),
        old(subscriber_balance).wf(),
        old(subscription_counter)@.supply < u64::MAX,
    ensures
        r == subscribe_outcome(
            program@,
            subscriber@,
            old(subscription_counter)@,
            old(subscriber_balance)@,
            mint_auth_bump,
        ),
        r is Ok ==> (final(subscription_counter)@, final(subscriber_balance)@) == subscribe_step(
            old(subscription_counter)@,
            old(subscriber_balance)@,
        ),
        r is Err ==> {
            &&& *final(subscription_counter) == *old(subscription_counter)
            &&& *final(subscriber_balance) == *old(subscriber_balance)
        },
{
    let auth_pair = match protocol_authority(program) {
        Ok(p) => p,
        Err(e) => {
            return Err(e);
        },
    };
    let auth = auth_pair.0;
    if mint_auth_bump != auth_pair.1 {
        return Err(ChannelError::PreconditionFailed);
    }
    if subscription_counter.decimals != 0 {
        return Err(ChannelError::SupplyPolicyViolation);
    }
    let balance_ok = &subscriber_balance.owner == subscriber && &subscriber_balance.counter
        == &subscription_counter.id && subscriber_balance.amount == 0;
    if !balance_ok {
        return Err(ChannelError::PreconditionFailed);
    }
    if !credential_none(&subscription_counter.freeze_authority) {
        return Err(ChannelError::PreconditionFailed);
    }
    if !credential_matches(&subscription_counter.issuance_authority, &auth) {
        return Err(ChannelError::PreconditionFailed);
    }
    match crate::counter::mint_one(subscription_counter, subscriber_balance, &auth) {
        Ok(_) => {},
        Err(e) => {
            proof {
                assert(false);
            }
            return Err(e);
        },
    }
    Ok(())
}

/// An update request for a channel's descriptive fields: each field that is
/// present replaces the stored one, each absent field is retained verbatim.
pub struct MetadataPatch {
    pub name: Option<Vec<u8>>,
    pub symbol: Option<Vec<u8>>,
    pub uri: Option<Vec<u8>>,
}

/// The view of an optional byte string.
pub open spec fn bytes_opt_view(o: Option<Vec<u8>>) -> Option<Seq<u8>> {
    match o {
        Some(v) => Some(v@),
        None => None,
    }
}

/// The mathematical model of a `MetadataPatch`.
pub ghost struct PatchView {
    pub name: Option<Seq<u8>>,
    pub symbol: Option<Seq<u8>>,
    pub uri: Option<Seq<u8>>,
}

impl View for MetadataPatch {
    type V = PatchView;

    open spec fn view(&self) -> PatchView {
        PatchView {
            name: bytes_opt_view(self.name),
            symbol: bytes_opt_view(self.symbol),
            uri: bytes_opt_view(self.uri),
        }
    }
}

/// Record data with a patch applied: `name`, `symbol` and `uri` are replaced
/// where the patch provides them and kept otherwise; royalties and creators
/// are never touched by an update.
pub open spec fn patched_data(d: RecordDataView, p: PatchView) -> RecordDataView {
    RecordDataView {
        name: match p.name {
            Some(n) => n,
            None => d.name,
        },
        symbol: match p.symbol {
            Some(s) => s,
            None => d.symbol,
        },
        uri: match p.uri {
            Some(u) => u,
            None => d.uri,
        },
        seller_fee_basis_points: d.seller_fee_basis_points,
        creators: d.creators,
    }
}

/// The state and arguments one update-channel-metadata invocation sees.
pub ghost struct UpdateMetadataInput {
    pub program: Seq<u8>,
    pub creator: Seq<u8>,
    pub channel: CounterView,
    pub subscription: CounterView,
    pub channel_balance: BalanceView,
    pub attributions: Seq<(Seq<u8>, AttributionView)>,
    pub registry: Seq<(Seq<u8>, MetadataRecordView)>,
    pub mint_auth_bump: u8,
    pub subscription_attribution_bump: u8,
}

/// Whether update-channel-metadata succeeds and with which error it fails.
/// Holding exactly one unit of the channel counter in a balance record owned
/// by the caller is the sole authorization credential; the pair-indexed
/// attribution must bind exactly this channel and subscription pair, both
/// counters must have metadata records, and those records must be mutable
/// and under the protocol authority.
pub open spec fn update_channel_outcome(i: UpdateMetadataInput) -> Result<(), ChannelError> {
    match protocol_authority_spec(i.program) {
        None => Err(ChannelError::AddressExhausted),
        Some(auth) => match derived_address(channel_namespace_spec(), i.subscription.id, i.program) {
            None => Err(ChannelError::AddressExhausted),
            Some(pair) => {
                if i.mint_auth_bump != auth.1 || i.subscription_attribution_bump != pair.1 {
                    Err(ChannelError::PreconditionFailed)
                } else if !(i.channel.supply == 1 && i.channel_balance.owner == i.creator
                    && i.channel_balance.counter == i.channel.id && i.channel_balance.amount
                    == 1) {
                    Err(ChannelError::PreconditionFailed)
                } else {
                    match lookup(i.attributions, pair.0) {
                        None => Err(ChannelError::PreconditionFailed),
                        Some(att) => {
                            if !(att.channel == i.channel.id && att.subscription
                                == i.subscription.id) {
                                Err(ChannelError::PreconditionFailed)
                            } else {
                                match (
                                    lookup(i.registry, i.channel.id),
                                    lookup(i.registry, i.subscription.id),
                                ) {
                                    (Some(chrec), Some(subrec)) => {
                                        if chrec.update_authority != auth.0
                                            || subrec.update_authority != auth.0 {
                                            Err(ChannelError::AuthorityMismatch)
                                        } else if !chrec.is_mutable || !subrec.is_mutable {
                                            Err(ChannelError::Immutable)
                                        } else {
                                            Ok(())
                                        }
                                    },
                                    _ => Err(ChannelError::PreconditionFailed),
                                }
                            }
                        },
                    }
                }
            },
        },
    }
}

/// Updates the descriptive records of a channel's two counters, applying
/// only the fields the patch provides and retaining the rest verbatim. The
/// caller authorizes the change purely by owning the channel's one
/// ownership unit; the pair-indexed attribution record is checked so a
/// mismatched counter pair cannot be updated. Both records change or, on any
/// failure, neither does.
pub fn update_channel_metadata(
    program: &Identity,
    creator: &Identity,
    channel_counter: &Counter,
    subscription_counter: &Counter,
    channel_balance: &Balance,
    attributions: &AttributionStore,
    registry: &mut MetadataRegistry,
    mint_auth_bump: u8,
    subscription_attribution_bump: u8,
    patch: &MetadataPatch,
) -> (r: Result<(), ChannelError>)
    requires
        program.wf(),
        creator.wf(),
        channel_counter.wf(),
        subscription_counter.wf(),
        channel_balance.wf(),
        attributions.wf(),
        old(registry).wf(),
    ensures
        r == update_channel_outcome(
            (UpdateMetadataInput {
                program: program@,
                creator: creator@,
                channel: channel_counter@,
                subscription: subscription_counter@,
                channel_balance: channel_balance@,
                attributions: attributions@,
                registry: old(registry)@,
                mint_auth_bump,
                subscription_attribution_bump,
            }),
        ),
        r is Ok ==> ({
            let chrec = lookup(old(registry)@, channel_counter@.id)->Some_0;
            let subrec = lookup(old(registry)@, subscription_counter@.id)->Some_0;
            &&& final(registry).wf()
            &&& final(registry)@.len() == old(registry)@.len()
            &&& forall|k: Seq<u8>|
                #[trigger] lookup(final(registry)@, k) == (if k == channel_counter@.id {
                    Some(
                        (MetadataRecordView { data: patched_data(chrec.data, patch@), ..chrec }),
                    )
                } else if k == subscription_counter@.id {
                    Some(
                        (MetadataRecordView { data: patched_data(subrec.data, patch@), ..subrec }),
                    )
                } else {
                    lookup(old(registry)@, k)
                })
        }),
        r is Err ==> *final(registry) == *old(registry),
{
    let ghost input = (UpdateMetadataInput {
        program: program@,
        creator: creator@,
        channel: channel_counter@,
        subscription: subscription_counter@,
        channel_balance: channel_balance@,
        attributions: attributions@,
        registry: registry@,
        mint_auth_bump,
        subscription_attribution_bump,
    });
    let auth_pair = match protocol_authority(program) {
        Ok(p) => p,
        Err(e) => {
            return Err(e);
        },
    };
    let auth = auth_pair.0;
    let cns = channel_namespace();
    let pair = match resolve(&cns, subscription_counter.id.as_bytes(), program) {
        Ok(p) => p,
        Err(e) => {
            return Err(e);
        },
    };
    if mint_auth_bump != auth_pair.1 || subscription_attribution_bump != pair.1 {
        return Err(ChannelError::PreconditionFailed);
    }
    let ownership_ok = channel_counter.supply == 1 && &channel_balance.owner == creator
        && &channel_balance.counter == &channel_counter.id && channel_balance.amount == 1;
    if !ownership_ok {
        return Err(ChannelError::PreconditionFailed);
    }
    let binding_ok = match attributions.read(&pair.0) {
        Some(att) => &att.channel == &channel_counter.id && &att.subscription
            == &subscription_counter.id,
        None => false,
    };
    if !binding_ok {
        return Err(ChannelError::PreconditionFailed);
    }
    let ghost reg0 = registry@;
    let (mut chdata, ch_auth_ok, ch_mutable, ghost_chrec) = match registry.read(
        &channel_counter.id,
    ) {
        Some(m) => {
            let d = m.data.clone();
            let a_ok = &m.update_authority == &auth;
            let mu = m.is_mutable;
            (d, a_ok, mu, Ghost(m@))
        },
        None => {
            return Err(ChannelError::PreconditionFailed);
        },
    };
    let ghost chrec = ghost_chrec@;
    let (mut subdata, sub_auth_ok, sub_mutable, ghost_subrec) = match registry.read(
        &subscription_counter.id,
    ) {
        Some(m) => {
            let d = m.data.clone();
            let a_ok = &m.update_authority == &auth;
            let mu = m.is_mutable;
            (d, a_ok, mu, Ghost(m@))
        },
        None => {
            return Err(ChannelError::PreconditionFailed);
        },
    };
    let ghost subrec = ghost_subrec@;
    if !ch_auth_ok || !sub_auth_ok {
        return Err(ChannelError::AuthorityMismatch);
    }
    if !ch_mutable || !sub_mutable {
        return Err(ChannelError::Immutable);
    }
    proof {
        assert(update_channel_outcome(input) == Result::<(), ChannelError>::Ok(()));
    }
    match &patch.name {
        Some(n) => {
            chdata.name = clone_bytes(n);
            subdata.name = clone_bytes(n);
        },
        None => {},
    }
    match &patch.symbol {
        Some(s) => {
            chdata.symbol = clone_bytes(s);
            subdata.symbol = clone_bytes(s);
        },
        None => {},
    }
    match &patch.uri {
        Some(u) => {
            chdata.uri = clone_bytes(u);
            subdata.uri = clone_bytes(u);
        },
        None => {},
    }
    proof {
        assert(chdata@ == patched_data(chrec.data, patch@));
        assert(subdata@ == patched_data(subrec.data, patch@));
    }
    match update_metadata(registry, &channel_counter.id, None, Some(chdata), None, &auth) {
        Ok(_) => {},
        Err(e) => {
            proof {
                assert(false);
            }
            return Err(e);
        },
    }
    let ghost reg1 = registry@;
    match update_metadata(registry, &subscription_counter.id, None, Some(subdata), None, &auth) {
        Ok(_) => {},
        Err(e) => {
            proof {
                assert(false);
            }
            return Err(e);
        },
    }
    proof {
        assert(patched_record(chrec, None, Some(patched_data(chrec.data, patch@)), None)
            == (MetadataRecordView { data: patched_data(chrec.data, patch@), ..chrec }));
        assert(patched_record(subrec, None, Some(patched_data(subrec.data, patch@)), None)
            == (MetadataRecordView { data: patched_data(subrec.data, patch@), ..subrec }));
    }
    Ok(())
}

} // verus!
