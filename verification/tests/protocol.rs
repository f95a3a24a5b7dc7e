use channels::attribution::{decode, encode, AttributionStore, ChannelAttribution};
use channels::channel::{create_channel, subscribe, update_channel_metadata, MetadataPatch};
use channels::counter::{mint_one, revoke_issuance_authority, Balance, Counter};
use channels::errors::ChannelError;
use channels::identity::Identity;
use channels::metadata::{create_metadata, update_metadata, CreatorShare, MetadataRegistry};
use channels::resolve::{
    authority_namespace, channel_namespace, name_namespace, normalize_name, protocol_authority,
    resolve,
};

fn id(b: u8) -> Identity {
    Identity::from_bytes(vec![b; 32]).unwrap()
}

fn fresh_counter(counter_id: u8, authority: &Identity) -> Counter {
    Counter {
        id: id(counter_id),
        decimals: 0,
        supply: 0,
        issuance_authority: Some(authority.clone()),
        freeze_authority: None,
    }
}

fn empty_balance(owner: &Identity, counter: &Identity) -> Balance {
    Balance { owner: owner.clone(), counter: counter.clone(), amount: 0 }
}

struct Setup {
    program: Identity,
    auth: Identity,
    auth_bump: u8,
    pair_bump: u8,
    name_bump: u8,
    creator: Identity,
    channel_counter: Counter,
    subscription_counter: Counter,
    channel_balance: Balance,
    subscription_balance: Balance,
    attributions: AttributionStore,
    registry: MetadataRegistry,
}

fn setup(program_byte: u8, channel_byte: u8, subscription_byte: u8, name: &[u8]) -> Setup {
    let program = id(program_byte);
    let (auth, auth_bump) = protocol_authority(&program).unwrap();
    let creator = id(1);
    let channel_counter = fresh_counter(channel_byte, &auth);
    let subscription_counter = fresh_counter(subscription_byte, &auth);
    let channel_balance = empty_balance(&creator, &channel_counter.id);
    let subscription_balance = empty_balance(&creator, &subscription_counter.id);
    let (_, pair_bump) = resolve(
        &channel_namespace(),
        subscription_counter.id.as_bytes(),
        &program,
    )
    .unwrap();
    let norm = normalize_name(&name.to_vec());
    let (_, name_bump) = resolve(&name_namespace(), &norm, &program).unwrap();
    Setup {
        program,
        auth,
        auth_bump,
        pair_bump,
        name_bump,
        creator,
        channel_counter,
        subscription_counter,
        channel_balance,
        subscription_balance,
        attributions: AttributionStore::new(),
        registry: MetadataRegistry::new(),
    }
}

fn create(s: &mut Setup, name: &[u8], symbol: &[u8], uri: &[u8]) -> Result<(), ChannelError> {
    create_channel(
        &s.program.clone(),
        &s.creator.clone(),
        &mut s.channel_counter,
        &mut s.subscription_counter,
        &mut s.channel_balance,
        &s.subscription_balance,
        &mut s.attributions,
        &mut s.registry,
        s.pair_bump,
        s.auth_bump,
        s.name_bump,
        &name.to_vec(),
        &symbol.to_vec(),
        &uri.to_vec(),
    )
}

#[test]
fn normalize_lowers_and_strips() {
    assert_eq!(normalize_name(&b"MyShow".to_vec()), b"myshow".to_vec());
    assert_eq!(normalize_name(&b"My Show\t 99\r\n".to_vec()), b"myshow99".to_vec());
    assert_eq!(normalize_name(&b"".to_vec()), b"".to_vec());
    assert_eq!(normalize_name(&b" \t\r\n".to_vec()), b"".to_vec());
    assert_eq!(normalize_name(&b"already-lower".to_vec()), b"already-lower".to_vec());
}

#[test]
fn identity_round_trip_and_length_check() {
    assert!(Identity::from_bytes(vec![0u8; 31]).is_none());
    assert!(Identity::from_bytes(vec![0u8; 33]).is_none());
    let a = id(9);
    let b = a.clone();
    assert!(a == b);
    assert!(a != id(8));
}

#[test]
fn resolver_is_deterministic_and_matches_ledger_derivation() {
    let program = id(7);
    let ns = channel_namespace();
    let key = vec![3u8; 32];
    let (addr1, bump1) = resolve(&ns, &key, &program).unwrap();
    let (addr2, bump2) = resolve(&ns, &key, &program).unwrap();
    assert!(addr1 == addr2);
    assert_eq!(bump1, bump2);
    // The derived address is a genuine derivation, not the key handed back.
    assert!(addr1.as_bytes().as_slice() != key.as_slice());

    let program_id =
        solana_program::pubkey::Pubkey::new_from_array([7u8; 32]);
    let (expected, expected_bump) = solana_program::pubkey::Pubkey::find_program_address(
        &[ns.as_slice(), key.as_slice()],
        &program_id,
    );
    assert_eq!(addr1.as_bytes().as_slice(), expected.to_bytes().as_slice());
    assert_eq!(bump1, expected_bump);
}

#[test]
fn resolver_rejects_oversized_seed() {
    let program = id(7);
    let long_key = vec![1u8; 33];
    assert_eq!(
        resolve(&channel_namespace(), &long_key, &program),
        Err(ChannelError::AddressExhausted)
    );
}

#[test]
fn attribution_store_is_write_once() {
    let mut store = AttributionStore::new();
    let addr = id(42);
    let record = ChannelAttribution {
        creator: id(1),
        channel: id(2),
        subscription: id(3),
        name: Some(b"myshow".to_vec()),
    };
    assert_eq!(store.create(addr.clone(), record.clone()), Ok(()));
    assert_eq!(store.len(), 1);
    let back = store.read(&addr).unwrap();
    assert!(back.creator == id(1));
    assert!(back.subscription == id(3));
    assert_eq!(back.name, Some(b"myshow".to_vec()));
    // Second write at the same address is refused and changes nothing.
    let other = ChannelAttribution { creator: id(9), channel: id(8), subscription: id(7), name: None };
    assert_eq!(store.create(addr.clone(), other), Err(ChannelError::AlreadyExists));
    assert_eq!(store.len(), 1);
    assert!(store.read(&id(41)).is_none());
}

#[test]
fn attribution_layout_round_trips() {
    let record = ChannelAttribution {
        creator: id(1),
        channel: id(2),
        subscription: id(3),
        name: Some(b"myshow".to_vec()),
    };
    let bytes = encode(&record);
    let back = decode(&bytes).unwrap();
    assert!(back.creator == record.creator);
    assert!(back.channel == record.channel);
    assert!(back.subscription == record.subscription);
    assert_eq!(back.name, record.name);

    let bare = ChannelAttribution { creator: id(4), channel: id(5), subscription: id(6), name: None };
    let bare_bytes = encode(&bare);
    assert_eq!(bare_bytes.len(), 97);
    let bare_back = decode(&bare_bytes).unwrap();
    assert_eq!(bare_back.name, None);

    // Truncated or oversized byte strings are rejected, as is an unknown
    // tag for the optional name.
    assert!(decode(&bytes[..bytes.len() - 1].to_vec()).is_none());
    let mut padded = bytes.clone();
    padded.push(0);
    assert!(decode(&padded).is_none());
    let mut bad_tag = bytes.clone();
    bad_tag[96] = 2;
    assert!(decode(&bad_tag).is_none());
}

#[test]
fn attribution_layout_matches_borsh() {
    let record = ChannelAttribution {
        creator: id(1),
        channel: id(2),
        subscription: id(3),
        name: Some(b"myshow".to_vec()),
    };
    let mirrored: ([u8; 32], [u8; 32], [u8; 32], Option<Vec<u8>>) =
        ([1u8; 32], [2u8; 32], [3u8; 32], Some(b"myshow".to_vec()));
    assert_eq!(encode(&record), borsh::to_vec(&mirrored).unwrap());

    let bare = ChannelAttribution { creator: id(4), channel: id(5), subscription: id(6), name: None };
    let mirrored_bare: ([u8; 32], [u8; 32], [u8; 32], Option<Vec<u8>>) =
        ([4u8; 32], [5u8; 32], [6u8; 32], None);
    assert_eq!(encode(&bare), borsh::to_vec(&mirrored_bare).unwrap());
}

#[test]
fn create_channel_establishes_the_invariants() {
    let mut s = setup(7, 2, 3, b"MyShow");
    assert_eq!(create(&mut s, b"MyShow", b"SHW", b"ipfs://a"), Ok(()));

    // Channel counter: supply one, further issuance impossible.
    assert_eq!(s.channel_counter.supply, 1);
    assert!(s.channel_counter.issuance_authority.is_none());
    assert_eq!(s.channel_balance.amount, 1);
    // Subscription counter: untouched, issuance still the protocol's.
    assert_eq!(s.subscription_counter.supply, 0);
    assert!(s.subscription_counter.issuance_authority.as_ref().unwrap() == &s.auth);

    // One attribution resolvable by pair, one by normalized name.
    let (pair_addr, _) = resolve(
        &channel_namespace(),
        s.subscription_counter.id.as_bytes(),
        &s.program,
    )
    .unwrap();
    let by_pair = s.attributions.read(&pair_addr).unwrap();
    assert!(by_pair.creator == s.creator);
    assert!(by_pair.channel == s.channel_counter.id);
    assert!(by_pair.subscription == s.subscription_counter.id);
    assert_eq!(by_pair.name, None);

    let norm = normalize_name(&b"MyShow".to_vec());
    assert_eq!(norm, b"myshow".to_vec());
    let (name_addr, _) = resolve(&name_namespace(), &norm, &s.program).unwrap();
    let by_name = s.attributions.read(&name_addr).unwrap();
    assert!(by_name.creator == s.creator);
    assert_eq!(by_name.name, Some(b"myshow".to_vec()));

    // Both counters carry the descriptor, marked mutable with the primary
    // sale recorded and the protocol authority as sole verified creator.
    for key in [&s.channel_counter.id, &s.subscription_counter.id] {
        let rec = s.registry.read(key).unwrap();
        assert_eq!(rec.data.name, b"MyShow".to_vec());
        assert_eq!(rec.data.symbol, b"SHW".to_vec());
        assert_eq!(rec.data.uri, b"ipfs://a".to_vec());
        assert_eq!(rec.data.seller_fee_basis_points, 0);
        assert_eq!(rec.data.creators.len(), 1);
        assert!(rec.data.creators[0].address == s.auth);
        assert!(rec.data.creators[0].verified);
        assert_eq!(rec.data.creators[0].share, 100);
        assert!(rec.is_mutable);
        assert!(rec.primary_sale_happened);
        assert!(rec.update_authority == s.auth);
    }
}

#[test]
fn create_channel_rejects_duplicate_names() {
    let mut s = setup(7, 2, 3, b"MyShow");
    assert_eq!(create(&mut s, b"MyShow", b"SHW", b"ipfs://a"), Ok(()));

    // A second creation under a name that normalizes identically is refused,
    // whatever counters it brings, and nothing changes.
    let mut second = fresh_counter(4, &s.auth);
    let mut second_sub = fresh_counter(5, &s.auth);
    let mut second_balance = empty_balance(&s.creator, &second.id);
    let second_sub_balance = empty_balance(&s.creator, &second_sub.id);
    let (_, pair_bump) = resolve(
        &channel_namespace(),
        second_sub.id.as_bytes(),
        &s.program,
    )
    .unwrap();
    let attributions_before = s.attributions.len();
    let result = create_channel(
        &s.program.clone(),
        &s.creator.clone(),
        &mut second,
        &mut second_sub,
        &mut second_balance,
        &second_sub_balance,
        &mut s.attributions,
        &mut s.registry,
        pair_bump,
        s.auth_bump,
        s.name_bump,
        &b"my show".to_vec(),
        &b"SHW2".to_vec(),
        &b"ipfs://c".to_vec(),
    );
    assert_eq!(result, Err(ChannelError::AlreadyExists));
    assert_eq!(s.attributions.len(), attributions_before);
    assert_eq!(second.supply, 0);
    assert_eq!(second_balance.amount, 0);
    // The first channel is untouched.
    assert_eq!(s.channel_counter.supply, 1);
    let rec = s.registry.read(&s.channel_counter.id).unwrap();
    assert_eq!(rec.data.uri, b"ipfs://a".to_vec());
}

#[test]
fn subscribe_counts_each_subscriber_once() {
    let mut s = setup(7, 2, 3, b"MyShow");
    assert_eq!(create(&mut s, b"MyShow", b"SHW", b"ipfs://a"), Ok(()));

    let s1 = id(21);
    let s2 = id(22);
    let mut b1 = empty_balance(&s1, &s.subscription_counter.id);
    let mut b2 = empty_balance(&s2, &s.subscription_counter.id);

    assert_eq!(
        subscribe(&s.program, &s1, &mut s.subscription_counter, &mut b1, s.auth_bump),
        Ok(())
    );
    assert_eq!(s.subscription_counter.supply, 1);
    assert_eq!(b1.amount, 1);
    assert_eq!(b2.amount, 0);

    assert_eq!(
        subscribe(&s.program, &s2, &mut s.subscription_counter, &mut b2, s.auth_bump),
        Ok(())
    );
    assert_eq!(s.subscription_counter.supply, 2);
    assert_eq!(b1.amount, 1);
    assert_eq!(b2.amount, 1);
    // The channel counter is never touched by subscriptions.
    assert_eq!(s.channel_counter.supply, 1);

    // A balance record that already holds units cannot subscribe again.
    assert_eq!(
        subscribe(&s.program, &s1, &mut s.subscription_counter, &mut b1, s.auth_bump),
        Err(ChannelError::PreconditionFailed)
    );
    assert_eq!(s.subscription_counter.supply, 2);
}

#[test]
fn subscribe_rejects_fractional_counters() {
    let program = id(7);
    let (auth, auth_bump) = protocol_authority(&program).unwrap();
    let mut fractional = fresh_counter(2, &auth);
    fractional.decimals = 6;
    let subscriber = id(21);
    let mut balance = empty_balance(&subscriber, &fractional.id);
    assert_eq!(
        subscribe(&program, &subscriber, &mut fractional, &mut balance, auth_bump),
        Err(ChannelError::SupplyPolicyViolation)
    );
    assert_eq!(fractional.supply, 0);
    assert_eq!(balance.amount, 0);
}

#[test]
fn update_applies_only_the_given_fields() {
    let mut s = setup(7, 2, 3, b"MyShow");
    assert_eq!(create(&mut s, b"MyShow", b"SHW", b"ipfs://a"), Ok(()));

    let patch = MetadataPatch { name: None, symbol: None, uri: Some(b"ipfs://b".to_vec()) };
    assert_eq!(
        update_channel_metadata(
            &s.program,
            &s.creator,
            &s.channel_counter,
            &s.subscription_counter,
            &s.channel_balance,
            &s.attributions,
            &mut s.registry,
            s.auth_bump,
            s.pair_bump,
            &patch,
        ),
        Ok(())
    );
    for key in [&s.channel_counter.id, &s.subscription_counter.id] {
        let rec = s.registry.read(key).unwrap();
        assert_eq!(rec.data.uri, b"ipfs://b".to_vec());
        assert_eq!(rec.data.name, b"MyShow".to_vec());
        assert_eq!(rec.data.symbol, b"SHW".to_vec());
    }
}

#[test]
fn update_by_a_non_owner_changes_nothing() {
    let mut s = setup(7, 2, 3, b"MyShow");
    assert_eq!(create(&mut s, b"MyShow", b"SHW", b"ipfs://a"), Ok(()));

    // An intruder with an empty balance record is refused.
    let intruder = id(33);
    let intruder_balance = empty_balance(&intruder, &s.channel_counter.id);
    let patch = MetadataPatch { name: None, symbol: None, uri: Some(b"ipfs://evil".to_vec()) };
    assert_eq!(
        update_channel_metadata(
            &s.program,
            &intruder,
            &s.channel_counter,
            &s.subscription_counter,
            &intruder_balance,
            &s.attributions,
            &mut s.registry,
            s.auth_bump,
            s.pair_bump,
            &patch,
        ),
        Err(ChannelError::PreconditionFailed)
    );
    // So is one who presents the owner's balance under the wrong identity.
    assert_eq!(
        update_channel_metadata(
            &s.program,
            &intruder,
            &s.channel_counter,
            &s.subscription_counter,
            &s.channel_balance,
            &s.attributions,
            &mut s.registry,
            s.auth_bump,
            s.pair_bump,
            &patch,
        ),
        Err(ChannelError::PreconditionFailed)
    );
    let rec = s.registry.read(&s.channel_counter.id).unwrap();
    assert_eq!(rec.data.uri, b"ipfs://a".to_vec());
}

#[test]
fn update_respects_registry_credentials() {
    let program = id(7);
    let (auth, _) = protocol_authority(&program).unwrap();
    let mut registry = MetadataRegistry::new();
    let counter = fresh_counter(2, &auth);
    let other_authority = id(9);
    assert_eq!(
        create_metadata(
            &mut registry,
            &counter,
            b"A".to_vec(),
            b"B".to_vec(),
            b"C".to_vec(),
            Vec::<CreatorShare>::new(),
            0,
            true,
            &other_authority,
            &auth,
        ),
        Ok(())
    );
    // Only the registered update authority may change the record.
    assert_eq!(
        update_metadata(&mut registry, &counter.id, None, None, Some(true), &auth),
        Err(ChannelError::AuthorityMismatch)
    );
    assert_eq!(
        update_metadata(&mut registry, &counter.id, None, None, Some(true), &other_authority),
        Ok(())
    );
    // A record created for a counter cannot be created twice.
    assert_eq!(
        create_metadata(
            &mut registry,
            &counter,
            b"A".to_vec(),
            b"B".to_vec(),
            b"C".to_vec(),
            Vec::<CreatorShare>::new(),
            0,
            true,
            &other_authority,
            &auth,
        ),
        Err(ChannelError::AlreadyExists)
    );
}

#[test]
fn immutable_records_cannot_change() {
    let program = id(7);
    let (auth, _) = protocol_authority(&program).unwrap();
    let mut registry = MetadataRegistry::new();
    let counter = fresh_counter(2, &auth);
    assert_eq!(
        create_metadata(
            &mut registry,
            &counter,
            b"A".to_vec(),
            b"B".to_vec(),
            b"C".to_vec(),
            Vec::<CreatorShare>::new(),
            0,
            false,
            &auth,
            &auth,
        ),
        Ok(())
    );
    assert_eq!(
        update_metadata(&mut registry, &counter.id, None, None, Some(true), &auth),
        Err(ChannelError::Immutable)
    );
}

#[test]
fn issuance_authority_revokes_exactly_once() {
    let auth = id(9);
    let mut counter = fresh_counter(2, &auth);
    let wrong = id(8);
    assert_eq!(
        revoke_issuance_authority(&mut counter, &wrong),
        Err(ChannelError::AuthorityMismatch)
    );
    assert_eq!(revoke_issuance_authority(&mut counter, &auth), Ok(()));
    assert!(counter.issuance_authority.is_none());
    assert_eq!(
        revoke_issuance_authority(&mut counter, &auth),
        Err(ChannelError::NoAuthorityToRevoke)
    );
}

#[test]
fn minting_needs_the_registered_authority() {
    let auth = id(9);
    let mut counter = fresh_counter(2, &auth);
    let holder = id(1);
    let mut balance = empty_balance(&holder, &counter.id);
    let wrong = id(8);
    assert_eq!(mint_one(&mut counter, &mut balance, &wrong), Err(ChannelError::AuthorityMismatch));
    assert_eq!(counter.supply, 0);
    assert_eq!(mint_one(&mut counter, &mut balance, &auth), Ok(()));
    assert_eq!(counter.supply, 1);
    assert_eq!(balance.amount, 1);
}

#[test]
fn channel_scenario_end_to_end() {
    // Creator C creates channel "MyShow" / "SHW" / "ipfs://a".
    let mut s = setup(11, 2, 3, b"MyShow");
    assert_eq!(create(&mut s, b"MyShow", b"SHW", b"ipfs://a"), Ok(()));
    assert_eq!(s.channel_counter.supply, 1);
    assert_eq!(s.channel_balance.amount, 1);
    assert!(s.channel_balance.owner == s.creator);
    assert_eq!(s.subscription_counter.supply, 0);
    let norm = normalize_name(&b"MyShow".to_vec());
    let (name_addr, _) = resolve(&name_namespace(), &norm, &s.program).unwrap();
    let att = s.attributions.read(&name_addr).unwrap();
    assert!(att.creator == s.creator);
    assert_eq!(att.name, Some(b"myshow".to_vec()));

    // Subscriber S1 subscribes.
    let s1 = id(21);
    let mut b1 = empty_balance(&s1, &s.subscription_counter.id);
    assert_eq!(
        subscribe(&s.program, &s1, &mut s.subscription_counter, &mut b1, s.auth_bump),
        Ok(())
    );
    assert_eq!(s.subscription_counter.supply, 1);
    assert_eq!(b1.amount, 1);

    // C updates the uri; the record changes.
    let patch = MetadataPatch { name: None, symbol: None, uri: Some(b"ipfs://b".to_vec()) };
    assert_eq!(
        update_channel_metadata(
            &s.program,
            &s.creator,
            &s.channel_counter,
            &s.subscription_counter,
            &s.channel_balance,
            &s.attributions,
            &mut s.registry,
            s.auth_bump,
            s.pair_bump,
            &patch,
        ),
        Ok(())
    );
    assert_eq!(
        s.registry.read(&s.subscription_counter.id).unwrap().data.uri,
        b"ipfs://b".to_vec()
    );

    // S2, a non-owner, attempts the same update and fails.
    let s2 = id(22);
    let s2_balance = empty_balance(&s2, &s.channel_counter.id);
    assert_eq!(
        update_channel_metadata(
            &s.program,
            &s2,
            &s.channel_counter,
            &s.subscription_counter,
            &s2_balance,
            &s.attributions,
            &mut s.registry,
            s.auth_bump,
            s.pair_bump,
            &patch,
        ),
        Err(ChannelError::PreconditionFailed)
    );
    assert_eq!(
        s.registry.read(&s.subscription_counter.id).unwrap().data.uri,
        b"ipfs://b".to_vec()
    );
}

#[test]
fn authority_seed_is_the_documented_one() {
    assert_eq!(authority_namespace(), b"authority".to_vec());
    assert_eq!(channel_namespace(), b"channel".to_vec());
    assert_eq!(name_namespace(), b"name".to_vec());
}
