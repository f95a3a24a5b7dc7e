use vstd::prelude::*;

use crate::channel::{
    create_preconditions, subscribe_outcome, subscribe_step, update_channel_outcome,
    CreateChannelInput, PatchView, UpdateMetadataInput,
};
use crate::channel::{create_channel_outcome, patched_data};
use crate::counter::{BalanceView, CounterView};
use crate::errors::ChannelError;
use crate::metadata::RecordDataView;
use crate::resolve::{
    channel_namespace_spec, derived_address, name_namespace_spec, normalized,
    protocol_authority_spec,
};
use crate::store::contains_key;

verus! {

/// A channel name, once taken, stays taken: when the name-indexed address of
/// a name equal (after normalization) to an already attributed one is bound
/// in the attribution store — as it is after a successful create-channel —
/// a second create-channel with that name fails with `AlreadyExists`, even
/// where everything else about the call is in order. Together with
/// create-channel's guarantee that a failed call changes nothing, the first
/// channel's state is unaffected by the second attempt.
pub proof fn lemma_duplicate_name_rejected(i: CreateChannelInput, first_name: Seq<u8>)
    requires
        normalized(i.name) == normalized(first_name),
        contains_key(
            i.attributions,
            derived_address(name_namespace_spec(), normalized(first_name), i.program)->Some_0.0,
        ),
        protocol_authority_spec(i.program) is Some,
        derived_address(channel_namespace_spec(), i.subscription.id, i.program) is Some,
        derived_address(name_namespace_spec(), normalized(i.name), i.program) is Some,
        i.mint_auth_bump == protocol_authority_spec(i.program)->Some_0.1,
        i.subscription_attribution_bump == derived_address(
            channel_namespace_spec(),
            i.subscription.id,
            i.program,
        )->Some_0.1,
        i.name_attribution_bump == derived_address(
            name_namespace_spec(),
            normalized(i.name),
            i.program,
        )->Some_0.1,
        create_preconditions(i, protocol_authority_spec(i.program)->Some_0.0),
    ensures
        create_channel_outcome(i) == Err::<(), ChannelError>(ChannelError::AlreadyExists),
{
}

/// The counter and the subscribers' balances after a run of subscriptions,
/// one per balance record, each applying the effect of one successful call.
pub open spec fn run_subscriptions(c: CounterView, bs: Seq<BalanceView>) -> (
    CounterView,
    Seq<BalanceView>,
)
    decreases bs.len(),
{
    if bs.len() == 0 {
        (c, Seq::empty())
    } else {
        let first = subscribe_step(c, bs[0]);
        let rest = run_subscriptions(first.0, bs.drop_first());
        (rest.0, seq![first.1] + rest.1)
    }
}

/// Subscriptions compose and count: running one subscription per balance
/// record over any number of distinct subscribers raises the subscription
/// counter's supply by exactly their number, sets each subscriber's balance
/// to exactly one without touching who owns it or which counter it counts,
/// changes nothing else about the counter, and every one of the calls, as
/// it finds the counter, succeeds. No subscriber's call affects another's
/// balance record, since each call touches only its own.
pub proof fn lemma_subscription_run(
    program: Seq<u8>,
    c: CounterView,
    bs: Seq<BalanceView>,
    mint_auth_bump: u8,
)
    requires
        protocol_authority_spec(program) is Some,
        mint_auth_bump == protocol_authority_spec(program)->Some_0.1,
        c.decimals == 0,
        c.freeze_authority is None,
        c.issuance_authority == Some(protocol_authority_spec(program)->Some_0.0),
        c.supply + bs.len() <= u64::MAX,
        forall|j: int|
            0 <= j < bs.len() ==> (#[trigger] bs[j]).counter == c.id && bs[j].amount == 0,
    ensures
        run_subscriptions(c, bs).0 == (CounterView {
            supply: (c.supply + bs.len()) as u64,
            ..c
        }),
        run_subscriptions(c, bs).1.len() == bs.len(),
        forall|j: int|
            0 <= j < bs.len() ==> run_subscriptions(c, bs).1[j] == (BalanceView {
                amount: 1u64,
                ..bs[j]
            }),
        forall|j: int|
            0 <= j < bs.len() ==> subscribe_outcome(
                program,
                bs[j].owner,
                (CounterView { supply: (c.supply + j) as u64, ..c }),
                bs[j],
                mint_auth_bump,
            ) == Ok::<(), ChannelError>(()),
    decreases bs.len(),
{
    if bs.len() == 0 {
    } else {
        let first = subscribe_step(c, bs[0]);
        assert(first.0 == (CounterView { supply: (c.supply + 1) as u64, ..c }));
        assert(forall|j: int|
            0 <= j < bs.drop_first().len() ==> #[trigger] bs.drop_first()[j] == bs[j + 1]);
        lemma_subscription_run(program, first.0, bs.drop_first(), mint_auth_bump);
        let out = run_subscriptions(c, bs);
        let rest = run_subscriptions(first.0, bs.drop_first());
        assert(out.1 == seq![first.1] + rest.1);
        assert forall|j: int| 0 <= j < bs.len() implies out.1[j] == (BalanceView {
            amount: 1u64,
            ..bs[j]
        }) by {
            if j == 0 {
                assert(out.1[0] == first.1);
            } else {
                assert(out.1[j] == rest.1[j - 1]);
                assert(bs.drop_first()[j - 1] == bs[j]);
            }
        }
        assert forall|j: int| 0 <= j < bs.len() implies subscribe_outcome(
            program,
            bs[j].owner,
            (CounterView { supply: (c.supply + j) as u64, ..c }),
            bs[j],
            mint_auth_bump,
        ) == Ok::<(), ChannelError>(()) by {
            if j == 0 {
                assert(subscribe_outcome(program, bs[0].owner, c, bs[0], mint_auth_bump)
                    == Ok::<(), ChannelError>(()));
                assert((CounterView { supply: (c.supply + 0) as u64, ..c }) == c);
            } else {
                assert(bs.drop_first()[j - 1] == bs[j]);
                assert((CounterView { supply: (first.0.supply + (j - 1)) as u64, ..first.0 })
                    == (CounterView { supply: (c.supply + j) as u64, ..c }));
            }
        }
        assert(out.0 == rest.0);
        assert(out.0 == (CounterView { supply: (c.supply + bs.len()) as u64, ..c }));
    }
}

/// Only the channel's owner can update its metadata: whoever does not hold
/// exactly one unit of the channel counter in a balance record of their own
/// is turned away with `PreconditionFailed` before anything is read or
/// written — and update-channel-metadata guarantees that a failed call
/// leaves the registry unchanged.
pub proof fn lemma_update_requires_ownership(i: UpdateMetadataInput)
    requires
        protocol_authority_spec(i.program) is Some,
        derived_address(channel_namespace_spec(), i.subscription.id, i.program) is Some,
        i.mint_auth_bump == protocol_authority_spec(i.program)->Some_0.1,
        i.subscription_attribution_bump == derived_address(
            channel_namespace_spec(),
            i.subscription.id,
            i.program,
        )->Some_0.1,
        i.channel_balance.amount != 1 || i.channel_balance.owner != i.creator,
    ensures
        update_channel_outcome(i) == Err::<(), ChannelError>(ChannelError::PreconditionFailed),
{
}

/// A patch that sets only `uri` changes `uri` and nothing else: `name`,
/// `symbol`, royalties and creators keep their prior values.
pub proof fn lemma_uri_only_patch(d: RecordDataView, uri: Seq<u8>)
    ensures
        patched_data(d, (PatchView { name: None, symbol: None, uri: Some(uri) }))
            == (RecordDataView { uri, ..d }),
{
}

} // verus!
