//! Confirming a subscription by the token of the link that was sent.
use crate::routes::subscriptions::has_token;
use crate::routes::subscriptions::with_subscriptions;
use crate::store::has_subscriber;
use crate::store::tokens_view;
use crate::store::Store;
use crate::store::Subscription;
use crate::store::SubscriptionRow;
use crate::store::SubscriptionStatus;
use crate::store::Tables;
use crate::store::TokenRow;
use vstd::prelude::*;

verus! {

/// What the confirmation link carries.
#[derive(Debug)]
pub struct QueryParams {
    pub subscription_token: String,
}

/// The status code of a confirmation that was carried out.
pub const STATUS_OK: u16 = 200;

/// The status code for a token that nobody was given.
pub const STATUS_UNAUTHORIZED: u16 = 401;

/// The place of `token` in `rows`.
pub open spec fn token_index(rows: Seq<TokenRow>, token: Seq<char>) -> int {
    choose|k: int| 0 <= k < rows.len() && (#[trigger] rows[k]).subscription_token == token
}

/// The subscription that `token` confirms, if the token was given out.
pub open spec fn subscriber_of_token(rows: Seq<TokenRow>, token: Seq<char>) -> Option<u128> {
    if has_token(rows, token) {
        Some(rows[token_index(rows, token)].subscriber_id)
    } else {
        None
    }
}

/// `s`, confirmed if its identifier is `subscriber_id`.
pub open spec fn confirmed_row(s: SubscriptionRow, subscriber_id: u128) -> SubscriptionRow {
    if s.id == subscriber_id {
        SubscriptionRow { status: SubscriptionStatus::Confirmed, ..s }
    } else {
        s
    }
}

/// The function that confirms the subscription `subscriber_id` and leaves
/// the others as they are.
pub open spec fn confirmer(subscriber_id: u128) -> spec_fn(SubscriptionRow) -> SubscriptionRow {
    |s: SubscriptionRow| confirmed_row(s, subscriber_id)
}

/// The subscriptions once `subscriber_id` has confirmed.
pub open spec fn confirmed(rows: Seq<SubscriptionRow>, subscriber_id: u128) -> Seq<
    SubscriptionRow,
> {
    rows.map_values(confirmer(subscriber_id))
}

/// The identifier of the subscription that `token` confirms, if the token
/// was given out.
pub fn get_subscriber_id_by_token(store: &Store, token: &str) -> (found: Option<u128>)
    requires
        store@.wf(),
    ensures
        found == subscriber_of_token(store@.subscription_tokens, token@),
{
    let wanted = token.to_owned();
    let ghost rows = store@.subscription_tokens;
    let mut i: usize = 0;
    while i < store.subscription_tokens.len()
        invariant
            i <= store.subscription_tokens.len(),
            rows == tokens_view(store.subscription_tokens@),
            crate::store::tokens_unique(rows),
            wanted@ == token@,
            forall|j: int| 0 <= j < i ==> (#[trigger] rows[j]).subscription_token != token@,
        decreases store.subscription_tokens.len() - i,
    {
        if store.subscription_tokens[i].subscription_token == wanted {
            proof {
                let k = token_index(rows, token@);
                if k < i {
                    assert(rows[k].subscription_token != rows[i as int].subscription_token);
                } else if i < k {
                    assert(rows[i as int].subscription_token != rows[k].subscription_token);
                }
            }
            return Some(store.subscription_tokens[i].subscriber_id);
        }
        i += 1;
    }
    None
}

/// Marks the subscription `subscriber_id` as confirmed. Every other row
/// stays as it is; where no subscription has this identifier, all do.
pub fn confirm_subscriber(store: &mut Store, subscriber_id: u128)
    requires
        old(store)@.wf(),
    ensures
        final(store)@.wf(),
        final(store)@ == with_subscriptions(
            old(store)@,
            confirmed(old(store)@.subscriptions, subscriber_id),
        ),
{
    let ghost before = store@;
    let ghost rows = before.subscriptions;
    let n: usize = store.subscriptions.len();
    let mut i: usize = 0;
    while i < n
        invariant
            i <= n,
            n == store.subscriptions.len(),
            rows.len() == n,
            store@ == with_subscriptions(before, store@.subscriptions),
            forall|j: int|
                0 <= j < i ==> (#[trigger] store@.subscriptions[j]) == confirmed_row(
                    rows[j],
                    subscriber_id,
                ),
            forall|j: int| i <= j < n ==> (#[trigger] store@.subscriptions[j]) == rows[j],
        decreases n - i,
    {
        if store.subscriptions[i].id == subscriber_id {
            let ghost so_far = store@.subscriptions;
            proof {
                assert(so_far[i as int] == store.subscriptions@[i as int]@);
            }
            let row = Subscription {
                id: subscriber_id,
                email: store.subscriptions[i].email.clone(),
                name: store.subscriptions[i].name.clone(),
                subscribed_at: store.subscriptions[i].subscribed_at,
                status: SubscriptionStatus::Confirmed,
            };
            store.subscriptions.set(i, row);
            proof {
                assert(store@.subscriptions =~= so_far.update(
                    i as int,
                    confirmed_row(rows[i as int], subscriber_id),
                ));
            }
        }
        i += 1;
    }
    proof {
        let after = store@.subscriptions;
        assert(after =~= confirmed(rows, subscriber_id));
        assert forall|k: int| 0 <= k < before.subscription_tokens.len() implies has_subscriber(
            after,
            (#[trigger] before.subscription_tokens[k]).subscriber_id,
        ) by {
            let m = choose|m: int|
                0 <= m < rows.len() && (#[trigger] rows[m]).id
                    == before.subscription_tokens[k].subscriber_id;
            assert(after[m].id == before.subscription_tokens[k].subscriber_id);
        }
    }
}

/// The store after the link with `token` was followed: the subscription of
/// the token is confirmed, or, where nobody was given the token, nothing has
/// changed.
pub open spec fn link_followed(tables: Tables, token: Seq<char>) -> Tables {
    match subscriber_of_token(tables.subscription_tokens, token) {
        None => tables,
        Some(subscriber_id) => with_subscriptions(
            tables,
            confirmed(tables.subscriptions, subscriber_id),
        ),
    }
}

/// Handles a followed confirmation link: confirms the subscription of the
/// token and answers 200, or answers 401 for a token that nobody was given.
pub fn subscribtion_confirm(store: &mut Store, params: QueryParams) -> (status: u16)
    requires
        old(store)@.wf(),
    ensures
        final(store)@.wf(),
        final(store)@ == link_followed(old(store)@, params.subscription_token@),
        status == if has_token(old(store)@.subscription_tokens, params.subscription_token@) {
            STATUS_OK
        } else {
            STATUS_UNAUTHORIZED
        },
{
    match get_subscriber_id_by_token(store, params.subscription_token.as_str()) {
        None => STATUS_UNAUTHORIZED,
        Some(subscriber_id) => {
            confirm_subscriber(store, subscriber_id);
            STATUS_OK
        },
    }
}

} // verus!
