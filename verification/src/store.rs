//! The relational store as plain tables.
//!
//! Each table is a list of rows in the order in which they were inserted.
//! [`Tables`] is the store as a mathematical value; [`Tables::wf`] states the
//! keys and references that the schema declares.
use crate::idempotency::response::SavedColumns;
use crate::idempotency::response::SavedResponse;
use vstd::prelude::*;

verus! {

/// A row of `idempotency`: the claim of a key by a user, and the response
/// that was saved for it once the operation was completed.
#[derive(Debug)]
pub struct IdempotencyRecord {
    pub user_id: u128,
    pub idempotency_key: String,
    pub response: Option<SavedResponse>,
    pub created_at: u64,
}

/// A row of `idempotency` as a mathematical value.
pub struct IdempotencyRow {
    pub user_id: u128,
    pub idempotency_key: Seq<char>,
    pub response: Option<SavedColumns>,
    pub created_at: u64,
}

impl View for IdempotencyRecord {
    type V = IdempotencyRow;

    open spec fn view(&self) -> IdempotencyRow {
        IdempotencyRow {
            user_id: self.user_id,
            idempotency_key: self.idempotency_key@,
            response: match self.response {
                Some(saved) => Some(saved@),
                None => None,
            },
            created_at: self.created_at,
        }
    }
}

/// A row of `newsletter_issues`.
#[derive(Debug)]
pub struct NewsletterIssue {
    pub newsletter_issue_id: u128,
    pub title: String,
    pub text_content: String,
    pub html_content: String,
    pub published_at: u64,
}

/// A row of `newsletter_issues` as a mathematical value.
pub struct IssueRow {
    pub newsletter_issue_id: u128,
    pub title: Seq<char>,
    pub text_content: Seq<char>,
    pub html_content: Seq<char>,
    pub published_at: u64,
}

impl View for NewsletterIssue {
    type V = IssueRow;

    open spec fn view(&self) -> IssueRow {
        IssueRow {
            newsletter_issue_id: self.newsletter_issue_id,
            title: self.title@,
            text_content: self.text_content@,
            html_content: self.html_content@,
            published_at: self.published_at,
        }
    }
}

impl NewsletterIssue {
    /// A copy of this issue.
    pub fn duplicate(&self) -> (copy: NewsletterIssue)
        ensures
            copy@ == self@,
    {
        NewsletterIssue {
            newsletter_issue_id: self.newsletter_issue_id,
            title: self.title.clone(),
            text_content: self.text_content.clone(),
            html_content: self.html_content.clone(),
            published_at: self.published_at,
        }
    }
}

/// A row of `issue_delivery_queue`: this recipient still needs this issue.
/// `locked` tells that a delivery transaction holds the row.
#[derive(Debug)]
pub struct DeliveryTask {
    pub newsletter_issue_id: u128,
    pub subscriber_email: String,
    pub next_retry: u64,
    pub locked: bool,
}

/// A row of `issue_delivery_queue` as a mathematical value.
pub struct TaskRow {
    pub newsletter_issue_id: u128,
    pub subscriber_email: Seq<char>,
    pub next_retry: u64,
    pub locked: bool,
}

impl View for DeliveryTask {
    type V = TaskRow;

    open spec fn view(&self) -> TaskRow {
        TaskRow {
            newsletter_issue_id: self.newsletter_issue_id,
            subscriber_email: self.subscriber_email@,
            next_retry: self.next_retry,
            locked: self.locked,
        }
    }
}

/// Whether a subscriber has followed the link that was sent to them.
#[derive(Debug, Clone, Copy, PartialEq, Eq, Structural)]
pub enum SubscriptionStatus {
    PendingConfirmation,
    Confirmed,
}

/// A row of `subscriptions`.
#[derive(Debug)]
pub struct Subscription {
    pub id: u128,
    pub email: String,
    pub name: String,
    pub subscribed_at: u64,
    pub status: SubscriptionStatus,
}

/// A row of `subscriptions` as a mathematical value.
pub struct SubscriptionRow {
    pub id: u128,
    pub email: Seq<char>,
    pub name: Seq<char>,
    pub subscribed_at: u64,
    pub status: SubscriptionStatus,
}

impl View for Subscription {
    type V = SubscriptionRow;

    open spec fn view(&self) -> SubscriptionRow {
        SubscriptionRow {
            id: self.id,
            email: self.email@,
            name: self.name@,
            subscribed_at: self.subscribed_at,
            status: self.status,
        }
    }
}

/// A row of `subscription_tokens`.
#[derive(Debug)]
pub struct SubscriptionToken {
    pub subscription_token: String,
    pub subscriber_id: u128,
}

/// A row of `subscription_tokens` as a mathematical value.
pub struct TokenRow {
    pub subscription_token: Seq<char>,
    pub subscriber_id: u128,
}

impl View for SubscriptionToken {
    type V = TokenRow;

    open spec fn view(&self) -> TokenRow {
        TokenRow { subscription_token: self.subscription_token@, subscriber_id: self.subscriber_id }
    }
}

/// A row of `users`: someone who may log in. The hash of the password is
/// kept out of every log: the type cannot be printed.
pub struct User {
    pub user_id: u128,
    pub username: String,
    pub password_hash: String,
}

/// A row of `users` as a mathematical value.
pub struct UserRow {
    pub user_id: u128,
    pub username: Seq<char>,
    pub password_hash: Seq<char>,
}

impl View for User {
    type V = UserRow;

    open spec fn view(&self) -> UserRow {
        UserRow {
            user_id: self.user_id,
            username: self.username@,
            password_hash: self.password_hash@,
        }
    }
}

impl Clone for User {
    fn clone(&self) -> (copy: User)
        ensures
            copy@ == self@,
    {
        User {
            user_id: self.user_id,
            username: self.username.clone(),
            password_hash: self.password_hash.clone(),
        }
    }
}

/// Why the store refused a statement.
#[derive(Debug, Clone, Copy, PartialEq, Eq, Structural)]
pub enum StorageError {
    /// An issue with this identifier exists already.
    DuplicateIssue,
    /// The issue was not inserted in this transaction.
    IssueNotInTransaction,
    /// The transaction has enqueued the tasks of this issue already.
    DuplicateTask,
    /// A subscription with this address or this identifier exists already.
    DuplicateSubscriber,
    /// This token was given out already.
    DuplicateToken,
    /// No subscription has this identifier.
    UnknownSubscriber,
    /// No row was found where one was asked for.
    RowNotFound,
    /// A time to be written lies beyond the times that the store can hold.
    TimestampOutOfRange,
}

/// The store: one list of rows for each table.
pub struct Store {
    pub idempotency: Vec<IdempotencyRecord>,
    pub newsletter_issues: Vec<NewsletterIssue>,
    pub issue_delivery_queue: Vec<DeliveryTask>,
    pub subscriptions: Vec<Subscription>,
    pub subscription_tokens: Vec<SubscriptionToken>,
    pub users: Vec<User>,
}

/// The store as a mathematical value.
pub struct Tables {
    pub idempotency: Seq<IdempotencyRow>,
    pub newsletter_issues: Seq<IssueRow>,
    pub issue_delivery_queue: Seq<TaskRow>,
    pub subscriptions: Seq<SubscriptionRow>,
    pub subscription_tokens: Seq<TokenRow>,
    pub users: Seq<UserRow>,
}

/// Whether `r` is the claim of `key` by `user_id`.
pub open spec fn record_matches(r: IdempotencyRow, user_id: u128, key: Seq<char>) -> bool {
    r.user_id == user_id && r.idempotency_key == key
}

/// Whether `t` is the task of delivering issue `issue_id` to `email`.
pub open spec fn task_matches(t: TaskRow, issue_id: u128, email: Seq<char>) -> bool {
    t.newsletter_issue_id == issue_id && t.subscriber_email == email
}

/// No two rows of `idempotency` claim the same key for the same user.
pub open spec fn idempotency_keys_unique(rows: Seq<IdempotencyRow>) -> bool {
    forall|i: int, j: int|
        0 <= i < j < rows.len() ==> !record_matches(
            #[trigger] rows[i],
            (#[trigger] rows[j]).user_id,
            rows[j].idempotency_key,
        )
}

/// No two issues have the same identifier.
pub open spec fn issue_ids_unique(rows: Seq<IssueRow>) -> bool {
    forall|i: int, j: int|
        0 <= i < j < rows.len() ==> (#[trigger] rows[i]).newsletter_issue_id != (
        #[trigger] rows[j]).newsletter_issue_id
}

/// No two tasks deliver the same issue to the same address.
pub open spec fn task_keys_unique(rows: Seq<TaskRow>) -> bool {
    forall|i: int, j: int|
        0 <= i < j < rows.len() ==> !task_matches(
            #[trigger] rows[i],
            (#[trigger] rows[j]).newsletter_issue_id,
            rows[j].subscriber_email,
        )
}

/// Whether an issue with identifier `issue_id` is among `rows`.
pub open spec fn has_issue(rows: Seq<IssueRow>, issue_id: u128) -> bool {
    exists|k: int| 0 <= k < rows.len() && (#[trigger] rows[k]).newsletter_issue_id == issue_id
}

/// The place of the issue with identifier `issue_id`.
pub open spec fn issue_index(rows: Seq<IssueRow>, issue_id: u128) -> int {
    choose|k: int| 0 <= k < rows.len() && (#[trigger] rows[k]).newsletter_issue_id == issue_id
}

/// The issue with identifier `issue_id`.
pub open spec fn issue_with_id(rows: Seq<IssueRow>, issue_id: u128) -> IssueRow {
    rows[issue_index(rows, issue_id)]
}

/// Every task delivers an issue that is among `issues`.
pub open spec fn tasks_refer_to_issues(tasks: Seq<TaskRow>, issues: Seq<IssueRow>) -> bool {
    forall|i: int|
        0 <= i < tasks.len() ==> has_issue(issues, (#[trigger] tasks[i]).newsletter_issue_id)
}

/// No two subscriptions have the same address.
pub open spec fn subscriber_emails_unique(rows: Seq<SubscriptionRow>) -> bool {
    forall|i: int, j: int|
        0 <= i < j < rows.len() ==> (#[trigger] rows[i]).email != (#[trigger] rows[j]).email
}

/// No two subscriptions have the same identifier.
pub open spec fn subscriber_ids_unique(rows: Seq<SubscriptionRow>) -> bool {
    forall|i: int, j: int|
        0 <= i < j < rows.len() ==> (#[trigger] rows[i]).id != (#[trigger] rows[j]).id
}

/// No two rows of `subscription_tokens` hold the same token.
pub open spec fn tokens_unique(rows: Seq<TokenRow>) -> bool {
    forall|i: int, j: int|
        0 <= i < j < rows.len() ==> (#[trigger] rows[i]).subscription_token != (
        #[trigger] rows[j]).subscription_token
}

/// Whether a subscription with identifier `id` is among `rows`.
pub open spec fn has_subscriber(rows: Seq<SubscriptionRow>, id: u128) -> bool {
    exists|k: int| 0 <= k < rows.len() && (#[trigger] rows[k]).id == id
}

/// Every token belongs to a subscription that is among `subscriptions`.
pub open spec fn tokens_refer_to_subscribers(
    tokens: Seq<TokenRow>,
    subscriptions: Seq<SubscriptionRow>,
) -> bool {
    forall|i: int|
        0 <= i < tokens.len() ==> has_subscriber(subscriptions, (#[trigger] tokens[i]).subscriber_id)
}

/// No two users have the same name, and no two the same identifier.
pub open spec fn users_unique(rows: Seq<UserRow>) -> bool {
    forall|i: int, j: int|
        0 <= i < j < rows.len() ==> (#[trigger] rows[i]).username != (#[trigger] rows[j]).username
            && rows[i].user_id != rows[j].user_id
}

impl Tables {
    /// The store without a row.
    pub open spec fn empty() -> Tables {
        Tables {
            idempotency: Seq::empty(),
            newsletter_issues: Seq::empty(),
            issue_delivery_queue: Seq::empty(),
            subscriptions: Seq::empty(),
            subscription_tokens: Seq::empty(),
            users: Seq::empty(),
        }
    }

    /// The keys and references of the schema hold: one claim for each user
    /// and key, one issue for each identifier, one task for each issue and
    /// address, each task for an issue that exists, one subscription for
    /// each address and for each identifier, one row for each token, each
    /// token for a subscription that exists, one user for each name and for
    /// each identifier.
    pub open spec fn wf(self) -> bool {
        &&& idempotency_keys_unique(self.idempotency)
        &&& issue_ids_unique(self.newsletter_issues)
        &&& task_keys_unique(self.issue_delivery_queue)
        &&& tasks_refer_to_issues(self.issue_delivery_queue, self.newsletter_issues)
        &&& subscriber_emails_unique(self.subscriptions)
        &&& subscriber_ids_unique(self.subscriptions)
        &&& tokens_unique(self.subscription_tokens)
        &&& tokens_refer_to_subscribers(self.subscription_tokens, self.subscriptions)
        &&& users_unique(self.users)
    }
}

/// The rows of a list of claims, each as a mathematical value.
pub open spec fn records_view(rows: Seq<IdempotencyRecord>) -> Seq<IdempotencyRow> {
    rows.map_values(|r: IdempotencyRecord| r@)
}

/// The rows of a list of issues, each as a mathematical value.
pub open spec fn issues_view(rows: Seq<NewsletterIssue>) -> Seq<IssueRow> {
    rows.map_values(|r: NewsletterIssue| r@)
}

/// The rows of a list of tasks, each as a mathematical value.
pub open spec fn tasks_view(rows: Seq<DeliveryTask>) -> Seq<TaskRow> {
    rows.map_values(|r: DeliveryTask| r@)
}

/// The rows of a list of subscriptions, each as a mathematical value.
pub open spec fn subscriptions_view(rows: Seq<Subscription>) -> Seq<SubscriptionRow> {
    rows.map_values(|r: Subscription| r@)
}

/// The rows of a list of users, each as a mathematical value.
pub open spec fn users_view(rows: Seq<User>) -> Seq<UserRow> {
    rows.map_values(|r: User| r@)
}

/// The rows of a list of tokens, each as a mathematical value.
pub open spec fn tokens_view(rows: Seq<SubscriptionToken>) -> Seq<TokenRow> {
    rows.map_values(|r: SubscriptionToken| r@)
}

impl View for Store {
    type V = Tables;

    open spec fn view(&self) -> Tables {
        Tables {
            idempotency: records_view(self.idempotency@),
            newsletter_issues: issues_view(self.newsletter_issues@),
            issue_delivery_queue: tasks_view(self.issue_delivery_queue@),
            subscriptions: subscriptions_view(self.subscriptions@),
            subscription_tokens: tokens_view(self.subscription_tokens@),
            users: users_view(self.users@),
        }
    }
}

impl Store {
    /// A store without a row.
    pub fn new() -> (store: Store)
        ensures
            store@ == Tables::empty(),
            store@.wf(),
    {
        let store = Store {
            idempotency: Vec::new(),
            newsletter_issues: Vec::new(),
            issue_delivery_queue: Vec::new(),
            subscriptions: Vec::new(),
            subscription_tokens: Vec::new(),
            users: Vec::new(),
        };
        proof {
            assert(store@.idempotency =~= Seq::empty());
            assert(store@.newsletter_issues =~= Seq::empty());
            assert(store@.issue_delivery_queue =~= Seq::empty());
            assert(store@.subscriptions =~= Seq::empty());
            assert(store@.subscription_tokens =~= Seq::empty());
            assert(store@.users =~= Seq::empty());
        }
        store
    }
}

} // verus!
