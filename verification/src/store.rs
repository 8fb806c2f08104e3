//! The relational state of the service as plain values: subscriptions,
//! newsletter issues, the delivery queue and the idempotency records.
//!
//! Each operation of [`Store`] stands for one statement against the database
//! and is stated over [`StoreView`], the mathematical content of the tables.
use crate::response::{clone_bytes, clone_headers, headers_view, HeaderPair, HeadersView};
use vstd::prelude::*;

verus! {

/// A row of the subscriptions table.
#[derive(Debug)]
pub struct Subscription {
    pub id: u128,
    pub email: String,
    pub name: String,
    pub confirmed: bool,
}

/// The content of a [`Subscription`].
pub struct SubscriptionView {
    pub id: u128,
    pub email: Seq<char>,
    pub name: Seq<char>,
    pub confirmed: bool,
}

impl View for Subscription {
    type V = SubscriptionView;

    open spec fn view(&self) -> SubscriptionView {
        SubscriptionView {
            id: self.id,
            email: self.email@,
            name: self.name@,
            confirmed: self.confirmed,
        }
    }
}

/// A row of the table of confirmation tokens: the token sent to a
/// subscriber, and whose it is.
#[derive(Debug)]
pub struct SubscriptionToken {
    pub token: String,
    pub subscriber_id: u128,
}

/// The content of a [`SubscriptionToken`].
pub struct TokenView {
    pub token: Seq<char>,
    pub subscriber_id: u128,
}

impl View for SubscriptionToken {
    type V = TokenView;

    open spec fn view(&self) -> TokenView {
        TokenView { token: self.token@, subscriber_id: self.subscriber_id }
    }
}

/// One authored newsletter.
#[derive(Debug)]
pub struct NewsletterIssue {
    pub id: u128,
    pub title: String,
    pub text: String,
    pub html: String,
}

/// The content of a [`NewsletterIssue`].
pub struct IssueView {
    pub id: u128,
    pub title: Seq<char>,
    pub text: Seq<char>,
    pub html: Seq<char>,
}

impl View for NewsletterIssue {
    type V = IssueView;

    open spec fn view(&self) -> IssueView {
        IssueView { id: self.id, title: self.title@, text: self.text@, html: self.html@ }
    }
}

/// A row of the delivery queue: one email still owed for one issue. `locked`
/// is set while a worker holds the row.
#[derive(Debug)]
pub struct DeliveryTask {
    pub issue_id: u128,
    pub email: String,
    pub locked: bool,
}

/// The content of a [`DeliveryTask`].
pub struct TaskView {
    pub issue_id: u128,
    pub email: Seq<char>,
    pub locked: bool,
}

impl View for DeliveryTask {
    type V = TaskView;

    open spec fn view(&self) -> TaskView {
        TaskView { issue_id: self.issue_id, email: self.email@, locked: self.locked }
    }
}

/// A captured response as the idempotency table keeps it: the status code
/// in a signed 16-bit column.
#[derive(Debug)]
pub struct StoredResponse {
    pub status_code: i16,
    pub headers: Vec<HeaderPair>,
    pub body: Vec<u8>,
}

/// The content of a [`StoredResponse`].
pub struct StoredResponseView {
    pub status_code: i16,
    pub headers: HeadersView,
    pub body: Seq<u8>,
}

impl View for StoredResponse {
    type V = StoredResponseView;

    open spec fn view(&self) -> StoredResponseView {
        StoredResponseView {
            status_code: self.status_code,
            headers: headers_view(self.headers@),
            body: self.body@,
        }
    }
}

impl StoredResponse {
    /// A copy with the same columns.
    pub fn duplicate(&self) -> (copy: StoredResponse)
        ensures
            copy@ == self@,
    {
        StoredResponse {
            status_code: self.status_code,
            headers: clone_headers(&self.headers),
            body: clone_bytes(&self.body),
        }
    }
}

/// A row of the idempotency table. `response` is empty from the moment a
/// request begins until its response has been captured.
#[derive(Debug)]
pub struct IdempotencyRecord {
    pub user_id: u128,
    pub key: String,
    pub response: Option<StoredResponse>,
}

/// The content of an [`IdempotencyRecord`].
pub struct RecordView {
    pub user_id: u128,
    pub key: Seq<char>,
    pub response: Option<StoredResponseView>,
}

/// The content of an optional stored response.
pub open spec fn stored_view(response: Option<StoredResponse>) -> Option<StoredResponseView> {
    match response {
        Some(r) => Some(r@),
        None => None,
    }
}

impl View for IdempotencyRecord {
    type V = RecordView;

    open spec fn view(&self) -> RecordView {
        RecordView { user_id: self.user_id, key: self.key@, response: stored_view(self.response) }
    }
}

/// The content of the tables, each in insertion order.
pub struct StoreView {
    pub subscriptions: Seq<SubscriptionView>,
    pub tokens: Seq<TokenView>,
    pub issues: Seq<IssueView>,
    pub queue: Seq<TaskView>,
    pub idempotency: Seq<RecordView>,
}

/// Whether `i` is the first row of the queue that no worker holds.
pub open spec fn is_first_unlocked(queue: Seq<TaskView>, i: int) -> bool {
    &&& 0 <= i < queue.len()
    &&& !queue[i].locked
    &&& forall|j: int| 0 <= j < i ==> (#[trigger] queue[j]).locked
}

/// Whether the queue holds a row that no worker holds, and so a first one.
pub open spec fn has_unlocked(queue: Seq<TaskView>) -> bool {
    exists|i: int| is_first_unlocked(queue, i)
}

/// The first row of the queue that no worker holds, where there is one.
pub open spec fn first_unlocked(queue: Seq<TaskView>) -> int {
    choose|i: int| is_first_unlocked(queue, i)
}

impl StoreView {
    /// No row in any table.
    pub open spec fn empty() -> StoreView {
        StoreView {
            subscriptions: Seq::empty(),
            tokens: Seq::empty(),
            issues: Seq::empty(),
            queue: Seq::empty(),
            idempotency: Seq::empty(),
        }
    }

    /// The ids of the subscriptions, in order.
    pub open spec fn subscriber_ids(self) -> Seq<u128> {
        Seq::new(self.subscriptions.len(), |i: int| self.subscriptions[i].id)
    }

    /// The addresses of the subscriptions, in order.
    pub open spec fn subscriber_emails(self) -> Seq<Seq<char>> {
        Seq::new(self.subscriptions.len(), |i: int| self.subscriptions[i].email)
    }

    /// The confirmation tokens, in order.
    pub open spec fn token_keys(self) -> Seq<Seq<char>> {
        Seq::new(self.tokens.len(), |i: int| self.tokens[i].token)
    }

    /// The ids of the issues, in order.
    pub open spec fn issue_ids(self) -> Seq<u128> {
        Seq::new(self.issues.len(), |i: int| self.issues[i].id)
    }

    /// The keys of the queue rows, issue and recipient, in order.
    pub open spec fn task_keys(self) -> Seq<(u128, Seq<char>)> {
        Seq::new(self.queue.len(), |i: int| (self.queue[i].issue_id, self.queue[i].email))
    }

    /// The keys of the idempotency records, user and key, in order.
    pub open spec fn record_keys(self) -> Seq<(u128, Seq<char>)> {
        Seq::new(self.idempotency.len(), |i: int| (self.idempotency[i].user_id, self.idempotency[i].key))
    }

    /// The constraints of the schema: the keys of each table are unique, no
    /// two subscriptions share an address, every token belongs to a
    /// subscription that exists, and every queue row names an issue that
    /// exists.
    pub open spec fn wf(self) -> bool {
        &&& self.subscriber_ids().no_duplicates()
        &&& self.subscriber_emails().no_duplicates()
        &&& self.token_keys().no_duplicates()
        &&& forall|i: int|
            0 <= i < self.tokens.len() ==> self.subscriber_ids().contains(
                #[trigger] self.tokens[i].subscriber_id,
            )
        &&& self.issue_ids().no_duplicates()
        &&& self.task_keys().no_duplicates()
        &&& self.record_keys().no_duplicates()
        &&& forall|i: int|
            0 <= i < self.queue.len() ==> self.issue_ids().contains(#[trigger] self.queue[i].issue_id)
    }

    /// Whether a subscription has this id.
    pub open spec fn has_subscriber(self, id: u128) -> bool {
        self.subscriber_ids().contains(id)
    }

    /// Whether a subscription has this address.
    pub open spec fn has_subscriber_email(self, email: Seq<char>) -> bool {
        self.subscriber_emails().contains(email)
    }

    /// The store with one more subscription, which awaits confirmation.
    pub open spec fn with_subscriber(self, id: u128, email: Seq<char>, name: Seq<char>) -> StoreView {
        StoreView {
            subscriptions: self.subscriptions.push(
                SubscriptionView { id, email, name, confirmed: false },
            ),
            ..self
        }
    }

    /// The store after the subscription `id`, if there is one, is confirmed.
    pub open spec fn with_confirmation(self, id: u128) -> StoreView {
        if self.has_subscriber(id) {
            let i = self.subscriber_ids().index_of(id);
            StoreView {
                subscriptions: self.subscriptions.update(
                    i,
                    SubscriptionView { confirmed: true, ..self.subscriptions[i] },
                ),
                ..self
            }
        } else {
            self
        }
    }

    /// Whether this confirmation token is stored.
    pub open spec fn has_token(self, token: Seq<char>) -> bool {
        self.token_keys().contains(token)
    }

    /// The subscription that a token belongs to, where the token exists.
    pub open spec fn token_owner(self, token: Seq<char>) -> u128 {
        self.tokens[self.token_keys().index_of(token)].subscriber_id
    }

    /// The store with one more confirmation token.
    pub open spec fn with_token(self, token: Seq<char>, subscriber_id: u128) -> StoreView {
        StoreView { tokens: self.tokens.push(TokenView { token, subscriber_id }), ..self }
    }

    /// Whether an issue has this id.
    pub open spec fn has_issue(self, id: u128) -> bool {
        self.issue_ids().contains(id)
    }

    /// The issue `id`, where it exists.
    pub open spec fn issue(self, id: u128) -> IssueView {
        self.issues[self.issue_ids().index_of(id)]
    }

    /// The store with one more issue.
    pub open spec fn with_issue(self, issue: IssueView) -> StoreView {
        StoreView { issues: self.issues.push(issue), ..self }
    }

    /// Whether the queue holds a row for this issue and recipient.
    pub open spec fn has_task(self, issue_id: u128, email: Seq<char>) -> bool {
        self.task_keys().contains((issue_id, email))
    }

    /// The store with one more queue row, which no worker holds.
    pub open spec fn with_task(self, issue_id: u128, email: Seq<char>) -> StoreView {
        StoreView { queue: self.queue.push(TaskView { issue_id, email, locked: false }), ..self }
    }

    /// The store without the queue row of this key, if there is one.
    pub open spec fn without_task(self, issue_id: u128, email: Seq<char>) -> StoreView {
        if self.has_task(issue_id, email) {
            StoreView {
                queue: self.queue.remove(self.task_keys().index_of((issue_id, email))),
                ..self
            }
        } else {
            self
        }
    }

    /// The store with the lock of queue row `i` set to `locked`.
    pub open spec fn with_lock(self, i: int, locked: bool) -> StoreView {
        StoreView { queue: self.queue.update(i, TaskView { locked, ..self.queue[i] }), ..self }
    }

    /// The store after the queue row of this key, if there is one, is released.
    pub open spec fn with_release(self, issue_id: u128, email: Seq<char>) -> StoreView {
        if self.has_task(issue_id, email) {
            self.with_lock(self.task_keys().index_of((issue_id, email)), false)
        } else {
            self
        }
    }

    /// Whether an idempotency record exists for this user and key.
    pub open spec fn has_record(self, user_id: u128, key: Seq<char>) -> bool {
        self.record_keys().contains((user_id, key))
    }

    /// The idempotency record of this key, where it exists.
    pub open spec fn record(self, user_id: u128, key: Seq<char>) -> RecordView {
        self.idempotency[self.record_keys().index_of((user_id, key))]
    }

    /// The store with one more idempotency record.
    pub open spec fn with_record(
        self,
        user_id: u128,
        key: Seq<char>,
        response: Option<StoredResponseView>,
    ) -> StoreView {
        StoreView { idempotency: self.idempotency.push(RecordView { user_id, key, response }), ..self }
    }

    /// The store after the record of this key, if there is one, takes
    /// `response` as its captured response.
    pub open spec fn with_response(
        self,
        user_id: u128,
        key: Seq<char>,
        response: StoredResponseView,
    ) -> StoreView {
        if self.has_record(user_id, key) {
            StoreView {
                idempotency: self.idempotency.update(
                    self.record_keys().index_of((user_id, key)),
                    RecordView { user_id, key, response: Some(response) },
                ),
                ..self
            }
        } else {
            self
        }
    }

    /// The store without the record of this key, if there is one.
    pub open spec fn without_record(self, user_id: u128, key: Seq<char>) -> StoreView {
        if self.has_record(user_id, key) {
            StoreView {
                idempotency: self.idempotency.remove(self.record_keys().index_of((user_id, key))),
                ..self
            }
        } else {
            self
        }
    }
}

/// In a sequence without repetitions, an element is found where it stands.
pub proof fn lemma_index_of_unique<A>(s: Seq<A>, i: int)
    requires
        s.no_duplicates(),
        0 <= i < s.len(),
    ensures
        s.contains(s[i]),
        s.index_of(s[i]) == i,
{
    assert(s.contains(s[i]));
    let j = s.index_of(s[i]);
    assert(0 <= j < s.len() && s[j] == s[i]);
}

/// Appending an element that is not yet there keeps a sequence free of
/// repetitions.
pub proof fn lemma_push_unique<A>(s: Seq<A>, x: A)
    requires
        s.no_duplicates(),
        !s.contains(x),
    ensures
        s.push(x).no_duplicates(),
{
    let t = s.push(x);
    assert forall|i: int, j: int| 0 <= i < t.len() && 0 <= j < t.len() && i != j implies t[i]
        != t[j] by {
        if i < s.len() && j < s.len() {
            assert(s[i] != s[j]);
        } else if i < s.len() {
            assert(s.contains(s[i]));
        } else {
            assert(s.contains(s[j]));
        }
    }
}

/// Removing an element keeps a sequence free of repetitions, and the element
/// is then gone.
pub proof fn lemma_remove_unique<A>(s: Seq<A>, i: int)
    requires
        s.no_duplicates(),
        0 <= i < s.len(),
    ensures
        s.remove(i).no_duplicates(),
        !s.remove(i).contains(s[i]),
{
    let t = s.remove(i);
    assert forall|a: int, b: int| 0 <= a < t.len() && 0 <= b < t.len() && a != b implies t[a]
        != t[b] by {
        let a0 = if a < i { a } else { a + 1 };
        let b0 = if b < i { b } else { b + 1 };
        assert(t[a] == s[a0] && t[b] == s[b0]);
    }
    assert forall|a: int| 0 <= a < t.len() implies t[a] != s[i] by {
        let a0 = if a < i { a } else { a + 1 };
        assert(t[a] == s[a0]);
    }
}

/// The tables themselves.
#[derive(Debug)]
pub struct Store {
    subscriptions: Vec<Subscription>,
    tokens: Vec<SubscriptionToken>,
    issues: Vec<NewsletterIssue>,
    queue: Vec<DeliveryTask>,
    idempotency: Vec<IdempotencyRecord>,
}

impl View for Store {
    type V = StoreView;

    closed spec fn view(&self) -> StoreView {
        StoreView {
            subscriptions: Seq::new(self.subscriptions@.len(), |i: int| self.subscriptions@[i]@),
            tokens: Seq::new(self.tokens@.len(), |i: int| self.tokens@[i]@),
            issues: Seq::new(self.issues@.len(), |i: int| self.issues@[i]@),
            queue: Seq::new(self.queue@.len(), |i: int| self.queue@[i]@),
            idempotency: Seq::new(self.idempotency@.len(), |i: int| self.idempotency@[i]@),
        }
    }
}

impl Store {
    /// The schema's constraints hold of the tables.
    pub open spec fn wf(&self) -> bool {
        self@.wf()
    }

    /// A store with empty tables.
    pub fn new() -> (store: Store)
        ensures
            store@ == StoreView::empty(),
            store.wf(),
    {
        let store = Store {
            subscriptions: Vec::new(),
            tokens: Vec::new(),
            issues: Vec::new(),
            queue: Vec::new(),
            idempotency: Vec::new(),
        };
        assert(store@.subscriptions =~= Seq::empty());
        assert(store@.tokens =~= Seq::empty());
        assert(store@.issues =~= Seq::empty());
        assert(store@.queue =~= Seq::empty());
        assert(store@.idempotency =~= Seq::empty());
        store
    }

    fn subscriber_position(&self, id: u128) -> (r: Option<usize>)
        requires
            self.wf(),
        ensures
            r is Some <==> self@.has_subscriber(id),
            r is Some ==> r.unwrap() == self@.subscriber_ids().index_of(id) && r.unwrap()
                < self@.subscriptions.len(),
    {
        let mut i: usize = 0;
        while i < self.subscriptions.len()
            invariant
                self.wf(),
                i <= self.subscriptions@.len(),
                forall|j: int| 0 <= j < i ==> self@.subscriber_ids()[j] != id,
            decreases self.subscriptions@.len() - i,
        {
            if self.subscriptions[i].id == id {
                proof {
                    assert(self@.subscriber_ids()[i as int] == id);
                    lemma_index_of_unique(self@.subscriber_ids(), i as int);
                }
                return Some(i);
            }
            i += 1;
        }
        None
    }

    fn email_position(&self, email: &String) -> (r: Option<usize>)
        requires
            self.wf(),
        ensures
            r is Some <==> self@.has_subscriber_email(email@),
            r is Some ==> r.unwrap() == self@.subscriber_emails().index_of(email@) && r.unwrap()
                < self@.subscriptions.len(),
    {
        let mut i: usize = 0;
        while i < self.subscriptions.len()
            invariant
                self.wf(),
                i <= self.subscriptions@.len(),
                forall|j: int| 0 <= j < i ==> self@.subscriber_emails()[j] != email@,
            decreases self.subscriptions@.len() - i,
        {
            if self.subscriptions[i].email == *email {
                proof {
                    assert(self@.subscriber_emails()[i as int] == email@);
                    lemma_index_of_unique(self@.subscriber_emails(), i as int);
                }
                return Some(i);
            }
            i += 1;
        }
        None
    }

    fn token_position(&self, token: &String) -> (r: Option<usize>)
        requires
            self.wf(),
        ensures
            r is Some <==> self@.has_token(token@),
            r is Some ==> r.unwrap() == self@.token_keys().index_of(token@) && r.unwrap()
                < self@.tokens.len(),
    {
        let mut i: usize = 0;
        while i < self.tokens.len()
            invariant
                self.wf(),
                i <= self.tokens@.len(),
                forall|j: int| 0 <= j < i ==> self@.token_keys()[j] != token@,
            decreases self.tokens@.len() - i,
        {
            if self.tokens[i].token == *token {
                proof {
                    assert(self@.token_keys()[i as int] == token@);
                    lemma_index_of_unique(self@.token_keys(), i as int);
                }
                return Some(i);
            }
            i += 1;
        }
        None
    }

    fn issue_position(&self, id: u128) -> (r: Option<usize>)
        requires
            self.wf(),
        ensures
            r is Some <==> self@.has_issue(id),
            r is Some ==> r.unwrap() == self@.issue_ids().index_of(id) && r.unwrap()
                < self@.issues.len(),
    {
        let mut i: usize = 0;
        while i < self.issues.len()
            invariant
                self.wf(),
                i <= self.issues@.len(),
                forall|j: int| 0 <= j < i ==> self@.issue_ids()[j] != id,
            decreases self.issues@.len() - i,
        {
            if self.issues[i].id == id {
                proof {
                    assert(self@.issue_ids()[i as int] == id);
                    lemma_index_of_unique(self@.issue_ids(), i as int);
                }
                return Some(i);
            }
            i += 1;
        }
        None
    }

    fn task_position(&self, issue_id: u128, email: &String) -> (r: Option<usize>)
        requires
            self.wf(),
        ensures
            r is Some <==> self@.has_task(issue_id, email@),
            r is Some ==> r.unwrap() == self@.task_keys().index_of((issue_id, email@))
                && r.unwrap() < self@.queue.len(),
    {
        let mut i: usize = 0;
        while i < self.queue.len()
            invariant
                self.wf(),
                i <= self.queue@.len(),
                forall|j: int| 0 <= j < i ==> self@.task_keys()[j] != (issue_id, email@),
            decreases self.queue@.len() - i,
        {
            if self.queue[i].issue_id == issue_id && self.queue[i].email == *email {
                proof {
                    assert(self@.task_keys()[i as int] == (issue_id, email@));
                    lemma_index_of_unique(self@.task_keys(), i as int);
                }
                return Some(i);
            }
            i += 1;
        }
        None
    }

    fn record_position(&self, user_id: u128, key: &String) -> (r: Option<usize>)
        requires
            self.wf(),
        ensures
            r is Some <==> self@.has_record(user_id, key@),
            r is Some ==> r.unwrap() == self@.record_keys().index_of((user_id, key@))
                && r.unwrap() < self@.idempotency.len(),
    {
        let mut i: usize = 0;
        while i < self.idempotency.len()
            invariant
                self.wf(),
                i <= self.idempotency@.len(),
                forall|j: int| 0 <= j < i ==> self@.record_keys()[j] != (user_id, key@),
            decreases self.idempotency@.len() - i,
        {
            if self.idempotency[i].user_id == user_id && self.idempotency[i].key == *key {
                proof {
                    assert(self@.record_keys()[i as int] == (user_id, key@));
                    lemma_index_of_unique(self@.record_keys(), i as int);
                }
                return Some(i);
            }
            i += 1;
        }
        None
    }

    /// Adds a subscription that awaits confirmation. Nothing is added where
    /// the id or the address is already taken.
    pub fn insert_subscriber(&mut self, id: u128, email: &str, name: &str) -> (inserted: bool)
        requires
            old(self).wf(),
        ensures
            final(self).wf(),
            inserted == (!old(self)@.has_subscriber(id) && !old(self)@.has_subscriber_email(email@)),
            final(self)@ == if inserted {
                old(self)@.with_subscriber(id, email@, name@)
            } else {
                old(self)@
            },
    {
        let email = email.to_string();
        if self.subscriber_position(id).is_some() || self.email_position(&email).is_some() {
            return false;
        }
        let row = Subscription { id, email, name: name.to_string(), confirmed: false };
        self.subscriptions.push(row);
        proof {
            let before = old(self)@;
            let after = self@;
            assert(after.subscriptions =~= before.subscriptions.push(row@));
            assert(after.subscriber_ids() =~= before.subscriber_ids().push(id));
            assert(after.subscriber_emails() =~= before.subscriber_emails().push(row@.email));
            lemma_push_unique(before.subscriber_ids(), id);
            lemma_push_unique(before.subscriber_emails(), row@.email);
            assert forall|i: int| 0 <= i < after.tokens.len() implies after.subscriber_ids().contains(
                #[trigger] after.tokens[i].subscriber_id,
            ) by {
                let owner = before.tokens[i].subscriber_id;
                let k = before.subscriber_ids().index_of(owner);
                assert(after.subscriber_ids()[k] == owner);
            }
        }
        true
    }

    /// Whether a subscription has this id.
    pub fn has_subscriber(&self, id: u128) -> (b: bool)
        requires
            self.wf(),
        ensures
            b == self@.has_subscriber(id),
    {
        self.subscriber_position(id).is_some()
    }

    /// Whether a subscription has this address.
    pub fn has_subscriber_email(&self, email: &str) -> (b: bool)
        requires
            self.wf(),
        ensures
            b == self@.has_subscriber_email(email@),
    {
        let email = email.to_string();
        self.email_position(&email).is_some()
    }

    /// Whether the subscription `id` exists and is confirmed.
    pub fn is_confirmed(&self, id: u128) -> (b: bool)
        requires
            self.wf(),
        ensures
            b == (self@.has_subscriber(id) && self@.subscriptions[self@.subscriber_ids().index_of(
                id,
            )].confirmed),
    {
        match self.subscriber_position(id) {
            None => false,
            Some(i) => self.subscriptions[i].confirmed,
        }
    }

    /// Stores a confirmation token for a subscription. Nothing is stored
    /// where the token is taken or the subscription does not exist.
    pub fn store_token(&mut self, subscriber_id: u128, subscription_token: &str) -> (inserted: bool)
        requires
            old(self).wf(),
        ensures
            final(self).wf(),
            inserted == (!old(self)@.has_token(subscription_token@) && old(self)@.has_subscriber(
                subscriber_id,
            )),
            final(self)@ == if inserted {
                old(self)@.with_token(subscription_token@, subscriber_id)
            } else {
                old(self)@
            },
    {
        let token = subscription_token.to_string();
        if self.token_position(&token).is_some() || self.subscriber_position(subscriber_id).is_none() {
            return false;
        }
        let row = SubscriptionToken { token, subscriber_id };
        self.tokens.push(row);
        proof {
            let before = old(self)@;
            let after = self@;
            assert(after.tokens =~= before.tokens.push(row@));
            assert(after.token_keys() =~= before.token_keys().push(row@.token));
            lemma_push_unique(before.token_keys(), row@.token);
        }
        true
    }

    /// The subscription that a confirmation token belongs to, if the token
    /// is known.
    pub fn get_subscriber_id_from_token(&self, subscription_token: &str) -> (r: Option<u128>)
        requires
            self.wf(),
        ensures
            r is Some <==> self@.has_token(subscription_token@),
            r is Some ==> r.unwrap() == self@.token_owner(subscription_token@),
    {
        let token = subscription_token.to_string();
        match self.token_position(&token) {
            None => None,
            Some(i) => Some(self.tokens[i].subscriber_id),
        }
    }

    /// Marks the subscription `id` as confirmed and says how many rows
    /// changed: one, or none where there is no such subscription.
    pub fn confirm_subscriber(&mut self, id: u128) -> (rows: u64)
        requires
            old(self).wf(),
        ensures
            final(self).wf(),
            rows == if old(self)@.has_subscriber(id) { 1u64 } else { 0u64 },
            final(self)@ == old(self)@.with_confirmation(id),
    {
        match self.subscriber_position(id) {
            None => 0,
            Some(i) => {
                let row = self.subscriptions.remove(i);
                let confirmed = Subscription { confirmed: true, ..row };
                self.subscriptions.insert(i, confirmed);
                proof {
                    let before = old(self)@;
                    let after = self@;
                    assert(after.subscriptions =~= before.subscriptions.update(
                        i as int,
                        SubscriptionView { confirmed: true, ..before.subscriptions[i as int] },
                    ));
                    assert(after.subscriber_ids() =~= before.subscriber_ids());
                    assert(after.subscriber_emails() =~= before.subscriber_emails());
                }
                1
            },
        }
    }

    /// The addresses of the confirmed subscriptions, in insertion order.
    pub fn confirmed_subscriber_emails(&self) -> (emails: Vec<String>)
        ensures
            strings_view(emails@) == confirmed_emails(self@.subscriptions),
    {
        let mut emails: Vec<String> = Vec::new();
        let mut i: usize = 0;
        assert(self@.subscriptions.take(0) =~= Seq::empty());
        assert(strings_view(emails@) =~= Seq::empty());
        while i < self.subscriptions.len()
            invariant
                i <= self.subscriptions@.len(),
                self@.subscriptions.len() == self.subscriptions@.len(),
                strings_view(emails@) == confirmed_emails(self@.subscriptions.take(i as int)),
            decreases self.subscriptions@.len() - i,
        {
            proof {
                let next = self@.subscriptions.take(i + 1);
                assert(next.drop_last() =~= self@.subscriptions.take(i as int));
                assert(next.last() == self@.subscriptions[i as int]);
            }
            let ghost before = strings_view(emails@);
            if self.subscriptions[i].confirmed {
                emails.push(self.subscriptions[i].email.clone());
                assert(strings_view(emails@) =~= before.push(self@.subscriptions[i as int].email));
            }
            i += 1;
        }
        assert(self@.subscriptions.take(i as int) =~= self@.subscriptions);
        emails
    }

    /// Adds an issue. Nothing is added where its id is already taken.
    pub fn insert_issue(&mut self, issue: NewsletterIssue) -> (inserted: bool)
        requires
            old(self).wf(),
        ensures
            final(self).wf(),
            inserted == !old(self)@.has_issue(issue.id),
            final(self)@ == if inserted { old(self)@.with_issue(issue@) } else { old(self)@ },
    {
        if self.issue_position(issue.id).is_some() {
            return false;
        }
        let ghost content = issue@;
        self.issues.push(issue);
        proof {
            let before = old(self)@;
            let after = self@;
            assert(after.issues =~= before.issues.push(content));
            assert(after.issue_ids() =~= before.issue_ids().push(content.id));
            lemma_push_unique(before.issue_ids(), content.id);
            assert forall|i: int| 0 <= i < after.queue.len() implies after.issue_ids().contains(
                #[trigger] after.queue[i].issue_id,
            ) by {
                let id = before.queue[i].issue_id;
                assert(before.issue_ids().contains(id));
                let k = before.issue_ids().index_of(id);
                assert(after.issue_ids()[k] == id);
            }
        }
        true
    }

    /// The issue `id`, if there is one.
    pub fn get_issue(&self, id: u128) -> (r: Option<NewsletterIssue>)
        requires
            self.wf(),
        ensures
            r is Some <==> self@.has_issue(id),
            r is Some ==> r.unwrap()@ == self@.issue(id),
    {
        match self.issue_position(id) {
            None => None,
            Some(i) => Some(
                NewsletterIssue {
                    id: self.issues[i].id,
                    title: self.issues[i].title.clone(),
                    text: self.issues[i].text.clone(),
                    html: self.issues[i].html.clone(),
                },
            ),
        }
    }

    /// Adds a queue row for an issue and a recipient. Nothing is added where
    /// the issue does not exist or the row is already there.
    pub fn enqueue_task(&mut self, issue_id: u128, email: &str) -> (inserted: bool)
        requires
            old(self).wf(),
        ensures
            final(self).wf(),
            inserted == (old(self)@.has_issue(issue_id) && !old(self)@.has_task(issue_id, email@)),
            final(self)@ == if inserted {
                old(self)@.with_task(issue_id, email@)
            } else {
                old(self)@
            },
    {
        let email = email.to_string();
        if self.issue_position(issue_id).is_none() || self.task_position(issue_id, &email).is_some() {
            return false;
        }
        let row = DeliveryTask { issue_id, email, locked: false };
        self.queue.push(row);
        proof {
            let before = old(self)@;
            let after = self@;
            assert(after.queue =~= before.queue.push(row@));
            assert(after.task_keys() =~= before.task_keys().push((issue_id, row@.email)));
            lemma_push_unique(before.task_keys(), (issue_id, row@.email));
        }
        true
    }

    /// Claims the first queue row that no worker holds and returns its key,
    /// or returns nothing, and changes nothing, where every row is held.
    pub fn lock_next_task(&mut self) -> (r: Option<(u128, String)>)
        requires
            old(self).wf(),
        ensures
            final(self).wf(),
            r is Some <==> has_unlocked(old(self)@.queue),
            r is None ==> final(self)@ == old(self)@,
            r is Some ==> ({
                let i = first_unlocked(old(self)@.queue);
                &&& is_first_unlocked(old(self)@.queue, i)
                &&& r.unwrap().0 == old(self)@.queue[i].issue_id
                &&& r.unwrap().1@ == old(self)@.queue[i].email
                &&& final(self)@ == old(self)@.with_lock(i, true)
            }),
    {
        let mut i: usize = 0;
        while i < self.queue.len() && self.queue[i].locked
            invariant
                i <= self.queue@.len(),
                self@.queue.len() == self.queue@.len(),
                forall|j: int| 0 <= j < i ==> (#[trigger] self@.queue[j]).locked,
            decreases self.queue@.len() - i,
        {
            i += 1;
        }
        if i >= self.queue.len() {
            assert forall|k: int| !is_first_unlocked(self@.queue, k) by {
                if 0 <= k < self@.queue.len() {
                    assert(self@.queue[k].locked);
                }
            }
            return None;
        }
        proof {
            lemma_first_unlocked(self@.queue, i as int);
        }
        let row = self.queue.remove(i);
        let key = (row.issue_id, row.email.clone());
        self.queue.insert(i, DeliveryTask { locked: true, ..row });
        proof {
            let before = old(self)@;
            let after = self@;
            assert(after.queue =~= before.queue.update(
                i as int,
                TaskView { locked: true, ..before.queue[i as int] },
            ));
            assert(after.task_keys() =~= before.task_keys());
        }
        Some(key)
    }

    /// Releases the queue row of this key, if there is one, so that a worker
    /// can claim it again.
    pub fn unlock_task(&mut self, issue_id: u128, email: &str)
        requires
            old(self).wf(),
        ensures
            final(self).wf(),
            final(self)@ == old(self)@.with_release(issue_id, email@),
    {
        let email = email.to_string();
        match self.task_position(issue_id, &email) {
            None => {},
            Some(i) => {
                let row = self.queue.remove(i);
                self.queue.insert(i, DeliveryTask { locked: false, ..row });
                proof {
                    let before = old(self)@;
                    let after = self@;
                    assert(after.queue =~= before.queue.update(
                        i as int,
                        TaskView { locked: false, ..before.queue[i as int] },
                    ));
                    assert(after.task_keys() =~= before.task_keys());
                }
            },
        }
    }

    /// Deletes the queue row of this key and says how many rows went: one,
    /// or none where there is no such row.
    pub fn delete_task(&mut self, issue_id: u128, email: &str) -> (rows: u64)
        requires
            old(self).wf(),
        ensures
            final(self).wf(),
            rows == if old(self)@.has_task(issue_id, email@) { 1u64 } else { 0u64 },
            final(self)@ == old(self)@.without_task(issue_id, email@),
    {
        let email = email.to_string();
        match self.task_position(issue_id, &email) {
            None => 0,
            Some(i) => {
                self.queue.remove(i);
                proof {
                    let before = old(self)@;
                    let after = self@;
                    assert(after.queue =~= before.queue.remove(i as int));
                    assert(after.task_keys() =~= before.task_keys().remove(i as int));
                    lemma_remove_unique(before.task_keys(), i as int);
                    assert forall|j: int| 0 <= j < after.queue.len() implies after.issue_ids().contains(
                        #[trigger] after.queue[j].issue_id,
                    ) by {
                        let j0 = if j < i { j } else { j + 1 };
                        assert(after.queue[j] == before.queue[j0]);
                    }
                }
                1
            },
        }
    }

    /// Adds an idempotency record without a response, unless the key is
    /// taken, and says how many rows were added.
    pub fn insert_idempotency_record(&mut self, user_id: u128, key: &str) -> (rows: u64)
        requires
            old(self).wf(),
        ensures
            final(self).wf(),
            rows == if old(self)@.has_record(user_id, key@) { 0u64 } else { 1u64 },
            final(self)@ == if rows == 1 {
                old(self)@.with_record(user_id, key@, None)
            } else {
                old(self)@
            },
    {
        let key = key.to_string();
        if self.record_position(user_id, &key).is_some() {
            return 0;
        }
        let row = IdempotencyRecord { user_id, key, response: None };
        self.idempotency.push(row);
        proof {
            let before = old(self)@;
            let after = self@;
            assert(after.idempotency =~= before.idempotency.push(row@));
            assert(after.record_keys() =~= before.record_keys().push((user_id, row@.key)));
            lemma_push_unique(before.record_keys(), (user_id, row@.key));
        }
        1
    }

    /// The captured response of a key: nothing where there is no record, and
    /// a record's empty response where none has been captured yet.
    pub fn saved_response(&self, user_id: u128, key: &str) -> (r: Option<Option<StoredResponse>>)
        requires
            self.wf(),
        ensures
            r is Some <==> self@.has_record(user_id, key@),
            r is Some ==> stored_view(r.unwrap()) == self@.record(user_id, key@).response,
    {
        let key = key.to_string();
        match self.record_position(user_id, &key) {
            None => None,
            Some(i) => match &self.idempotency[i].response {
                None => Some(None),
                Some(stored) => Some(Some(stored.duplicate())),
            },
        }
    }

    /// Fills in the captured response of a key and says how many rows
    /// changed: one, or none where there is no record.
    pub fn update_saved_response(&mut self, user_id: u128, key: &str, response: StoredResponse) -> (rows:
        u64)
        requires
            old(self).wf(),
        ensures
            final(self).wf(),
            rows == if old(self)@.has_record(user_id, key@) { 1u64 } else { 0u64 },
            final(self)@ == old(self)@.with_response(user_id, key@, response@),
    {
        let key = key.to_string();
        match self.record_position(user_id, &key) {
            None => 0,
            Some(i) => {
                self.idempotency.remove(i);
                let row = IdempotencyRecord { user_id, key, response: Some(response) };
                self.idempotency.insert(i, row);
                proof {
                    let before = old(self)@;
                    let after = self@;
                    assert(before.record_keys()[i as int] == (user_id, row@.key));
                    assert(after.idempotency =~= before.idempotency.update(i as int, row@));
                    assert(after.record_keys() =~= before.record_keys());
                }
                1
            },
        }
    }

    /// Deletes the record of a key and says how many rows went.
    pub fn delete_idempotency_record(&mut self, user_id: u128, key: &str) -> (rows: u64)
        requires
            old(self).wf(),
        ensures
            final(self).wf(),
            rows == if old(self)@.has_record(user_id, key@) { 1u64 } else { 0u64 },
            final(self)@ == old(self)@.without_record(user_id, key@),
    {
        let key = key.to_string();
        match self.record_position(user_id, &key) {
            None => 0,
            Some(i) => {
                self.idempotency.remove(i);
                proof {
                    let before = old(self)@;
                    let after = self@;
                    assert(after.idempotency =~= before.idempotency.remove(i as int));
                    assert(after.record_keys() =~= before.record_keys().remove(i as int));
                    lemma_remove_unique(before.record_keys(), i as int);
                }
                1
            },
        }
    }

    /// The number of subscriptions.
    pub fn subscriber_count(&self) -> (n: usize)
        ensures
            n == self@.subscriptions.len(),
    {
        self.subscriptions.len()
    }

    /// The number of issues.
    pub fn issue_count(&self) -> (n: usize)
        ensures
            n == self@.issues.len(),
    {
        self.issues.len()
    }

    /// The number of queue rows, held or not.
    pub fn queue_len(&self) -> (n: usize)
        ensures
            n == self@.queue.len(),
    {
        self.queue.len()
    }

    /// The number of idempotency records.
    pub fn record_count(&self) -> (n: usize)
        ensures
            n == self@.idempotency.len(),
    {
        self.idempotency.len()
    }

    /// Whether the queue holds a row for this issue and recipient.
    pub fn has_task(&self, issue_id: u128, email: &str) -> (b: bool)
        requires
            self.wf(),
        ensures
            b == self@.has_task(issue_id, email@),
    {
        let email = email.to_string();
        self.task_position(issue_id, &email).is_some()
    }
}

/// The content of a list of strings.
pub open spec fn strings_view(strings: Seq<String>) -> Seq<Seq<char>> {
    Seq::new(strings.len(), |i: int| strings[i]@)
}

/// The addresses of the confirmed subscriptions, in order.
pub open spec fn confirmed_emails(subscriptions: Seq<SubscriptionView>) -> Seq<Seq<char>>
    decreases subscriptions.len(),
{
    if subscriptions.len() == 0 {
        Seq::empty()
    } else {
        let rest = confirmed_emails(subscriptions.drop_last());
        if subscriptions.last().confirmed {
            rest.push(subscriptions.last().email)
        } else {
            rest
        }
    }
}

/// A row that no worker holds and before which every row is held is the
/// first such row.
pub proof fn lemma_first_unlocked(queue: Seq<TaskView>, i: int)
    requires
        is_first_unlocked(queue, i),
    ensures
        has_unlocked(queue),
        first_unlocked(queue) == i,
{
    let k = first_unlocked(queue);
    assert(is_first_unlocked(queue, k));
    if k < i {
        assert(queue[k].locked);
    } else if i < k {
        assert(queue[i].locked);
    }
}

/// A queue with a row that no worker holds has a first such row.
pub proof fn lemma_unlocked_has_first(queue: Seq<TaskView>, i: int)
    requires
        0 <= i < queue.len(),
        !queue[i].locked,
    ensures
        has_unlocked(queue),
    decreases i,
{
    if forall|j: int| 0 <= j < i ==> (#[trigger] queue[j]).locked {
        assert(is_first_unlocked(queue, i));
    } else {
        let j = choose|j: int| 0 <= j < i && !(#[trigger] queue[j]).locked;
        lemma_unlocked_has_first(queue, j);
    }
}

/// Adding a record for a new key and removing it again leaves the store as
/// it was.
pub proof fn lemma_record_added_then_removed(
    s: StoreView,
    user_id: u128,
    key: Seq<char>,
    response: Option<StoredResponseView>,
)
    requires
        s.wf(),
        !s.has_record(user_id, key),
    ensures
        s.with_record(user_id, key, response).has_record(user_id, key),
        s.with_record(user_id, key, response).record(user_id, key) == (RecordView {
            user_id,
            key,
            response,
        }),
        s.with_record(user_id, key, response).record_keys().index_of((user_id, key))
            == s.idempotency.len(),
        s.with_record(user_id, key, response).without_record(user_id, key) == s,
        s.with_record(user_id, key, response).wf(),
{
    let added = s.with_record(user_id, key, response);
    let n = s.idempotency.len() as int;
    assert(added.record_keys() =~= s.record_keys().push((user_id, key)));
    lemma_push_unique(s.record_keys(), (user_id, key));
    assert(added.record_keys()[n] == (user_id, key));
    lemma_index_of_unique(added.record_keys(), n);
    assert(added.idempotency.remove(n) =~= s.idempotency);
}

/// Every address among the confirmed ones is that of a confirmed
/// subscription, and every confirmed subscription's address is among them.
pub proof fn lemma_confirmed_emails_members(subscriptions: Seq<SubscriptionView>)
    ensures
        confirmed_emails(subscriptions).len() <= subscriptions.len(),
        forall|e: Seq<char>| #[trigger]
            confirmed_emails(subscriptions).contains(e) <==> exists|k: int|
                0 <= k < subscriptions.len() && (#[trigger] subscriptions[k]).confirmed
                    && subscriptions[k].email == e,
    decreases subscriptions.len(),
{
    let all = confirmed_emails(subscriptions);
    if subscriptions.len() > 0 {
        let front = subscriptions.drop_last();
        let last = subscriptions.last();
        let rest = confirmed_emails(front);
        lemma_confirmed_emails_members(front);
        assert forall|e: Seq<char>| #[trigger] all.contains(e) implies exists|k: int|
            0 <= k < subscriptions.len() && (#[trigger] subscriptions[k]).confirmed
                && subscriptions[k].email == e by {
            let i = all.index_of(e);
            if i < rest.len() {
                assert(rest[i] == e);
                assert(rest.contains(e));
                let k = choose|k: int|
                    0 <= k < front.len() && (#[trigger] front[k]).confirmed && front[k].email == e;
                assert(subscriptions[k] == front[k]);
            } else {
                assert(subscriptions[subscriptions.len() - 1] == last);
            }
        }
        assert forall|e: Seq<char>|
            (exists|k: int|
                0 <= k < subscriptions.len() && (#[trigger] subscriptions[k]).confirmed
                    && subscriptions[k].email == e) implies #[trigger] all.contains(e) by {
            let k = choose|k: int|
                0 <= k < subscriptions.len() && (#[trigger] subscriptions[k]).confirmed
                    && subscriptions[k].email == e;
            if k < front.len() {
                assert(front[k] == subscriptions[k]);
                assert(rest.contains(e));
                let i = rest.index_of(e);
                assert(all[i] == e);
            } else {
                assert(all[all.len() - 1] == e);
            }
        }
    }
}

/// Where no two subscriptions share an address, no address occurs twice
/// among the confirmed ones.
pub proof fn lemma_confirmed_emails_unique(s: StoreView)
    requires
        s.subscriber_emails().no_duplicates(),
    ensures
        confirmed_emails(s.subscriptions).no_duplicates(),
    decreases s.subscriptions.len(),
{
    let subscriptions = s.subscriptions;
    if subscriptions.len() > 0 {
        let front = StoreView { subscriptions: subscriptions.drop_last(), ..s };
        let last = subscriptions.last();
        let n = subscriptions.len() - 1;
        assert forall|i: int, j: int|
            0 <= i < front.subscriber_emails().len() && 0 <= j < front.subscriber_emails().len() && i
                != j implies front.subscriber_emails()[i] != front.subscriber_emails()[j] by {
            assert(s.subscriber_emails()[i] != s.subscriber_emails()[j]);
        }
        lemma_confirmed_emails_unique(front);
        lemma_confirmed_emails_members(front.subscriptions);
        let rest = confirmed_emails(front.subscriptions);
        if last.confirmed {
            if rest.contains(last.email) {
                let k = choose|k: int|
                    0 <= k < front.subscriptions.len() && (#[trigger] front.subscriptions[k]).confirmed
                        && front.subscriptions[k].email == last.email;
                assert(s.subscriber_emails()[k] == s.subscriber_emails()[n]);
            }
            lemma_push_unique(rest, last.email);
        }
    }
}

} // verus!
