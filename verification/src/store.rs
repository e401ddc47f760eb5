//! The mail store: an exclusively owned table of messages plus a key/value
//! settings table. Queries hand out copies; mutations state exactly how the
//! new contents relate to the old. Substring search is case-sensitive.
//!
//! Durability (a database file, schema creation, engine errors) is an edge
//! concern of the embedding program; the store here is the verified model
//! that such an engine must refine, and `StorageError` is the shape in which
//! engine failures surface.

use vstd::prelude::*;
use crate::text::{blank, contains_sub, find_sub, is_blank_str, str_eq, str_to_chars};

verus! {

/// The closed set of classification labels a message can carry.
#[derive(Clone, Copy, Debug, PartialEq, Eq, Structural)]
pub enum Category {
    Inbox,
    Work,
    Finance,
    Social,
    Promotions,
}

impl Category {
    /// The label text used in prompts and shown to the user.
    pub open spec fn label_spec(self) -> Seq<char> {
        match self {
            Category::Inbox => "Inbox"@,
            Category::Work => "Work"@,
            Category::Finance => "Finance"@,
            Category::Social => "Social"@,
            Category::Promotions => "Promotions"@,
        }
    }

    /// The label text of this category.
    pub fn label(&self) -> (r: &'static str)
        ensures
            r@ == self.label_spec(),
    {
        match self {
            Category::Inbox => "Inbox",
            Category::Work => "Work",
            Category::Finance => "Finance",
            Category::Social => "Social",
            Category::Promotions => "Promotions",
        }
    }
}

/// One stored mail message.
pub struct DbEmail {
    pub id: i32,
    pub subject: String,
    pub sender: String,
    pub date: String,
    pub body: String,
    pub has_attachment: bool,
    pub category: Category,
}

/// The mathematical image of one message.
#[verifier::ext_equal]
pub struct EmailModel {
    pub id: int,
    pub subject: Seq<char>,
    pub sender: Seq<char>,
    pub date: Seq<char>,
    pub body: Seq<char>,
    pub has_attachment: bool,
    pub category: Category,
}

impl View for DbEmail {
    type V = EmailModel;

    open spec fn view(&self) -> EmailModel {
        EmailModel {
            id: self.id as int,
            subject: self.subject@,
            sender: self.sender@,
            date: self.date@,
            body: self.body@,
            has_attachment: self.has_attachment,
            category: self.category,
        }
    }
}

impl Clone for DbEmail {
    fn clone(&self) -> (r: Self)
        ensures
            r == *self,
    {
        DbEmail {
            id: self.id,
            subject: self.subject.clone(),
            sender: self.sender.clone(),
            date: self.date.clone(),
            body: self.body.clone(),
            has_attachment: self.has_attachment,
            category: self.category,
        }
    }
}

/// The images of a row of messages.
pub open spec fn views(s: Seq<DbEmail>) -> Seq<EmailModel> {
    s.map_values(|e: DbEmail| e@)
}

/// No two messages share an id.
pub open spec fn unique_ids(s: Seq<EmailModel>) -> bool {
    forall|i: int, j: int| 0 <= i < j < s.len() ==> (#[trigger] s[i].id) != (#[trigger] s[j].id)
}

/// A storage failure surfaced to the caller.
#[derive(Debug)]
pub enum StorageError {
    /// A batch held two messages with one id.
    DuplicateId,
    /// A failure of the storage engine the store is persisted with.
    Engine(String),
}

impl StorageError {
    /// The user-facing description of this error.
    pub open spec fn message_spec(&self) -> Seq<char> {
        match self {
            StorageError::DuplicateId => "duplicate message id in batch"@,
            StorageError::Engine(e) => e@,
        }
    }

    /// A human-readable description of this error.
    pub fn message(&self) -> (r: String)
        ensures
            r@ == self.message_spec(),
    {
        match self {
            StorageError::DuplicateId => "duplicate message id in batch".to_owned(),
            StorageError::Engine(e) => e.clone(),
        }
    }
}

struct Setting {
    key: String,
    value: String,
}

/// The settings table as a map; an earlier entry shadows a later one with the
/// same key.
spec fn settings_map_of(s: Seq<Setting>) -> Map<Seq<char>, Seq<char>>
    decreases s.len(),
{
    if s.len() == 0 {
        Map::empty()
    } else {
        settings_map_of(s.skip(1)).insert(s[0].key@, s[0].value@)
    }
}

proof fn lemma_settings_found(s: Seq<Setting>, i: int)
    requires
        0 <= i < s.len(),
        forall|j: int| 0 <= j < i ==> (#[trigger] s[j].key@) != s[i].key@,
    ensures
        settings_map_of(s).contains_key(s[i].key@),
        settings_map_of(s)[s[i].key@] == s[i].value@,
    decreases i,
{
    if i > 0 {
        lemma_settings_found(s.skip(1), i - 1);
        assert(forall|j: int|
            0 <= j < i - 1 ==> (#[trigger] s.skip(1)[j].key@) == s[j + 1].key@);
    }
}

proof fn lemma_settings_absent(s: Seq<Setting>, k: Seq<char>)
    requires
        forall|j: int| 0 <= j < s.len() ==> (#[trigger] s[j].key@) != k,
    ensures
        !settings_map_of(s).contains_key(k),
    decreases s.len(),
{
    if s.len() > 0 {
        lemma_settings_absent(s.skip(1), k);
    }
}

proof fn lemma_settings_update_first(s: Seq<Setting>, i: int, x: Setting)
    requires
        0 <= i < s.len(),
        x.key@ == s[i].key@,
        forall|j: int| 0 <= j < i ==> (#[trigger] s[j].key@) != s[i].key@,
    ensures
        settings_map_of(s.update(i, x)) == settings_map_of(s).insert(x.key@, x.value@),
    decreases i,
{
    if i == 0 {
        assert(s.update(0, x).skip(1) =~= s.skip(1));
        assert(settings_map_of(s.update(0, x)) =~= settings_map_of(s).insert(
            x.key@,
            x.value@,
        ));
    } else {
        assert(s.update(i, x).skip(1) =~= s.skip(1).update(i - 1, x));
        assert(forall|j: int|
            0 <= j < i - 1 ==> (#[trigger] s.skip(1)[j].key@) == s[j + 1].key@);
        lemma_settings_update_first(s.skip(1), i - 1, x);
        assert(settings_map_of(s.update(i, x)) =~= settings_map_of(s).insert(
            x.key@,
            x.value@,
        ));
    }
}

proof fn lemma_settings_push_new(s: Seq<Setting>, x: Setting)
    requires
        forall|j: int| 0 <= j < s.len() ==> (#[trigger] s[j].key@) != x.key@,
    ensures
        settings_map_of(s.push(x)) == settings_map_of(s).insert(x.key@, x.value@),
    decreases s.len(),
{
    if s.len() == 0 {
        assert(s.push(x).skip(1) =~= s);
        assert(settings_map_of(s.push(x)) =~= settings_map_of(s).insert(x.key@, x.value@));
    } else {
        assert(s[0].key@ != x.key@);
        assert(s.push(x).skip(1) =~= s.skip(1).push(x));
        assert(forall|j: int|
            0 <= j < s.skip(1).len() ==> (#[trigger] s.skip(1)[j].key@) == s[j + 1].key@);
        lemma_settings_push_new(s.skip(1), x);
        assert(settings_map_of(s.push(x)) == settings_map_of(s.skip(1).push(x)).insert(
            s[0].key@,
            s[0].value@,
        ));
        assert(settings_map_of(s) == settings_map_of(s.skip(1)).insert(s[0].key@, s[0].value@));
        assert(settings_map_of(s.push(x)) =~= settings_map_of(s).insert(x.key@, x.value@));
    }
}

/// The mathematical image of the whole store.
#[verifier::ext_equal]
pub struct StoreModel {
    pub emails: Seq<EmailModel>,
    pub settings: Map<Seq<char>, Seq<char>>,
}

/// The in-memory mail store.
pub struct MailStore {
    emails: Vec<DbEmail>,
    settings: Vec<Setting>,
}

impl View for MailStore {
    type V = StoreModel;

    closed spec fn view(&self) -> StoreModel {
        StoreModel { emails: views(self.emails@), settings: settings_map_of(self.settings@) }
    }
}

/// `m` with its category replaced.
pub open spec fn with_category(m: EmailModel, c: Category) -> EmailModel {
    EmailModel { category: c, ..m }
}

/// Every message whose id is `id` relabeled to `c`; all else unchanged.
pub open spec fn update_cat_spec(s: Seq<EmailModel>, id: int, c: Category) -> Seq<EmailModel> {
    Seq::new(
        s.len(),
        |i: int|
            if s[i].id == id {
                with_category(s[i], c)
            } else {
                s[i]
            },
    )
}

/// Whether a message matches a search query: a blank query matches everything,
/// any other query must occur in the subject, the sender or the body.
pub open spec fn email_matches(m: EmailModel, q: Seq<char>) -> bool {
    blank(q) || contains_sub(m.subject, q) || contains_sub(m.sender, q) || contains_sub(m.body, q)
}

/// The search predicate for query `q`.
pub open spec fn search_pred(q: Seq<char>) -> spec_fn(EmailModel) -> bool {
    |m: EmailModel| email_matches(m, q)
}

/// The category-filter predicate for `c`.
pub open spec fn cat_pred(c: Category) -> spec_fn(EmailModel) -> bool {
    |m: EmailModel| m.category == c
}

fn ids_unique(emails: &Vec<DbEmail>) -> (r: bool)
    ensures
        r == unique_ids(views(emails@)),
{
    let n = emails.len();
    let mut i: usize = 0;
    while i < n
        invariant
            n == emails@.len(),
            i <= n,
            forall|a: int, b: int|
                0 <= a < b < n && a < i ==> (#[trigger] emails@[a].id) != (#[trigger] emails@[b].id),
        decreases n - i,
    {
        let mut j: usize = i + 1;
        while j < n
            invariant
                n == emails@.len(),
                i < n,
                i + 1 <= j <= n,
                forall|b: int| i < b < j ==> (#[trigger] emails@[b].id) != emails@[i as int].id,
            decreases n - j,
        {
            if emails[i].id == emails[j].id {
                assert(views(emails@)[i as int].id == views(emails@)[j as int].id);
                return false;
            }
            j += 1;
        }
        i += 1;
    }
    true
}

impl MailStore {
    /// The store's invariant: stored messages carry pairwise distinct ids.
    pub open spec fn wf(&self) -> bool {
        unique_ids(self@.emails)
    }

    /// A fresh, empty store.
    pub fn new() -> (s: MailStore)
        ensures
            s.wf(),
            s@.emails == Seq::<EmailModel>::empty(),
            s@.settings == Map::<Seq<char>, Seq<char>>::empty(),
    {
        MailStore { emails: Vec::new(), settings: Vec::new() }
    }

    /// Total number of stored messages.
    pub fn count(&self) -> (r: usize)
        ensures
            r == self@.emails.len(),
    {
        self.emails.len()
    }

    /// The message at position `i` of the store's scan order.
    pub fn nth(&self, i: usize) -> (r: &DbEmail)
        requires
            i < self@.emails.len(),
        ensures
            r@ == self@.emails[i as int],
    {
        &self.emails[i]
    }

    /// Atomically replaces the whole message table: on success the given
    /// batch is the new contents, on failure (a duplicate id in the batch,
    /// the engine's constraint) the old contents stand untouched — never a
    /// mix of the two.
    pub fn replace_all(&mut self, emails: Vec<DbEmail>) -> (r: Result<(), StorageError>)
        ensures
            final(self)@.settings == old(self)@.settings,
            r is Ok <==> unique_ids(views(emails@)),
            r is Ok ==> final(self)@.emails == views(emails@),
            r is Err ==> final(self)@.emails == old(self)@.emails && (r matches Err(
                StorageError::DuplicateId,
            )),
            old(self).wf() || r is Ok ==> final(self).wf(),
    {
        if ids_unique(&emails) {
            self.emails = emails;
            Ok(())
        } else {
            Err(StorageError::DuplicateId)
        }
    }

    /// Every stored message, in scan order.
    pub fn all(&self) -> (r: Vec<DbEmail>)
        ensures
            views(r@) == self@.emails,
    {
        let n = self.emails.len();
        let mut out: Vec<DbEmail> = Vec::new();
        let mut i: usize = 0;
        while i < n
            invariant
                n == self.emails@.len(),
                i <= n,
                views(out@) == views(self.emails@).subrange(0, i as int),
            decreases n - i,
        {
            let e = self.emails[i].clone();
            proof {
                assert(views(out@).len() == out@.len());
            }
            out.push(e);
            proof {
                assert(views(out@) =~= views(self.emails@).subrange(0, i + 1));
            }
            i += 1;
        }
        proof {
            assert(views(self.emails@).subrange(0, n as int) =~= views(self.emails@));
        }
        out
    }

    /// The messages matching `query`: all of them when the query is blank,
    /// else those with `query` as a case-sensitive substring of the subject,
    /// the sender or the body, in scan order.
    pub fn search(&self, query: &str) -> (r: Vec<DbEmail>)
        ensures
            views(r@) == self@.emails.filter(search_pred(query@)),
    {
        let qc = str_to_chars(query);
        let q_blank = is_blank_str(query);
        let ghost pred = search_pred(query@);
        let n = self.emails.len();
        let mut out: Vec<DbEmail> = Vec::new();
        let mut i: usize = 0;
        proof {
            assert(views(self.emails@).subrange(0, 0) =~= Seq::<EmailModel>::empty());
            assert(Seq::<EmailModel>::empty().filter(pred) =~= Seq::<EmailModel>::empty());
        }
        while i < n
            invariant
                n == self.emails@.len(),
                i <= n,
                qc@ == query@,
                q_blank == blank(query@),
                pred == search_pred(query@),
                views(out@) == views(self.emails@).subrange(0, i as int).filter(pred),
            decreases n - i,
        {
            let e = &self.emails[i];
            let matched = if q_blank {
                true
            } else {
                let subject = str_to_chars(e.subject.as_str());
                let sender = str_to_chars(e.sender.as_str());
                let body = str_to_chars(e.body.as_str());
                find_sub(&subject, &qc) || find_sub(&sender, &qc) || find_sub(&body, &qc)
            };
            proof {
                let ms = views(self.emails@);
                assert(matched == pred(ms[i as int]));
                ms.subrange(0, i as int).lemma_filter_push(ms[i as int], pred);
                assert(ms.subrange(0, i + 1) =~= ms.subrange(0, i as int).push(ms[i as int]));
            }
            if matched {
                out.push(self.emails[i].clone());
                proof {
                    let ms = views(self.emails@);
                    assert(views(out@) =~= ms.subrange(0, i as int).filter(pred).push(
                        ms[i as int],
                    ));
                }
            }
            i += 1;
        }
        proof {
            assert(views(self.emails@).subrange(0, n as int) =~= views(self.emails@));
        }
        out
    }

    /// The messages whose category equals `category`, in scan order.
    pub fn by_category(&self, category: Category) -> (r: Vec<DbEmail>)
        ensures
            views(r@) == self@.emails.filter(cat_pred(category)),
    {
        let ghost pred = cat_pred(category);
        let n = self.emails.len();
        let mut out: Vec<DbEmail> = Vec::new();
        let mut i: usize = 0;
        proof {
            assert(views(self.emails@).subrange(0, 0) =~= Seq::<EmailModel>::empty());
            assert(Seq::<EmailModel>::empty().filter(pred) =~= Seq::<EmailModel>::empty());
        }
        while i < n
            invariant
                n == self.emails@.len(),
                i <= n,
                pred == cat_pred(category),
                views(out@) == views(self.emails@).subrange(0, i as int).filter(pred),
            decreases n - i,
        {
            let matched = self.emails[i].category == category;
            proof {
                let ms = views(self.emails@);
                assert(matched == pred(ms[i as int]));
                ms.subrange(0, i as int).lemma_filter_push(ms[i as int], pred);
                assert(ms.subrange(0, i + 1) =~= ms.subrange(0, i as int).push(ms[i as int]));
            }
            if matched {
                out.push(self.emails[i].clone());
                proof {
                    let ms = views(self.emails@);
                    assert(views(out@) =~= ms.subrange(0, i as int).filter(pred).push(
                        ms[i as int],
                    ));
                }
            }
            i += 1;
        }
        proof {
            assert(views(self.emails@).subrange(0, n as int) =~= views(self.emails@));
        }
        out
    }

    /// Sets the category of the message with id `id`; a no-op, still a
    /// success, when no such message exists.
    pub fn update_category(&mut self, id: i32, category: Category) -> (r: Result<
        (),
        StorageError,
    >)
        ensures
            r is Ok,
            final(self)@.settings == old(self)@.settings,
            final(self)@.emails == update_cat_spec(old(self)@.emails, id as int, category),
            (forall|i: int|
                0 <= i < old(self)@.emails.len() ==> (#[trigger] old(self)@.emails[i].id)
                    != id) ==> final(self)@.emails == old(self)@.emails,
            old(self).wf() ==> final(self).wf(),
    {
        let ghost orig = views(old(self).emails@);
        let n = self.emails.len();
        let mut i: usize = 0;
        while i < n
            invariant
                n == self.emails@.len(),
                i <= n,
                orig == views(old(self).emails@),
                self.settings@ == old(self).settings@,
                n == orig.len(),
                views(self.emails@) == Seq::new(
                    orig.len(),
                    |k: int|
                        if k < i && orig[k].id == id as int {
                            with_category(orig[k], category)
                        } else {
                            orig[k]
                        },
                ),
            decreases n - i,
        {
            let ghost pre = self.emails@;
            let ghost step = Seq::new(
                orig.len(),
                |k: int|
                    if k < i + 1 && orig[k].id == id as int {
                        with_category(orig[k], category)
                    } else {
                        orig[k]
                    },
            );
            if self.emails[i].id == id {
                let mut e = self.emails[i].clone();
                e.category = category;
                proof {
                    assert(pre[i as int]@ == views(pre)[i as int]);
                    assert(e@ =~= with_category(orig[i as int], category));
                }
                self.emails[i] = e;
                proof {
                    assert(self.emails@ == pre.update(i as int, e));
                    assert(views(self.emails@).len() == orig.len());
                    assert forall|k: int| 0 <= k < orig.len() implies views(self.emails@)[k]
                        == step[k] by {
                        assert(views(self.emails@)[k] == self.emails@[k]@);
                        assert(views(pre)[k] == pre[k]@);
                        if k != i {
                            assert(self.emails@[k] == pre[k]);
                        }
                    }
                    assert(views(self.emails@) =~= step);
                }
            } else {
                proof {
                    assert(pre[i as int]@ == views(pre)[i as int]);
                    assert(orig[i as int].id != id as int);
                    assert(views(self.emails@) =~= step);
                }
            }
            i += 1;
        }
        proof {
            assert(views(self.emails@) =~= update_cat_spec(orig, id as int, category));
            if forall|k: int| 0 <= k < orig.len() ==> (#[trigger] orig[k].id) != id as int {
                assert(views(self.emails@) =~= orig);
            }
            if old(self).wf() {
                assert forall|a: int, b: int| 0 <= a < b < views(self.emails@).len() implies (
                #[trigger] views(self.emails@)[a].id) != (#[trigger] views(self.emails@)[b].id) by {
                    assert(views(self.emails@)[a].id == orig[a].id);
                    assert(views(self.emails@)[b].id == orig[b].id);
                }
            }
        }
        Ok(())
    }

    /// The value stored under `key`, or `default` when the key is absent.
    pub fn get_setting(&self, key: &str, default: &str) -> (r: String)
        ensures
            self@.settings.contains_key(key@) ==> r@ == self@.settings[key@],
            !self@.settings.contains_key(key@) ==> r@ == default@,
    {
        let n = self.settings.len();
        let mut i: usize = 0;
        while i < n
            invariant
                n == self.settings@.len(),
                i <= n,
                forall|j: int| 0 <= j < i ==> (#[trigger] self.settings@[j].key@) != key@,
            decreases n - i,
        {
            if str_eq(self.settings[i].key.as_str(), key) {
                proof {
                    lemma_settings_found(self.settings@, i as int);
                }
                return self.settings[i].value.clone();
            }
            i += 1;
        }
        proof {
            lemma_settings_absent(self.settings@, key@);
        }
        default.to_owned()
    }

    /// Stores `value` under `key`, inserting or overwriting (upsert).
    pub fn set_setting(&mut self, key: &str, value: &str)
        ensures
            final(self)@.emails == old(self)@.emails,
            final(self)@.settings == old(self)@.settings.insert(key@, value@),
            old(self).wf() ==> final(self).wf(),
    {
        let n = self.settings.len();
        let mut i: usize = 0;
        while i < n
            invariant
                n == self.settings@.len(),
                i <= n,
                *self == *old(self),
                forall|j: int| 0 <= j < i ==> (#[trigger] self.settings@[j].key@) != key@,
            decreases n - i,
        {
            if str_eq(self.settings[i].key.as_str(), key) {
                let x = Setting { key: key.to_owned(), value: value.to_owned() };
                proof {
                    lemma_settings_update_first(self.settings@, i as int, x);
                }
                self.settings[i] = x;
                return ;
            }
            i += 1;
        }
        let x = Setting { key: key.to_owned(), value: value.to_owned() };
        proof {
            lemma_settings_push_new(self.settings@, x);
        }
        self.settings.push(x);
    }
}

/// A blank query matches every message: searching with it yields exactly
/// the whole store, as `all` does.
pub proof fn lemma_blank_search_is_all(emails: Seq<EmailModel>, q: Seq<char>)
    requires
        blank(q),
    ensures
        emails.filter(search_pred(q)) == emails,
    decreases emails.len(),
{
    reveal(Seq::filter);
    if emails.len() > 0 {
        lemma_blank_search_is_all(emails.drop_last(), q);
        assert(search_pred(q)(emails.last()));
        assert(emails.filter(search_pred(q)) =~= emails);
    } else {
        assert(emails.filter(search_pred(q)) =~= emails);
    }
}

/// The rows holding `id`.
pub open spec fn id_pred(id: int) -> spec_fn(EmailModel) -> bool {
    |m: EmailModel| m.id == id
}

/// How many rows of `s` hold `id`.
pub open spec fn count_id(s: Seq<EmailModel>, id: int) -> int {
    s.filter(id_pred(id)).len() as int
}

/// Whether some row holds `id`.
pub open spec fn has_id(s: Seq<EmailModel>, id: int) -> bool {
    exists|k: int| 0 <= k < s.len() && (#[trigger] s[k]).id == id
}

/// Whether some row holds `id` with category `c`.
pub open spec fn has_id_cat(s: Seq<EmailModel>, id: int, c: Category) -> bool {
    exists|k: int| 0 <= k < s.len() && (#[trigger] s[k]).id == id && s[k].category == c
}

/// With ids unique, a message turns up in a category's listing exactly once
/// when it carries that category, and not at all otherwise.
pub proof fn lemma_category_partition(s: Seq<EmailModel>, id: int, c: Category)
    requires
        unique_ids(s),
    ensures
        count_id(s.filter(cat_pred(c)), id) == (if has_id_cat(s, id, c) {
            1int
        } else {
            0int
        }),
    decreases s.len(),
{
    reveal(Seq::filter);
    if s.len() == 0 {
        assert(s.filter(cat_pred(c)) =~= s);
        assert(s.filter(cat_pred(c)).filter(id_pred(id)) =~= s);
        assert(!has_id_cat(s, id, c));
    } else {
        let pre = s.drop_last();
        let last = s.last();
        assert(forall|k: int| 0 <= k < pre.len() ==> pre[k] == s[k]);
        assert(unique_ids(pre)) by {
            assert(forall|i: int, j: int|
                0 <= i < j < pre.len() ==> (#[trigger] pre[i].id) != (#[trigger] pre[j].id));
        }
        lemma_category_partition(pre, id, c);
        if last.category == c {
            assert(s.filter(cat_pred(c)) == pre.filter(cat_pred(c)).push(last));
            pre.filter(cat_pred(c)).lemma_filter_push(last, id_pred(id));
            if last.id == id {
                assert(has_id_cat(s, id, c));
                assert(!has_id_cat(pre, id, c)) by {
                    if has_id_cat(pre, id, c) {
                        let k = choose|k: int|
                            0 <= k < pre.len() && (#[trigger] pre[k]).id == id
                                && pre[k].category == c;
                        assert(s[k].id == s[s.len() - 1].id);
                    }
                }
                assert(count_id(s.filter(cat_pred(c)), id) == 1);
            } else {
                assert(has_id_cat(s, id, c) == has_id_cat(pre, id, c)) by {
                    if has_id_cat(s, id, c) {
                        let k = choose|k: int|
                            0 <= k < s.len() && (#[trigger] s[k]).id == id && s[k].category
                                == c;
                        assert(k < pre.len());
                        assert(pre[k].id == id && pre[k].category == c);
                    }
                    if has_id_cat(pre, id, c) {
                        let k = choose|k: int|
                            0 <= k < pre.len() && (#[trigger] pre[k]).id == id
                                && pre[k].category == c;
                        assert(s[k].id == id && s[k].category == c);
                    }
                }
            }
        } else {
            assert(s.filter(cat_pred(c)) == pre.filter(cat_pred(c)));
            assert(has_id_cat(s, id, c) == has_id_cat(pre, id, c)) by {
                if has_id_cat(s, id, c) {
                    let k = choose|k: int|
                        0 <= k < s.len() && (#[trigger] s[k]).id == id && s[k].category == c;
                    assert(k < pre.len());
                    assert(pre[k].id == id && pre[k].category == c);
                }
                if has_id_cat(pre, id, c) {
                    let k = choose|k: int|
                        0 <= k < pre.len() && (#[trigger] pre[k]).id == id && pre[k].category
                            == c;
                    assert(s[k].id == id && s[k].category == c);
                }
            }
        }
    }
}

/// Of two relabelings of one message, the later wins outright: relabeling
/// to `a` and then to `b` leaves exactly the state of relabeling to `b`
/// alone.
pub proof fn lemma_last_write_wins(s: Seq<EmailModel>, id: int, a: Category, b: Category)
    ensures
        update_cat_spec(update_cat_spec(s, id, a), id, b) == update_cat_spec(s, id, b),
{
    assert(update_cat_spec(update_cat_spec(s, id, a), id, b) =~= update_cat_spec(s, id, b));
}

/// The benign write race: two relabelings of one stored message settle on
/// the later one, and the message then turns up exactly once across the two
/// categories' listings — under the final label, never under the other.
pub proof fn lemma_update_race(s: Seq<EmailModel>, id: int, a: Category, b: Category)
    requires
        unique_ids(s),
        has_id(s, id),
        a != b,
    ensures
        update_cat_spec(update_cat_spec(s, id, a), id, b) == update_cat_spec(s, id, b),
        count_id(update_cat_spec(s, id, b).filter(cat_pred(b)), id) == 1,
        count_id(update_cat_spec(s, id, b).filter(cat_pred(a)), id) == 0,
{
    lemma_last_write_wins(s, id, a, b);
    let s2 = update_cat_spec(s, id, b);
    assert(s2.len() == s.len());
    assert(forall|k: int| 0 <= k < s.len() ==> (#[trigger] s2[k]).id == s[k].id);
    assert(unique_ids(s2));
    let w = choose|k: int| 0 <= k < s.len() && (#[trigger] s[k]).id == id;
    assert(s2[w].id == id && s2[w].category == b);
    assert(has_id_cat(s2, id, b));
    lemma_category_partition(s2, id, b);
    assert(!has_id_cat(s2, id, a)) by {
        if has_id_cat(s2, id, a) {
            let k = choose|k: int|
                0 <= k < s2.len() && (#[trigger] s2[k]).id == id && s2[k].category == a;
            assert(s2[k].category == b);
        }
    }
    lemma_category_partition(s2, id, a);
}

} // verus!
