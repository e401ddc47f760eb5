//! The categorization worker: selects a bounded batch of messages awaiting
//! categorization, builds one constrained prompt per message, resolves each
//! model reply to a label of the closed set, and persists the labels. A
//! failed call for one message skips it and the run continues.
//!
//! The gateway round trips themselves happen outside; a run is driven over
//! the per-message outcomes (`Some` reply text, or `None` for a failed
//! call), so the whole decision logic is verified for every outcome.

use vstd::prelude::*;
use crate::store::{
    Category, DbEmail, EmailModel, MailStore, StorageError, cat_pred, unique_ids, views,
    with_category,
};
use crate::text::{contains_sub, find_sub, lower_of, lowercase, str_to_chars, take_chars,
    take_upto, chars_to_string};
use crate::sanitize::{sanitize_chars, sanitize_spec};

verus! {

/// Upper bound on messages examined per categorization run.
pub const BATCH_SIZE: usize = 20;

/// Character cap on the body preview embedded in the categorization prompt.
pub const BODY_PREVIEW_CHARS: usize = 200;

/// The category whose lowercase label occurs in `lower`: the first of the
/// five in their fixed order; `Inbox` when none occurs.
pub open spec fn parse_label(lower: Seq<char>) -> Category {
    if contains_sub(lower, "inbox"@) {
        Category::Inbox
    } else if contains_sub(lower, "work"@) {
        Category::Work
    } else if contains_sub(lower, "finance"@) {
        Category::Finance
    } else if contains_sub(lower, "social"@) {
        Category::Social
    } else if contains_sub(lower, "promotions"@) {
        Category::Promotions
    } else {
        Category::Inbox
    }
}

/// Resolves a raw model reply to a label: case-insensitive substring match
/// against the five labels, first match wins, `Inbox` when nothing matches.
/// Total — whatever the reply, the result is a member of the closed set.
pub fn parse_category(reply: &str) -> (r: Category)
    ensures
        r == parse_label(lower_of(reply@)),
{
    let low = lowercase(reply);
    let hay = str_to_chars(low.as_str());
    let inbox = str_to_chars("inbox");
    if find_sub(&hay, &inbox) {
        return Category::Inbox;
    }
    let work = str_to_chars("work");
    if find_sub(&hay, &work) {
        return Category::Work;
    }
    let finance = str_to_chars("finance");
    if find_sub(&hay, &finance) {
        return Category::Finance;
    }
    let social = str_to_chars("social");
    if find_sub(&hay, &social) {
        return Category::Social;
    }
    let promotions = str_to_chars("promotions");
    if find_sub(&hay, &promotions) {
        return Category::Promotions;
    }
    Category::Inbox
}

/// The categorization prompt for one message: the constrained instruction,
/// the sanitized subject, and the sanitized first `BODY_PREVIEW_CHARS`
/// characters of the body.
pub open spec fn categorize_prompt_spec(subject: Seq<char>, body: Seq<char>) -> Seq<char> {
    "Categorize the following email into exactly one of these labels: [Inbox, Work, Finance, Social, Promotions]. Respond with only the label name and nothing else. Output 'Inbox' if unsure.\n\nSubject: "@
        + sanitize_spec(subject) + "\n\nBody preview: "@ + sanitize_spec(
        take_upto(body, BODY_PREVIEW_CHARS as int),
    )
}

/// Builds the categorization prompt; a body of any length is safe, only its
/// first `BODY_PREVIEW_CHARS` characters are taken.
pub fn build_categorize_prompt(subject: &str, body: &str) -> (r: String)
    ensures
        r@ == categorize_prompt_spec(subject@, body@),
{
    let mut out: Vec<char> = str_to_chars(
        "Categorize the following email into exactly one of these labels: [Inbox, Work, Finance, Social, Promotions]. Respond with only the label name and nothing else. Output 'Inbox' if unsure.\n\nSubject: ",
    );
    let sv = str_to_chars(subject);
    let mut ss = sanitize_chars(&sv);
    out.append(&mut ss);
    let mut mid = str_to_chars("\n\nBody preview: ");
    out.append(&mut mid);
    let bv = str_to_chars(body);
    let tb = take_chars(&bv, BODY_PREVIEW_CHARS);
    let mut sb = sanitize_chars(&tb);
    out.append(&mut sb);
    proof {
        assert(out@ =~= categorize_prompt_spec(subject@, body@));
    }
    chars_to_string(&out)
}

/// How many rows one run examines: the first `BATCH_SIZE` in scan order, or
/// all of them when the store holds fewer.
pub open spec fn batch_len(emails: Seq<EmailModel>) -> int {
    if emails.len() <= BATCH_SIZE {
        emails.len() as int
    } else {
        BATCH_SIZE as int
    }
}

/// How many of the first `i` rows awaited categorization (were `Inbox`) —
/// the position in the reply script of row `i`'s reply.
pub open spec fn inbox_before(emails: Seq<EmailModel>, i: int) -> int
    decreases i,
{
    if i <= 0 {
        0
    } else {
        inbox_before(emails, i - 1) + (if emails[i - 1].category == Category::Inbox {
            1int
        } else {
            0int
        })
    }
}

proof fn lemma_inbox_before_mono(emails: Seq<EmailModel>, a: int, b: int)
    requires
        0 <= a <= b,
    ensures
        inbox_before(emails, a) <= inbox_before(emails, b),
    decreases b - a,
{
    if a < b {
        lemma_inbox_before_mono(emails, a, b - 1);
    }
}

/// The images of a reply script: each entry the delivered reply's text, or
/// `None` for a failed call.
pub open spec fn reply_views(rs: Seq<Option<String>>) -> Seq<Option<Seq<char>>> {
    rs.map_values(
        |o: Option<String>|
            match o {
                Some(s) => Some(s@),
                None => None,
            },
    )
}

/// Whether one run relabels row `i`: it lies in the batch, still awaited
/// categorization, and its gateway call delivered a reply.
pub open spec fn worker_hits(
    emails: Seq<EmailModel>,
    replies: Seq<Option<Seq<char>>>,
    i: int,
) -> bool {
    i < batch_len(emails) && emails[i].category == Category::Inbox && inbox_before(emails, i)
        < replies.len() && replies[inbox_before(emails, i)] is Some
}

/// The label row `i` is relabeled to.
pub open spec fn worker_label(
    emails: Seq<EmailModel>,
    replies: Seq<Option<Seq<char>>>,
    i: int,
) -> Category {
    parse_label(lower_of(replies[inbox_before(emails, i)].unwrap()))
}

/// The run's effect limited to rows before `upto` (the loop's partial view).
pub open spec fn worker_upto(
    emails: Seq<EmailModel>,
    replies: Seq<Option<Seq<char>>>,
    upto: int,
) -> Seq<EmailModel> {
    Seq::new(
        emails.len(),
        |i: int|
            if i < upto && worker_hits(emails, replies, i) {
                with_category(emails[i], worker_label(emails, replies, i))
            } else {
                emails[i]
            },
    )
}

/// One run's whole effect on the stored messages: each batch row that still
/// awaited categorization consumes the next script entry; a delivered reply
/// relabels the row to the parsed label, a failed call leaves the row as it
/// was and the run continues with the rest.
pub open spec fn worker_spec(
    emails: Seq<EmailModel>,
    replies: Seq<Option<Seq<char>>>,
) -> Seq<EmailModel> {
    worker_upto(emails, replies, emails.len() as int)
}

/// The batch one run would examine and call the gateway for: of the first
/// `BATCH_SIZE` rows, those still labeled `Inbox`, in scan order.
pub fn select_batch(store: &MailStore) -> (r: Vec<DbEmail>)
    ensures
        views(r@) == store@.emails.subrange(0, batch_len(store@.emails)).filter(
            cat_pred(Category::Inbox),
        ),
{
    let ghost pred = cat_pred(Category::Inbox);
    let total = store.count();
    let cap = if total <= BATCH_SIZE {
        total
    } else {
        BATCH_SIZE
    };
    let ghost scope = store@.emails.subrange(0, batch_len(store@.emails));
    let mut out: Vec<DbEmail> = Vec::new();
    let mut i: usize = 0;
    proof {
        assert(scope.subrange(0, 0) =~= Seq::<EmailModel>::empty());
        assert(Seq::<EmailModel>::empty().filter(pred) =~= Seq::<EmailModel>::empty());
        assert(views(out@) =~= Seq::<EmailModel>::empty());
    }
    while i < cap
        invariant
            cap == batch_len(store@.emails),
            cap <= store@.emails.len(),
            i <= cap,
            pred == cat_pred(Category::Inbox),
            scope == store@.emails.subrange(0, cap as int),
            views(out@) == scope.subrange(0, i as int).filter(pred),
        decreases cap - i,
    {
        let e = store.nth(i);
        let matched = e.category == Category::Inbox;
        proof {
            assert(scope[i as int] == store@.emails[i as int]);
            assert(matched == pred(scope[i as int]));
            scope.subrange(0, i as int).lemma_filter_push(scope[i as int], pred);
            assert(scope.subrange(0, i + 1) =~= scope.subrange(0, i as int).push(
                scope[i as int],
            ));
        }
        if matched {
            let copy = store.nth(i).clone();
            out.push(copy);
            proof {
                assert(views(out@).len() == out@.len());
                assert(views(out@) =~= scope.subrange(0, i as int).filter(pred).push(
                    scope[i as int],
                ));
            }
        }
        i += 1;
    }
    proof {
        assert(scope.subrange(0, cap as int) =~= scope);
    }
    out
}

/// Runs one categorization pass over the store, driven by a script holding
/// one outcome per gateway call made (in batch order): relabels exactly the
/// rows `worker_spec` says, leaves the settings alone, and never fails — a
/// failed call for one message does not abort the rest of the batch.
pub fn run_categorization(store: &mut MailStore, replies: &Vec<Option<String>>) -> (r: Result<
    (),
    StorageError,
>)
    requires
        old(store).wf(),
        replies@.len() >= inbox_before(old(store)@.emails, batch_len(old(store)@.emails)),
    ensures
        r is Ok,
        final(store).wf(),
        final(store)@.settings == old(store)@.settings,
        final(store)@.emails == worker_spec(old(store)@.emails, reply_views(replies@)),
{
    let ghost orig = old(store)@.emails;
    let ghost rv = reply_views(replies@);
    let total = store.count();
    let cap = if total <= BATCH_SIZE {
        total
    } else {
        BATCH_SIZE
    };
    let mut i: usize = 0;
    let mut j: usize = 0;
    proof {
        assert(worker_upto(orig, rv, 0) =~= orig);
    }
    while i < cap
        invariant
            store.wf(),
            unique_ids(orig),
            orig == old(store)@.emails,
            rv == reply_views(replies@),
            rv.len() == replies@.len(),
            rv.len() >= inbox_before(orig, batch_len(orig)),
            cap == batch_len(orig),
            cap <= orig.len(),
            i <= cap,
            j == inbox_before(orig, i as int),
            j <= i,
            store@.settings == old(store)@.settings,
            store@.emails == worker_upto(orig, rv, i as int),
            store@.emails.len() == orig.len(),
        decreases cap - i,
    {
        let ghost cur = store@.emails;
        let e_id;
        let is_inbox;
        {
            let e = store.nth(i);
            e_id = e.id;
            is_inbox = e.category == Category::Inbox;
        }
        proof {
            assert(cur[i as int] == orig[i as int]);
            assert(is_inbox == (orig[i as int].category == Category::Inbox));
        }
        if is_inbox {
            proof {
                lemma_inbox_before_mono(orig, i + 1, batch_len(orig));
                assert(inbox_before(orig, i + 1) == j + 1);
            }
            match &replies[j] {
                Some(text) => {
                    let cat = parse_category(text.as_str());
                    proof {
                        assert(rv[j as int] == Some(text@));
                        assert(worker_hits(orig, rv, i as int));
                        assert(cat == worker_label(orig, rv, i as int));
                    }
                    let _ = store.update_category(e_id, cat);
                    proof {
                        assert forall|k: int| 0 <= k < orig.len() implies store@.emails[k]
                            == worker_upto(orig, rv, i + 1)[k] by {
                            assert(cur[k].id == orig[k].id);
                            if k != i {
                                assert(orig[k].id != orig[i as int].id);
                            }
                        }
                        assert(store@.emails =~= worker_upto(orig, rv, i + 1));
                    }
                },
                None => {
                    proof {
                        assert(rv[j as int] is None);
                        assert(!worker_hits(orig, rv, i as int));
                        assert(store@.emails =~= worker_upto(orig, rv, i + 1));
                    }
                },
            }
            j += 1;
        } else {
            proof {
                assert(!worker_hits(orig, rv, i as int));
                assert(store@.emails =~= worker_upto(orig, rv, i + 1));
                assert(inbox_before(orig, i + 1) == j);
            }
        }
        i += 1;
    }
    proof {
        assert(store@.emails =~= worker_spec(orig, rv));
    }
    Ok(())
}

} // verus!
