//! Entity-activity pages, display names of actors, and sent-email records.
use vstd::prelude::*;
use crate::time::DateTime;

verus! {

/// Page size used when the caller asks for none.
pub const ACTIVITY_DEFAULT_LIMIT: u32 = 50;
/// Largest page size served.
pub const ACTIVITY_MAX_LIMIT: u32 = 200;

/// The requested page size limited to `[1, ACTIVITY_MAX_LIMIT]`.
pub fn capped_limit(limit: u32) -> (r: u32)
    ensures
        r == (if limit < 1 { 1 } else if limit > ACTIVITY_MAX_LIMIT { ACTIVITY_MAX_LIMIT } else { limit }),
{
    if limit < 1 {
        1
    } else if limit > ACTIVITY_MAX_LIMIT {
        ACTIVITY_MAX_LIMIT
    } else {
        limit
    }
}

/// Rows to fetch for a page of `limit`: one more, to learn whether another
/// page follows without counting.
pub fn fetch_n(limit: u32) -> (n: i64)
    ensures
        n == limit + 1,
{
    limit as i64 + 1
}

/// Position of an activity row in the (occurred_at, id) order; a page
/// continues before it.
#[derive(Debug, Clone, Copy, PartialEq, Eq)]
pub struct ActivityCursor {
    pub occurred_at: DateTime,
    pub id: u128,
}

/// One page of activities and, when more follow, the cursor of its last row.
#[derive(Debug)]
pub struct ActivityPage<T> {
    pub items: Vec<T>,
    pub next_cursor: Option<ActivityCursor>,
}

/// The second components of a sequence of pairs.
pub open spec fn payloads<T>(s: Seq<(ActivityCursor, T)>) -> Seq<T> {
    s.map_values(|p: (ActivityCursor, T)| p.1)
}

/// Cuts a fetch of `limit + 1` rows (each with its cursor) down to a page:
/// with more than `limit` rows, the first `limit` are kept and the cursor of
/// the last kept row is returned; otherwise all rows, and no cursor.
pub fn into_page<T>(rows: Vec<(ActivityCursor, T)>, limit: u32) -> (page: ActivityPage<T>)
    ensures
        rows@.len() > limit ==> page.items@ == payloads(rows@.take(limit as int))
            && page.next_cursor == (if limit == 0 { None } else { Some(rows@[limit - 1].0) }),
        rows@.len() <= limit ==> page.items@ == payloads(rows@) && page.next_cursor is None,
{
    let mut rows = rows;
    let ghost original = rows@;
    let next_cursor = if rows.len() > limit as usize {
        rows.truncate(limit as usize);
        if rows.len() > 0 {
            Some(rows[rows.len() - 1].0)
        } else {
            None
        }
    } else {
        None
    };
    let ghost kept = rows@;
    assert(original.len() > limit ==> kept =~= original.take(limit as int));
    assert(original.len() <= limit ==> kept == original);
    // Move the payloads out, back to front, then restore their order.
    let mut reversed: Vec<T> = Vec::new();
    while rows.len() > 0
        invariant
            kept == rows@ + payload_pairs_rev(reversed@, kept),
            reversed@.len() + rows@.len() == kept.len(),
            forall|i: int| 0 <= i < reversed@.len() ==> reversed@[i] == #[trigger] kept[kept.len() - 1 - i].1,
        decreases rows@.len(),
    {
        let (_, item) = rows.pop().unwrap();
        reversed.push(item);
        assert(rows@ + payload_pairs_rev(reversed@, kept) =~= kept);
    }
    let mut items: Vec<T> = Vec::new();
    let ghost n = kept.len();
    while reversed.len() > 0
        invariant
            reversed@.len() + items@.len() == n,
            n == kept.len(),
            forall|i: int| 0 <= i < reversed@.len() ==> reversed@[i] == #[trigger] kept[n - 1 - i].1,
            forall|i: int| 0 <= i < items@.len() ==> items@[i] == #[trigger] kept[i].1,
        decreases reversed@.len(),
    {
        let ghost j = reversed@.len() - 1;
        assert(reversed@[j] == kept[n - 1 - j].1);
        let item = reversed.pop().unwrap();
        assert(n - 1 - j == items@.len());
        items.push(item);
    }
    assert(items@ =~= payloads(kept));
    ActivityPage { items, next_cursor }
}

/// The suffix of `kept` whose payloads have been moved into `reversed`.
pub open spec fn payload_pairs_rev<T>(reversed: Seq<T>, kept: Seq<(ActivityCursor, T)>) -> Seq<(ActivityCursor, T)> {
    kept.skip(kept.len() - reversed.len())
}

/// A character of Unicode's `White_Space` property (the characters `str::trim`
/// removes): tab through carriage return, space, next line, no-break space,
/// ogham space mark, en quad through hair space, line and paragraph
/// separators, narrow no-break space, medium mathematical space and
/// ideographic space.
pub open spec fn is_white_space(c: char) -> bool {
    ('\u{9}' <= c <= '\u{d}') || c == ' ' || c == '\u{85}' || c == '\u{a0}' || c == '\u{1680}'
        || ('\u{2000}' <= c <= '\u{200a}') || c == '\u{2028}' || c == '\u{2029}' || c == '\u{202f}'
        || c == '\u{205f}' || c == '\u{3000}'
}

/// `s` without its leading white space.
pub open spec fn trim_start(s: Seq<char>) -> Seq<char>
    decreases s.len(),
{
    if s.len() > 0 && is_white_space(s[0]) { trim_start(s.drop_first()) } else { s }
}

/// `s` without its trailing white space.
pub open spec fn trim_end(s: Seq<char>) -> Seq<char>
    decreases s.len(),
{
    if s.len() > 0 && is_white_space(s.last()) { trim_end(s.drop_last()) } else { s }
}

/// What `str::trim` leaves of `s`: `s` without leading and trailing white
/// space.
pub open spec fn trimmed(s: Seq<char>) -> Seq<char> {
    trim_end(trim_start(s))
}

/// Whether `c` is a `White_Space` character.
fn white_space(c: char) -> (b: bool)
    ensures
        b == is_white_space(c),
{
    let x = c as u32;
    (0x9 <= x && x <= 0xd) || x == 0x20 || x == 0x85 || x == 0xa0 || x == 0x1680 || (0x2000 <= x && x <= 0x200a)
        || x == 0x2028 || x == 0x2029 || x == 0x202f || x == 0x205f || x == 0x3000
}

/// `s` without leading and trailing white space (what `str::trim` leaves),
/// copied into a `String`.
pub(crate) fn trim_whitespace(s: &str) -> (r: String)
    ensures
        r@ == trimmed(s@),
{
    let n = s.unicode_len();
    let mut i: usize = 0;
    proof {
        assert(s@.skip(0) =~= s@);
    }
    loop
        invariant
            n == s@.len(),
            i <= n,
            trim_start(s@) == trim_start(s@.skip(i as int)),
        ensures
            i <= n,
            trim_start(s@) == s@.skip(i as int),
        decreases n - i,
    {
        if i == n {
            proof {
                assert(s@.skip(i as int) =~= Seq::<char>::empty());
            }
            break;
        }
        let c = s.get_char(i);
        if !white_space(c) {
            break;
        }
        proof {
            assert(s@.skip(i as int).drop_first() =~= s@.skip(i + 1));
        }
        i = i + 1;
    }
    let mut j: usize = n;
    proof {
        assert(s@.subrange(i as int, n as int) =~= s@.skip(i as int));
    }
    loop
        invariant
            n == s@.len(),
            i <= j <= n,
            trim_start(s@) == s@.skip(i as int),
            trimmed(s@) == trim_end(s@.subrange(i as int, j as int)),
        ensures
            i <= j <= n,
            trimmed(s@) == s@.subrange(i as int, j as int),
        decreases j - i,
    {
        if j == i {
            break;
        }
        let c = s.get_char(j - 1);
        if !white_space(c) {
            break;
        }
        proof {
            assert(s@.subrange(i as int, j as int).drop_last() =~= s@.subrange(i as int, j - 1));
        }
        j = j - 1;
    }
    s.substring_char(i, j).to_owned()
}

/// Joins two texts with one space.
fn join_with_space(a: &str, b: &str) -> (r: String)
    ensures
        r@ == a@ + " "@ + b@,
{
    let mut r = a.to_owned();
    r.append(" ");
    r.append(b);
    r
}

/// The text of an optional name part; a missing part is empty.
pub open spec fn name_part(p: Option<String>) -> Seq<char> {
    match p {
        Some(s) => s@,
        None => Seq::empty(),
    }
}

/// The display name of a user: first and last name joined by a space and
/// trimmed, or the e-mail address when that leaves nothing.
pub open spec fn user_display_name(first: Option<String>, last: Option<String>, email: Seq<char>) -> Seq<char> {
    let t = trimmed(name_part(first) + " "@ + name_part(last));
    if t.len() == 0 { email } else { t }
}

/// The display name of a user (see [`user_display_name`]).
pub fn user_display(first_name: &Option<String>, last_name: &Option<String>, email: &String) -> (r: String)
    ensures
        r@ == user_display_name(*first_name, *last_name, email@),
{
    proof {
        reveal_strlit("");
    }
    let first: &str = match first_name {
        Some(f) => f.as_str(),
        None => "",
    };
    let last: &str = match last_name {
        Some(l) => l.as_str(),
        None => "",
    };
    let candidate = join_with_space(first, last);
    let t = trim_whitespace(candidate.as_str());
    if t.as_str().is_empty() {
        email.clone()
    } else {
        t
    }
}

/// The kind of actor behind an activity.
#[derive(Debug, Clone, Copy, PartialEq, Eq, Structural)]
pub enum ActorType {
    User,
    ApiToken,
    Customer,
    System,
    QuoteRecipient,
}

/// The ids of the actors of type `t`, in order, repeats included.
pub open spec fn ids_of_type(actors: Seq<(ActorType, u128)>, t: ActorType) -> Seq<u128>
    decreases actors.len(),
{
    if actors.len() == 0 {
        Seq::empty()
    } else if actors.last().0 == t {
        ids_of_type(actors.drop_last(), t).push(actors.last().1)
    } else {
        ids_of_type(actors.drop_last(), t)
    }
}

/// The distinct ids of the actors of type `t`, in order of first appearance;
/// the names of users, API tokens and customers are looked up by these.
pub fn actor_ids_of_type(actors: &[(ActorType, u128)], t: ActorType) -> (r: Vec<u128>)
    ensures
        r@ == crate::entitlement_chains::unique_ids(ids_of_type(actors@, t)),
{
    let mut out: Vec<u128> = Vec::new();
    let mut i: usize = 0;
    while i < actors.len()
        invariant
            i <= actors@.len(),
            out@ == crate::entitlement_chains::unique_ids(ids_of_type(actors@.take(i as int), t)),
        decreases actors@.len() - i,
    {
        let (at, id) = actors[i];
        proof {
            assert(actors@.take(i + 1).drop_last() =~= actors@.take(i as int));
            assert(actors@.take(i + 1).last() == actors@[i as int]);
        }
        if at == t {
            let mut found = false;
            let mut j: usize = 0;
            while j < out.len()
                invariant
                    j <= out@.len(),
                    found == (exists|k: int| 0 <= k < j && out@[k] == id),
                decreases out@.len() - j,
            {
                if out[j] == id {
                    found = true;
                }
                j = j + 1;
            }
            proof {
                let s = ids_of_type(actors@.take(i + 1), t);
                assert(s.drop_last() == ids_of_type(actors@.take(i as int), t));
                assert(s.last() == id);
                if found {
                    let k = choose|k: int| 0 <= k < out@.len() && out@[k] == id;
                    assert(out@.contains(id));
                }
            }
            if !found {
                out.push(id);
            }
        }
        i = i + 1;
    }
    assert(actors@.take(actors@.len() as int) =~= actors@);
    out
}

/// Which object-store bucket a sent-email attachment lives in.
#[derive(Debug, Clone, Copy, PartialEq, Eq, Structural)]
pub enum SentEmailAttachmentKind {
    InvoicePdf,
    ReceiptPdf,
    CreditNotePdf,
}

impl SentEmailAttachmentKind {
    /// The stable, persisted (snake_case) name of the kind.
    pub fn stored_name(&self) -> (r: &'static str)
        ensures
            r@ == (match *self {
                SentEmailAttachmentKind::InvoicePdf => "invoice_pdf"@,
                SentEmailAttachmentKind::ReceiptPdf => "receipt_pdf"@,
                SentEmailAttachmentKind::CreditNotePdf => "credit_note_pdf"@,
            }),
    {
        match self {
            SentEmailAttachmentKind::InvoicePdf => "invoice_pdf",
            SentEmailAttachmentKind::ReceiptPdf => "receipt_pdf",
            SentEmailAttachmentKind::CreditNotePdf => "credit_note_pdf",
        }
    }
}

/// The present entries of `s`, in order.
pub open spec fn present<T>(s: Seq<Option<T>>) -> Seq<T>
    decreases s.len(),
{
    if s.len() == 0 {
        Seq::empty()
    } else {
        match s.last() {
            Some(x) => present(s.drop_last()).push(x),
            None => present(s.drop_last()),
        }
    }
}

/// The recipients of a stored e-mail: the database array admits NULL
/// elements, which are dropped.
pub fn flatten_recipients(recipients: Vec<Option<String>>) -> (r: Vec<String>)
    ensures
        r@ == present(recipients@),
{
    let mut out: Vec<String> = Vec::new();
    let mut i: usize = 0;
    while i < recipients.len()
        invariant
            i <= recipients@.len(),
            out@ == present(recipients@.take(i as int)),
        decreases recipients@.len() - i,
    {
        proof {
            assert(recipients@.take(i + 1).drop_last() =~= recipients@.take(i as int));
            assert(recipients@.take(i + 1).last() == recipients@[i as int]);
        }
        match &recipients[i] {
            Some(r) => { out.push(r.clone()); },
            None => {},
        }
        i = i + 1;
    }
    assert(recipients@.take(recipients@.len() as int) =~= recipients@);
    out
}

} // verus!
