//! How items are written to and read from the database, and how search
//! queries are quoted.

use vstd::prelude::*;
use crate::models::{
    item_type_named, item_type_text, lemma_item_type_round_trip, lemma_priority_round_trip,
    lemma_status_round_trip, priority_named, priority_text, status_named, status_text,
    stored_content, Item, ItemType, ItemView, TaskPriority, TaskStatus, Timestamp,
};
use crate::text::{chars_of, copy_opt, opt_text, owned, push_char};
use crate::storage::creation;
use crate::models::CreateItemRequest;
use crate::time::{rfc3339_instant, rfc3339_text, read_time, stored_time};

verus! {

/// One row of the `items` table, as text and numbers.
#[derive(Debug, Clone)]
pub struct ItemRow {
    pub id: String,
    pub title: String,
    pub item_type: String,
    pub parent_id: Option<String>,
    pub sort_order: i32,
    pub content: Option<String>,
    pub status: Option<String>,
    pub priority: Option<String>,
    pub file_path: Option<String>,
    pub created_at: String,
    pub updated_at: String,
    pub deleted: i32,
}

/// The row an item is stored as: enums by their stored names, content only
/// for items without a file, instants as RFC 3339 text, `deleted` as 0 or 1.
/// `None` when an instant has no RFC 3339 text.
pub open spec fn row_of(i: ItemView) -> Option<ItemRowView> {
    match (rfc3339_text(i.created_at.secs, i.created_at.nanos), rfc3339_text(
        i.updated_at.secs,
        i.updated_at.nanos,
    )) {
        (Some(c), Some(u)) => Some(
            ItemRowView {
                id: i.id,
                title: i.title,
                item_type: item_type_text(i.item_type),
                parent_id: i.parent_id,
                sort_order: i.sort_order,
                content: stored_content(i),
                status: match i.status {
                    Some(s) => Some(status_text(s)),
                    None => None,
                },
                priority: match i.priority {
                    Some(p) => Some(priority_text(p)),
                    None => None,
                },
                file_path: i.file_path,
                created_at: c,
                updated_at: u,
                deleted: if i.deleted {
                    1
                } else {
                    0
                },
            },
        ),
        _ => None,
    }
}

/// A row with its texts as character sequences.
pub struct ItemRowView {
    pub id: Seq<char>,
    pub title: Seq<char>,
    pub item_type: Seq<char>,
    pub parent_id: Option<Seq<char>>,
    pub sort_order: i32,
    pub content: Option<Seq<char>>,
    pub status: Option<Seq<char>>,
    pub priority: Option<Seq<char>>,
    pub file_path: Option<Seq<char>>,
    pub created_at: Seq<char>,
    pub updated_at: Seq<char>,
    pub deleted: i32,
}

impl View for ItemRow {
    type V = ItemRowView;

    open spec fn view(&self) -> ItemRowView {
        ItemRowView {
            id: self.id@,
            title: self.title@,
            item_type: self.item_type@,
            parent_id: opt_text(self.parent_id),
            sort_order: self.sort_order,
            content: opt_text(self.content),
            status: opt_text(self.status),
            priority: opt_text(self.priority),
            file_path: opt_text(self.file_path),
            created_at: self.created_at@,
            updated_at: self.updated_at@,
            deleted: self.deleted,
        }
    }
}

/// The item a row holds: an unknown type reads as a document, an unknown
/// status or priority as none, an instant that is not RFC 3339 as `now`, and
/// any non-zero `deleted` as deleted.
pub open spec fn item_of(r: ItemRowView, now: Timestamp) -> ItemView {
    ItemView {
        id: r.id,
        title: r.title,
        item_type: match item_type_named(r.item_type) {
            Some(t) => t,
            None => ItemType::Document,
        },
        parent_id: r.parent_id,
        sort_order: r.sort_order,
        content: r.content,
        status: match r.status {
            Some(s) => status_named(s),
            None => None,
        },
        priority: match r.priority {
            Some(p) => priority_named(p),
            None => None,
        },
        file_path: r.file_path,
        created_at: match rfc3339_instant(r.created_at) {
            Some(t) => t,
            None => now,
        },
        updated_at: match rfc3339_instant(r.updated_at) {
            Some(t) => t,
            None => now,
        },
        deleted: r.deleted != 0,
    }
}

/// The stored names of an optional status.
fn status_name(s: Option<TaskStatus>) -> (r: Option<String>)
    ensures
        opt_text(r) == match s {
            Some(t) => Some(status_text(t)),
            None => None,
        },
{
    match s {
        Some(t) => Some(owned(t.as_str())),
        None => None,
    }
}

/// The stored name of an optional priority.
fn priority_name(p: Option<TaskPriority>) -> (r: Option<String>)
    ensures
        opt_text(r) == match p {
            Some(t) => Some(priority_text(t)),
            None => None,
        },
{
    match p {
        Some(t) => Some(owned(t.as_str())),
        None => None,
    }
}

/// The row an item is stored as (see `row_of`).
pub fn item_row(item: &Item) -> (r: Option<ItemRow>)
    ensures
        match row_of(item@) {
            Some(v) => r is Some && r->0@ == v,
            None => r is None,
        },
{
    let created = match stored_time(item.created_at) {
        Some(c) => c,
        None => {
            return None;
        },
    };
    let updated = match stored_time(item.updated_at) {
        Some(u) => u,
        None => {
            return None;
        },
    };
    let content = match item.db_content() {
        Some(c) => Some(owned(c)),
        None => None,
    };
    Some(
        ItemRow {
            id: owned(item.id.as_str()),
            title: owned(item.title.as_str()),
            item_type: owned(item.item_type.as_str()),
            parent_id: copy_opt(&item.parent_id),
            sort_order: item.sort_order,
            content,
            status: status_name(item.status),
            priority: priority_name(item.priority),
            file_path: copy_opt(&item.file_path),
            created_at: created,
            updated_at: updated,
            deleted: if item.deleted {
                1
            } else {
                0
            },
        },
    )
}

/// The item type stored as `s`, a document when `s` names none.
pub fn item_type_or_document(s: &str) -> (t: ItemType)
    ensures
        t == match item_type_named(s@) {
            Some(t) => t,
            None => ItemType::Document,
        },
{
    match ItemType::parse(s) {
        Ok(t) => t,
        Err(_) => ItemType::Document,
    }
}

/// The item a row holds (see `item_of`); `now` stands in for an unreadable instant.
pub fn item_from_row(row: ItemRow, now: Timestamp) -> (r: Item)
    ensures
        r@ == item_of(row@, now),
{
    let item_type = item_type_or_document(row.item_type.as_str());
    let status = match &row.status {
        Some(s) => match TaskStatus::parse(s.as_str()) {
            Ok(t) => Some(t),
            Err(_) => None,
        },
        None => None,
    };
    let priority = match &row.priority {
        Some(p) => match TaskPriority::parse(p.as_str()) {
            Ok(t) => Some(t),
            Err(_) => None,
        },
        None => None,
    };
    let created_at = read_time(row.created_at.as_str(), now);
    let updated_at = read_time(row.updated_at.as_str(), now);
    Item {
        id: row.id,
        title: row.title,
        item_type,
        parent_id: row.parent_id,
        sort_order: row.sort_order,
        content: row.content,
        status,
        priority,
        file_path: row.file_path,
        created_at,
        updated_at,
        deleted: row.deleted != 0,
    }
}

/// What an item reads back as from the row it was stored as: the same item,
/// except that a file-backed item comes back without content (it lives in
/// its file) and its instants come back as chrono reads their RFC 3339 text.
pub proof fn lemma_row_round_trip(i: ItemView, now: Timestamp)
    requires
        row_of(i) is Some,
    ensures
        ({
            let back = item_of(row_of(i)->0, now);
            &&& back.id == i.id
            &&& back.title == i.title
            &&& back.item_type == i.item_type
            &&& back.parent_id == i.parent_id
            &&& back.sort_order == i.sort_order
            &&& back.content == stored_content(i)
            &&& back.status == i.status
            &&& back.priority == i.priority
            &&& back.file_path == i.file_path
            &&& back.deleted == i.deleted
            &&& back.created_at == match rfc3339_instant(
                rfc3339_text(i.created_at.secs, i.created_at.nanos)->0,
            ) {
                Some(t) => t,
                None => now,
            }
        }),
{
    lemma_item_type_round_trip(i.item_type);
    if let Some(s) = i.status {
        lemma_status_round_trip(s);
    }
    if let Some(p) = i.priority {
        lemma_priority_round_trip(p);
    }
}

/// A created item reads back from its row as it was created: what was
/// asked for, at the top of its parent, not deleted, with its planned file;
/// a file-backed item comes back without content (its content is in its
/// file) and its instants come back as chrono reads their RFC 3339 text.
pub proof fn lemma_created_reads_back(
    req: CreateItemRequest,
    id: Seq<char>,
    now: Timestamp,
    parent_file: Option<Seq<char>>,
    later: Timestamp,
)
    requires
        creation(req, id, now, parent_file) is Some,
        row_of(creation(req, id, now, parent_file)->0) is Some,
    ensures
        ({
            let v = creation(req, id, now, parent_file)->0;
            let back = item_of(row_of(v)->0, later);
            &&& back.id == id
            &&& back.title == req.title@
            &&& back.item_type == req.item_type
            &&& back.parent_id == opt_text(req.parent_id)
            &&& back.sort_order == 0
            &&& back.content == (if v.file_path is Some {
                None
            } else {
                opt_text(req.content)
            })
            &&& back.status == req.status
            &&& back.priority == req.priority
            &&& back.file_path == v.file_path
            &&& !back.deleted
        }),
{
    let v = creation(req, id, now, parent_file)->0;
    lemma_row_round_trip(v, later);
}

/// `q` with every `"` doubled.
pub open spec fn double_quotes(q: Seq<char>) -> Seq<char>
    decreases q.len(),
{
    if q.len() == 0 {
        seq![]
    } else {
        double_quotes(q.drop_last()) + if q.last() == '"' {
            seq!['"', '"']
        } else {
            seq![q.last()]
        }
    }
}

/// A search query as one FTS5 string: wrapped in `"`, inner `"` doubled, so
/// that no character of the query acts as an FTS5 operator.
pub open spec fn fts_phrase(q: Seq<char>) -> Seq<char> {
    seq!['"'] + double_quotes(q) + seq!['"']
}

/// Quotes a search query for FTS5 `MATCH`.
pub fn fts_quote(query: &str) -> (r: String)
    ensures
        r@ == fts_phrase(query@),
{
    let v = chars_of(query);
    let mut r = String::new();
    push_char(&mut r, '"');
    let mut i: usize = 0;
    while i < v.len()
        invariant
            i <= v@.len(),
            v@ == query@,
            r@ == seq!['"'] + double_quotes(v@.take(i as int)),
        decreases v@.len() - i,
    {
        assert(v@.take(i + 1).drop_last() == v@.take(i as int));
        assert(v@.take(i + 1).last() == v@[i as int]);
        if v[i] == '"' {
            push_char(&mut r, '"');
            push_char(&mut r, '"');
            assert(r@ =~= seq!['"'] + double_quotes(v@.take(i + 1)));
        } else {
            push_char(&mut r, v[i]);
            assert(r@ =~= seq!['"'] + double_quotes(v@.take(i + 1)));
        }
        i += 1;
    }
    assert(v@.take(v@.len() as int) == v@);
    push_char(&mut r, '"');
    assert(r@ =~= fts_phrase(query@));
    r
}

/// Reads the body of an FTS5 string (after its opening `"`): `""` stands for
/// one `"`, a lone `"` ends the string.  Returns the text read and what
/// follows the closing `"`, or `None` when the string is not closed.
pub open spec fn read_fts_string(s: Seq<char>) -> Option<(Seq<char>, Seq<char>)>
    decreases s.len(),
{
    if s.len() == 0 {
        None
    } else if s[0] == '"' {
        if s.len() >= 2 && s[1] == '"' {
            match read_fts_string(s.subrange(2, s.len() as int)) {
                Some((t, rest)) => Some((seq!['"'] + t, rest)),
                None => None,
            }
        } else {
            Some((seq![], s.drop_first()))
        }
    } else {
        match read_fts_string(s.drop_first()) {
            Some((t, rest)) => Some((seq![s[0]] + t, rest)),
            None => None,
        }
    }
}

proof fn lemma_read_quoted(q: Seq<char>, tail: Seq<char>)
    requires
        tail.len() > 0,
        tail[0] == '"',
        tail.len() == 1 || tail[1] != '"',
    ensures
        read_fts_string(double_quotes(q) + tail) == Some((q, tail.drop_first())),
    decreases q.len(),
{
    if q.len() == 0 {
        assert(double_quotes(q) + tail =~= tail);
    } else {
        let c = q[0];
        let rest = q.drop_first();
        assert(q =~= seq![c] + rest);
        lemma_double_quotes_front(c, rest);
        lemma_read_quoted(rest, tail);
        let piece = if c == '"' {
            seq!['"', '"']
        } else {
            seq![c]
        };
        let s = double_quotes(q) + tail;
        assert(s =~= piece + (double_quotes(rest) + tail));
        if c == '"' {
            assert(s.subrange(2, s.len() as int) =~= double_quotes(rest) + tail);
        } else {
            assert(s.drop_first() =~= double_quotes(rest) + tail);
        }
    }
}

proof fn lemma_double_quotes_front(c: char, q: Seq<char>)
    ensures
        double_quotes(seq![c] + q) == (if c == '"' {
            seq!['"', '"']
        } else {
            seq![c]
        }) + double_quotes(q),
    decreases q.len(),
{
    let pc = if c == '"' {
        seq!['"', '"']
    } else {
        seq![c]
    };
    if q.len() == 0 {
        assert(seq![c] + q =~= seq![c]);
        assert(seq![c].drop_last() =~= Seq::<char>::empty());
        assert(double_quotes(Seq::<char>::empty()) =~= Seq::<char>::empty());
        assert(double_quotes(seq![c]) =~= pc);
        assert(pc + double_quotes(q) =~= pc);
    } else {
        let last = q.last();
        let init = q.drop_last();
        lemma_double_quotes_front(c, init);
        assert((seq![c] + q).drop_last() =~= seq![c] + init);
        assert((seq![c] + q).last() == last);
        let pl = if last == '"' {
            seq!['"', '"']
        } else {
            seq![last]
        };
        assert(double_quotes(q) == double_quotes(init) + pl);
        assert(double_quotes(seq![c] + q) == double_quotes(seq![c] + init) + pl);
        assert((pc + double_quotes(init)) + pl =~= pc + (double_quotes(init) + pl));
    }
}

/// A quoted query is read back by FTS5 as exactly the query, with nothing
/// after the closing quote: the query cannot leave its string.
pub proof fn lemma_fts_phrase_reads_back(q: Seq<char>)
    ensures
        fts_phrase(q)[0] == '"',
        read_fts_string(fts_phrase(q).drop_first()) == Some((q, Seq::<char>::empty())),
{
    let p = fts_phrase(q);
    assert(p.drop_first() =~= double_quotes(q) + seq!['"']);
    lemma_read_quoted(q, seq!['"']);
    assert(seq!['"'].drop_first() =~= Seq::<char>::empty());
}

} // verus!
