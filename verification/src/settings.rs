//! Subscriber store: an ordered, deduplicated collection of subscription
//! records. Two records are the same subscription exactly when they share
//! `chat_id`; the store never holds two records for one chat. Reading and
//! writing the backing file is the caller's business; the store itself is
//! plain data with the deduplication rules.

use vstd::prelude::*;
use vstd::string::StrSliceExecFns;
use vstd::string::StringExecFns;

verus! {

/// One subscription: a chat to deliver scheduled content to, with the
/// timezone label it was registered under.
#[derive(Debug, Clone)]
pub struct Subscribe {
    pub chat_id: i64,
    pub timezone: String,
}

impl Subscribe {
    /// A fresh subscription for `id` under the default timezone label.
    pub fn new(id: i64) -> (s: Self)
        ensures
            s.chat_id == id,
            s.timezone@ == "UTC+8"@,
    {
        Subscribe { chat_id: id, timezone: String::from_str("UTC+8") }
    }

    /// Repoint this record at another chat and timezone.
    pub fn update(&mut self, id: i64, tz: &str)
        ensures
            final(self).chat_id == id,
            final(self).timezone@ == tz@,
    {
        self.chat_id = id;
        self.timezone = String::from_str(tz);
    }

    /// Change only the timezone label.
    pub fn update_tz(&mut self, tz: &str)
        ensures
            final(self).chat_id == old(self).chat_id,
            final(self).timezone@ == tz@,
    {
        self.timezone = String::from_str(tz);
    }
}

impl PartialEq for Subscribe {
    /// Equality of subscriptions is identity of the chat alone.
    fn eq(&self, o: &Self) -> (r: bool) {
        self.chat_id == o.chat_id
    }
}

impl vstd::std_specs::cmp::PartialEqSpecImpl for Subscribe {
    open spec fn obeys_eq_spec() -> bool {
        true
    }

    open spec fn eq_spec(&self, o: &Self) -> bool {
        self.chat_id == o.chat_id
    }
}

/// Does `s` already hold a record for chat `id`?
pub open spec fn contains_chat(s: Seq<Subscribe>, id: i64) -> bool {
    exists|i: int| 0 <= i < s.len() && s[i].chat_id == id
}

/// No two records of `s` share a chat id.
pub open spec fn distinct_chats(s: Seq<Subscribe>) -> bool {
    forall|i: int, j: int| 0 <= i < j < s.len() ==> s[i].chat_id != s[j].chat_id
}

/// What one insert does: append the record unless its chat is already
/// subscribed, in which case the store is unchanged.
pub open spec fn insert_record(s: Seq<Subscribe>, r: Subscribe) -> Seq<Subscribe> {
    if contains_chat(s, r.chat_id) {
        s
    } else {
        s.push(r)
    }
}

/// What loading does to the raw records of a backing file: keep each
/// record whose chat was not seen before it, so the first record for a
/// chat wins and the uniqueness invariant holds whatever the file held.
pub open spec fn dedup_by_chat(s: Seq<Subscribe>) -> Seq<Subscribe>
    decreases s.len(),
{
    if s.len() == 0 {
        Seq::empty()
    } else {
        insert_record(dedup_by_chat(s.drop_last()), s.last())
    }
}

/// How many records of `s` are for chat `id`.
pub open spec fn count_for_chat(s: Seq<Subscribe>, id: i64) -> nat
    decreases s.len(),
{
    if s.len() == 0 {
        0
    } else {
        count_for_chat(s.drop_last(), id) + if s.last().chat_id == id {
            1nat
        } else {
            0nat
        }
    }
}

/// The error returned when the store was built without a backing path.
#[derive(Debug, Clone)]
pub struct SettingError;

impl SettingError {
    /// Human-readable account of the failure.
    pub fn message(&self) -> (r: &'static str)
        ensures
            r@ == "Setting file path does not exist, ensure call 'Settings::new()' first."@,
    {
        "Setting file path does not exist, ensure call 'Settings::new()' first."
    }
}

/// The subscriber store: the records, plus the path of the file they are
/// persisted to. The well-formedness invariant is chat-id uniqueness.
#[derive(Debug, Clone)]
pub struct Settings {
    pub subscribe: Vec<Subscribe>,
    pub file_path: String,
}

impl Settings {
    /// Chat ids are pairwise distinct.
    pub open spec fn wf(&self) -> bool {
        distinct_chats(self.subscribe@)
    }

    /// The path of the backing file, as the contracts speak of it.
    pub open spec fn path(&self) -> Seq<char> {
        self.file_path@
    }

    /// An empty store with no backing path yet.
    pub fn new() -> (s: Self)
        ensures
            s.subscribe@ =~= Seq::<Subscribe>::empty(),
            s.path() == Seq::<char>::empty(),
            s.wf(),
    {
        Settings { subscribe: Vec::new(), file_path: String::new() }
    }

    /// The store as loaded from a backing file: the records the file held,
    /// with any later record for an already-seen chat dropped. A file that
    /// already satisfied the invariant loads unchanged.
    pub fn from_parts(records: Vec<Subscribe>, file_path: String) -> (s: Self)
        ensures
            s.wf(),
            s.path() == file_path@,
            s.subscribe@ == dedup_by_chat(records@),
            distinct_chats(records@) ==> s.subscribe@ == records@,
    {
        let mut kept: Vec<Subscribe> = Vec::new();
        let n = records.len();
        let mut i: usize = 0;
        while i < n
            invariant
                i <= n,
                n == records@.len(),
                distinct_chats(kept@),
                kept@ == dedup_by_chat(records@.take(i as int)),
            decreases n - i,
        {
            let r = clone_record(&records[i]);
            proof {
                assert(records@.take(i as int + 1).drop_last() =~= records@.take(i as int));
                assert(records@.take(i as int + 1).last() == records@[i as int]);
            }
            push_if_new(&mut kept, r);
            i = i + 1;
        }
        proof {
            assert(records@.take(n as int) =~= records@);
            if distinct_chats(records@) {
                lemma_dedup_noop_when_distinct(records@);
            }
        }
        Settings { subscribe: kept, file_path }
    }

    /// Insert `val` unless its chat is already subscribed; report whether
    /// an insert happened. The uniqueness invariant is preserved and the
    /// backing path is untouched.
    pub fn add_sub(&mut self, val: Subscribe) -> (added: bool)
        requires
            old(self).wf(),
        ensures
            final(self).wf(),
            added == !contains_chat(old(self).subscribe@, val.chat_id),
            final(self).subscribe@ == insert_record(old(self).subscribe@, val),
            final(self).path() == old(self).path(),
    {
        push_if_new(&mut self.subscribe, val)
    }

    /// Snapshot of the current subscriptions.
    pub fn all(&self) -> (r: &Vec<Subscribe>)
        ensures
            r@ == self.subscribe@,
    {
        &self.subscribe
    }

    /// The backing file path, or the error when none was ever set.
    pub fn get_file_path(&self) -> (r: Result<&str, SettingError>)
        ensures
            match r {
                Ok(p) => p@ == self.path() && self.path().len() > 0,
                Err(_) => self.path().len() == 0,
            },
    {
        if self.file_path.as_str().unicode_len() == 0 {
            Err(SettingError)
        } else {
            Ok(self.file_path.as_str())
        }
    }
}

/// Append `val` to `v` unless a record with its chat id is already there;
/// report whether an append happened.
fn push_if_new(v: &mut Vec<Subscribe>, val: Subscribe) -> (added: bool)
    requires
        distinct_chats(old(v)@),
    ensures
        distinct_chats(final (v)@),
        added == !contains_chat(old(v)@, val.chat_id),
        final (v)@ == insert_record(old(v)@, val),
{
    let n = v.len();
    let mut i: usize = 0;
    while i < n
        invariant
            i <= n,
            n == v@.len(),
            v@ == old(v)@,
            distinct_chats(v@),
            forall|k: int| 0 <= k < i ==> v@[k].chat_id != val.chat_id,
        decreases n - i,
    {
        if v[i].chat_id == val.chat_id {
            return false;
        }
        i = i + 1;
    }
    assert(!contains_chat(v@, val.chat_id));
    v.push(val);
    true
}

/// An explicit deep copy of one record.
fn clone_record(r: &Subscribe) -> (c: Subscribe)
    ensures
        c == *r,
{
    Subscribe { chat_id: r.chat_id, timezone: r.timezone.clone() }
}

/// A collection that already satisfies the uniqueness invariant is left
/// exactly as it is by the load-time deduplication.
pub proof fn lemma_dedup_noop_when_distinct(s: Seq<Subscribe>)
    requires
        distinct_chats(s),
    ensures
        dedup_by_chat(s) == s,
    decreases s.len(),
{
    if s.len() > 0 {
        assert(distinct_chats(s.drop_last())) by {
            assert forall|p: int, q: int|
                0 <= p < q < s.len() - 1 implies s.drop_last()[p].chat_id
                != s.drop_last()[q].chat_id by {
                assert(s[p].chat_id != s[q].chat_id);
            }
        }
        lemma_dedup_noop_when_distinct(s.drop_last());
        assert(!contains_chat(s.drop_last(), s.last().chat_id)) by {
            if contains_chat(s.drop_last(), s.last().chat_id) {
                let k = choose|k: int|
                    0 <= k < s.len() - 1 && s.drop_last()[k].chat_id == s.last().chat_id;
                assert(s[k].chat_id == s[s.len() - 1].chat_id);
            }
        }
        assert(s.drop_last().push(s.last()) =~= s);
    }
}

/// Pushing a record onto a store extends chat membership by exactly that
/// record's chat.
proof fn lemma_contains_chat_push(s: Seq<Subscribe>, r: Subscribe)
    ensures
        forall|id: i64|
            contains_chat(s.push(r), id) == (contains_chat(s, id) || r.chat_id == id),
{
    assert forall|id: i64|
        contains_chat(s.push(r), id) == (contains_chat(s, id) || r.chat_id == id) by {
        if contains_chat(s, id) {
            let k = choose|k: int| 0 <= k < s.len() && s[k].chat_id == id;
            assert(s.push(r)[k].chat_id == id);
        }
        if r.chat_id == id {
            assert(s.push(r)[s.len() as int].chat_id == id);
        }
        if contains_chat(s.push(r), id) {
            let k = choose|k: int| 0 <= k < s.push(r).len() && s.push(r)[k].chat_id == id;
            if k < s.len() {
                assert(s[k].chat_id == id);
            }
        }
    }
}

/// Store de-duplication: inserting two records for the same chat into a
/// well-formed store leaves exactly one record for that chat, and the
/// second insert changes nothing.
pub proof fn lemma_insert_deduplicates(s: Seq<Subscribe>, r1: Subscribe, r2: Subscribe)
    requires
        distinct_chats(s),
        r1.chat_id == r2.chat_id,
    ensures
        insert_record(insert_record(s, r1), r2) == insert_record(s, r1),
        count_for_chat(insert_record(insert_record(s, r1), r2), r1.chat_id) == 1,
{
    lemma_contains_chat_push(s, r1);
    if contains_chat(s, r1.chat_id) {
        lemma_count_is_one(s, r1.chat_id);
    } else {
        lemma_count_zero_when_absent(s, r1.chat_id);
        assert(s.push(r1).drop_last() =~= s);
    }
}

/// In a well-formed store that holds chat `id`, exactly one record is for it.
proof fn lemma_count_is_one(s: Seq<Subscribe>, id: i64)
    requires
        distinct_chats(s),
        contains_chat(s, id),
    ensures
        count_for_chat(s, id) == 1,
    decreases s.len(),
{
    let k = choose|k: int| 0 <= k < s.len() && s[k].chat_id == id;
    if k == s.len() - 1 {
        assert(!contains_chat(s.drop_last(), id)) by {
            if contains_chat(s.drop_last(), id) {
                let j = choose|j: int| 0 <= j < s.len() - 1 && s.drop_last()[j].chat_id == id;
                assert(s[j].chat_id == s[k].chat_id);
            }
        };
        lemma_count_zero_when_absent(s.drop_last(), id);
    } else {
        assert(s.last().chat_id != id);
        assert(s.drop_last()[k].chat_id == id);
        lemma_count_is_one(s.drop_last(), id);
    }
}

/// A store without chat `id` holds no record for it.
proof fn lemma_count_zero_when_absent(s: Seq<Subscribe>, id: i64)
    requires
        !contains_chat(s, id),
    ensures
        count_for_chat(s, id) == 0,
    decreases s.len(),
{
    if s.len() > 0 {
        assert(!contains_chat(s.drop_last(), id)) by {
            if contains_chat(s.drop_last(), id) {
                let j = choose|j: int| 0 <= j < s.len() - 1 && s.drop_last()[j].chat_id == id;
                assert(s[j].chat_id == id);
            }
        };
        lemma_count_zero_when_absent(s.drop_last(), id);
    }
}

} // verus!
