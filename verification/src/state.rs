//! The durable index of live sandbox assignments: the record that is kept for
//! each sandbox, how it is written down, and the store that holds it.

use crate::text::{
    chars_of, decimal, digits_end, digits_upto, has_text, is_digit, lemma_decimal, parse_digits,
    push_decimal, texts,
};
use vstd::prelude::*;

verus! {

// ---------------------------------------------------------------------------
// The record
// ---------------------------------------------------------------------------

/// What is remembered of one sandbox: the job it was launched for and when.
#[derive(Debug, Clone, Copy, PartialEq, Eq, Structural)]
pub struct ContainerState {
    pub job_id: u64,
    /// Seconds since the Unix epoch.
    pub started_at: u64,
}

/// The seconds from `started_at` to `now`, and zero when `now` is earlier.
pub open spec fn elapsed(started_at: u64, now: u64) -> u64 {
    if now >= started_at {
        (now - started_at) as u64
    } else {
        0
    }
}

/// `std::time::SystemTime`, an instant of the system clock. Nothing is known
/// of what is inside.
#[verifier::external_type_specification]
#[verifier::external_body]
pub struct ExSystemTime(std::time::SystemTime);

/// `std::time::SystemTimeError`, the error of `SystemTime::duration_since`.
#[verifier::external_type_specification]
#[verifier::external_body]
pub struct ExSystemTimeError(std::time::SystemTimeError);

/// `SystemTime::now` reads the system clock. Nothing is known of what it shows.
pub assume_specification[ std::time::SystemTime::now ]() -> std::time::SystemTime;

/// `SystemTime::duration_since` gives the time from `earlier` to `time`, or an
/// error when `earlier` is the later of the two.
pub assume_specification[ std::time::SystemTime::duration_since ](
    time: &std::time::SystemTime,
    earlier: std::time::SystemTime,
) -> Result<std::time::Duration, std::time::SystemTimeError>;

/// `UNIX_EPOCH`, the instant from which the seconds are counted.
#[verifier::external_body]
fn unix_epoch() -> std::time::SystemTime {
    std::time::UNIX_EPOCH
}

/// `Duration::as_secs` gives the whole seconds of a duration.
pub assume_specification[ std::time::Duration::as_secs ](d: &std::time::Duration) -> u64;

/// The system clock in seconds since the Unix epoch, and zero for a clock
/// that is set before it.
pub fn unix_now() -> u64 {
    match std::time::SystemTime::now().duration_since(unix_epoch()) {
        Ok(since) => since.as_secs(),
        Err(_) => 0,
    }
}

impl ContainerState {
    /// The record of a sandbox launched for `job_id` now, by the system clock.
    pub fn new(job_id: u64) -> (state: Self)
        ensures
            state.job_id == job_id,
    {
        ContainerState::at(job_id, unix_now())
    }

    /// How long the sandbox has been running by the system clock, in seconds.
    pub fn running_seconds(&self) -> (seconds: u64)
        ensures
            exists|now: u64| seconds == elapsed(self.started_at, now),
    {
        self.running_seconds_at(unix_now())
    }

    /// The record of a sandbox launched for `job_id` at `now`.
    pub fn at(job_id: u64, now: u64) -> (state: Self)
        ensures
            state == (ContainerState { job_id, started_at: now }),
    {
        ContainerState { job_id, started_at: now }
    }

    /// How long the sandbox has been running at `now`, in seconds.
    pub fn running_seconds_at(&self, now: u64) -> (seconds: u64)
        ensures
            seconds == elapsed(self.started_at, now),
    {
        if now >= self.started_at {
            now - self.started_at
        } else {
            0
        }
    }
}

// ---------------------------------------------------------------------------
// The record as bytes
// ---------------------------------------------------------------------------

/// The byte for each character, for text of characters below 256.
pub open spec fn narrow(text: Seq<char>) -> Seq<u8> {
    Seq::new(text.len(), |i: int| text[i] as u8)
}

/// The character for each byte.
pub open spec fn widen(bytes: Seq<u8>) -> Seq<char> {
    Seq::new(bytes.len(), |i: int| bytes[i] as char)
}

/// A record as text: an object of two members, `slot` for the job and
/// `started_at`, each a decimal numeral, with no white space.
pub open spec fn record_text(r: ContainerState) -> Seq<char> {
    "{\"slot\":"@ + decimal(r.job_id as nat) + ",\"started_at\":"@ + decimal(r.started_at as nat)
        + "}"@
}

/// A record as it is stored.
pub open spec fn record_bytes(r: ContainerState) -> Seq<u8> {
    narrow(record_text(r))
}

/// The record that `bytes` is the stored form of, if there is one.
pub open spec fn decode_record(bytes: Seq<u8>) -> Option<ContainerState> {
    if exists|r: ContainerState| record_bytes(r) == bytes {
        Some(choose|r: ContainerState| record_bytes(r) == bytes)
    } else {
        None
    }
}

/// Where the parts of a record's text lie.
proof fn lemma_record_frame(r: ContainerState)
    ensures
        ({
            let t = record_text(r);
            let j = decimal(r.job_id as nat);
            let s = decimal(r.started_at as nat);
            let jn = j.len() as int;
            let sn = s.len() as int;
            &&& t.len() == 8 + jn + 14 + sn + 1
            &&& t.subrange(8, 8 + jn) == j
            &&& t[8 + jn] == ','
            &&& t.subrange(8 + jn + 14, 8 + jn + 14 + sn) == s
            &&& t[t.len() - 1] == '}'
            &&& widen(narrow(t)) == t
        }),
{
    reveal_strlit("{\"slot\":");
    reveal_strlit(",\"started_at\":");
    reveal_strlit("}");
    let k1 = "{\"slot\":"@;
    let k2 = ",\"started_at\":"@;
    let t = record_text(r);
    let j = decimal(r.job_id as nat);
    let s = decimal(r.started_at as nat);
    let jn = j.len() as int;
    let sn = s.len() as int;
    lemma_decimal(r.job_id as nat);
    lemma_decimal(r.started_at as nat);
    assert(k1.len() == 8);
    assert(k2.len() == 14);
    assert(t.subrange(8, 8 + jn) == j);
    assert(t[8 + jn] == k2[0]);
    assert(t.subrange(8 + jn + 14, 8 + jn + 14 + sn) == s);
    assert forall|i: int| 0 <= i < t.len() implies #[trigger] t[i] <= '\u{7f}' by {
        if i < 8 {
            assert(t[i] == k1[i]);
        } else if i < 8 + jn {
            assert(t[i] == j[i - 8]);
            assert(is_digit(j[i - 8]));
        } else if i < 8 + jn + 14 {
            assert(t[i] == k2[i - 8 - jn]);
        } else if i < 8 + jn + 14 + sn {
            assert(t[i] == s[i - 8 - jn - 14]);
            assert(is_digit(s[i - 8 - jn - 14]));
        } else {
            assert(t[i] == '}');
        }
    }
    assert(widen(narrow(t)) == t);
}

/// In a record's text the first digit run is the job's numeral.
proof fn lemma_first_number(t: Seq<char>, r: ContainerState, b: int)
    requires
        t == record_text(r),
        8 <= b <= t.len(),
        forall|i: int| 8 <= i < b ==> is_digit(#[trigger] t[i]),
        b < t.len() ==> !is_digit(t[b]),
    ensures
        b == 8 + decimal(r.job_id as nat).len(),
        digits_upto(t.subrange(8, b), u64::MAX as nat) == Some(r.job_id as nat),
        b + 14 < t.len(),
{
    lemma_record_frame(r);
    lemma_decimal(r.job_id as nat);
    lemma_decimal(r.started_at as nat);
    let j = decimal(r.job_id as nat);
    let jn = j.len() as int;
    if b < 8 + jn {
        assert(t[b] == t.subrange(8, 8 + jn)[b - 8]);
        assert(is_digit(j[b - 8]));
    }
    if b > 8 + jn {
        assert(is_digit(t[8 + jn]));
    }
}

/// In a record's text the second digit run is the start time's numeral, and
/// only the closing brace follows it.
proof fn lemma_second_number(t: Seq<char>, r: ContainerState, c: int, d: int)
    requires
        t == record_text(r),
        c == 8 + decimal(r.job_id as nat).len() + 14,
        c <= d <= t.len(),
        forall|i: int| c <= i < d ==> is_digit(#[trigger] t[i]),
        d < t.len() ==> !is_digit(t[d]),
    ensures
        d == t.len() - 1,
        digits_upto(t.subrange(c, d), u64::MAX as nat) == Some(r.started_at as nat),
{
    lemma_record_frame(r);
    lemma_decimal(r.started_at as nat);
    let s = decimal(r.started_at as nat);
    let sn = s.len() as int;
    if d < c + sn {
        assert(t[d] == t.subrange(c, c + sn)[d - c]);
        assert(is_digit(s[d - c]));
    }
    if d > c + sn {
        assert(is_digit(t[c + sn]));
    }
}

/// Two records with the same stored form are the same record.
pub proof fn lemma_record_injective(a: ContainerState, b: ContainerState)
    requires
        record_bytes(a) == record_bytes(b),
    ensures
        a == b,
{
    lemma_record_frame(a);
    lemma_record_frame(b);
    lemma_decimal(a.job_id as nat);
    lemma_decimal(a.started_at as nat);
    let t = record_text(a);
    assert(t == record_text(b));
    let ja = decimal(a.job_id as nat);
    let sa = decimal(a.started_at as nat);
    let e = 8 + ja.len() as int;
    assert forall|i: int| 8 <= i < e implies is_digit(#[trigger] t[i]) by {
        assert(t[i] == t.subrange(8, e)[i - 8]);
        assert(is_digit(ja[i - 8]));
    }
    lemma_first_number(t, b, e);
    let c = e + 14;
    let d = c + sa.len() as int;
    assert forall|i: int| c <= i < d implies is_digit(#[trigger] t[i]) by {
        assert(t[i] == t.subrange(c, d)[i - c]);
        assert(is_digit(sa[i - c]));
    }
    lemma_second_number(t, b, c, d);
    assert(t.subrange(8, e) == ja);
    assert(t.subrange(c, d) == sa);
}

/// Reading back what was written gives the record that was written.
pub proof fn lemma_record_round_trip(r: ContainerState)
    ensures
        decode_record(record_bytes(r)) == Some(r),
{
    let found = choose|x: ContainerState| record_bytes(x) == record_bytes(r);
    lemma_record_injective(found, r);
}

/// Whether two runs of bytes are the same.
fn same_bytes(a: &Vec<u8>, b: &[u8]) -> (same: bool)
    ensures
        same == (a@ == b@),
{
    if a.len() != b.len() {
        return false;
    }
    let mut i: usize = 0;
    while i < a.len()
        invariant
            a.len() == b.len(),
            i <= a.len(),
            forall|k: int| 0 <= k < i ==> a@[k] == b@[k],
        decreases a.len() - i,
    {
        if a[i] != b[i] {
            return false;
        }
        i += 1;
    }
    assert(a@ =~= b@);
    true
}

impl ContainerState {
    /// The record in its stored form.
    pub fn encode(&self) -> (out: Vec<u8>)
        ensures
            out@ == record_bytes(*self),
    {
        let mut text = String::from_str("{\"slot\":");
        push_decimal(&mut text, self.job_id);
        text.append(",\"started_at\":");
        push_decimal(&mut text, self.started_at);
        text.append("}");
        let chars = chars_of(text.as_str());
        let mut out: Vec<u8> = Vec::new();
        let mut i: usize = 0;
        while i < chars.len()
            invariant
                i <= chars.len(),
                out@ == narrow(chars@.take(i as int)),
            decreases chars.len() - i,
        {
            out.push(chars[i] as u8);
            i += 1;
            assert(out@ =~= narrow(chars@.take(i as int)));
        }
        assert(chars@.take(chars.len() as int) == chars@);
        out
    }

    /// Reads a stored record. Only what `encode` writes is a record.
    pub fn decode(bytes: &[u8]) -> (r: Option<ContainerState>)
        ensures
            r == decode_record(bytes@),
    {
        let mut text: Vec<char> = Vec::new();
        let mut i: usize = 0;
        while i < bytes.len()
            invariant
                i <= bytes.len(),
                text@ == widen(bytes@.take(i as int)),
            decreases bytes.len() - i,
        {
            text.push(bytes[i] as char);
            i += 1;
            assert(text@ =~= widen(bytes@.take(i as int)));
        }
        assert(bytes@.take(bytes.len() as int) == bytes@);
        proof {
            // Whatever record these bytes may be of, this is its text.
            assert forall|x: ContainerState| record_bytes(x) == bytes@ implies record_text(x)
                == text@ by {
                lemma_record_frame(x);
            }
        }
        if text.len() < 8 {
            proof {
                assert forall|x: ContainerState| record_bytes(x) != bytes@ by {
                    lemma_record_frame(x);
                }
            }
            return None;
        }
        let b = digits_end(&text, 8);
        proof {
            assert forall|x: ContainerState| record_bytes(x) == bytes@ implies b + 14 < text.len()
                && digits_upto(text@.subrange(8, b as int), u64::MAX as nat) == Some(
                x.job_id as nat,
            ) && b == 8 + decimal(x.job_id as nat).len() by {
                lemma_first_number(text@, x, b as int);
            }
        }
        let job_id = match parse_digits(&text, 8, b, u64::MAX) {
            Some(v) => v,
            None => {
                return None;
            },
        };
        if text.len() - b < 14 {
            return None;
        }
        let c = b + 14;
        let d = digits_end(&text, c);
        proof {
            assert forall|x: ContainerState| record_bytes(x) == bytes@ implies digits_upto(
                text@.subrange(c as int, d as int),
                u64::MAX as nat,
            ) == Some(x.started_at as nat) by {
                lemma_second_number(text@, x, c as int, d as int);
            }
        }
        let started_at = match parse_digits(&text, c, d, u64::MAX) {
            Some(v) => v,
            None => {
                return None;
            },
        };
        let found = ContainerState { job_id, started_at };
        proof {
            assert forall|x: ContainerState| record_bytes(x) == bytes@ implies x == found by {}
        }
        let again = found.encode();
        if same_bytes(&again, bytes) {
            Some(found)
        } else {
            None
        }
    }
}

// ---------------------------------------------------------------------------
// The store
// ---------------------------------------------------------------------------

/// `redb::Database`, an open database. All that is said of what is inside
/// is said through `table_entries`.
#[verifier::external_type_specification]
#[verifier::external_body]
pub struct ExDatabase(redb::Database);

/// `redb::Error`, the error that every error of the store converts into.
#[verifier::external_type_specification]
#[verifier::external_body]
pub struct ExStoreError(redb::Error);

/// What the table `containers` of a database holds: each key with the bytes
/// stored under it, and nothing where the database has no such table.
pub uninterp spec fn table_entries(db: redb::Database) -> Map<Seq<char>, Seq<u8>>;

/// An index that holds nothing.
pub open spec fn empty_index() -> Map<Seq<char>, Seq<u8>> {
    Map::empty()
}

/// The order in which the store keeps its keys: that of `str`, which compares
/// character by character, a proper prefix coming first.
pub open spec fn name_lt(a: Seq<char>, b: Seq<char>) -> bool
    decreases a.len(),
{
    if b.len() == 0 {
        false
    } else if a.len() == 0 {
        true
    } else if a[0] == b[0] {
        name_lt(a.drop_first(), b.drop_first())
    } else {
        a[0] < b[0]
    }
}

/// No name comes before itself.
pub proof fn lemma_name_lt_irreflexive(a: Seq<char>)
    ensures
        !name_lt(a, a),
    decreases a.len(),
{
    if a.len() > 0 {
        lemma_name_lt_irreflexive(a.drop_first());
    }
}

/// `listed` is the whole of `entries`, each key once, in the store's order.
pub open spec fn lists_entries(
    listed: Seq<(String, Vec<u8>)>,
    entries: Map<Seq<char>, Seq<u8>>,
) -> bool {
    &&& forall|i: int, j: int|
        0 <= i < j < listed.len() ==> name_lt(#[trigger] listed[i].0@, #[trigger] listed[j].0@)
    &&& forall|i: int|
        0 <= i < listed.len() ==> entries.contains_key(#[trigger] listed[i].0@)
            && entries[listed[i].0@] == listed[i].1@
    &&& forall|name: Seq<char>| #[trigger]
        entries.contains_key(name) ==> exists|i: int|
            0 <= i < listed.len() && #[trigger] listed[i].0@ == name
}

/// `Database::create` opens the file at `path` as a database and makes a new
/// one where the file is missing or empty. What an existing file holds is not
/// known here.
#[verifier::external_body]
fn create_database(path: &str) -> Result<redb::Database, redb::Error> {
    Ok(redb::Database::create(path)?)
}

/// `Builder::create_with_backend` on a fresh `InMemoryBackend` makes a new
/// database that lives in memory. A new database has no table.
#[verifier::external_body]
fn memory_database() -> (r: Result<redb::Database, redb::Error>)
    ensures
        r matches Ok(db) ==> table_entries(db) == empty_index(),
{
    Ok(redb::Database::builder().create_with_backend(redb::backends::InMemoryBackend::new())?)
}

/// One write transaction in which `WriteTransaction::open_table` opens the
/// table, making it where it is missing. Once committed, the table holds what
/// it held.
#[verifier::external_body]
fn ensure_table(db: &mut redb::Database) -> (r: Result<(), redb::Error>)
    ensures
        r is Ok ==> table_entries(*final(db)) == table_entries(*old(db)),
{
    let txn = db.begin_write()?;
    {
        let _ = txn.open_table(redb::TableDefinition::<&str, &[u8]>::new("containers"))?;
    }
    txn.commit()?;
    Ok(())
}

/// One write transaction around `Table::insert`, which puts `data` under
/// `name` and replaces what was there. Once committed, the table holds that
/// and otherwise what it held.
#[verifier::external_body]
fn table_insert(db: &mut redb::Database, name: &str, data: &[u8]) -> (r: Result<(), redb::Error>)
    ensures
        r is Ok ==> table_entries(*final(db)) == table_entries(*old(db)).insert(name@, data@),
{
    let txn = db.begin_write()?;
    {
        let mut table = txn.open_table(redb::TableDefinition::<&str, &[u8]>::new("containers"))?;
        table.insert(name, data)?;
    }
    txn.commit()?;
    Ok(())
}

/// One read transaction around `ReadableTable::get`, which gives the bytes
/// stored under `name`, if any.
#[verifier::external_body]
fn table_get(db: &redb::Database, name: &str) -> (r: Result<Option<Vec<u8>>, redb::Error>)
    ensures
        r matches Ok(found) ==> match found {
            Some(data) => table_entries(*db).contains_key(name@) && table_entries(*db)[name@]
                == data@,
            None => !table_entries(*db).contains_key(name@),
        },
{
    let txn = db.begin_read()?;
    let table = txn.open_table(redb::TableDefinition::<&str, &[u8]>::new("containers"))?;
    let found = redb::ReadableTable::get(&table, name)?.map(|data| data.value().to_vec());
    Ok(found)
}

/// One write transaction around `Table::remove`, which takes out the entry
/// under `name` where there is one. Once committed, the table holds the rest.
#[verifier::external_body]
fn table_remove(db: &mut redb::Database, name: &str) -> (r: Result<(), redb::Error>)
    ensures
        r is Ok ==> table_entries(*final(db)) == table_entries(*old(db)).remove(name@),
{
    let txn = db.begin_write()?;
    {
        let mut table = txn.open_table(redb::TableDefinition::<&str, &[u8]>::new("containers"))?;
        table.remove(name)?;
    }
    txn.commit()?;
    Ok(())
}

/// One read transaction around `ReadableTable::iter`, which walks the whole
/// table in the order of its keys. Each entry is handed out as an owned pair.
#[verifier::external_body]
fn table_list(db: &redb::Database) -> (r: Result<Vec<(String, Vec<u8>)>, redb::Error>)
    ensures
        r matches Ok(listed) ==> lists_entries(listed@, table_entries(*db)),
{
    let txn = db.begin_read()?;
    let table = txn.open_table(redb::TableDefinition::<&str, &[u8]>::new("containers"))?;
    let listed = redb::ReadableTable::iter(&table)?
        .map(|entry| entry.map(|(key, value)| (key.value().to_string(), value.value().to_vec())))
        .collect::<Result<Vec<_>, _>>()?;
    Ok(listed)
}

/// One write transaction in which `WriteTransaction::delete_table` drops the
/// table with all it holds and `open_table` makes it anew. Once committed, the
/// table is empty.
#[verifier::external_body]
fn table_clear(db: &mut redb::Database) -> (r: Result<(), redb::Error>)
    ensures
        r is Ok ==> table_entries(*final(db)) == empty_index(),
{
    let txn = db.begin_write()?;
    txn.delete_table(redb::TableDefinition::<&str, &[u8]>::new("containers"))?;
    {
        let _ = txn.open_table(redb::TableDefinition::<&str, &[u8]>::new("containers"))?;
    }
    txn.commit()?;
    Ok(())
}

/// The store's own words for an error, as its `Display` gives them.
#[verifier::external_body]
fn store_message(error: &redb::Error) -> String {
    error.to_string()
}

/// Why an operation on the index failed.
#[derive(Debug, Clone, PartialEq, Eq)]
pub enum StateError {
    /// The store failed. The text is the store's own message.
    Storage(String),
    /// The entry under this name holds no record.
    Corrupt(String),
}

/// The index of live sandbox assignments, kept in a database file.
pub struct StateDb {
    db: redb::Database,
    /// The file that the index was opened at. An index in memory has none.
    file: Option<String>,
}

impl View for StateDb {
    type V = Map<Seq<char>, Seq<u8>>;

    /// Each name in the index with the bytes stored under it.
    closed spec fn view(&self) -> Map<Seq<char>, Seq<u8>> {
        table_entries(self.db)
    }
}

/// The file of the index in the directory `state_dir`: the directory's path,
/// a `/` unless the path is empty or ends in one, and `state.redb`.
pub open spec fn database_path(state_dir: Seq<char>) -> Seq<char> {
    if state_dir.len() == 0 || state_dir.last() == '/' {
        state_dir + "state.redb"@
    } else {
        state_dir + "/"@ + "state.redb"@
    }
}

/// `listed` is the whole of `index`, each name once with its record, in the
/// store's order.
pub open spec fn lists_index(
    listed: Seq<(String, ContainerState)>,
    index: Map<Seq<char>, Seq<u8>>,
) -> bool {
    &&& forall|i: int, j: int|
        0 <= i < j < listed.len() ==> name_lt(#[trigger] listed[i].0@, #[trigger] listed[j].0@)
    &&& forall|i: int|
        0 <= i < listed.len() ==> index.contains_key(#[trigger] listed[i].0@)
            && index[listed[i].0@] == record_bytes(listed[i].1)
    &&& forall|name: Seq<char>| #[trigger]
        index.contains_key(name) ==> exists|i: int|
            0 <= i < listed.len() && #[trigger] listed[i].0@ == name
}

/// `r` is an answer to a lookup of `name` in `index`: the record under the
/// name, nothing where the name is absent, and an error where the entry holds
/// no record. The store may fail instead.
pub open spec fn answers_lookup(
    r: Result<Option<ContainerState>, StateError>,
    index: Map<Seq<char>, Seq<u8>>,
    name: Seq<char>,
) -> bool {
    match r {
        Ok(Some(state)) => index.contains_key(name) && index[name] == record_bytes(state),
        Ok(None) => !index.contains_key(name),
        Err(StateError::Corrupt(which)) => which@ == name && is_corrupt(index, name),
        Err(StateError::Storage(_)) => true,
    }
}

/// The entry under `name` is there and holds no record.
pub open spec fn is_corrupt(index: Map<Seq<char>, Seq<u8>>, name: Seq<char>) -> bool {
    index.contains_key(name) && decode_record(index[name]) is None
}

fn storage_failure<T>(error: redb::Error) -> (r: Result<T, StateError>)
    ensures
        r matches Err(StateError::Storage(_)),
{
    Err(StateError::Storage(store_message(&error)))
}

impl StateDb {
    /// The path of the index file in the directory `state_dir`.
    pub fn database_file(state_dir: &str) -> (path: String)
        ensures
            path@ == database_path(state_dir@),
    {
        let dir = chars_of(state_dir);
        let mut path = String::from_str(state_dir);
        if dir.len() > 0 && dir[dir.len() - 1] != '/' {
            path.append("/");
        }
        path.append("state.redb");
        path
    }

    /// The file that the index is kept in. An index in memory has none.
    pub closed spec fn location(&self) -> Option<Seq<char>> {
        match self.file {
            Some(path) => Some(path@),
            None => None,
        }
    }

    /// The path of the file that the index is kept in, if it is kept in one.
    pub fn path(&self) -> (path: Option<String>)
        ensures
            match path {
                Some(file) => self.location() == Some(file@),
                None => self.location() is None,
            },
    {
        match &self.file {
            Some(file) => Some(file.clone()),
            None => None,
        }
    }

    /// Makes an index of a database that was opened at `file`, once its table
    /// is there. The index holds what the table held.
    fn with_table(db: redb::Database, file: Option<String>) -> (r: Result<StateDb, StateError>)
        ensures
            match r {
                Ok(index) => index@ == table_entries(db) && index.location() == match file {
                    Some(path) => Some(path@),
                    None => None,
                },
                Err(e) => e is Storage,
            },
    {
        let mut db = db;
        match ensure_table(&mut db) {
            Ok(()) => Ok(StateDb { db, file }),
            Err(e) => storage_failure(e),
        }
    }

    /// Open or create the state database
    ///
    /// The index is the file `state.redb` in the directory `state_dir`, which
    /// must exist. What the index holds is what the file held.
    pub fn open(state_dir: &str) -> (r: Result<StateDb, StateError>)
        ensures
            match r {
                Ok(index) => index.location() == Some(database_path(state_dir@)),
                Err(e) => e is Storage,
            },
    {
        let path = Self::database_file(state_dir);
        match create_database(path.as_str()) {
            Ok(db) => Self::with_table(db, Some(path)),
            Err(e) => storage_failure(e),
        }
    }

    /// Makes a new, empty index that lives in memory and is gone when dropped.
    pub fn in_memory() -> (r: Result<StateDb, StateError>)
        ensures
            match r {
                Ok(index) => index@ == empty_index() && index.location() is None,
                Err(e) => e is Storage,
            },
    {
        match memory_database() {
            Ok(db) => Self::with_table(db, None),
            Err(e) => storage_failure(e),
        }
    }

    /// Insert or update a container state
    pub fn put_container(&mut self, name: &str, state: &ContainerState) -> (r: Result<
        (),
        StateError,
    >)
        ensures
            match r {
                Ok(()) => final(self)@ == old(self)@.insert(name@, record_bytes(*state)),
                Err(e) => e is Storage,
            },
            final(self).location() == old(self).location(),
    {
        let data = state.encode();
        match table_insert(&mut self.db, name, data.as_slice()) {
            Ok(()) => Ok(()),
            Err(e) => storage_failure(e),
        }
    }

    /// Get a container state by name
    pub fn get_container(&self, name: &str) -> (r: Result<Option<ContainerState>, StateError>)
        ensures
            answers_lookup(r, self@, name@),
    {
        match table_get(&self.db, name) {
            Ok(Some(data)) => match ContainerState::decode(data.as_slice()) {
                Some(state) => Ok(Some(state)),
                None => Err(StateError::Corrupt(String::from_str(name))),
            },
            Ok(None) => Ok(None),
            Err(e) => storage_failure(e),
        }
    }

    /// Remove a container state
    pub fn remove_container(&mut self, name: &str) -> (r: Result<(), StateError>)
        ensures
            match r {
                Ok(()) => final(self)@ == old(self)@.remove(name@),
                Err(e) => e is Storage,
            },
            final(self).location() == old(self).location(),
    {
        match table_remove(&mut self.db, name) {
            Ok(()) => Ok(()),
            Err(e) => storage_failure(e),
        }
    }

    /// List all container states
    pub fn list_containers(&self) -> (r: Result<Vec<(String, ContainerState)>, StateError>)
        ensures
            match r {
                Ok(listed) => lists_index(listed@, self@),
                Err(StateError::Corrupt(which)) => is_corrupt(self@, which@),
                Err(StateError::Storage(_)) => true,
            },
    {
        let raw = match table_list(&self.db) {
            Ok(raw) => raw,
            Err(e) => {
                return storage_failure(e);
            },
        };
        let mut listed: Vec<(String, ContainerState)> = Vec::new();
        let mut i: usize = 0;
        while i < raw.len()
            invariant
                i <= raw.len(),
                lists_entries(raw@, self@),
                listed.len() == i,
                forall|k: int|
                    0 <= k < i ==> (#[trigger] listed@[k]).0@ == raw@[k].0@ && raw@[k].1@
                        == record_bytes(listed@[k].1),
            decreases raw.len() - i,
        {
            let state = match ContainerState::decode(raw[i].1.as_slice()) {
                Some(state) => state,
                None => {
                    assert(self@.contains_key(raw@[i as int].0@));
                    return Err(StateError::Corrupt(raw[i].0.clone()));
                },
            };
            listed.push((raw[i].0.clone(), state));
            i += 1;
        }
        proof {
            assert forall|a: int, b: int| 0 <= a < b < listed.len() implies name_lt(
                #[trigger] listed@[a].0@,
                #[trigger] listed@[b].0@,
            ) by {
                assert(name_lt(raw@[a].0@, raw@[b].0@));
            }
            assert forall|k: int| 0 <= k < listed.len() implies self@.contains_key(
                #[trigger] listed@[k].0@,
            ) && self@[listed@[k].0@] == record_bytes(listed@[k].1) by {
                assert(self@.contains_key(raw@[k].0@));
            }
            assert forall|name: Seq<char>| #[trigger] self@.contains_key(name) implies exists|
                k: int,
            |
                0 <= k < listed.len() && #[trigger] listed@[k].0@ == name by {
                let k = choose|k: int| 0 <= k < raw.len() && #[trigger] raw@[k].0@ == name;
                assert(listed@[k].0@ == name);
            }
        }
        Ok(listed)
    }

    /// Clear all container states (used during shutdown cleanup)
    pub fn clear_all(&mut self) -> (r: Result<(), StateError>)
        ensures
            match r {
                Ok(()) => final(self)@ == empty_index(),
                Err(e) => e is Storage,
            },
            final(self).location() == old(self).location(),
    {
        match table_clear(&mut self.db) {
            Ok(()) => Ok(()),
            Err(e) => storage_failure(e),
        }
    }

    /// Removes every entry whose name is not among `live`.
    pub fn remove_stale(&mut self, live: &Vec<String>) -> (r: Result<(), StateError>)
        ensures
            match r {
                Ok(()) => final(self)@ == old(self)@.restrict(texts(live@).to_set()),
                Err(StateError::Corrupt(which)) => is_corrupt(old(self)@, which@) && final(self)@
                    == old(self)@,
                Err(StateError::Storage(_)) => true,
            },
            final(self).location() == old(self).location(),
    {
        let listed = self.list_containers()?;
        let ghost before = self@;
        let ghost keep = texts(live@).to_set();
        let mut i: usize = 0;
        while i < listed.len()
            invariant
                i <= listed.len(),
                self.location() == old(self).location(),
                lists_index(listed@, before),
                keep == texts(live@).to_set(),
                forall|name: Seq<char>| #[trigger]
                    self@.contains_key(name) <==> before.contains_key(name) && (keep.contains(name)
                        || listed_from(listed@, i as int, name)),
                forall|name: Seq<char>| #[trigger]
                    self@.contains_key(name) ==> self@[name] == before[name],
            decreases listed.len() - i,
        {
            let name = listed[i].0.as_str();
            let ghost current = self@;
            proof {
                assert forall|other: Seq<char>|
                    listed_from(listed@, i as int, other) <==> (other == name@ || listed_from(
                        listed@,
                        i + 1,
                        other,
                    )) by {
                    lemma_listed_from(listed@, i as int, other);
                }
                assert(!listed_from(listed@, i + 1, name@)) by {
                    if listed_from(listed@, i + 1, name@) {
                        let k = choose|k: int|
                            i + 1 <= k < listed.len() && #[trigger] listed@[k].0@ == name@;
                        assert(name_lt(listed@[i as int].0@, listed@[k].0@));
                        lemma_name_lt_irreflexive(name@);
                    }
                }
            }
            if !has_text(live, name) {
                match self.remove_container(name) {
                    Ok(()) => {},
                    Err(e) => {
                        return Err(e);
                    },
                }
                assert forall|other: Seq<char>| #[trigger]
                    self@.contains_key(other) <==> before.contains_key(other) && (keep.contains(
                        other,
                    ) || listed_from(listed@, i + 1, other)) by {
                    assert(self@.contains_key(other) <==> current.contains_key(other) && other
                        != name@);
                }
            } else {
                assert(keep.contains(name@));
            }
            i += 1;
        }
        assert forall|name: Seq<char>| !listed_from(listed@, listed.len() as int, name) by {}
        assert(self@ =~= before.restrict(keep));
        Ok(())
    }
}

/// `name` is listed at or after the place `from`.
spec fn listed_from(listed: Seq<(String, ContainerState)>, from: int, name: Seq<char>) -> bool {
    exists|k: int| from <= k < listed.len() && #[trigger] listed[k].0@ == name
}

proof fn lemma_listed_from(listed: Seq<(String, ContainerState)>, from: int, name: Seq<char>)
    requires
        0 <= from < listed.len(),
    ensures
        listed_from(listed, from, name) <==> (listed[from].0@ == name || listed_from(
            listed,
            from + 1,
            name,
        )),
{
    if listed_from(listed, from, name) {
        let k = choose|k: int| from <= k < listed.len() && #[trigger] listed[k].0@ == name;
        if k != from {
            assert(from + 1 <= k);
        }
    }
    if listed_from(listed, from + 1, name) {
        let k = choose|k: int| from + 1 <= k < listed.len() && #[trigger] listed[k].0@ == name;
        assert(from <= k);
    }
}

// ---------------------------------------------------------------------------
// What holds of the index
// ---------------------------------------------------------------------------

/// What a lookup of `name` finds in `index`, when the store does not fail:
/// the record under the name, nothing where the name is absent.
pub open spec fn found_in(index: Map<Seq<char>, Seq<u8>>, name: Seq<char>) -> Option<
    ContainerState,
> {
    if index.contains_key(name) {
        decode_record(index[name])
    } else {
        None
    }
}

/// A record that was put under a name is the record found under it: a
/// lookup of the name in the index as it is after the put answers with that
/// record, unless the store fails.
pub proof fn lemma_put_then_get(
    index: Map<Seq<char>, Seq<u8>>,
    name: Seq<char>,
    state: ContainerState,
    r: Result<Option<ContainerState>, StateError>,
)
    requires
        answers_lookup(r, index.insert(name, record_bytes(state)), name),
    ensures
        r == Ok::<Option<ContainerState>, StateError>(Some(state)) || r matches Err(
            StateError::Storage(_),
        ),
        found_in(index.insert(name, record_bytes(state)), name) == Some(state),
{
    lemma_record_round_trip(state);
    if let Ok(Some(found)) = r {
        lemma_record_injective(found, state);
    }
}

/// Putting under one name changes nothing under another.
pub proof fn lemma_put_keeps_others(
    index: Map<Seq<char>, Seq<u8>>,
    name: Seq<char>,
    state: ContainerState,
    other: Seq<char>,
)
    requires
        other != name,
    ensures
        found_in(index.insert(name, record_bytes(state)), other) == found_in(index, other),
        index.insert(name, record_bytes(state)).contains_key(other) == index.contains_key(other),
{
}

/// After a name is removed a lookup of it answers with nothing, unless the
/// store fails. Removing the name again changes nothing, and neither does
/// removing a name that is absent.
pub proof fn lemma_remove_then_get(
    index: Map<Seq<char>, Seq<u8>>,
    name: Seq<char>,
    r: Result<Option<ContainerState>, StateError>,
)
    requires
        answers_lookup(r, index.remove(name), name),
    ensures
        r == Ok::<Option<ContainerState>, StateError>(None) || r matches Err(
            StateError::Storage(_),
        ),
        found_in(index.remove(name), name) is None,
        index.remove(name).remove(name) == index.remove(name),
        !index.contains_key(name) ==> index.remove(name) == index,
{
    assert(index.remove(name).remove(name) =~= index.remove(name));
    if !index.contains_key(name) {
        assert(index.remove(name) =~= index);
    }
}

/// A listing of the index as it is after a clear is empty.
pub proof fn lemma_clear_then_list(listed: Seq<(String, ContainerState)>)
    requires
        lists_index(listed, empty_index()),
    ensures
        listed.len() == 0,
{
    if listed.len() > 0 {
        assert(empty_index().contains_key(listed[0].0@));
    }
}

} // verus!
