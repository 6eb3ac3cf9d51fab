//! What the PostgreSQL source decides and says: the connection URL without
//! its replication parameter, the commands that create a slot and start
//! replication, and the verdict on a table's replica identity.
//!
//! Nothing here talks to a server. The program around the library opens
//! the sessions, sends these commands and hands back what the server
//! answered.

use vstd::prelude::*;
use vstd::string::StringExecFns;
use crate::text::{
    chars_of,
    copy_range,
    find_first,
    first_index_of,
    lemma_first_index_in_range,
    lemma_first_index_of,
    push_all,
    same_chars,
    string_of,
};
use crate::wire::{format_lsn, spec_format_lsn};

verus! {

/// The pair of key and value that asks for a replication session.
pub open spec fn replication_pair() -> Seq<char> {
    "replication=database"@
}

/// The pairs of a query string: what stands between its `&`, in order. A
/// query string has one pair more than it has `&`.
pub open spec fn query_pairs(query: Seq<char>) -> Seq<Seq<char>>
    decreases query.len(),
{
    if query.len() == 0 {
        seq![Seq::empty()]
    } else {
        let before = query_pairs(query.drop_last());
        if query.last() == '&' {
            before.push(Seq::empty())
        } else {
            before.drop_last().push(before.last().push(query.last()))
        }
    }
}

/// The pairs but for those that ask for a replication session, in order.
pub open spec fn other_pairs(pairs: Seq<Seq<char>>) -> Seq<Seq<char>>
    decreases pairs.len(),
{
    if pairs.len() == 0 {
        Seq::empty()
    } else if pairs.last() == replication_pair() {
        other_pairs(pairs.drop_last())
    } else {
        other_pairs(pairs.drop_last()).push(pairs.last())
    }
}

/// The pairs as a query string, with `&` between them.
pub open spec fn joined_pairs(pairs: Seq<Seq<char>>) -> Seq<char>
    decreases pairs.len(),
{
    if pairs.len() == 0 {
        Seq::empty()
    } else if pairs.len() == 1 {
        pairs[0]
    } else {
        joined_pairs(pairs.drop_last()) + seq!['&'] + pairs.last()
    }
}

/// What stands for the pairs `kept` behind a URL's path: nothing where
/// there is none, else `?` and the pairs.
pub open spec fn query_suffix(kept: Seq<Seq<char>>) -> Seq<char> {
    if kept.len() == 0 {
        Seq::empty()
    } else {
        seq!['?'] + joined_pairs(kept)
    }
}

/// The URL without any `replication=database` pair in its query string.
///
/// The query string is what follows the first `?`. Every pair in it that
/// is `replication=database` is taken out; the others stay as they are and
/// in their order. Where no pair is left, the `?` goes as well. A URL
/// without a query string stays as it is.
pub open spec fn spec_clean_replication_url(url: Seq<char>) -> Seq<char> {
    let mark = first_index_of(url, '?', '?');
    if mark >= url.len() {
        url
    } else {
        url.take(mark) + query_suffix(other_pairs(query_pairs(url.skip(mark + 1))))
    }
}

/// A query string has at least one pair.
pub proof fn lemma_query_pairs_not_empty(query: Seq<char>)
    ensures
        query_pairs(query).len() >= 1,
    decreases query.len(),
{
    if query.len() > 0 {
        lemma_query_pairs_not_empty(query.drop_last());
    }
}

/// Appends `pair` to `out` as one more pair of a query string: behind `?`
/// if it is the first pair, behind `&` if it is not.
fn push_pair(out: &mut Vec<char>, first: bool, pair: &Vec<char>)
    ensures
        final(out)@ == old(out)@ + if first {
            seq!['?']
        } else {
            seq!['&']
        } + pair@,
{
    if first {
        out.push('?');
    } else {
        out.push('&');
    }
    push_all(out, pair);
}

/// Removes the `replication=database` pair from the query string of a
/// connection URL, so that the URL opens an ordinary session.
pub fn clean_replication_url(url: &str) -> (r: String)
    ensures
        r@ == spec_clean_replication_url(url@),
{
    let chars = chars_of(url);
    let n = chars.len();
    let mark = find_first(&chars, n, '?', '?');
    assert(chars@.take(n as int) == chars@);
    if mark == n {
        return url.to_owned();
    }
    let unwanted = chars_of("replication=database");
    let mut out = copy_range(&chars, 0, mark);
    assert(chars@.subrange(0, mark as int) == chars@.take(mark as int));
    let ghost path = chars@.take(mark as int);
    let ghost query = chars@.skip(mark + 1);
    let mut any_kept = false;
    let mut current: Vec<char> = Vec::new();
    let mut i: usize = mark + 1;
    let ghost mut closed: Seq<Seq<char>> = Seq::empty();
    assert(query.take(0) == Seq::<char>::empty());
    assert(query_pairs(query.take(0)) == closed.push(current@));
    while i < n
        invariant
            mark < i <= n == chars@.len(),
            path == chars@.take(mark as int),
            query == chars@.skip(mark + 1),
            unwanted@ == replication_pair(),
            query_pairs(query.take(i - mark - 1)) == closed.push(current@),
            any_kept == (other_pairs(closed).len() > 0),
            out@ == path + query_suffix(other_pairs(closed)),
        decreases n - i,
    {
        let c = chars[i];
        proof {
            let longer = query.take(i - mark);
            assert(longer.drop_last() == query.take(i - mark - 1));
            assert(longer.last() == c);
            assert(closed.push(current@).drop_last() == closed);
            assert(closed.push(current@).last() == current@);
        }
        if c == '&' {
            let ghost pairs = closed.push(current@);
            assert(pairs.drop_last() == closed);
            if !same_chars(&current, &unwanted) {
                push_pair(&mut out, !any_kept, &current);
                proof {
                    let kept = other_pairs(closed);
                    assert(other_pairs(pairs) == kept.push(current@));
                    assert(kept.push(current@).drop_last() == kept);
                    assert(out@ =~= path + query_suffix(kept.push(current@)));
                }
                any_kept = true;
            }
            proof {
                closed = pairs;
            }
            current = Vec::new();
        } else {
            current.push(c);
        }
        i += 1;
    }
    assert(query.take(query.len() as int) == query);
    let ghost pairs = closed.push(current@);
    assert(pairs.drop_last() == closed);
    if !same_chars(&current, &unwanted) {
        push_pair(&mut out, !any_kept, &current);
        proof {
            let kept = other_pairs(closed);
            assert(other_pairs(pairs) == kept.push(current@));
            assert(kept.push(current@).drop_last() == kept);
            assert(out@ =~= path + query_suffix(kept.push(current@)));
        }
    }
    string_of(&out)
}

/// The pairs of a query string, joined again, are the query string.
pub proof fn lemma_joined_query_pairs(query: Seq<char>)
    ensures
        joined_pairs(query_pairs(query)) == query,
    decreases query.len(),
{
    if query.len() == 0 {
        assert(joined_pairs(seq![Seq::<char>::empty()]) =~= query);
    } else {
        let shorter = query.drop_last();
        let before = query_pairs(shorter);
        lemma_joined_query_pairs(shorter);
        lemma_query_pairs_not_empty(shorter);
        assert(shorter.push(query.last()) =~= query);
        if query.last() == '&' {
            let pairs = before.push(Seq::empty());
            assert(pairs.drop_last() == before);
            assert(joined_pairs(pairs) =~= shorter.push('&'));
        } else {
            let grown = before.last().push(query.last());
            let pairs = before.drop_last().push(grown);
            assert(pairs.drop_last() == before.drop_last());
            assert(pairs.last() == grown);
            if before.len() == 1 {
                assert(before[0] == before.last());
                assert(pairs[0] == grown);
            } else {
                assert(joined_pairs(pairs) =~= (joined_pairs(before.drop_last()) + seq!['&']
                    + before.last()).push(query.last()));
            }
            assert(joined_pairs(pairs) =~= shorter.push(query.last()));
        }
    }
}

/// Where no pair asks for a replication session, all pairs stay.
pub proof fn lemma_other_pairs_all(pairs: Seq<Seq<char>>)
    requires
        forall|i: int| 0 <= i < pairs.len() ==> #[trigger] pairs[i] != replication_pair(),
    ensures
        other_pairs(pairs) == pairs,
    decreases pairs.len(),
{
    if pairs.len() > 0 {
        assert forall|i: int| 0 <= i < pairs.drop_last().len() implies #[trigger] pairs.drop_last()[i]
            != replication_pair() by {
            assert(pairs.drop_last()[i] == pairs[i]);
        }
        lemma_other_pairs_all(pairs.drop_last());
        assert(pairs.last() == pairs[pairs.len() - 1]);
        assert(pairs.drop_last().push(pairs.last()) =~= pairs);
    } else {
        assert(other_pairs(pairs) =~= pairs);
    }
}

/// A URL whose query string holds no `replication=database` pair stays as
/// it is.
pub proof fn lemma_url_without_pair_is_kept(url: Seq<char>)
    requires
        ({
            let mark = first_index_of(url, '?', '?');
            let pairs = query_pairs(url.skip(mark + 1));
            mark < url.len() ==> forall|i: int|
                0 <= i < pairs.len() ==> #[trigger] pairs[i] != replication_pair()
        }),
    ensures
        spec_clean_replication_url(url) == url,
{
    let mark = first_index_of(url, '?', '?');
    if mark < url.len() {
        let query = url.skip(mark + 1);
        lemma_first_index_in_range(url, '?', '?');
        lemma_other_pairs_all(query_pairs(query));
        lemma_query_pairs_not_empty(query);
        lemma_joined_query_pairs(query);
        assert(url[mark] == '?');
        assert(url.take(mark) + seq!['?'] + query =~= url);
    }
}

/// Where `replication=database` is the first pair of several, the `?`
/// stays and the next pair follows it.
pub proof fn lemma_first_pair_removed(path: Seq<char>, rest: Seq<char>)
    requires
        !path.contains('?'),
        !rest.contains('&'),
        rest != replication_pair(),
    ensures
        spec_clean_replication_url(path + seq!['?'] + replication_pair() + seq!['&'] + rest)
            == path + seq!['?'] + rest,
{
    let url = path + seq!['?'] + replication_pair() + seq!['&'] + rest;
    let query = replication_pair() + seq!['&'] + rest;
    assert(url[path.len() as int] == '?');
    assert forall|k: int| 0 <= k < path.len() implies url[k] != '?' by {
        assert(url[k] == path[k]);
    }
    lemma_first_index_of(url, '?', '?', path.len() as int);
    assert(url.take(path.len() as int) =~= path);
    assert(url.skip(path.len() as int + 1) =~= query);
    reveal_strlit("replication=database");
    lemma_pairs_extended(replication_pair(), rest, rest.len() as int);
    assert(rest.take(rest.len() as int) == rest);
    let pairs = seq![replication_pair(), rest];
    assert(query_pairs(query) == pairs);
    assert(pairs.drop_last() =~= seq![replication_pair()]);
    assert(seq![replication_pair()].drop_last() =~= Seq::<Seq<char>>::empty());
    assert(seq![replication_pair()].last() == replication_pair());
    assert(other_pairs(seq![replication_pair()].drop_last()).len() == 0);
    assert(other_pairs(seq![replication_pair()]) =~= Seq::<Seq<char>>::empty());
    assert(other_pairs(pairs) =~= seq![rest]);
    assert(joined_pairs(seq![rest]) == rest);
}

/// Text without `&` is one pair.
proof fn lemma_pairs_of_one(pair: Seq<char>)
    requires
        !pair.contains('&'),
    ensures
        query_pairs(pair) == seq![pair],
    decreases pair.len(),
{
    if pair.len() > 0 {
        assert forall|k: int| 0 <= k < pair.drop_last().len() implies pair.drop_last()[k]
            != '&' by {
            assert(pair.drop_last()[k] == pair[k]);
        }
        lemma_pairs_of_one(pair.drop_last());
        assert(pair.last() == pair[pair.len() - 1]);
        assert(pair.drop_last().push(pair.last()) =~= pair);
        assert(seq![pair.drop_last()].drop_last().push(pair.drop_last().push(pair.last()))
            =~= seq![pair]);
    } else {
        assert(Seq::<char>::empty() =~= pair);
        assert(seq![Seq::<char>::empty()] =~= seq![pair]);
    }
}

/// One pair, `&`, and the first `k` characters of text without `&` are two
/// pairs.
proof fn lemma_pairs_extended(first: Seq<char>, rest: Seq<char>, k: int)
    requires
        !first.contains('&'),
        !rest.contains('&'),
        0 <= k <= rest.len(),
    ensures
        query_pairs(first + seq!['&'] + rest.take(k)) == seq![first, rest.take(k)],
    decreases k,
{
    let whole = first + seq!['&'] + rest.take(k);
    if k == 0 {
        lemma_pairs_of_one(first);
        assert(whole.drop_last() =~= first);
        assert(whole.last() == '&');
        assert(rest.take(0) =~= Seq::<char>::empty());
        assert(seq![first].push(Seq::<char>::empty()) =~= seq![first, rest.take(0)]);
    } else {
        lemma_pairs_extended(first, rest, k - 1);
        assert(whole.drop_last() =~= first + seq!['&'] + rest.take(k - 1));
        assert(whole.last() == rest[k - 1]);
        let before = seq![first, rest.take(k - 1)];
        assert(before.drop_last().push(before.last().push(rest[k - 1])) =~= seq![
            first,
            rest.take(k),
        ]) by {
            assert(rest.take(k - 1).push(rest[k - 1]) =~= rest.take(k));
        }
    }
}

/// The query that creates the logical replication slot `slot_name` for the
/// `pgoutput` plugin.
pub open spec fn spec_create_slot_query(slot_name: Seq<char>) -> Seq<char> {
    "SELECT pg_create_logical_replication_slot('"@ + slot_name + "', 'pgoutput')"@
}

/// Builds the query that creates the replication slot.
pub fn create_slot_query(slot_name: &str) -> (r: String)
    ensures
        r@ == spec_create_slot_query(slot_name@),
{
    let mut query = String::from_str("SELECT pg_create_logical_replication_slot('");
    query.append(slot_name);
    query.append("', 'pgoutput')");
    query
}

/// The SQLSTATE with which PostgreSQL reports that an object exists
/// already: `42710`, `duplicate_object`.
pub open spec fn duplicate_object_state() -> Seq<char> {
    "42710"@
}

/// Whether a failure to create the replication slot may be passed over,
/// given the SQLSTATE that the server reported, if it reported one: only
/// where the slot exists already. Any other failure is to be reported.
pub fn slot_exists_already(sqlstate: Option<&str>) -> (r: bool)
    ensures
        r == (sqlstate matches Some(state) && state@ == duplicate_object_state()),
{
    match sqlstate {
        Some(state) => {
            let reported = chars_of(state);
            let duplicate = chars_of("42710");
            same_chars(&reported, &duplicate)
        },
        None => false,
    }
}

/// The command that starts logical replication on `slot_name` from
/// `start_lsn`, for the tables of `publication_name`, in version 1 of the
/// protocol.
pub open spec fn spec_start_replication_query(
    slot_name: Seq<char>,
    start_lsn: u64,
    publication_name: Seq<char>,
) -> Seq<char> {
    "START_REPLICATION SLOT "@ + slot_name + " LOGICAL "@ + spec_format_lsn(start_lsn)
        + " (proto_version '1', publication_names '"@ + publication_name + "')"@
}

/// Builds the `START_REPLICATION` command. A `start_lsn` of zero starts
/// from the slot's consistent point.
pub fn start_replication_query(slot_name: &str, start_lsn: u64, publication_name: &str) -> (r:
    String)
    ensures
        r@ == spec_start_replication_query(slot_name@, start_lsn, publication_name@),
{
    let lsn = format_lsn(start_lsn);
    let mut query = String::from_str("START_REPLICATION SLOT ");
    query.append(slot_name);
    query.append(" LOGICAL ");
    query.append(lsn.as_str());
    query.append(" (proto_version '1', publication_names '");
    query.append(publication_name);
    query.append("')");
    query
}

/// A table's schema and name.
pub struct TableName {
    pub schema: String,
    pub name: String,
}

/// The schema that a table without one belongs to.
pub open spec fn default_schema() -> Seq<char> {
    "public"@
}

/// The schema of the table `table`: what stands before its first `.`, or
/// the default schema where it has none.
pub open spec fn spec_table_schema(table: Seq<char>) -> Seq<char> {
    let dot = first_index_of(table, '.', '.');
    if dot < table.len() {
        table.take(dot)
    } else {
        default_schema()
    }
}

/// The name of the table `table`: what stands between its first `.` and
/// the next, or all of it where it has no `.`.
pub open spec fn spec_table_name(table: Seq<char>) -> Seq<char> {
    let dot = first_index_of(table, '.', '.');
    if dot < table.len() {
        let rest = table.skip(dot + 1);
        rest.take(first_index_of(rest, '.', '.'))
    } else {
        table
    }
}

/// Splits `schema.table` into its two parts; a table without schema
/// belongs to `public`.
pub fn split_table_name(table: &str) -> (r: TableName)
    ensures
        r.schema@ == spec_table_schema(table@),
        r.name@ == spec_table_name(table@),
{
    let chars = chars_of(table);
    let n = chars.len();
    let dot = find_first(&chars, n, '.', '.');
    assert(chars@.take(n as int) == chars@);
    if dot == n {
        return TableName { schema: String::from_str("public"), name: table.to_owned() };
    }
    let schema = copy_range(&chars, 0, dot);
    assert(chars@.subrange(0, dot as int) == chars@.take(dot as int));
    let rest = copy_range(&chars, dot + 1, n);
    assert(rest@ == chars@.skip(dot + 1));
    let end = find_first(&rest, rest.len(), '.', '.');
    assert(rest@.take(rest@.len() as int) == rest@);
    let name = copy_range(&rest, 0, end);
    assert(rest@.subrange(0, end as int) == rest@.take(end as int));
    TableName { schema: string_of(&schema), name: string_of(&name) }
}

/// The query that asks the catalog for a table's replica identity and
/// name. Its first parameter is the table's name, its second the table's
/// schema.
pub open spec fn spec_replica_identity_query() -> Seq<char> {
    "SELECT c.relreplident, c.relname FROM pg_class c JOIN pg_namespace n ON c.relnamespace = n.oid WHERE c.relname = $1 AND n.nspname = COALESCE($2, 'public')"@
}

/// The query for a table's replica identity, to be run with the two parts
/// of the table's name.
pub fn replica_identity_query() -> (r: &'static str)
    ensures
        r@ == spec_replica_identity_query(),
{
    "SELECT c.relreplident, c.relname FROM pg_class c JOIN pg_namespace n ON c.relnamespace = n.oid WHERE c.relname = $1 AND n.nspname = COALESCE($2, 'public')"
}

/// The replica identity of a table, which decides what UPDATE and DELETE
/// messages carry of the old row.
#[derive(Clone, Copy, Debug, PartialEq, Eq, Structural)]
pub enum ReplicaIdentity {
    /// `f`: all columns.
    Full,
    /// `d`: the primary key.
    Default,
    /// `i`: the columns of a unique index.
    Index,
    /// `n`: nothing.
    Nothing,
    /// A code that PostgreSQL does not document.
    Unknown(u8),
}

/// The replica identity that `pg_class.relreplident` names by the
/// character `code`.
pub open spec fn spec_replica_identity(code: i8) -> ReplicaIdentity {
    if code == 'f' as u8 as i8 {
        ReplicaIdentity::Full
    } else if code == 'd' as u8 as i8 {
        ReplicaIdentity::Default
    } else if code == 'i' as u8 as i8 {
        ReplicaIdentity::Index
    } else if code == 'n' as u8 as i8 {
        ReplicaIdentity::Nothing
    } else if code >= 0 {
        ReplicaIdentity::Unknown(code as u8)
    } else {
        ReplicaIdentity::Unknown((code + 256) as u8)
    }
}

/// Reads a replica identity code as the catalog stores it.
pub fn replica_identity_of(code: i8) -> (r: ReplicaIdentity)
    ensures
        r == spec_replica_identity(code),
{
    if code == 102 {
        ReplicaIdentity::Full
    } else if code == 100 {
        ReplicaIdentity::Default
    } else if code == 105 {
        ReplicaIdentity::Index
    } else if code == 110 {
        ReplicaIdentity::Nothing
    } else if code >= 0 {
        ReplicaIdentity::Unknown(code as u8)
    } else {
        ReplicaIdentity::Unknown((code as i16 + 256) as u8)
    }
}

/// What to make of a table's replica identity.
#[derive(Clone, Copy, Debug, PartialEq, Eq, Structural)]
pub enum IdentityVerdict {
    /// The table sends whole rows: nothing to report.
    Accepted,
    /// Replication can go on, but deletes will carry the key only: warn.
    Warning,
    /// Replication can go on: mention that `FULL` would serve better.
    Notice,
    /// The table cannot be replicated: stop.
    Fatal,
}

impl ReplicaIdentity {
    /// The verdict on this replica identity: `FULL` is accepted,
    /// `NOTHING` is fatal, `INDEX` is worth a notice, and `DEFAULT` or an
    /// unknown code a warning.
    pub open spec fn spec_verdict(self) -> IdentityVerdict {
        match self {
            ReplicaIdentity::Full => IdentityVerdict::Accepted,
            ReplicaIdentity::Default => IdentityVerdict::Warning,
            ReplicaIdentity::Index => IdentityVerdict::Notice,
            ReplicaIdentity::Nothing => IdentityVerdict::Fatal,
            ReplicaIdentity::Unknown(_) => IdentityVerdict::Warning,
        }
    }

    pub fn verdict(&self) -> (r: IdentityVerdict)
        ensures
            r == self.spec_verdict(),
    {
        match self {
            ReplicaIdentity::Full => IdentityVerdict::Accepted,
            ReplicaIdentity::Default => IdentityVerdict::Warning,
            ReplicaIdentity::Index => IdentityVerdict::Notice,
            ReplicaIdentity::Nothing => IdentityVerdict::Fatal,
            ReplicaIdentity::Unknown(_) => IdentityVerdict::Warning,
        }
    }
}

/// The error that reports a table without replica identity: `relname` is
/// the table's name in the catalog, `table` the name it was asked for by.
pub open spec fn spec_identity_error(relname: Seq<char>, table: Seq<char>) -> Seq<char> {
    "Table '"@ + relname
        + "' has REPLICA IDENTITY NOTHING. This is not supported for CDC. Run: ALTER TABLE "@
        + table + " REPLICA IDENTITY FULL;"@
}

/// Judges the replica identity `code` of the table `table`, known to the
/// catalog as `relname`. The table is refused, with a message that says
/// how to mend it, if and only if its replica identity is `NOTHING`.
pub fn check_replica_identity(code: i8, relname: &str, table: &str) -> (r: Result<
    ReplicaIdentity,
    String,
>)
    ensures
        match r {
            Ok(identity) => identity == spec_replica_identity(code) && identity.spec_verdict()
                != IdentityVerdict::Fatal,
            Err(message) => spec_replica_identity(code) == ReplicaIdentity::Nothing && message@
                == spec_identity_error(relname@, table@),
        },
{
    let identity = replica_identity_of(code);
    match identity.verdict() {
        IdentityVerdict::Fatal => {
            let mut message = String::from_str("Table '");
            message.append(relname);
            message.append(
                "' has REPLICA IDENTITY NOTHING. This is not supported for CDC. Run: ALTER TABLE ",
            );
            message.append(table);
            message.append(" REPLICA IDENTITY FULL;");
            Err(message)
        },
        _ => Ok(identity),
    }
}

} // verus!
