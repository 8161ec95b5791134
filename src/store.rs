//! One category of the work queue: its shard tables, its rotating cursor, and
//! the statements that create, fill, drain and prune them.
use vstd::prelude::*;
use crate::batch::{batch_counts, batch_text, counts_before, is_split, split_batches, texts, Batch};
use crate::fetch::FullCombo;
use crate::random::{is_lower_hex, random_below, random_suffix};
use crate::statement::{
    escape, id_prefix, id_text, insert_statement, insert_text, lemma_id_routes_to_its_table,
    push_escaped, push_table_name, table_name,
};
use crate::text::{chars_of, decimal, is_digit, lemma_decimal_digits, push_char, push_decimal, same_text, string_of};

verus! {

broadcast use vstd::string::group_string_axioms;

/// The keyspace a request path segment selects: `discord` and `valid` name
/// their own, anything else falls back to `email`.
pub open spec fn keyspace_of(segment: Seq<char>) -> Seq<char> {
    if segment == "discord"@ {
        "discord"@
    } else if segment == "valid"@ {
        "valid"@
    } else {
        "email"@
    }
}

/// The cursor value after `c` on a keyspace with `n` shard tables: the next
/// table, wrapping to 0 after the last one (`n - 1`), so that every value the
/// cursor takes names a table that exists.
pub open spec fn next_cursor(c: nat, n: nat) -> nat {
    if c + 1 < n {
        c + 1
    } else {
        0
    }
}

/// The cursor value after `k` advances from `c`.
pub open spec fn cursor_after(c: nat, n: nat, k: nat) -> nat
    decreases k,
{
    if k == 0 {
        c
    } else {
        next_cursor(cursor_after(c, n, (k - 1) as nat), n)
    }
}

/// Round robin: from any valid cursor, after any number of advances (one for
/// each item added, one for each fetch) the cursor is the start moved on by
/// that many places modulo the table count, so every shard index that is ever
/// used lies in `[0, n)`.
pub proof fn lemma_round_robin(c: nat, n: nat, k: nat)
    requires
        c < n,
    ensures
        cursor_after(c, n, k) as int == (c + k) as int % (n as int),
        cursor_after(c, n, k) < n,
    decreases k,
{
    if k == 0 {
        vstd::arithmetic::div_mod::lemma_small_mod(c, n);
    } else {
        lemma_round_robin(c, n, (k - 1) as nat);
        let m = cursor_after(c, n, (k - 1) as nat);
        vstd::arithmetic::div_mod::lemma_add_mod_noop((c + k - 1) as int, 1, n as int);
        if n == 1 {
            vstd::arithmetic::div_mod::lemma_mod_self_0(1);
        } else {
            vstd::arithmetic::div_mod::lemma_small_mod(1, n);
        }
        if m + 1 < n {
            vstd::arithmetic::div_mod::lemma_small_mod((m + 1) as nat, n);
        } else {
            vstd::arithmetic::div_mod::lemma_mod_self_0(n as int);
        }
    }
}

/// The name of the keyspace that a request path segment selects.
pub fn select_keyspace(segment: &str) -> (r: String)
    ensures
        r@ == keyspace_of(segment@),
{
    if same_text(segment, "discord") {
        String::from_str("discord")
    } else if same_text(segment, "valid") {
        String::from_str("valid")
    } else {
        String::from_str("email")
    }
}

/// Text of the statement that creates a keyspace.
pub open spec fn create_keyspace_text(keyspace: Seq<char>) -> Seq<char> {
    "CREATE KEYSPACE IF NOT EXISTS "@ + keyspace
        + " WITH REPLICATION = { 'class' : 'SimpleStrategy', 'replication_factor' : 1 }"@
}

/// Text of the statement that creates one shard table.
pub open spec fn create_table_text(table: Seq<char>) -> Seq<char> {
    "CREATE TABLE IF NOT EXISTS "@ + table
        + " (id text PRIMARY KEY, email text, passw text, lastcheck timestamp, p text)"@
}

/// One credential pair to queue.
pub struct Combo {
    pub email: String,
    pub password: String,
}

/// The insert statement of an item written to shard `shard`.
pub open spec fn combo_row(
    keyspace: Seq<char>,
    shard: nat,
    email: Seq<char>,
    password: Seq<char>,
    params: Seq<char>,
    suffix: Seq<char>,
) -> Seq<char> {
    insert_text(table_name(keyspace, decimal(shard)), email, password, params, id_text(shard, suffix))
}

/// The insert statements of `combos` written from a keyspace whose cursor
/// stands at `cursor`: item `j` goes to the shard of the `j + 1`-th advance,
/// with random suffix `suffixes[j]`.
pub open spec fn planned_rows(
    keyspace: Seq<char>,
    cursor: nat,
    total: nat,
    combos: Seq<Combo>,
    params: Seq<char>,
    suffixes: Seq<Seq<char>>,
) -> Seq<Seq<char>> {
    Seq::new(
        combos.len(),
        |j: int|
            combo_row(
                keyspace,
                cursor_after(cursor, total, (j + 1) as nat),
                combos[j].email@,
                combos[j].password@,
                params,
                suffixes[j],
            ),
    )
}

/// The batches of `rows`, as [`split_batches`] cuts them.
pub open spec fn batches_of(rows: Seq<Seq<char>>, batches: Seq<Batch>) -> bool {
    &&& is_split(rows, batch_counts(batches))
    &&& forall|b: int|
        0 <= b < batches.len() ==> #[trigger] batches[b].statement@ == batch_text(
            rows,
            counts_before(batch_counts(batches), b),
            counts_before(batch_counts(batches), b) + batches[b].count,
        )
}

/// A random id suffix: eight lowercase hexadecimal digits.
pub open spec fn is_suffix(s: Seq<char>) -> bool {
    s.len() == 8 && forall|k: int| 0 <= k < 8 ==> is_lower_hex(#[trigger] s[k])
}

/// A shard label: a non-empty run of decimal digits.
pub open spec fn is_shard_label(p: Seq<char>) -> bool {
    p.len() > 0 && forall|k: int| 0 <= k < p.len() ==> is_digit(#[trigger] p[k])
}

/// Text of the statement that deletes item `id` from `table`.
pub open spec fn delete_text(table: Seq<char>, id: Seq<char>) -> Seq<char> {
    "DELETE FROM "@ + table + " WHERE id = '"@ + escape(id) + "'"@
}

/// The delete statement for item `id`, where its prefix is a shard label.
pub open spec fn delete_for(keyspace: Seq<char>, id: Seq<char>) -> Option<Seq<char>> {
    if is_shard_label(id_prefix(id)) {
        Some(delete_text(table_name(keyspace, id_prefix(id)), id))
    } else {
        None
    }
}

/// The delete statements for `ids`, in order, skipping malformed ids.
pub open spec fn delete_list(keyspace: Seq<char>, ids: Seq<Seq<char>>) -> Seq<Seq<char>>
    decreases ids.len(),
{
    if ids.len() == 0 {
        Seq::empty()
    } else {
        let before = delete_list(keyspace, ids.drop_last());
        match delete_for(keyspace, ids.last()) {
            Some(d) => before.push(d),
            None => before,
        }
    }
}

/// Text of the query that reads up to `limit` items from `table`.
pub open spec fn select_text(table: Seq<char>, limit: nat) -> Seq<char> {
    "SELECT * FROM "@ + table + " LIMIT "@ + decimal(limit) + " ALLOW FILTERING"@
}

/// Every item a fetch hands out is deleted from the table it was written to:
/// for items whose ids were generated for shards `shards`, the delete list
/// holds one statement per item, in order, each aimed at that item's own
/// shard table and keyed by its id.
pub proof fn lemma_fetched_items_are_deleted(
    keyspace: Seq<char>,
    shards: Seq<nat>,
    suffixes: Seq<Seq<char>>,
)
    requires
        shards.len() == suffixes.len(),
    ensures
        ({
            let ids = Seq::new(shards.len(), |k: int| id_text(shards[k], suffixes[k]));
            &&& delete_list(keyspace, ids).len() == ids.len()
            &&& forall|k: int|
                0 <= k < ids.len() ==> #[trigger] delete_list(keyspace, ids)[k] == delete_text(
                    table_name(keyspace, decimal(shards[k])),
                    ids[k],
                )
        }),
    decreases shards.len(),
{
    let ids = Seq::new(shards.len(), |k: int| id_text(shards[k], suffixes[k]));
    if shards.len() > 0 {
        let n = shards.len() - 1;
        lemma_fetched_items_are_deleted(keyspace, shards.drop_last(), suffixes.drop_last());
        let before = Seq::new(
            shards.drop_last().len(),
            |k: int| id_text(shards.drop_last()[k], suffixes.drop_last()[k]),
        );
        assert(ids.drop_last() =~= before);
        lemma_id_routes_to_its_table(keyspace, shards[n], suffixes[n]);
        lemma_decimal_digits(shards[n]);
        assert(is_shard_label(id_prefix(ids.last())));
        assert forall|k: int| 0 <= k < ids.len() implies #[trigger] delete_list(keyspace, ids)[k]
            == delete_text(table_name(keyspace, decimal(shards[k])), ids[k]) by {
            if k < n {
                assert(delete_list(keyspace, before)[k] == delete_text(
                    table_name(keyspace, decimal(shards.drop_last()[k])),
                    before[k],
                ));
            }
        }
    }
}

/// One category of the queue. `index` is the rotating cursor: the shard
/// table the last write or fetch went to.
pub struct Keyspace {
    keyspace: String,
    index: usize,
    total_tables: usize,
}

impl Keyspace {
    /// The keyspace's name.
    pub closed spec fn name(&self) -> Seq<char> {
        self.keyspace@
    }

    /// The cursor's value.
    pub closed spec fn cursor(&self) -> nat {
        self.index as nat
    }

    /// The number of shard tables.
    pub closed spec fn total(&self) -> nat {
        self.total_tables as nat
    }

    /// There is at least one table, and the cursor names one of them.
    pub open spec fn wf(&self) -> bool {
        0 < self.total() && self.cursor() < self.total()
    }

    /// The keyspace that `keyspace` selects, with `total_tables` shard tables
    /// and its cursor at a random table, so that restarts spread their first
    /// writes.
    pub fn from(keyspace: &str, total_tables: usize) -> (r: Keyspace)
        requires
            total_tables > 0,
        ensures
            r.wf(),
            r.name() == keyspace_of(keyspace@),
            r.total() == total_tables,
    {
        let start = random_below(total_tables);
        Keyspace::starting_at(keyspace, total_tables, start)
    }

    /// The keyspace that `keyspace` selects, with `total_tables` shard tables
    /// and its cursor at `cursor`.
    pub fn starting_at(keyspace: &str, total_tables: usize, cursor: usize) -> (r: Keyspace)
        requires
            cursor < total_tables,
        ensures
            r.wf(),
            r.name() == keyspace_of(keyspace@),
            r.total() == total_tables,
            r.cursor() == cursor,
    {
        Keyspace { keyspace: select_keyspace(keyspace), index: cursor, total_tables }
    }

    /// The keyspace's name.
    pub fn name_str(&self) -> (r: &str)
        ensures
            r@ == self.name(),
    {
        self.keyspace.as_str()
    }

    /// Advances the cursor and returns the table it now names, with its
    /// index: the index used is the value after the advance.
    pub fn get_table(&mut self) -> (r: (String, usize))
        requires
            old(self).wf(),
        ensures
            final(self).wf(),
            final(self).name() == old(self).name(),
            final(self).total() == old(self).total(),
            final(self).cursor() == next_cursor(old(self).cursor(), old(self).total()),
            r.1 == final(self).cursor(),
            r.0@ == table_name(old(self).name(), decimal(r.1 as nat)),
    {
        let next = if self.index + 1 < self.total_tables {
            self.index + 1
        } else {
            0
        };
        self.index = next;
        let mut table = String::new();
        push_table_name(&mut table, self.keyspace.as_str(), next);
        assert(table@ =~= table_name(old(self).name(), decimal(next as nat)));
        (table, next)
    }

    /// The table an item id belongs to: the keyspace's table named by the
    /// text before the id's first dash.
    pub fn get_table_by_uuid(&self, id: &str) -> (r: String)
        ensures
            r@ == table_name(self.name(), id_prefix(id@)),
    {
        let cs = chars_of(id);
        let end = dash_position(&cs);
        let mut table = String::new();
        table.append(self.keyspace.as_str());
        table.append(".t");
        let prefix = string_of(&cs, 0, end);
        table.append(prefix.as_str());
        proof {
            lemma_prefix_before_dash(cs@, end as int);
        }
        assert(table@ =~= table_name(self.name(), id_prefix(id@)));
        table
    }

    /// The statement that creates the keyspace.
    pub fn create_keyspace_statement(&self) -> (r: String)
        ensures
            r@ == create_keyspace_text(self.name()),
    {
        let mut out = String::from_str("CREATE KEYSPACE IF NOT EXISTS ");
        out.append(self.keyspace.as_str());
        out.append(
            " WITH REPLICATION = { 'class' : 'SimpleStrategy', 'replication_factor' : 1 }",
        );
        out
    }

    /// The statements that create each shard table, from index 0 up.
    pub fn create_table_statements(&self) -> (r: Vec<String>)
        ensures
            r@.len() == self.total(),
            forall|i: int|
                0 <= i < r@.len() ==> #[trigger] r@[i]@ == create_table_text(
                    table_name(self.name(), decimal(i as nat)),
                ),
    {
        let mut out: Vec<String> = Vec::new();
        let mut i: usize = 0;
        while i < self.total_tables
            invariant
                i <= self.total(),
                out@.len() == i,
                forall|j: int|
                    0 <= j < i ==> #[trigger] out@[j]@ == create_table_text(
                        table_name(self.name(), decimal(j as nat)),
                    ),
            decreases self.total_tables - i,
        {
            let mut s = String::from_str("CREATE TABLE IF NOT EXISTS ");
            push_table_name(&mut s, self.keyspace.as_str(), i);
            s.append(" (id text PRIMARY KEY, email text, passw text, lastcheck timestamp, p text)");
            out.push(s);
            i = i + 1;
        }
        out
    }

    /// The batches that write `combos` with `params`, item `j` taking random
    /// suffix `suffixes[j]`. Each item advances the cursor once and goes to
    /// the table it then names.
    pub fn plan_combos_with(&mut self, combos: &Vec<Combo>, params: &str, suffixes: &Vec<String>) -> (r:
        Vec<Batch>)
        requires
            old(self).wf(),
            suffixes@.len() == combos@.len(),
        ensures
            final(self).wf(),
            final(self).name() == old(self).name(),
            final(self).total() == old(self).total(),
            final(self).cursor() == cursor_after(
                old(self).cursor(),
                old(self).total(),
                combos@.len() as nat,
            ),
            batches_of(
                planned_rows(
                    old(self).name(),
                    old(self).cursor(),
                    old(self).total(),
                    combos@,
                    params@,
                    texts(suffixes@),
                ),
                r@,
            ),
    {
        let ghost rows_spec = planned_rows(
            old(self).name(),
            old(self).cursor(),
            old(self).total(),
            combos@,
            params@,
            texts(suffixes@),
        );
        let mut rows: Vec<String> = Vec::new();
        let mut j: usize = 0;
        while j < combos.len()
            invariant
                self.wf(),
                self.name() == old(self).name(),
                self.total() == old(self).total(),
                self.cursor() == cursor_after(old(self).cursor(), old(self).total(), j as nat),
                j <= combos@.len(),
                suffixes@.len() == combos@.len(),
                rows_spec == planned_rows(
                    old(self).name(),
                    old(self).cursor(),
                    old(self).total(),
                    combos@,
                    params@,
                    texts(suffixes@),
                ),
                texts(rows@) == rows_spec.subrange(0, j as int),
            decreases combos.len() - j,
        {
            let (table, shard) = self.get_table();
            let id = generate_id(shard, suffixes[j].as_str());
            let row = insert_statement(
                table.as_str(),
                combos[j].email.as_str(),
                combos[j].password.as_str(),
                params,
                id.as_str(),
            );
            let ghost before = rows@;
            rows.push(row);
            proof {
                assert(texts(rows@) =~= texts(before).push(row@));
                assert(rows_spec[j as int] == row@);
                assert(texts(rows@) =~= rows_spec.subrange(0, j + 1));
            }
            j = j + 1;
        }
        assert(rows_spec.subrange(0, j as int) =~= rows_spec);
        split_batches(&rows)
    }

    /// The batches that write `combos` with `params`, each item getting a
    /// fresh random id suffix; as [`Keyspace::plan_combos_with`] for those
    /// suffixes.
    pub fn plan_combos(&mut self, combos: &Vec<Combo>, params: &str) -> (r: Vec<Batch>)
        requires
            old(self).wf(),
        ensures
            final(self).wf(),
            final(self).name() == old(self).name(),
            final(self).total() == old(self).total(),
            final(self).cursor() == cursor_after(
                old(self).cursor(),
                old(self).total(),
                combos@.len() as nat,
            ),
            exists|suffixes: Seq<Seq<char>>|
                {
                    &&& suffixes.len() == combos@.len()
                    &&& forall|k: int| 0 <= k < suffixes.len() ==> is_suffix(#[trigger] suffixes[k])
                    &&& batches_of(
                        planned_rows(
                            old(self).name(),
                            old(self).cursor(),
                            old(self).total(),
                            combos@,
                            params@,
                            suffixes,
                        ),
                        r@,
                    )
                },
    {
        let mut suffixes: Vec<String> = Vec::new();
        let mut j: usize = 0;
        while j < combos.len()
            invariant
                j <= combos@.len(),
                suffixes@.len() == j,
                forall|k: int| 0 <= k < j ==> is_suffix(#[trigger] suffixes@[k]@),
            decreases combos.len() - j,
        {
            suffixes.push(random_suffix());
            j = j + 1;
        }
        let r = self.plan_combos_with(combos, params, &suffixes);
        assert(forall|k: int| 0 <= k < texts(suffixes@).len() ==> #[trigger] texts(suffixes@)[k] == suffixes@[k]@);
        r
    }

    /// Advances the cursor and returns the query that reads up to `limit`
    /// items from the table it now names.
    pub fn fetch_query(&mut self, limit: usize) -> (r: String)
        requires
            old(self).wf(),
        ensures
            final(self).wf(),
            final(self).name() == old(self).name(),
            final(self).total() == old(self).total(),
            final(self).cursor() == next_cursor(old(self).cursor(), old(self).total()),
            r@ == select_text(
                table_name(old(self).name(), decimal(final(self).cursor())),
                limit as nat,
            ),
    {
        let (table, _) = self.get_table();
        let mut q = String::from_str("SELECT * FROM ");
        q.append(table.as_str());
        q.append(" LIMIT ");
        push_decimal(&mut q, limit);
        q.append(" ALLOW FILTERING");
        q
    }

    /// The statement that deletes item `id` from the table its prefix names;
    /// `None` where the prefix is not a shard label, since no table holds
    /// such an item.
    pub fn invalidate_statement(&self, id: &str) -> (r: Option<String>)
        ensures
            r matches Some(s) ==> delete_for(self.name(), id@) == Some(s@),
            r is None ==> delete_for(self.name(), id@) is None,
    {
        let cs = chars_of(id);
        let end = dash_position(&cs);
        proof {
            lemma_prefix_before_dash(cs@, end as int);
        }
        if end == 0 {
            return None;
        }
        let mut i: usize = 0;
        while i < end
            invariant
                cs@ == id@,
                end <= cs@.len(),
                id_prefix(id@) == cs@.subrange(0, end as int),
                i <= end,
                forall|k: int| 0 <= k < i ==> is_digit(cs@[k]),
            decreases end - i,
        {
            if !('0' <= cs[i] && cs[i] <= '9') {
                assert(!is_digit(id_prefix(id@)[i as int]));
                return None;
            }
            i = i + 1;
        }
        assert(is_shard_label(id_prefix(id@)));
        let table = self.get_table_by_uuid(id);
        let mut d = String::from_str("DELETE FROM ");
        d.append(table.as_str());
        d.append(" WHERE id = '");
        push_escaped(&mut d, id);
        d.append("'");
        Some(d)
    }

    /// The delete statements for the items of a fetch, in order: fetching an
    /// item removes it.
    pub fn deletions(&self, data: &Vec<FullCombo>) -> (r: Vec<String>)
        ensures
            texts(r@) == delete_list(self.name(), data@.map_values(|c: FullCombo| c.id@)),
    {
        let ghost ids = data@.map_values(|c: FullCombo| c.id@);
        let mut out: Vec<String> = Vec::new();
        let mut j: usize = 0;
        while j < data.len()
            invariant
                j <= data@.len(),
                ids == data@.map_values(|c: FullCombo| c.id@),
                texts(out@) == delete_list(self.name(), ids.subrange(0, j as int)),
            decreases data.len() - j,
        {
            let ghost before = out@;
            assert(ids.subrange(0, j + 1).drop_last() =~= ids.subrange(0, j as int));
            match self.invalidate_statement(data[j].id.as_str()) {
                Some(d) => {
                    out.push(d);
                    assert(texts(out@) =~= texts(before).push(d@));
                },
                None => {},
            }
            j = j + 1;
        }
        assert(ids.subrange(0, j as int) =~= ids);
        out
    }
}

/// The id of an item written to shard `shard`: `{shard}-{suffix}`.
pub fn generate_id(shard: usize, suffix: &str) -> (r: String)
    ensures
        r@ == id_text(shard as nat, suffix@),
{
    let mut id = String::new();
    push_decimal(&mut id, shard);
    push_char(&mut id, '-');
    id.append(suffix);
    assert(id@ =~= id_text(shard as nat, suffix@));
    id
}

/// The index of the first dash in `cs`, or its length where it has none.
fn dash_position(cs: &Vec<char>) -> (r: usize)
    ensures
        r <= cs@.len(),
        r < cs@.len() ==> cs@[r as int] == '-',
        forall|k: int| 0 <= k < r ==> cs@[k] != '-',
{
    let mut i: usize = 0;
    while i < cs.len()
        invariant
            i <= cs@.len(),
            forall|k: int| 0 <= k < i ==> cs@[k] != '-',
        decreases cs.len() - i,
    {
        if cs[i] == '-' {
            return i;
        }
        i = i + 1;
    }
    i
}

proof fn lemma_prefix_before_dash(s: Seq<char>, end: int)
    requires
        0 <= end <= s.len(),
        end < s.len() ==> s[end] == '-',
        forall|k: int| 0 <= k < end ==> s[k] != '-',
    ensures
        id_prefix(s) == s.subrange(0, end),
    decreases s.len(),
{
    if s.len() == 0 {
        assert(s.subrange(0, end) =~= s);
    } else if end == 0 {
        assert(s.subrange(0, end) =~= Seq::<char>::empty());
    } else {
        lemma_prefix_before_dash(s.drop_first(), end - 1);
        assert(s.subrange(0, end) =~= seq![s[0]] + s.drop_first().subrange(0, end - 1));
    }
}

} // verus!
