//! Text of the statements sent to the column store, and the escaping of the
//! values interpolated into them.
use vstd::prelude::*;
use crate::text::{chars_of, decimal, is_digit, lemma_decimal_digits, push_char, push_decimal};

verus! {

broadcast use vstd::string::group_string_axioms;

/// What one character becomes inside a quoted literal: a quote is doubled.
pub open spec fn escape_char(c: char) -> Seq<char> {
    if c == '\'' {
        seq!['\'', '\'']
    } else {
        seq![c]
    }
}

/// `s` with every single quote doubled.
pub open spec fn escape(s: Seq<char>) -> Seq<char>
    decreases s.len(),
{
    if s.len() == 0 {
        Seq::empty()
    } else {
        escape_char(s[0]) + escape(s.drop_first())
    }
}

pub proof fn lemma_escape_push(s: Seq<char>, c: char)
    ensures
        escape(s.push(c)) == escape(s) + escape_char(c),
    decreases s.len(),
{
    if s.len() == 0 {
        assert(s.push(c).drop_first() =~= Seq::<char>::empty());
        assert(escape(s.push(c).drop_first()) == Seq::<char>::empty());
        assert(escape(s) == Seq::<char>::empty());
        assert(escape(s.push(c)) =~= escape(s) + escape_char(c));
    } else {
        assert(s.push(c).drop_first() =~= s.drop_first().push(c));
        lemma_escape_push(s.drop_first(), c);
        assert(escape(s.push(c)) =~= escape(s) + escape_char(c));
    }
}

/// Reads the body of a quoted literal whose opening quote has been consumed:
/// a doubled quote stands for one quote, a lone quote closes the literal. The
/// result is the literal's value and the text after the closing quote, or
/// `None` where the literal is never closed.
pub open spec fn read_quoted(t: Seq<char>) -> Option<(Seq<char>, Seq<char>)>
    decreases t.len(),
{
    if t.len() == 0 {
        None
    } else if t[0] == '\'' {
        if t.len() >= 2 && t[1] == '\'' {
            match read_quoted(t.subrange(2, t.len() as int)) {
                Some(p) => Some((seq!['\''] + p.0, p.1)),
                None => None,
            }
        } else {
            Some((Seq::empty(), t.drop_first()))
        }
    } else {
        match read_quoted(t.drop_first()) {
            Some(p) => Some((seq![t[0]] + p.0, p.1)),
            None => None,
        }
    }
}

/// An escaped value placed between quotes reads back as exactly that value,
/// and the statement text after the closing quote is left as it was: no value
/// can end its literal early or reach into the rest of the statement.
pub proof fn lemma_escape_round_trip(s: Seq<char>, rest: Seq<char>)
    requires
        rest.len() == 0 || rest[0] != '\'',
    ensures
        read_quoted(escape(s) + seq!['\''] + rest) == Some((s, rest)),
    decreases s.len(),
{
    let t = escape(s) + seq!['\''] + rest;
    if s.len() == 0 {
        assert(t =~= seq!['\''] + rest);
        assert(t.drop_first() =~= rest);
    } else {
        let tail = escape(s.drop_first()) + seq!['\''] + rest;
        lemma_escape_round_trip(s.drop_first(), rest);
        if s[0] == '\'' {
            assert(t =~= seq!['\'', '\''] + tail);
            assert(t.subrange(2, t.len() as int) =~= tail);
        } else {
            assert(t =~= seq![s[0]] + tail);
            assert(t.drop_first() =~= tail);
        }
        assert(s =~= seq![s[0]] + s.drop_first());
    }
}

/// Appends `s` to `out` with every single quote doubled.
pub(crate) fn push_escaped(out: &mut String, s: &str)
    ensures
        final(out)@ == old(out)@ + escape(s@),
{
    let cs = chars_of(s);
    let mut i: usize = 0;
    while i < cs.len()
        invariant
            cs@ == s@,
            i <= cs@.len(),
            out@ == old(out)@ + escape(cs@.subrange(0, i as int)),
        decreases cs.len() - i,
    {
        let c = cs[i];
        proof {
            lemma_escape_push(cs@.subrange(0, i as int), c);
            assert(cs@.subrange(0, i + 1) =~= cs@.subrange(0, i as int).push(c));
        }
        push_char(out, c);
        if c == '\'' {
            push_char(out, '\'');
        }
        i = i + 1;
        assert(out@ =~= old(out)@ + escape(cs@.subrange(0, i as int)));
    }
    assert(cs@.subrange(0, cs@.len() as int) =~= cs@);
}

/// Escapes a value for use inside a single-quoted statement literal by
/// doubling every single quote.
pub fn sanitize(input: &str) -> (r: String)
    ensures
        r@ == escape(input@),
{
    let mut out = String::new();
    push_escaped(&mut out, input);
    out
}

/// The name of shard table `shard` of a keyspace: `{keyspace}.t{shard}`.
pub open spec fn table_name(keyspace: Seq<char>, shard: Seq<char>) -> Seq<char> {
    keyspace + ".t"@ + shard
}

/// An item id: the shard index in decimal, a dash, then the random suffix.
pub open spec fn id_text(shard: nat, suffix: Seq<char>) -> Seq<char> {
    decimal(shard) + seq!['-'] + suffix
}

/// What precedes the first dash of `id`; all of it where there is no dash.
pub open spec fn id_prefix(id: Seq<char>) -> Seq<char>
    decreases id.len(),
{
    if id.len() == 0 {
        id
    } else if id[0] == '-' {
        Seq::empty()
    } else {
        seq![id[0]] + id_prefix(id.drop_first())
    }
}

pub proof fn lemma_id_prefix_of_dashless(a: Seq<char>, b: Seq<char>)
    requires
        forall|k: int| 0 <= k < a.len() ==> a[k] != '-',
    ensures
        id_prefix(a + seq!['-'] + b) == a,
    decreases a.len(),
{
    let t = a + seq!['-'] + b;
    if a.len() == 0 {
        assert(t[0] == '-');
        assert(a =~= Seq::<char>::empty());
    } else {
        lemma_id_prefix_of_dashless(a.drop_first(), b);
        assert(t.drop_first() =~= a.drop_first() + seq!['-'] + b);
        assert(a =~= seq![a[0]] + a.drop_first());
    }
}

/// The shard prefix of a generated id is the shard index it was made from, so
/// the table an id resolves to is the table the id was made for.
pub proof fn lemma_id_routes_to_its_table(keyspace: Seq<char>, shard: nat, suffix: Seq<char>)
    ensures
        id_prefix(id_text(shard, suffix)) == decimal(shard),
        table_name(keyspace, id_prefix(id_text(shard, suffix))) == table_name(keyspace, decimal(shard)),
{
    lemma_decimal_digits(shard);
    assert forall|k: int| 0 <= k < decimal(shard).len() implies decimal(shard)[k] != '-' by {
        assert(is_digit(decimal(shard)[k]));
    }
    lemma_id_prefix_of_dashless(decimal(shard), suffix);
}

/// Appends `{keyspace}.t{shard}` to `out`.
pub(crate) fn push_table_name(out: &mut String, keyspace: &str, shard: usize)
    ensures
        final(out)@ == old(out)@ + table_name(keyspace@, decimal(shard as nat)),
{
    out.append(keyspace);
    out.append(".t");
    push_decimal(out, shard);
    assert(out@ =~= old(out)@ + table_name(keyspace@, decimal(shard as nat)));
}

/// Text of the statement that inserts one item.
pub open spec fn insert_text(
    table: Seq<char>,
    email: Seq<char>,
    password: Seq<char>,
    params: Seq<char>,
    id: Seq<char>,
) -> Seq<char> {
    "INSERT INTO "@ + table + " (email, passw, lastcheck, p, id) VALUES ('"@ + escape(email)
        + "', '"@ + escape(password) + "', 0, '"@ + escape(params) + "', '"@ + escape(id)
        + "')\n"@
}

/// Renders the statement that inserts one item into `table`.
pub fn insert_statement(table: &str, email: &str, password: &str, params: &str, id: &str) -> (r:
    String)
    ensures
        r@ == insert_text(table@, email@, password@, params@, id@),
{
    let mut out = String::new();
    out.append("INSERT INTO ");
    out.append(table);
    out.append(" (email, passw, lastcheck, p, id) VALUES ('");
    push_escaped(&mut out, email);
    out.append("', '");
    push_escaped(&mut out, password);
    out.append("', 0, '");
    push_escaped(&mut out, params);
    out.append("', '");
    push_escaped(&mut out, id);
    out.append("')\n");
    assert(out@ =~= insert_text(table@, email@, password@, params@, id@));
    out
}

} // verus!
