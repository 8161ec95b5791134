//! Reading the body of an add: one `email:password` pair per line.
use vstd::prelude::*;
use crate::store::Combo;
use crate::text::{chars_of, string_of};

verus! {

/// The characters `char::is_whitespace` accepts: those with the Unicode
/// White_Space property.
pub open spec fn is_space(c: char) -> bool {
    ||| ('\u{9}' <= c <= '\u{d}')
    ||| c == ' '
    ||| c == '\u{85}'
    ||| c == '\u{a0}'
    ||| c == '\u{1680}'
    ||| ('\u{2000}' <= c <= '\u{200a}')
    ||| c == '\u{2028}'
    ||| c == '\u{2029}'
    ||| c == '\u{202f}'
    ||| c == '\u{205f}'
    ||| c == '\u{3000}'
}

fn space(c: char) -> (r: bool)
    ensures
        r == is_space(c),
{
    ('\u{9}' <= c && c <= '\u{d}') || c == ' ' || c == '\u{85}' || c == '\u{a0}' || c
        == '\u{1680}' || ('\u{2000}' <= c && c <= '\u{200a}') || c == '\u{2028}' || c
        == '\u{2029}' || c == '\u{202f}' || c == '\u{205f}' || c == '\u{3000}'
}

/// `s` without its carriage returns.
pub open spec fn drop_cr(s: Seq<char>) -> Seq<char>
    decreases s.len(),
{
    if s.len() == 0 {
        s
    } else if s.last() == '\r' {
        drop_cr(s.drop_last())
    } else {
        drop_cr(s.drop_last()).push(s.last())
    }
}

/// The pieces of `s` between newlines, in order (one piece where `s` has no
/// newline).
pub open spec fn lines_of(s: Seq<char>) -> Seq<Seq<char>>
    decreases s.len(),
{
    if s.len() == 0 {
        seq![Seq::empty()]
    } else {
        let before = lines_of(s.drop_last());
        if s.last() == '\n' {
            before.push(Seq::empty())
        } else {
            before.update(before.len() - 1, before.last().push(s.last()))
        }
    }
}

/// `s` without its leading whitespace.
pub open spec fn trim_start(s: Seq<char>) -> Seq<char>
    decreases s.len(),
{
    if s.len() > 0 && is_space(s[0]) {
        trim_start(s.drop_first())
    } else {
        s
    }
}

/// `s` without its trailing whitespace.
pub open spec fn trim_end(s: Seq<char>) -> Seq<char>
    decreases s.len(),
{
    if s.len() > 0 && is_space(s.last()) {
        trim_end(s.drop_last())
    } else {
        s
    }
}

/// The index of the first `c` in `s`, or its length where it has none.
pub open spec fn first_index(s: Seq<char>, c: char) -> nat
    decreases s.len(),
{
    if s.len() == 0 {
        0
    } else if s[0] == c {
        0
    } else {
        1 + first_index(s.drop_first(), c)
    }
}

/// The pair a line holds: the trimmed line split at its first colon; `None`
/// where it has no colon.
pub open spec fn pair_of_line(line: Seq<char>) -> Option<(Seq<char>, Seq<char>)> {
    let t = trim_end(trim_start(line));
    let f = first_index(t, ':') as int;
    if f < t.len() {
        Some((t.subrange(0, f), t.subrange(f + 1, t.len() as int)))
    } else {
        None
    }
}

/// The pairs of the lines that hold one, in order.
pub open spec fn pairs_of_lines(lines: Seq<Seq<char>>) -> Seq<(Seq<char>, Seq<char>)>
    decreases lines.len(),
{
    if lines.len() == 0 {
        Seq::empty()
    } else {
        let before = pairs_of_lines(lines.drop_last());
        match pair_of_line(lines.last()) {
            Some(p) => before.push(p),
            None => before,
        }
    }
}

/// The pairs an add body holds.
pub open spec fn body_pairs(body: Seq<char>) -> Seq<(Seq<char>, Seq<char>)> {
    pairs_of_lines(lines_of(drop_cr(body)))
}

proof fn lemma_trim_start_at(s: Seq<char>, k: int)
    requires
        0 <= k <= s.len(),
        forall|j: int| 0 <= j < k ==> is_space(#[trigger] s[j]),
        k < s.len() ==> !is_space(s[k]),
    ensures
        trim_start(s) == s.subrange(k, s.len() as int),
    decreases s.len(),
{
    if k == 0 {
        assert(s.subrange(0, s.len() as int) =~= s);
    } else {
        assert(is_space(s[0]));
        lemma_trim_start_at(s.drop_first(), k - 1);
        assert(s.drop_first().subrange(k - 1, s.len() - 1) =~= s.subrange(k, s.len() as int));
    }
}

proof fn lemma_trim_end_at(s: Seq<char>, k: int)
    requires
        0 <= k <= s.len(),
        forall|j: int| k <= j < s.len() ==> is_space(#[trigger] s[j]),
        k > 0 ==> !is_space(s[k - 1]),
    ensures
        trim_end(s) == s.subrange(0, k),
    decreases s.len(),
{
    if k == s.len() {
        assert(s.subrange(0, k) =~= s);
    } else {
        assert(is_space(s.last()));
        lemma_trim_end_at(s.drop_last(), k);
        assert(s.drop_last().subrange(0, k) =~= s.subrange(0, k));
    }
}

proof fn lemma_first_index_at(s: Seq<char>, c: char, f: int)
    requires
        0 <= f <= s.len(),
        f < s.len() ==> s[f] == c,
        forall|j: int| 0 <= j < f ==> #[trigger] s[j] != c,
    ensures
        first_index(s, c) == f,
    decreases s.len(),
{
    if f > 0 {
        assert(s[0] != c);
        lemma_first_index_at(s.drop_first(), c, f - 1);
    }
}

/// The pair that line `cs[start..end]` holds.
fn pair_in(cs: &Vec<char>, start: usize, end: usize) -> (r: Option<Combo>)
    requires
        start <= end <= cs@.len(),
    ensures
        pair_of_line(cs@.subrange(start as int, end as int)) matches Some(p) ==> r matches Some(c)
            && c.email@ == p.0 && c.password@ == p.1,
        pair_of_line(cs@.subrange(start as int, end as int)) is None ==> r is None,
{
    let ghost line = cs@.subrange(start as int, end as int);
    let mut a = start;
    while a < end && space(cs[a])
        invariant
            start <= a <= end <= cs@.len(),
            forall|j: int| start <= j < a ==> is_space(#[trigger] cs@[j]),
        decreases end - a,
    {
        a = a + 1;
    }
    proof {
        assert forall|j: int| 0 <= j < a - start implies is_space(#[trigger] line[j]) by {
            assert(line[j] == cs@[start + j]);
        }
        lemma_trim_start_at(line, a - start);
    }
    let ghost t0 = cs@.subrange(a as int, end as int);
    assert(t0 =~= line.subrange(a - start, line.len() as int));
    let mut b = end;
    while b > a && space(cs[b - 1])
        invariant
            start <= a <= b <= end <= cs@.len(),
            forall|j: int| b <= j < end ==> is_space(#[trigger] cs@[j]),
        decreases b - a,
    {
        b = b - 1;
    }
    proof {
        assert forall|j: int| b - a <= j < t0.len() implies is_space(#[trigger] t0[j]) by {
            assert(t0[j] == cs@[a + j]);
        }
        lemma_trim_end_at(t0, b - a);
    }
    let ghost t = cs@.subrange(a as int, b as int);
    assert(t =~= t0.subrange(0, b - a));
    let mut f = a;
    while f < b && cs[f] != ':'
        invariant
            a <= f <= b <= cs@.len(),
            forall|j: int| a <= j < f ==> #[trigger] cs@[j] != ':',
        decreases b - f,
    {
        f = f + 1;
    }
    proof {
        assert forall|j: int| 0 <= j < f - a implies #[trigger] t[j] != ':' by {
            assert(t[j] == cs@[a + j]);
        }
        lemma_first_index_at(t, ':', f - a);
    }
    if f < b {
        let email = string_of(cs, a, f);
        let password = string_of(cs, f + 1, b);
        assert(email@ =~= t.subrange(0, f - a));
        assert(password@ =~= t.subrange(f - a + 1, t.len() as int));
        Some(Combo { email, password })
    } else {
        None
    }
}

/// The `email:password` pairs of an add body: carriage returns are dropped,
/// each line is trimmed and split at its first colon, and lines without a
/// colon (blank ones among them) are skipped.
pub fn parse_combos(body: &str) -> (r: Vec<Combo>)
    ensures
        r@.map_values(|c: Combo| (c.email@, c.password@)) == body_pairs(body@),
{
    let cs = chars_of(body);
    let mut clean: Vec<char> = Vec::new();
    let mut i: usize = 0;
    while i < cs.len()
        invariant
            cs@ == body@,
            i <= cs@.len(),
            clean@ == drop_cr(cs@.subrange(0, i as int)),
        decreases cs.len() - i,
    {
        assert(cs@.subrange(0, i + 1).drop_last() =~= cs@.subrange(0, i as int));
        if cs[i] != '\r' {
            clean.push(cs[i]);
        }
        i = i + 1;
    }
    assert(cs@.subrange(0, i as int) =~= cs@);
    let mut out: Vec<Combo> = Vec::new();
    let ghost mut done: Seq<Seq<char>> = Seq::empty();
    let mut start: usize = 0;
    let mut j: usize = 0;
    assert(clean@.subrange(0, 0) =~= Seq::<char>::empty());
    assert(clean@.subrange(0, 0) =~= clean@.subrange(0, 0));
    assert(lines_of(Seq::<char>::empty()) =~= done.push(clean@.subrange(0, 0)));
    while j < clean.len()
        invariant
            clean@ == drop_cr(body@),
            start <= j <= clean@.len(),
            lines_of(clean@.subrange(0, j as int)) == done.push(
                clean@.subrange(start as int, j as int),
            ),
            out@.map_values(|c: Combo| (c.email@, c.password@)) == pairs_of_lines(done),
        decreases clean.len() - j,
    {
        let ghost pre = clean@.subrange(0, j as int);
        assert(clean@.subrange(0, j + 1).drop_last() =~= pre);
        if clean[j] == '\n' {
            let ghost before = out@;
            match pair_in(&clean, start, j) {
                Some(c) => {
                    out.push(c);
                },
                None => {},
            }
            proof {
                let line = clean@.subrange(start as int, j as int);
                assert(done.push(line).drop_last() =~= done);
                done = done.push(line);
                assert(out@.map_values(|c: Combo| (c.email@, c.password@)) =~= pairs_of_lines(done));
            }
            start = j + 1;
            assert(clean@.subrange(start as int, start as int) =~= Seq::<char>::empty());
            assert(lines_of(clean@.subrange(0, j + 1)) =~= done.push(
                clean@.subrange(start as int, j + 1),
            ));
        } else {
            let ghost seg = clean@.subrange(start as int, j as int);
            assert(clean@.subrange(0, j + 1).last() == clean@[j as int]);
            assert(seg.push(clean@[j as int]) =~= clean@.subrange(start as int, j + 1));
            assert(done.push(seg).update(done.len() as int, seg.push(clean@[j as int])) =~= done.push(
                seg.push(clean@[j as int]),
            ));
            assert(lines_of(clean@.subrange(0, j + 1)) =~= done.push(
                clean@.subrange(start as int, j + 1),
            ));
        }
        j = j + 1;
    }
    assert(clean@.subrange(0, j as int) =~= clean@);
    let ghost before = out@;
    match pair_in(&clean, start, clean.len()) {
        Some(c) => {
            out.push(c);
        },
        None => {},
    }
    proof {
        let line = clean@.subrange(start as int, j as int);
        assert(done.push(line).drop_last() =~= done);
        assert(out@.map_values(|c: Combo| (c.email@, c.password@)) =~= pairs_of_lines(
            done.push(line),
        ));
    }
    out
}

} // verus!
