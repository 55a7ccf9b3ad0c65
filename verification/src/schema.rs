use vstd::prelude::*;
use vstd::string::*;
use crate::components::upload::{find_char, first_index_of, lemma_first_index_bound};
use crate::text::join;

verus! {

/// The pieces of `s` between its `;` characters, as `s.split(";")` yields
/// them: one more than there are `;`, empty pieces included.
pub open spec fn split_statements_spec(s: Seq<char>) -> Seq<Seq<char>>
    decreases s.len(),
{
    let i = first_index_of(s, ';');
    proof {
        lemma_first_index_bound(s, ';');
    }
    if i >= s.len() {
        seq![s]
    } else {
        seq![s.subrange(0, i)] + split_statements_spec(s.subrange(i + 1, s.len() as int))
    }
}

/// Splits a schema file into its statements at each `;`.
pub fn split_statements(contents: &str) -> (r: Vec<String>)
    ensures
        r.deep_view() == split_statements_spec(contents@),
{
    let n = contents.unicode_len();
    let mut r: Vec<String> = Vec::new();
    let mut start: usize = 0;
    assert(contents@.subrange(0, n as int) =~= contents@);
    loop
        invariant
            n == contents@.len(),
            start <= n,
            split_statements_spec(contents@) == r.deep_view() + split_statements_spec(
                contents@.subrange(start as int, n as int),
            ),
        decreases n - start,
    {
        let end = find_char(contents, ';', start);
        let ghost rest = contents@.subrange(start as int, n as int);
        proof {
            lemma_first_index_bound(rest, ';');
        }
        let piece = String::from_str(contents.substring_char(start, end));
        assert(piece@ =~= rest.subrange(0, end - start));
        let ghost before = r.deep_view();
        r.push(piece);
        assert(r.deep_view() =~= before.push(rest.subrange(0, end - start)));
        if end >= n {
            assert(rest.subrange(0, end - start) =~= rest);
            assert(split_statements_spec(rest) == seq![rest]);
            assert(before + seq![rest] =~= before.push(rest));
            return r;
        }
        assert(rest.subrange(end - start + 1, rest.len() as int) =~= contents@.subrange(end + 1, n as int));
        assert(split_statements_spec(rest) == seq![rest.subrange(0, end - start)]
            + split_statements_spec(contents@.subrange(end + 1, n as int)));
        assert(before + (seq![rest.subrange(0, end - start)] + split_statements_spec(contents@.subrange(end + 1, n as int)))
            =~= before.push(rest.subrange(0, end - start)) + split_statements_spec(contents@.subrange(end + 1, n as int)));
        start = end + 1;
    }
}

proof fn lemma_join_prepend(a: Seq<char>, rest: Seq<Seq<char>>, sep: Seq<char>)
    requires
        rest.len() > 0,
    ensures
        join(seq![a] + rest, sep) == a + sep + join(rest, sep),
    decreases rest.len(),
{
    let all = seq![a] + rest;
    if rest.len() == 1 {
        assert(all.drop_last() =~= seq![a]);
        assert(all.last() == rest[0]);
        assert(join(rest, sep) == rest[0]);
        assert(join(seq![a], sep) == a);
        assert(join(all, sep) == join(all.drop_last(), sep) + sep + all.last());
    } else {
        lemma_join_prepend(a, rest.drop_last(), sep);
        assert(all.drop_last() =~= seq![a] + rest.drop_last());
        assert(all.last() == rest.last());
        assert(join(all, sep) == join(all.drop_last(), sep) + sep + all.last());
        assert(join(rest, sep) == join(rest.drop_last(), sep) + sep + rest.last());
        assert(a + sep + join(rest, sep) =~= a + sep + join(rest.drop_last(), sep) + sep + rest.last());
    }
}

/// Splitting a schema at its `;` loses nothing: joining the statements with
/// `;` gives back the schema.
pub proof fn law_statements_join_back(s: Seq<char>)
    ensures
        join(split_statements_spec(s), ";"@) == s,
    decreases s.len(),
{
    reveal_strlit(";");
    lemma_first_index_bound(s, ';');
    let i = first_index_of(s, ';');
    if i < s.len() {
        let rest = s.subrange(i + 1, s.len() as int);
        law_statements_join_back(rest);
        let tail = split_statements_spec(rest);
        assert(tail.len() > 0) by {
            lemma_first_index_bound(rest, ';');
        }
        lemma_join_prepend(s.subrange(0, i), tail, ";"@);
        assert(s =~= s.subrange(0, i) + ";"@ + rest);
    }
}

} // verus!
