//! The rows of the client's config listing.
use vstd::prelude::*;
use vstd::string::StrSliceExecFns;

verus! {

/// `a` comes before `b` in code-point order: at the first position where they differ
/// `a` has the smaller character, or `a` is a proper prefix of `b`.
pub open spec fn lex_lt(a: Seq<char>, b: Seq<char>) -> bool {
    exists|k: int|
        #![trigger a.subrange(0, k), b.subrange(0, k)]
        0 <= k <= a.len() && k <= b.len() && a.subrange(0, k) == b.subrange(0, k) && ((k == a.len()
            && k < b.len()) || (k < a.len() && k < b.len() && (a[k] as u32) < (b[k] as u32)))
}

proof fn lemma_lex_lt_asymmetric(a: Seq<char>, b: Seq<char>)
    requires
        lex_lt(a, b),
    ensures
        !lex_lt(b, a),
{
    let k1 = choose|k: int|
        #![trigger a.subrange(0, k), b.subrange(0, k)]
        0 <= k <= a.len() && k <= b.len() && a.subrange(0, k) == b.subrange(0, k) && ((k == a.len()
            && k < b.len()) || (k < a.len() && k < b.len() && (a[k] as u32) < (b[k] as u32)));
    if lex_lt(b, a) {
        let k2 = choose|k: int|
            #![trigger b.subrange(0, k), a.subrange(0, k)]
            0 <= k <= b.len() && k <= a.len() && b.subrange(0, k) == a.subrange(0, k) && ((k
                == b.len() && k < a.len()) || (k < b.len() && k < a.len() && (b[k] as u32)
                < (a[k] as u32)));
        if k1 < k2 {
            assert(a.subrange(0, k2)[k1] == b.subrange(0, k2)[k1]);
        } else if k2 < k1 {
            assert(a.subrange(0, k1)[k2] == b.subrange(0, k1)[k2]);
        }
    }
}

/// Whether `a` comes before `b`.
pub fn less_than(a: &str, b: &str) -> (r: bool)
    ensures
        r == lex_lt(a@, b@),
{
    let n = a.unicode_len();
    let m = b.unicode_len();
    let mut k: usize = 0;
    while k < n && k < m && a.get_char(k) == b.get_char(k)
        invariant
            n == a@.len(),
            m == b@.len(),
            k <= n,
            k <= m,
            a@.subrange(0, k as int) == b@.subrange(0, k as int),
        decreases n - k,
    {
        proof {
            assert(a@.subrange(0, k as int + 1) =~= a@.subrange(0, k as int).push(a@[k as int]));
            assert(b@.subrange(0, k as int + 1) =~= b@.subrange(0, k as int).push(b@[k as int]));
        }
        k = k + 1;
    }
    let r = if k < n && k < m {
        (a.get_char(k) as u32) < (b.get_char(k) as u32)
    } else {
        k == n && k < m
    };
    proof {
        if r {
            assert(a@.subrange(0, k as int) == b@.subrange(0, k as int));
        } else if lex_lt(a@, b@) {
            let j = choose|j: int|
                #![trigger a@.subrange(0, j), b@.subrange(0, j)]
                0 <= j <= a@.len() && j <= b@.len() && a@.subrange(0, j) == b@.subrange(0, j) && ((j
                    == a@.len() && j < b@.len()) || (j < a@.len() && j < b@.len() && (a@[j] as u32)
                    < (b@[j] as u32)));
            if j < k {
                assert(a@.subrange(0, k as int)[j] == b@.subrange(0, k as int)[j]);
            } else if j > k {
                assert(a@.subrange(0, j)[k as int] == b@.subrange(0, j)[k as int]);
            }
        }
    }
    r
}

/// One row of the config listing.
#[derive(Debug, PartialEq, Eq)]
pub struct ConfigTableRow {
    pub config: String,
}

pub open spec fn row_names(rows: Seq<ConfigTableRow>) -> Seq<Seq<char>> {
    rows.map_values(|r: ConfigTableRow| r.config@)
}

/// No name comes before the one ahead of it.
pub open spec fn names_ordered(s: Seq<Seq<char>>) -> bool {
    forall|i: int| 0 <= i < s.len() - 1 ==> !lex_lt(#[trigger] s[i + 1], s[i])
}

/// One row per config, named by the config, in code-point order of the names.
pub fn transform_into_table_rows(configs: Vec<(String, String)>) -> (r: Vec<ConfigTableRow>)
    ensures
        row_names(r@).to_multiset() == configs@.map_values(|e: (String, String)| e.0@).to_multiset(),
        names_ordered(row_names(r@)),
{
    let ghost names = configs@.map_values(|e: (String, String)| e.0@);
    let mut rows: Vec<ConfigTableRow> = Vec::new();
    let mut i: usize = 0;
    proof {
        assert(row_names(rows@) =~= names.subrange(0, 0));
    }
    while i < configs.len()
        invariant
            names == configs@.map_values(|e: (String, String)| e.0@),
            i <= configs@.len(),
            row_names(rows@).to_multiset() == names.subrange(0, i as int).to_multiset(),
            names_ordered(row_names(rows@)),
        decreases configs@.len() - i,
    {
        let name = &configs[i].0;
        let ghost before = row_names(rows@);
        let mut p: usize = 0;
        loop
            invariant
                before == row_names(rows@),
                p <= rows@.len(),
                forall|q: int| 0 <= q < p ==> !lex_lt(name@, #[trigger] before[q]),
            ensures
                p <= rows@.len(),
                forall|q: int| 0 <= q < p ==> !lex_lt(name@, #[trigger] before[q]),
                p < rows@.len() ==> lex_lt(name@, before[p as int]),
            decreases rows@.len() - p,
        {
            if p >= rows.len() {
                break;
            }
            if less_than(name.as_str(), rows[p].config.as_str()) {
                break;
            }
            p = p + 1;
        }
        rows.insert(p, ConfigTableRow { config: name.clone() });
        proof {
            let after = row_names(rows@);
            assert(after =~= before.insert(p as int, name@));
            vstd::seq_lib::to_multiset_insert(before, p as int, name@);
            let taken = names.subrange(0, i as int + 1);
            assert(taken =~= names.subrange(0, i as int).push(name@));
            vstd::seq_lib::to_multiset_build(names.subrange(0, i as int), name@);
            assert forall|q: int| 0 <= q < after.len() - 1 implies !lex_lt(#[trigger] after[q + 1], after[q]) by {
                if q + 1 < p {
                    assert(after[q] == before[q] && after[q + 1] == before[q + 1]);
                    assert(!lex_lt(before[q + 1], before[q]));
                } else if q + 1 == p {
                    assert(after[q] == before[q]);
                    assert(after[q + 1] == name@);
                } else if q == p {
                    assert(after[q] == name@);
                    assert(after[q + 1] == before[q]);
                    lemma_lex_lt_asymmetric(name@, before[q]);
                } else {
                    assert(after[q] == before[q - 1] && after[q + 1] == before[q]);
                    assert(!lex_lt(before[(q - 1) + 1], before[q - 1]));
                }
            }
        }
        i = i + 1;
    }
    assert(names.subrange(0, configs@.len() as int) =~= names);
    rows
}

} // verus!
