//! Grouping of rows by their encoded group key, as the hash aggregation
//! does: the groups come out in ascending byte order of their keys.
use vstd::prelude::*;

verus! {

/// `a` comes before `b` in the byte order: by the first byte that differs,
/// and a proper prefix first.
pub open spec fn bytes_lt(a: Seq<u8>, b: Seq<u8>) -> bool
    decreases a.len(),
{
    if a.len() == 0 {
        b.len() > 0
    } else if b.len() == 0 {
        false
    } else if a[0] != b[0] {
        a[0] < b[0]
    } else {
        bytes_lt(a.drop_first(), b.drop_first())
    }
}

/// Strictly ascending in the byte order, hence free of duplicates.
pub open spec fn strictly_ascending(s: Seq<Seq<u8>>) -> bool {
    forall|i: int, j: int| 0 <= i < j < s.len() ==> bytes_lt(#[trigger] s[i], #[trigger] s[j])
}

pub open spec fn rows_view(v: Seq<Vec<u8>>) -> Seq<Seq<u8>> {
    v.map_values(|r: Vec<u8>| r@)
}

/// No sequence comes before itself.
pub proof fn lemma_bytes_lt_irreflexive(a: Seq<u8>)
    ensures
        !bytes_lt(a, a),
    decreases a.len(),
{
    if a.len() > 0 {
        lemma_bytes_lt_irreflexive(a.drop_first());
    }
}

/// Of two different sequences, one comes first.
pub proof fn lemma_bytes_lt_total(a: Seq<u8>, b: Seq<u8>)
    requires
        a != b,
    ensures
        bytes_lt(a, b) || bytes_lt(b, a),
    decreases a.len(),
{
    if a.len() == 0 {
        assert(b.len() > 0) by {
            if b.len() == 0 {
                assert(a =~= b);
            }
        }
    } else if b.len() == 0 {
    } else if a[0] != b[0] {
    } else {
        if a.drop_first() == b.drop_first() {
            assert(a =~= seq![a[0]] + a.drop_first());
            assert(b =~= seq![b[0]] + b.drop_first());
        }
        lemma_bytes_lt_total(a.drop_first(), b.drop_first());
    }
}

/// The byte order is transitive.
pub proof fn lemma_bytes_lt_transitive(a: Seq<u8>, b: Seq<u8>, c: Seq<u8>)
    requires
        bytes_lt(a, b),
        bytes_lt(b, c),
    ensures
        bytes_lt(a, c),
    decreases a.len(),
{
    if a.len() > 0 && b.len() > 0 && c.len() > 0 && a[0] == b[0] && b[0] == c[0] {
        lemma_bytes_lt_transitive(a.drop_first(), b.drop_first(), c.drop_first());
    }
}

/// Whether `a` comes before `b` in the byte order.
pub fn bytes_less(a: &Vec<u8>, b: &Vec<u8>) -> (r: bool)
    ensures
        r == bytes_lt(a@, b@),
{
    let mut i: usize = 0;
    assert(a@.subrange(0, a@.len() as int) =~= a@);
    assert(b@.subrange(0, b@.len() as int) =~= b@);
    while i < a.len() && i < b.len() && a[i] == b[i]
        invariant
            i <= a.len(),
            i <= b.len(),
            bytes_lt(a@, b@) == bytes_lt(a@.subrange(i as int, a@.len() as int), b@.subrange(i as int, b@.len() as int)),
        decreases a.len() - i,
    {
        assert(a@.subrange(i as int, a@.len() as int).drop_first() =~= a@.subrange(i + 1, a@.len() as int));
        assert(b@.subrange(i as int, b@.len() as int).drop_first() =~= b@.subrange(i + 1, b@.len() as int));
        i = i + 1;
    }
    if i == a.len() {
        i < b.len()
    } else if i == b.len() {
        false
    } else {
        a[i] < b[i]
    }
}

/// Whether two byte sequences are equal.
pub fn bytes_equal(a: &Vec<u8>, b: &Vec<u8>) -> (r: bool)
    ensures
        r == (a@ == b@),
{
    if a.len() != b.len() {
        return false;
    }
    let mut i: usize = 0;
    while i < a.len()
        invariant
            i <= a.len(),
            a.len() == b.len(),
            a@.subrange(0, i as int) == b@.subrange(0, i as int),
        decreases a.len() - i,
    {
        if a[i] != b[i] {
            return false;
        }
        assert(a@.subrange(0, i + 1) =~= a@.subrange(0, i as int).push(a@[i as int]));
        assert(b@.subrange(0, i + 1) =~= b@.subrange(0, i as int).push(b@[i as int]));
        i = i + 1;
    }
    assert(a@ =~= a@.subrange(0, i as int));
    assert(b@ =~= b@.subrange(0, i as int));
    true
}

/// Inserting at a place where everything before is smaller and everything
/// after is larger keeps a list ascending.
proof fn lemma_insert_ascending(s: Seq<Seq<u8>>, p: int, x: Seq<u8>)
    requires
        strictly_ascending(s),
        0 <= p <= s.len(),
        forall|q: int| 0 <= q < p ==> bytes_lt(#[trigger] s[q], x),
        forall|q: int| p <= q < s.len() ==> bytes_lt(x, #[trigger] s[q]),
    ensures
        strictly_ascending(s.insert(p, x)),
{
    let t = s.insert(p, x);
    assert forall|i: int, j: int| 0 <= i < j < t.len() implies bytes_lt(#[trigger] t[i], #[trigger] t[j]) by {
        if j < p {
            assert(t[i] == s[i] && t[j] == s[j]);
        } else if j == p {
            assert(t[i] == s[i]);
        } else if i < p {
            assert(t[i] == s[i] && t[j] == s[j - 1]);
        } else if i == p {
            assert(t[j] == s[j - 1]);
        } else {
            assert(t[i] == s[i - 1] && t[j] == s[j - 1]);
        }
    }
}

/// The distinct rows, in ascending byte order.
fn distinct_ascending(rows: &Vec<Vec<u8>>) -> (keys: Vec<Vec<u8>>)
    ensures
        strictly_ascending(rows_view(keys@)),
        forall|r: int| 0 <= r < rows.len() ==> rows_view(keys@).contains(#[trigger] rows@[r]@),
        forall|j: int| 0 <= j < keys.len() ==> rows_view(rows@).contains(#[trigger] keys@[j]@),
{
    let mut keys: Vec<Vec<u8>> = Vec::new();
    let mut i: usize = 0;
    while i < rows.len()
        invariant
            i <= rows.len(),
            strictly_ascending(rows_view(keys@)),
            forall|r: int| 0 <= r < i ==> rows_view(keys@).contains(#[trigger] rows@[r]@),
            forall|j: int| 0 <= j < keys.len() ==> rows_view(rows@).contains(#[trigger] keys@[j]@),
        decreases rows.len() - i,
    {
        let ghost kv = rows_view(keys@);
        let ghost x = rows@[i as int]@;
        assert(rows_view(rows@)[i as int] == x);
        assert forall|j: int| 0 <= j < kv.len() implies rows_view(rows@).contains(#[trigger] kv[j]) by {
            assert(kv[j] == keys@[j]@);
        }
        let mut p: usize = 0;
        while p < keys.len() && bytes_less(&keys[p], &rows[i])
            invariant
                p <= keys.len(),
                i < rows.len(),
                kv == rows_view(keys@),
                x == rows@[i as int]@,
                forall|q: int| 0 <= q < p ==> bytes_lt(#[trigger] kv[q], x),
            decreases keys.len() - p,
        {
            p = p + 1;
        }
        if p < keys.len() && bytes_equal(&keys[p], &rows[i]) {
            assert(kv[p as int] == x);
        } else {
            proof {
                if p < kv.len() {
                    assert(!bytes_lt(kv[p as int], x));
                    lemma_bytes_lt_total(kv[p as int], x);
                    assert forall|q: int| p <= q < kv.len() implies bytes_lt(x, #[trigger] kv[q]) by {
                        if q > p {
                            lemma_bytes_lt_transitive(x, kv[p as int], kv[q]);
                        }
                    }
                }
                lemma_insert_ascending(kv, p as int, x);
            }
            keys.insert(p, rows[i].clone());
            assert(rows_view(keys@) =~= kv.insert(p as int, x));
            assert forall|r: int| 0 <= r < i implies rows_view(keys@).contains(#[trigger] rows@[r]@) by {
                let j = choose|j: int| 0 <= j < kv.len() && kv[j] == rows@[r]@;
                if j < p {
                    assert(rows_view(keys@)[j] == rows@[r]@);
                } else {
                    assert(rows_view(keys@)[j + 1] == rows@[r]@);
                }
            }
            assert(rows_view(keys@)[p as int] == x);
            assert forall|j: int| 0 <= j < keys.len() implies rows_view(rows@).contains(#[trigger] keys@[j]@) by {
                if j < p {
                    assert(keys@[j]@ == kv[j]);
                    assert(rows_view(rows@).contains(kv[j]));
                } else if j > p {
                    assert(keys@[j]@ == kv[j - 1]);
                    assert(rows_view(rows@).contains(kv[j - 1]));
                }
            }
        }
        i = i + 1;
    }
    keys
}


/// The groups of a list of rows: the distinct rows in ascending byte order,
/// and for each row the position of its group.
#[derive(Debug)]
pub struct Groups {
    pub keys: Vec<Vec<u8>>,
    pub group_of_row: Vec<usize>,
}

/// The position of `row` in `keys`, which holds it.
fn position_of(keys: &Vec<Vec<u8>>, row: &Vec<u8>) -> (j: usize)
    requires
        rows_view(keys@).contains(row@),
    ensures
        j < keys.len(),
        keys@[j as int]@ == row@,
{
    let mut j: usize = 0;
    while j < keys.len()
        invariant
            j <= keys.len(),
            rows_view(keys@).contains(row@),
            forall|q: int| 0 <= q < j ==> keys@[q]@ != row@,
        decreases keys.len() - j,
    {
        if bytes_equal(&keys[j], row) {
            return j;
        }
        j = j + 1;
    }
    let ghost w = choose|q: int| 0 <= q < rows_view(keys@).len() && rows_view(keys@)[q] == row@;
    assert(keys@[w]@ == row@);
    j
}

/// Groups rows by their bytes.  The groups are the distinct rows in
/// ascending byte order, so that equal rows share a group and the groups
/// come out in the order of their keys.
pub fn group_rows(rows: &Vec<Vec<u8>>) -> (g: Groups)
    ensures
        strictly_ascending(rows_view(g.keys@)),
        forall|j: int| 0 <= j < g.keys.len() ==> rows_view(rows@).contains(#[trigger] g.keys@[j]@),
        g.group_of_row.len() == rows.len(),
        forall|r: int| 0 <= r < rows.len() ==> {
            &&& #[trigger] g.group_of_row@[r] < g.keys.len()
            &&& g.keys@[g.group_of_row@[r] as int]@ == rows@[r]@
        },
{
    let keys = distinct_ascending(rows);
    let mut group_of_row: Vec<usize> = Vec::new();
    let mut i: usize = 0;
    while i < rows.len()
        invariant
            i <= rows.len(),
            group_of_row.len() == i,
            forall|r: int| 0 <= r < rows.len() ==> rows_view(keys@).contains(#[trigger] rows@[r]@),
            forall|r: int| 0 <= r < i ==> {
                &&& #[trigger] group_of_row@[r] < keys.len()
                &&& keys@[group_of_row@[r] as int]@ == rows@[r]@
            },
        decreases rows.len() - i,
    {
        assert(rows_view(keys@).contains(rows@[i as int]@));
        let j = position_of(&keys, &rows[i]);
        group_of_row.push(j);
        i = i + 1;
    }
    Groups { keys, group_of_row }
}

} // verus!
