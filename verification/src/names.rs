//! Sets of column names, kept in ascending order of their characters.
use vstd::prelude::*;

use crate::text::{chars_of, str_eq};

verus! {

/// `a` comes before `b` in the order of `str`: by the first character that
/// differs, and a proper prefix first.
pub open spec fn name_lt(a: Seq<char>, b: Seq<char>) -> bool
    decreases a.len(),
{
    if a.len() == 0 {
        b.len() > 0
    } else if b.len() == 0 {
        false
    } else if a[0] != b[0] {
        a[0] < b[0]
    } else {
        name_lt(a.drop_first(), b.drop_first())
    }
}

/// Strictly ascending, hence free of duplicates.
pub open spec fn is_sorted_names(s: Seq<Seq<char>>) -> bool {
    forall|i: int, j: int| 0 <= i < j < s.len() ==> name_lt(#[trigger] s[i], #[trigger] s[j])
}

/// `x` added to an ascending list at its place, unless it is there already.
pub open spec fn names_insert(s: Seq<Seq<char>>, x: Seq<char>) -> Seq<Seq<char>>
    decreases s.len(),
{
    if s.len() == 0 {
        seq![x]
    } else if s[0] == x {
        s
    } else if name_lt(x, s[0]) {
        seq![x] + s
    } else {
        seq![s[0]] + names_insert(s.drop_first(), x)
    }
}

/// The names of `b` added to `a`, one after the other.
pub open spec fn names_union(a: Seq<Seq<char>>, b: Seq<Seq<char>>) -> Seq<Seq<char>>
    decreases b.len(),
{
    if b.len() == 0 {
        a
    } else {
        names_insert(names_union(a, b.drop_last()), b.last())
    }
}

/// The names of `a` that `b` holds, in the order of `a`.
pub open spec fn names_inter(a: Seq<Seq<char>>, b: Seq<Seq<char>>) -> Seq<Seq<char>>
    decreases a.len(),
{
    if a.len() == 0 {
        Seq::empty()
    } else if b.contains(a.last()) {
        names_inter(a.drop_last(), b).push(a.last())
    } else {
        names_inter(a.drop_last(), b)
    }
}

/// The names of `a` that `b` does not hold, in the order of `a`.
pub open spec fn names_minus(a: Seq<Seq<char>>, b: Seq<Seq<char>>) -> Seq<Seq<char>>
    decreases a.len(),
{
    if a.len() == 0 {
        Seq::empty()
    } else if b.contains(a.last()) {
        names_minus(a.drop_last(), b)
    } else {
        names_minus(a.drop_last(), b).push(a.last())
    }
}

/// No name comes before itself.
pub proof fn lemma_name_lt_irreflexive(a: Seq<char>)
    ensures
        !name_lt(a, a),
    decreases a.len(),
{
    if a.len() > 0 {
        lemma_name_lt_irreflexive(a.drop_first());
    }
}

/// Of two different names, one comes first.
pub proof fn lemma_name_lt_total(a: Seq<char>, b: Seq<char>)
    requires
        a != b,
    ensures
        name_lt(a, b) || name_lt(b, a),
    decreases a.len(),
{
    if a.len() == 0 {
        if b.len() == 0 {
            assert(a =~= b);
        }
    } else if b.len() == 0 {
    } else if a[0] != b[0] {
    } else {
        if a.drop_first() == b.drop_first() {
            assert(a =~= seq![a[0]] + a.drop_first());
            assert(b =~= seq![b[0]] + b.drop_first());
        }
        lemma_name_lt_total(a.drop_first(), b.drop_first());
    }
}

/// The order of names is transitive.
pub proof fn lemma_name_lt_transitive(a: Seq<char>, b: Seq<char>, c: Seq<char>)
    requires
        name_lt(a, b),
        name_lt(b, c),
    ensures
        name_lt(a, c),
    decreases a.len(),
{
    if a.len() > 0 && b.len() > 0 && c.len() > 0 && a[0] == b[0] && b[0] == c[0] {
        lemma_name_lt_transitive(a.drop_first(), b.drop_first(), c.drop_first());
    }
}

/// Inserting into an ascending list keeps it ascending, and the list then
/// holds the inserted name and what it held before, nothing else.
pub proof fn law_names_insert(s: Seq<Seq<char>>, x: Seq<char>)
    requires
        is_sorted_names(s),
    ensures
        is_sorted_names(names_insert(s, x)),
        forall|y: Seq<char>| #[trigger] names_insert(s, x).contains(y) <==> (s.contains(y) || y == x),
    decreases s.len(),
{
    let r = names_insert(s, x);
    if s.len() == 0 {
        assert forall|y: Seq<char>| #[trigger] r.contains(y) <==> (s.contains(y) || y == x) by {
            if r.contains(y) {
                assert(r[0] == x);
            }
            if y == x {
                assert(r[0] == y);
            }
        }
    } else if s[0] == x {
    } else if name_lt(x, s[0]) {
        assert forall|i: int, j: int| 0 <= i < j < r.len() implies name_lt(#[trigger] r[i], #[trigger] r[j]) by {
            if i == 0 {
                if j > 1 {
                    lemma_name_lt_transitive(x, s[0], s[j - 1]);
                }
            } else {
                assert(r[i] == s[i - 1] && r[j] == s[j - 1]);
            }
        }
        assert forall|y: Seq<char>| #[trigger] r.contains(y) <==> (s.contains(y) || y == x) by {
            if r.contains(y) {
                let k = choose|k: int| 0 <= k < r.len() && r[k] == y;
                if k > 0 {
                    assert(s[k - 1] == y);
                }
            }
            if s.contains(y) {
                let k = choose|k: int| 0 <= k < s.len() && s[k] == y;
                assert(r[k + 1] == y);
            }
            if y == x {
                assert(r[0] == y);
            }
        }
    } else {
        let rest = s.drop_first();
        assert(is_sorted_names(rest)) by {
            assert forall|i: int, j: int| 0 <= i < j < rest.len() implies name_lt(#[trigger] rest[i], #[trigger] rest[j]) by {
                assert(rest[i] == s[i + 1] && rest[j] == s[j + 1]);
            }
        }
        law_names_insert(rest, x);
        let tail = names_insert(rest, x);
        assert(r == seq![s[0]] + tail);
        lemma_name_lt_total(x, s[0]);
        assert forall|k: int| 0 <= k < tail.len() implies name_lt(s[0], #[trigger] tail[k]) by {
            assert(tail.contains(tail[k]));
            if tail[k] != x {
                let m = choose|m: int| 0 <= m < rest.len() && rest[m] == tail[k];
                assert(s[m + 1] == tail[k]);
            }
        }
        assert forall|i: int, j: int| 0 <= i < j < r.len() implies name_lt(#[trigger] r[i], #[trigger] r[j]) by {
            if i == 0 {
                assert(r[j] == tail[j - 1]);
            } else {
                assert(r[i] == tail[i - 1] && r[j] == tail[j - 1]);
            }
        }
        assert forall|y: Seq<char>| #[trigger] r.contains(y) <==> (s.contains(y) || y == x) by {
            if r.contains(y) {
                let k = choose|k: int| 0 <= k < r.len() && r[k] == y;
                if k > 0 {
                    assert(tail[k - 1] == y);
                    assert(tail.contains(y));
                    if rest.contains(y) {
                        let m = choose|m: int| 0 <= m < rest.len() && rest[m] == y;
                        assert(s[m + 1] == y);
                    }
                } else {
                    assert(s[0] == y);
                }
            }
            if s.contains(y) {
                let k = choose|k: int| 0 <= k < s.len() && s[k] == y;
                if k == 0 {
                    assert(r[0] == y);
                } else {
                    assert(rest[k - 1] == y);
                    assert(tail.contains(y));
                    let m = choose|m: int| 0 <= m < tail.len() && tail[m] == y;
                    assert(r[m + 1] == y);
                }
            }
            if y == x {
                assert(tail.contains(y));
                let m = choose|m: int| 0 <= m < tail.len() && tail[m] == y;
                assert(r[m + 1] == y);
            }
        }
    }
}

/// The names of an ascending list that another list holds are ascending,
/// and they are exactly the names that both hold.
pub proof fn law_names_inter(a: Seq<Seq<char>>, b: Seq<Seq<char>>)
    requires
        is_sorted_names(a),
    ensures
        is_sorted_names(names_inter(a, b)),
        forall|y: Seq<char>| #[trigger] names_inter(a, b).contains(y) <==> (a.contains(y) && b.contains(y)),
    decreases a.len(),
{
    if a.len() > 0 {
        let init = a.drop_last();
        assert(is_sorted_names(init)) by {
            assert forall|i: int, j: int| 0 <= i < j < init.len() implies name_lt(#[trigger] init[i], #[trigger] init[j]) by {
                assert(init[i] == a[i] && init[j] == a[j]);
            }
        }
        law_names_inter(init, b);
        let prev = names_inter(init, b);
        assert forall|y: Seq<char>| #[trigger] a.contains(y) <==> (init.contains(y) || y == a.last()) by {
            if a.contains(y) {
                let k = choose|k: int| 0 <= k < a.len() && a[k] == y;
                if k < init.len() {
                    assert(init[k] == y);
                }
            }
            if init.contains(y) {
                let k = choose|k: int| 0 <= k < init.len() && init[k] == y;
                assert(a[k] == y);
            }
        }
        if b.contains(a.last()) {
            let r = prev.push(a.last());
            assert forall|i: int, j: int| 0 <= i < j < r.len() implies name_lt(#[trigger] r[i], #[trigger] r[j]) by {
                if j == prev.len() {
                    assert(prev.contains(r[i]));
                    let k = choose|k: int| 0 <= k < init.len() && init[k] == r[i];
                    assert(a[k] == r[i]);
                } else {
                    assert(r[i] == prev[i] && r[j] == prev[j]);
                }
            }
            assert forall|y: Seq<char>| #[trigger] r.contains(y) <==> (a.contains(y) && b.contains(y)) by {
                if r.contains(y) {
                    let k = choose|k: int| 0 <= k < r.len() && r[k] == y;
                    if k < prev.len() {
                        assert(prev[k] == y);
                        assert(prev.contains(y));
                    }
                }
                if a.contains(y) && b.contains(y) {
                    if y == a.last() {
                        assert(r[prev.len() as int] == y);
                    } else {
                        assert(prev.contains(y));
                        let k = choose|k: int| 0 <= k < prev.len() && prev[k] == y;
                        assert(r[k] == y);
                    }
                }
            }
        } else {
            assert forall|y: Seq<char>| #[trigger] prev.contains(y) <==> (a.contains(y) && b.contains(y)) by {
                if prev.contains(y) {
                    assert(init.contains(y));
                }
            }
        }
    }
}

/// The union of an ascending list with any list is ascending and holds
/// exactly the names of both.
pub proof fn law_names_union(a: Seq<Seq<char>>, b: Seq<Seq<char>>)
    requires
        is_sorted_names(a),
    ensures
        is_sorted_names(names_union(a, b)),
        forall|y: Seq<char>| #[trigger] names_union(a, b).contains(y) <==> (a.contains(y) || b.contains(y)),
    decreases b.len(),
{
    if b.len() > 0 {
        let init = b.drop_last();
        law_names_union(a, init);
        law_names_insert(names_union(a, init), b.last());
        assert forall|y: Seq<char>| #[trigger] b.contains(y) <==> (init.contains(y) || y == b.last()) by {
            if b.contains(y) {
                let k = choose|k: int| 0 <= k < b.len() && b[k] == y;
                if k < init.len() {
                    assert(init[k] == y);
                }
            }
            if init.contains(y) {
                let k = choose|k: int| 0 <= k < init.len() && init[k] == y;
                assert(b[k] == y);
            }
        }
    }
}

/// The names of an ascending list that another list does not hold are
/// ascending, and they are exactly the names of the first list that the
/// second does not hold.
pub proof fn law_names_minus(a: Seq<Seq<char>>, b: Seq<Seq<char>>)
    requires
        is_sorted_names(a),
    ensures
        is_sorted_names(names_minus(a, b)),
        forall|y: Seq<char>| #[trigger] names_minus(a, b).contains(y) <==> (a.contains(y) && !b.contains(y)),
    decreases a.len(),
{
    if a.len() > 0 {
        let init = a.drop_last();
        assert(is_sorted_names(init)) by {
            assert forall|i: int, j: int| 0 <= i < j < init.len() implies name_lt(#[trigger] init[i], #[trigger] init[j]) by {
                assert(init[i] == a[i] && init[j] == a[j]);
            }
        }
        law_names_minus(init, b);
        let prev = names_minus(init, b);
        assert forall|y: Seq<char>| #[trigger] a.contains(y) <==> (init.contains(y) || y == a.last()) by {
            if a.contains(y) {
                let k = choose|k: int| 0 <= k < a.len() && a[k] == y;
                if k < init.len() {
                    assert(init[k] == y);
                }
            }
            if init.contains(y) {
                let k = choose|k: int| 0 <= k < init.len() && init[k] == y;
                assert(a[k] == y);
            }
        }
        if !b.contains(a.last()) {
            let r = prev.push(a.last());
            assert forall|i: int, j: int| 0 <= i < j < r.len() implies name_lt(#[trigger] r[i], #[trigger] r[j]) by {
                if j == prev.len() {
                    assert(prev.contains(r[i]));
                    let k = choose|k: int| 0 <= k < init.len() && init[k] == r[i];
                    assert(a[k] == r[i]);
                } else {
                    assert(r[i] == prev[i] && r[j] == prev[j]);
                }
            }
            assert forall|y: Seq<char>| #[trigger] r.contains(y) <==> (a.contains(y) && !b.contains(y)) by {
                if r.contains(y) {
                    let k = choose|k: int| 0 <= k < r.len() && r[k] == y;
                    if k < prev.len() {
                        assert(prev[k] == y);
                        assert(prev.contains(y));
                    }
                }
                if a.contains(y) && !b.contains(y) {
                    if y == a.last() {
                        assert(r[prev.len() as int] == y);
                    } else {
                        assert(prev.contains(y));
                        let k = choose|k: int| 0 <= k < prev.len() && prev[k] == y;
                        assert(r[k] == y);
                    }
                }
            }
        } else {
            assert forall|y: Seq<char>| #[trigger] prev.contains(y) <==> (a.contains(y) && !b.contains(y)) by {
                if prev.contains(y) {
                    assert(init.contains(y));
                }
            }
        }
    }
}

/// Where the names before `i` come before `x` and the name at `i` does
/// not, inserting `x` puts it at `i`, unless it is there already.
proof fn lemma_names_insert_at(s: Seq<Seq<char>>, x: Seq<char>, i: int)
    requires
        is_sorted_names(s),
        0 <= i <= s.len(),
        forall|j: int| 0 <= j < i ==> name_lt(#[trigger] s[j], x),
        i < s.len() ==> !name_lt(s[i], x),
    ensures
        names_insert(s, x) == if i < s.len() && s[i] == x { s } else { s.insert(i, x) },
    decreases s.len(),
{
    if s.len() > 0 {
        if i == 0 {
            if s[0] != x {
                lemma_name_lt_total(s[0], x);
                assert(seq![x] + s =~= s.insert(0, x));
            }
        } else {
            let rest = s.drop_first();
            lemma_name_lt_irreflexive(x);
            assert(s[0] != x);
            if name_lt(x, s[0]) {
                lemma_name_lt_transitive(x, s[0], x);
            }
            assert(is_sorted_names(rest)) by {
                assert forall|a: int, b: int| 0 <= a < b < rest.len() implies name_lt(#[trigger] rest[a], #[trigger] rest[b]) by {
                    assert(rest[a] == s[a + 1] && rest[b] == s[b + 1]);
                }
            }
            assert forall|j: int| 0 <= j < i - 1 implies name_lt(#[trigger] rest[j], x) by {
                assert(rest[j] == s[j + 1]);
            }
            if i - 1 < rest.len() {
                assert(rest[i - 1] == s[i]);
            }
            lemma_names_insert_at(rest, x, i - 1);
            if i < s.len() && s[i] == x {
                assert(seq![s[0]] + rest =~= s);
            } else {
                assert(seq![s[0]] + rest.insert(i - 1, x) =~= s.insert(i, x));
            }
        }
    }
}

/// Whether `a` comes before `b` in the order of `str`.
pub fn str_lt(a: &str, b: &str) -> (r: bool)
    ensures
        r == name_lt(a@, b@),
{
    let ca = chars_of(a);
    let cb = chars_of(b);
    let mut i: usize = 0;
    assert(a@.subrange(0, a@.len() as int) =~= a@);
    assert(b@.subrange(0, b@.len() as int) =~= b@);
    while i < ca.len() && i < cb.len() && ca[i] == cb[i]
        invariant
            i <= ca.len(),
            i <= cb.len(),
            ca@ == a@,
            cb@ == b@,
            name_lt(a@, b@) == name_lt(a@.subrange(i as int, a@.len() as int), b@.subrange(i as int, b@.len() as int)),
        decreases ca.len() - i,
    {
        assert(a@.subrange(i as int, a@.len() as int).drop_first() =~= a@.subrange(i + 1, a@.len() as int));
        assert(b@.subrange(i as int, b@.len() as int).drop_first() =~= b@.subrange(i + 1, b@.len() as int));
        i = i + 1;
    }
    if i == ca.len() {
        i < cb.len()
    } else if i == cb.len() {
        false
    } else {
        ca[i] < cb[i]
    }
}

/// A set of names in ascending order.
#[derive(Debug)]
pub struct NameSet {
    names: Vec<String>,
}

pub open spec fn names_view(v: Seq<String>) -> Seq<Seq<char>> {
    v.map_values(|s: String| s@)
}

impl View for NameSet {
    type V = Seq<Seq<char>>;

    closed spec fn view(&self) -> Seq<Seq<char>> {
        names_view(self.names@)
    }
}

impl NameSet {
    #[verifier::type_invariant]
    spec fn ascending(&self) -> bool {
        is_sorted_names(names_view(self.names@))
    }

    pub fn new() -> (s: NameSet)
        ensures
            s@ == Seq::<Seq<char>>::empty(),
    {
        let s = NameSet { names: Vec::new() };
        assert(s@ =~= Seq::<Seq<char>>::empty());
        s
    }

    pub fn len(&self) -> (n: usize)
        ensures
            n == self@.len(),
    {
        self.names.len()
    }

    pub fn is_empty(&self) -> (r: bool)
        ensures
            r == (self@.len() == 0),
    {
        self.names.len() == 0
    }

    /// The name at a position of the ascending order.
    pub fn get(&self, i: usize) -> (s: &String)
        requires
            i < self@.len(),
        ensures
            s@ == self@[i as int],
    {
        &self.names[i]
    }

    pub fn contains(&self, name: &str) -> (r: bool)
        ensures
            r == self@.contains(name@),
    {
        let mut i: usize = 0;
        while i < self.names.len()
            invariant
                i <= self.names.len(),
                forall|j: int| 0 <= j < i ==> self@[j] != name@,
            decreases self.names.len() - i,
        {
            if str_eq(self.names[i].as_str(), name) {
                assert(self@[i as int] == name@);
                return true;
            }
            i = i + 1;
        }
        false
    }

    /// Adds a name at its place in the order.
    pub fn insert(&mut self, name: &str)
        ensures
            final(self)@ == names_insert(old(self)@, name@),
            is_sorted_names(final(self)@),
    {
        proof { use_type_invariant(&*self); }
        let ghost s0 = self@;
        let mut i: usize = 0;
        while i < self.names.len() && str_lt(self.names[i].as_str(), name)
            invariant
                i <= self.names.len(),
                self@ == s0,
                forall|j: int| 0 <= j < i ==> name_lt(#[trigger] s0[j], name@),
            decreases self.names.len() - i,
        {
            i = i + 1;
        }
        proof {
            lemma_names_insert_at(s0, name@, i as int);
        }
        if i < self.names.len() && str_eq(self.names[i].as_str(), name) {
            return;
        }
        let entry = String::from_str(name);
        proof {
            law_names_insert(s0, name@);
        }
        let mut names: Vec<String> = Vec::new();
        std::mem::swap(&mut names, &mut self.names);
        names.insert(i, entry);
        assert(names_view(names@) =~= s0.insert(i as int, name@));
        self.names = names;
    }

    /// The names of both sets.
    pub fn union(&self, other: &NameSet) -> (r: NameSet)
        ensures
            r@ == names_union(self@, other@),
            is_sorted_names(r@),
    {
        let mut r = self.duplicate();
        let mut i: usize = 0;
        assert(other@.subrange(0, 0) =~= Seq::<Seq<char>>::empty());
        while i < other.names.len()
            invariant
                i <= other.names.len(),
                r@ == names_union(self@, other@.subrange(0, i as int)),
            decreases other.names.len() - i,
        {
            assert(other@.subrange(0, i + 1).drop_last() =~= other@.subrange(0, i as int));
            r.insert(other.names[i].as_str());
            i = i + 1;
        }
        assert(other@.subrange(0, other.names.len() as int) =~= other@);
        proof { use_type_invariant(&r); }
        r
    }

    /// The names of this set that `other` holds.
    pub fn intersection(&self, other: &NameSet) -> (r: NameSet)
        ensures
            r@ == names_inter(self@, other@),
            is_sorted_names(r@),
    {
        let mut names: Vec<String> = Vec::new();
        let mut i: usize = 0;
        assert(self@.subrange(0, 0) =~= Seq::<Seq<char>>::empty());
        assert(names_view(names@) =~= Seq::<Seq<char>>::empty());
        while i < self.names.len()
            invariant
                i <= self.names.len(),
                names_view(names@) == names_inter(self@.subrange(0, i as int), other@),
            decreases self.names.len() - i,
        {
            assert(self@.subrange(0, i + 1).drop_last() =~= self@.subrange(0, i as int));
            if other.contains(self.names[i].as_str()) {
                let ghost prev = names@;
                names.push(self.names[i].clone());
                assert(names_view(names@) =~= names_view(prev).push(self@[i as int]));
            }
            i = i + 1;
        }
        assert(self@.subrange(0, self.names.len() as int) =~= self@);
        proof {
            use_type_invariant(self);
            law_names_inter(self@, other@);
        }
        NameSet { names }
    }

    /// The names of this set that `other` does not hold, in ascending order.
    pub fn difference(&self, other: &NameSet) -> (r: Vec<String>)
        ensures
            names_view(r@) == names_minus(self@, other@),
            is_sorted_names(names_view(r@)),
    {
        let mut names: Vec<String> = Vec::new();
        let mut i: usize = 0;
        assert(self@.subrange(0, 0) =~= Seq::<Seq<char>>::empty());
        assert(names_view(names@) =~= Seq::<Seq<char>>::empty());
        while i < self.names.len()
            invariant
                i <= self.names.len(),
                names_view(names@) == names_minus(self@.subrange(0, i as int), other@),
            decreases self.names.len() - i,
        {
            assert(self@.subrange(0, i + 1).drop_last() =~= self@.subrange(0, i as int));
            if !other.contains(self.names[i].as_str()) {
                let ghost prev = names@;
                names.push(self.names[i].clone());
                assert(names_view(names@) =~= names_view(prev).push(self@[i as int]));
            }
            i = i + 1;
        }
        assert(self@.subrange(0, self.names.len() as int) =~= self@);
        proof {
            use_type_invariant(self);
            law_names_minus(self@, other@);
        }
        names
    }

    pub fn duplicate(&self) -> (r: NameSet)
        ensures
            r@ == self@,
            is_sorted_names(r@),
    {
        let mut names: Vec<String> = Vec::new();
        let mut i: usize = 0;
        while i < self.names.len()
            invariant
                i <= self.names.len(),
                names_view(names@) == self@.subrange(0, i as int),
            decreases self.names.len() - i,
        {
            let ghost prev = names@;
            names.push(self.names[i].clone());
            assert(names_view(names@) =~= names_view(prev).push(self@[i as int]));
            assert(self@.subrange(0, i + 1) =~= self@.subrange(0, i as int).push(self@[i as int]));
            i = i + 1;
        }
        assert(self@.subrange(0, self.names.len() as int) =~= self@);
        proof { use_type_invariant(self); }
        NameSet { names }
    }
}

} // verus!
