use vstd::prelude::*;

verus! {

/// Lexicographic order of character sequences by code point: the order
/// Rust's `str` comparison gives (byte order of UTF-8 is code point order).
pub open spec fn seq_lt(a: Seq<char>, b: Seq<char>) -> bool
    decreases a.len(),
{
    if a.len() == 0 {
        b.len() > 0
    } else if b.len() == 0 {
        false
    } else if a[0] != b[0] {
        (a[0] as u32) < (b[0] as u32)
    } else {
        seq_lt(a.drop_first(), b.drop_first())
    }
}

/// No string is less than itself.
pub proof fn lemma_lt_irrefl(a: Seq<char>)
    ensures
        !seq_lt(a, a),
    decreases a.len(),
{
    if a.len() > 0 {
        lemma_lt_irrefl(a.drop_first());
    }
}

/// The order is transitive.
pub proof fn lemma_lt_trans(a: Seq<char>, b: Seq<char>, c: Seq<char>)
    requires
        seq_lt(a, b),
        seq_lt(b, c),
    ensures
        seq_lt(a, c),
    decreases a.len(),
{
    if a.len() > 0 && b.len() > 0 && c.len() > 0 {
        if a[0] == b[0] && b[0] == c[0] {
            lemma_lt_trans(a.drop_first(), b.drop_first(), c.drop_first());
        }
    }
}

/// Any two strings are equal or one is less than the other.
pub proof fn lemma_lt_total(a: Seq<char>, b: Seq<char>)
    ensures
        seq_lt(a, b) || a == b || seq_lt(b, a),
    decreases a.len(),
{
    if a.len() > 0 && b.len() > 0 {
        if a[0] == b[0] {
            lemma_lt_total(a.drop_first(), b.drop_first());
            if a.drop_first() == b.drop_first() {
                assert(a =~= seq![a[0]] + a.drop_first());
                assert(b =~= seq![b[0]] + b.drop_first());
            }
        } else {
            vstd::utf8::char_u32_cast(a[0], a[0] as u32);
            vstd::utf8::char_u32_cast(b[0], b[0] as u32);
            assert((a[0] as u32) != (b[0] as u32));
        }
    } else if a.len() == 0 && b.len() == 0 {
        assert(a =~= b);
    }
}

/// The order is asymmetric.
pub proof fn lemma_lt_asym(a: Seq<char>, b: Seq<char>)
    requires
        seq_lt(a, b),
    ensures
        !seq_lt(b, a),
{
    if seq_lt(b, a) {
        lemma_lt_trans(a, b, a);
        lemma_lt_irrefl(a);
    }
}

/// The outcome of comparing two strings.
pub enum Cmp {
    Less,
    Equal,
    Greater,
}

/// Compares two strings lexicographically by code point.
pub fn compare_str(a: &str, b: &str) -> (r: Cmp)
    ensures
        r is Less <==> seq_lt(a@, b@),
        r is Equal <==> a@ == b@,
        r is Greater <==> seq_lt(b@, a@),
{
    let n = a.unicode_len();
    let m = b.unicode_len();
    let mut i: usize = 0;
    proof {
        assert(a@.skip(0) =~= a@);
        assert(b@.skip(0) =~= b@);
        lemma_lt_total(a@, b@);
        lemma_lt_irrefl(a@);
        if seq_lt(a@, b@) {
            lemma_lt_asym(a@, b@);
        }
    }
    while i < n && i < m
        invariant
            n == a@.len(),
            m == b@.len(),
            0 <= i <= n,
            i <= m,
            forall|j: int| 0 <= j < i ==> a@[j] == b@[j],
            seq_lt(a@, b@) == seq_lt(a@.skip(i as int), b@.skip(i as int)),
            seq_lt(b@, a@) == seq_lt(b@.skip(i as int), a@.skip(i as int)),
        decreases n - i,
    {
        let ca = a.get_char(i);
        let cb = b.get_char(i);
        if ca != cb {
            proof {
                assert(a@.skip(i as int)[0] == ca);
                assert(b@.skip(i as int)[0] == cb);
                if a@ == b@ {
                    assert(a@[i as int] == b@[i as int]);
                }
            }
            if (ca as u32) < (cb as u32) {
                return Cmp::Less;
            } else {
                return Cmp::Greater;
            }
        }
        proof {
            assert(a@.skip(i as int).drop_first() =~= a@.skip(i + 1));
            assert(b@.skip(i as int).drop_first() =~= b@.skip(i + 1));
        }
        i += 1;
    }
    if n == m {
        assert(a@ =~= b@);
        proof {
            lemma_lt_irrefl(a@);
        }
        Cmp::Equal
    } else if n < m {
        proof {
            assert(a@.skip(i as int).len() == 0);
            if a@ == b@ {
                assert(a@.len() == b@.len());
            }
        }
        Cmp::Less
    } else {
        proof {
            assert(b@.skip(i as int).len() == 0);
            if a@ == b@ {
                assert(a@.len() == b@.len());
            }
        }
        Cmp::Greater
    }
}

/// A record with a name by which lists of such records are ordered.
pub trait Named {
    spec fn name_view(&self) -> Seq<char>;

    fn name_str(&self) -> (r: &str)
        ensures
            r@ == self.name_view(),
    ;
}

/// Ordered by name, equal names allowed.
pub open spec fn sorted_by_name<T: Named>(s: Seq<T>) -> bool {
    forall|i: int, j: int| 0 <= i < j < s.len() ==> !seq_lt(#[trigger] s[j].name_view(), #[trigger] s[i].name_view())
}

/// `r` is `s` ordered by name, records of equal name keeping their order:
/// `r[k]` is `s[p[k]]`, and `p` is a permutation.
pub open spec fn is_stable_sort<T: Named>(r: Seq<T>, s: Seq<T>, p: Seq<int>) -> bool {
    &&& r.len() == s.len()
    &&& p.len() == s.len()
    &&& forall|k: int| 0 <= k < r.len() ==> 0 <= #[trigger] p[k] < s.len() && r[k] == s[p[k]]
    &&& forall|k1: int, k2: int| 0 <= k1 < k2 < r.len() ==> #[trigger] p[k1] != #[trigger] p[k2]
    &&& sorted_by_name(r)
    &&& forall|k1: int, k2: int|
        0 <= k1 < k2 < r.len() && (#[trigger] r[k1]).name_view() == (#[trigger] r[k2]).name_view() ==> p[k1] < p[k2]
}

/// No record before `s[i]` has its name.
pub open spec fn first_of_name<T: Named>(s: Seq<T>, i: int) -> bool {
    forall|j: int| 0 <= j < i ==> (#[trigger] s[j]).name_view() != s[i].name_view()
}

/// Strictly ordered by name: no name twice.
pub open spec fn strictly_sorted_by_name<T: Named>(s: Seq<T>) -> bool {
    forall|i: int, j: int| 0 <= i < j < s.len() ==> seq_lt(#[trigger] s[i].name_view(), #[trigger] s[j].name_view())
}

/// `r` keeps, of each name in `s`, the first record with it, ordered by
/// name: `r[k]` is `s[p[k]]`.
pub open spec fn is_sorted_dedup<T: Named>(r: Seq<T>, s: Seq<T>, p: Seq<int>) -> bool {
    &&& p.len() == r.len()
    &&& strictly_sorted_by_name(r)
    &&& forall|k: int| 0 <= k < r.len() ==> 0 <= #[trigger] p[k] < s.len() && first_of_name(s, p[k]) && r[k] == s[p[k]]
    &&& forall|i: int| 0 <= i < s.len() && first_of_name(s, i) ==> exists|k: int| 0 <= k < r.len() && #[trigger] p[k] == i
}

/// Sorts records by name, keeping the order of records of equal name
/// (the stable `sort_by` of the standard library).
pub fn sort_by_name<T: Named>(v: Vec<T>) -> (r: Vec<T>)
    ensures
        exists|p: Seq<int>| is_stable_sort(r@, v@, p),
{
    let ghost s = v@;
    let mut v = v;
    let mut r: Vec<T> = Vec::new();
    let ghost mut p: Seq<int> = Seq::empty();
    let n = v.len();
    let mut i: usize = 0;
    while i < n
        invariant
            n == s.len(),
            0 <= i <= n,
            v@ == s.skip(i as int),
            r@.len() == i,
            p.len() == i,
            forall|k: int| 0 <= k < r@.len() ==> 0 <= #[trigger] p[k] < i && r@[k] == s[p[k]],
            forall|k1: int, k2: int| 0 <= k1 < k2 < r@.len() ==> #[trigger] p[k1] != #[trigger] p[k2],
            sorted_by_name(r@),
            forall|k1: int, k2: int|
                0 <= k1 < k2 < r@.len() && (#[trigger] r@[k1]).name_view() == (#[trigger] r@[k2]).name_view() ==> p[k1] < p[k2],
        decreases n - i,
    {
        let x = v.remove(0);
        proof {
            assert(x == s[i as int]);
            assert(v@ =~= s.skip(i + 1));
        }
        let mut pos: usize = 0;
        let mut stop = false;
        while !stop && pos < r.len()
            invariant
                0 <= pos <= r@.len(),
                forall|j: int| 0 <= j < pos ==> !seq_lt(x.name_view(), #[trigger] r@[j].name_view()),
                stop ==> pos < r@.len() && seq_lt(x.name_view(), r@[pos as int].name_view()),
            decreases r@.len() - pos, if stop { 0int } else { 1int },
        {
            match compare_str(x.name_str(), r[pos].name_str()) {
                Cmp::Less => {
                    stop = true;
                },
                _ => {
                    pos += 1;
                },
            }
        }
        let ghost old_r = r@;
        let ghost old_p = p;
        r.insert(pos, x);
        proof {
            p = old_p.take(pos as int) + seq![i as int] + old_p.skip(pos as int);
            assert forall|k: int| 0 <= k < r@.len() implies 0 <= #[trigger] p[k] < i + 1 && r@[k] == s[p[k]] by {
                if k < pos {
                    assert(p[k] == old_p[k]);
                } else if k > pos {
                    assert(p[k] == old_p[k - 1]);
                }
            }
            assert forall|k1: int, k2: int| 0 <= k1 < k2 < r@.len() implies #[trigger] p[k1] != #[trigger] p[k2] by {
                if k1 == pos {
                    assert(p[k2] == old_p[k2 - 1]);
                } else if k2 == pos {
                    assert(p[k1] == old_p[k1]);
                } else {
                    let a = if k1 < pos { k1 } else { k1 - 1 };
                    let b = if k2 < pos { k2 } else { k2 - 1 };
                    assert(p[k1] == old_p[a]);
                    assert(p[k2] == old_p[b]);
                }
            }
            assert forall|k1: int, k2: int| 0 <= k1 < k2 < r@.len() implies !seq_lt(#[trigger] r@[k2].name_view(), #[trigger] r@[k1].name_view()) by {
                if k1 == pos {
                    let b = k2 - 1;
                    assert(r@[k2] == old_r[b]);
                    if seq_lt(r@[k2].name_view(), x.name_view()) {
                        lemma_lt_trans(old_r[b].name_view(), x.name_view(), old_r[pos as int].name_view());
                        if b > pos {
                            assert(!seq_lt(old_r[b].name_view(), old_r[pos as int].name_view()));
                        } else {
                            lemma_lt_irrefl(old_r[b].name_view());
                        }
                    }
                } else if k2 == pos {
                    assert(r@[k1] == old_r[k1]);
                } else {
                    let a = if k1 < pos { k1 } else { k1 - 1 };
                    let b = if k2 < pos { k2 } else { k2 - 1 };
                    assert(r@[k1] == old_r[a]);
                    assert(r@[k2] == old_r[b]);
                }
            }
            assert forall|k1: int, k2: int|
                0 <= k1 < k2 < r@.len() && (#[trigger] r@[k1]).name_view() == (#[trigger] r@[k2]).name_view() implies p[k1] < p[k2] by {
                if k1 == pos {
                    let b = k2 - 1;
                    assert(r@[k2] == old_r[b]);
                    if b > pos {
                        assert(!seq_lt(old_r[b].name_view(), old_r[pos as int].name_view()));
                    }
                    lemma_lt_irrefl(x.name_view());
                } else if k2 == pos {
                    assert(p[k1] == old_p[k1]);
                } else {
                    let a = if k1 < pos { k1 } else { k1 - 1 };
                    let b = if k2 < pos { k2 } else { k2 - 1 };
                    assert(r@[k1] == old_r[a]);
                    assert(r@[k2] == old_r[b]);
                    assert(p[k1] == old_p[a]);
                    assert(p[k2] == old_p[b]);
                }
            }
        }
        i += 1;
    }
    proof {
        assert(is_stable_sort(r@, s, p));
    }
    r
}

/// Sorts records by name and keeps only the first record of each name
/// (a stable `sort_by` followed by `dedup_by` on the name).
pub fn sort_dedup_by_name<T: Named>(v: Vec<T>) -> (r: Vec<T>)
    ensures
        exists|p: Seq<int>| is_sorted_dedup(r@, v@, p),
{
    let ghost s = v@;
    let mut v = v;
    let mut r: Vec<T> = Vec::new();
    let ghost mut p: Seq<int> = Seq::empty();
    let n = v.len();
    let mut i: usize = 0;
    while i < n
        invariant
            n == s.len(),
            0 <= i <= n,
            v@ == s.skip(i as int),
            p.len() == r@.len(),
            strictly_sorted_by_name(r@),
            forall|k: int| 0 <= k < r@.len() ==> 0 <= #[trigger] p[k] < i && first_of_name(s, p[k]) && r@[k] == s[p[k]],
            forall|j: int| 0 <= j < i && first_of_name(s, j) ==> exists|k: int| 0 <= k < r@.len() && #[trigger] p[k] == j,
            forall|j: int| 0 <= j < i ==> exists|k: int| 0 <= k < r@.len() && (#[trigger] r@[k]).name_view() == (#[trigger] s[j]).name_view(),
        decreases n - i,
    {
        let x = v.remove(0);
        proof {
            assert(x == s[i as int]);
            assert(v@ =~= s.skip(i + 1));
        }
        let mut pos: usize = 0;
        let mut stop = false;
        while !stop && pos < r.len()
            invariant
                0 <= pos <= r@.len(),
                forall|j: int| 0 <= j < pos ==> !seq_lt(x.name_view(), #[trigger] r@[j].name_view()),
                stop ==> pos < r@.len() && seq_lt(x.name_view(), r@[pos as int].name_view()),
            decreases r@.len() - pos, if stop { 0int } else { 1int },
        {
            match compare_str(x.name_str(), r[pos].name_str()) {
                Cmp::Less => {
                    stop = true;
                },
                _ => {
                    pos += 1;
                },
            }
        }
        let dup = if pos > 0 {
            match compare_str(x.name_str(), r[pos - 1].name_str()) {
                Cmp::Equal => true,
                _ => false,
            }
        } else {
            false
        };
        if dup {
            proof {
                assert(!first_of_name(s, i as int)) by {
                    let j = p[pos - 1];
                    assert(s[j].name_view() == s[i as int].name_view());
                }
                assert forall|j: int| 0 <= j < i + 1 && first_of_name(s, j) implies exists|k: int| 0 <= k < r@.len() && #[trigger] p[k] == j by {
                }
                assert forall|j: int| 0 <= j < i + 1 implies exists|k: int| 0 <= k < r@.len() && (#[trigger] r@[k]).name_view() == (#[trigger] s[j]).name_view() by {
                    if j == i {
                        assert(r@[pos - 1].name_view() == s[j].name_view());
                    }
                }
            }
        } else {
            let ghost old_r = r@;
            let ghost old_p = p;
            proof {
                assert forall|k: int| 0 <= k < old_r.len() implies #[trigger] old_r[k].name_view() != x.name_view() by {
                    if k < pos {
                        if k < pos - 1 {
                            assert(seq_lt(old_r[k].name_view(), old_r[pos - 1].name_view()));
                        }
                    } else {
                        if k > pos {
                            assert(seq_lt(old_r[pos as int].name_view(), old_r[k].name_view()));
                            if old_r[k].name_view() == x.name_view() {
                                lemma_lt_asym(x.name_view(), old_r[pos as int].name_view());
                            }
                        } else {
                            lemma_lt_irrefl(x.name_view());
                        }
                    }
                }
                assert(first_of_name(s, i as int)) by {
                    assert forall|j: int| 0 <= j < i implies (#[trigger] s[j]).name_view() != s[i as int].name_view() by {
                        let k = choose|k: int| 0 <= k < old_r.len() && (#[trigger] old_r[k]).name_view() == s[j].name_view();
                        assert(old_r[k].name_view() != x.name_view());
                    }
                }
            }
            r.insert(pos, x);
            proof {
                p = old_p.take(pos as int) + seq![i as int] + old_p.skip(pos as int);
                assert forall|k: int| 0 <= k < r@.len() implies 0 <= #[trigger] p[k] < i + 1 && first_of_name(s, p[k]) && r@[k] == s[p[k]] by {
                    if k < pos {
                        assert(p[k] == old_p[k]);
                    } else if k > pos {
                        assert(p[k] == old_p[k - 1]);
                    }
                }
                assert forall|a: int, b: int| 0 <= a < b < r@.len() implies seq_lt(#[trigger] r@[a].name_view(), #[trigger] r@[b].name_view()) by {
                    if a == pos {
                        assert(r@[b] == old_r[b - 1]);
                        if b - 1 > pos {
                            lemma_lt_trans(x.name_view(), old_r[pos as int].name_view(), old_r[b - 1].name_view());
                        }
                    } else if b == pos {
                        assert(r@[a] == old_r[a]);
                        lemma_lt_total(old_r[a].name_view(), x.name_view());
                    } else {
                        let aa = if a < pos { a } else { a - 1 };
                        let bb = if b < pos { b } else { b - 1 };
                        assert(r@[a] == old_r[aa]);
                        assert(r@[b] == old_r[bb]);
                    }
                }
                assert forall|j: int| 0 <= j < i + 1 && first_of_name(s, j) implies exists|k: int| 0 <= k < r@.len() && #[trigger] p[k] == j by {
                    if j == i {
                        assert(p[pos as int] == j);
                    } else {
                        let k = choose|k: int| 0 <= k < old_r.len() && #[trigger] old_p[k] == j;
                        let kk = if k < pos { k } else { k + 1 };
                        assert(p[kk] == old_p[k]);
                    }
                }
                assert forall|j: int| 0 <= j < i + 1 implies exists|k: int| 0 <= k < r@.len() && (#[trigger] r@[k]).name_view() == (#[trigger] s[j]).name_view() by {
                    if j == i {
                        assert(r@[pos as int].name_view() == s[j].name_view());
                    } else {
                        let k = choose|k: int| 0 <= k < old_r.len() && (#[trigger] old_r[k]).name_view() == s[j].name_view();
                        let kk = if k < pos { k } else { k + 1 };
                        assert(r@[kk] == old_r[k]);
                    }
                }
            }
        }
        i += 1;
    }
    proof {
        assert(is_sorted_dedup(r@, s, p));
    }
    r
}

} // verus!
