//! Lexicographic ordering of character sequences, the derived ordering of
//! user-task pairs, and insertion into strictly sorted vectors. The strict
//! order doubles as the deduplication argument: a strictly sorted sequence
//! holds no duplicates.

use vstd::prelude::*;

verus! {

/// Strict lexicographic order on character sequences, by code point.
pub open spec fn lex_lt(a: Seq<char>, b: Seq<char>) -> bool
    decreases a.len(),
{
    if b.len() == 0 {
        false
    } else if a.len() == 0 {
        true
    } else if (a[0] as int) < (b[0] as int) {
        true
    } else if (b[0] as int) < (a[0] as int) {
        false
    } else {
        lex_lt(a.drop_first(), b.drop_first())
    }
}

/// The order is irreflexive.
pub proof fn lemma_lex_irrefl(a: Seq<char>)
    ensures
        !lex_lt(a, a),
    decreases a.len(),
{
    if a.len() > 0 {
        lemma_lex_irrefl(a.drop_first());
    }
}

/// Distinct sequences are ordered one way or the other.
pub proof fn lemma_lex_connected(a: Seq<char>, b: Seq<char>)
    ensures
        a != b ==> lex_lt(a, b) || lex_lt(b, a),
    decreases a.len(),
{
    if a.len() == 0 && b.len() == 0 {
        assert(a =~= b);
    } else if a.len() > 0 && b.len() > 0 {
        if a[0] == b[0] {
            lemma_lex_connected(a.drop_first(), b.drop_first());
            if a.drop_first() == b.drop_first() {
                assert(a.drop_first().len() == a.len() - 1);
                assert(b.drop_first().len() == b.len() - 1);
                assert forall|i: int| 0 <= i < a.len() implies a[i] == b[i] by {
                    if i > 0 {
                        assert(a.drop_first()[i - 1] == a[i]);
                        assert(b.drop_first()[i - 1] == b[i]);
                    }
                }
                assert(a =~= b);
            }
        } else {
            assert((a[0] as int) != (b[0] as int));
        }
    }
}

/// The order is transitive.
pub proof fn lemma_lex_trans(a: Seq<char>, b: Seq<char>, c: Seq<char>)
    requires
        lex_lt(a, b),
        lex_lt(b, c),
    ensures
        lex_lt(a, c),
    decreases a.len(),
{
    if a.len() > 0 && b.len() > 0 && c.len() > 0 && a[0] == b[0] && b[0] == c[0] {
        lemma_lex_trans(a.drop_first(), b.drop_first(), c.drop_first());
    }
}

/// Compares two strings in the lexicographic order.
pub fn str_lt(a: &str, b: &str) -> (r: bool)
    ensures
        r == lex_lt(a@, b@),
{
    let na = a.unicode_len();
    let nb = b.unicode_len();
    let mut i: usize = 0;
    proof {
        assert(a@.skip(0) =~= a@);
        assert(b@.skip(0) =~= b@);
    }
    loop
        invariant
            0 <= i <= na,
            0 <= i <= nb,
            na == a@.len(),
            nb == b@.len(),
            lex_lt(a@, b@) == lex_lt(a@.skip(i as int), b@.skip(i as int)),
        decreases na - i,
    {
        if i >= nb {
            assert(b@.skip(i as int).len() == 0);
            return false;
        }
        if i >= na {
            assert(a@.skip(i as int).len() == 0);
            return true;
        }
        let ca = a.get_char(i);
        let cb = b.get_char(i);
        proof {
            assert(a@.skip(i as int)[0] == ca);
            assert(b@.skip(i as int)[0] == cb);
        }
        if (ca as u32) < (cb as u32) {
            return true;
        }
        if (cb as u32) < (ca as u32) {
            return false;
        }
        proof {
            assert(a@.skip(i as int).drop_first() =~= a@.skip(i + 1));
            assert(b@.skip(i as int).drop_first() =~= b@.skip(i + 1));
        }
        i += 1;
    }
}

/// A user task: a workflow step identified by an id and a display name.
pub struct UserTask {
    pub id: String,
    pub name: String,
}

/// Order of user tasks: ascending by name, ties broken by id.
pub open spec fn task_lt(a: &UserTask, b: &UserTask) -> bool {
    lex_lt(a.name@, b.name@) || (a.name@ == b.name@ && lex_lt(a.id@, b.id@))
}

/// The two tasks carry the same id and the same name.
pub open spec fn task_eq(a: &UserTask, b: &UserTask) -> bool {
    a.id@ == b.id@ && a.name@ == b.name@
}

/// The task order is irreflexive.
pub proof fn lemma_task_irrefl(a: &UserTask)
    ensures
        !task_lt(a, a),
{
    lemma_lex_irrefl(a.name@);
    lemma_lex_irrefl(a.id@);
}

/// Tasks that differ in id or name are ordered one way or the other.
pub proof fn lemma_task_connected(a: &UserTask, b: &UserTask)
    ensures
        !task_eq(a, b) ==> task_lt(a, b) || task_lt(b, a),
{
    lemma_lex_connected(a.name@, b.name@);
    lemma_lex_connected(a.id@, b.id@);
}

/// The task order is transitive.
pub proof fn lemma_task_trans(a: &UserTask, b: &UserTask, c: &UserTask)
    requires
        task_lt(a, b),
        task_lt(b, c),
    ensures
        task_lt(a, c),
{
    if lex_lt(a.name@, b.name@) && lex_lt(b.name@, c.name@) {
        lemma_lex_trans(a.name@, b.name@, c.name@);
    } else if a.name@ == b.name@ && b.name@ == c.name@ {
        lemma_lex_trans(a.id@, b.id@, c.id@);
    }
}

/// The strings of `v`, in order, as character sequences.
pub open spec fn str_views(v: Seq<String>) -> Seq<Seq<char>> {
    v.map_values(|s: String| s@)
}

/// Some string of `v` reads `x`.
pub open spec fn strs_contain(v: Seq<String>, x: Seq<char>) -> bool {
    exists|k: int| 0 <= k < v.len() && v[k]@ == x
}

/// The strings of `v` are strictly ascending: sorted, with no duplicates.
pub open spec fn strictly_sorted_strs(v: Seq<String>) -> bool {
    forall|i: int, j: int| 0 <= i < j < v.len() ==> lex_lt(v[i]@, v[j]@)
}

/// Some task of `v` carries this id and name.
pub open spec fn tasks_contain(v: Seq<UserTask>, id: Seq<char>, name: Seq<char>) -> bool {
    exists|k: int| 0 <= k < v.len() && v[k].id@ == id && v[k].name@ == name
}

/// The tasks of `v` are strictly ascending by name then id: sorted by name,
/// with no duplicate (id, name) pair.
pub open spec fn strictly_sorted_tasks(v: Seq<UserTask>) -> bool {
    forall|i: int, j: int| 0 <= i < j < v.len() ==> task_lt(&v[i], &v[j])
}

/// Inserts `x` into a strictly sorted vector, keeping it strictly sorted;
/// inserting a string that is already present changes nothing.
pub fn insert_str_sorted(v: &mut Vec<String>, x: String)
    requires
        strictly_sorted_strs(old(v)@),
    ensures
        strictly_sorted_strs(final(v)@),
        forall|y: Seq<char>|
            #[trigger] strs_contain(final(v)@, y) <==> (strs_contain(old(v)@, y) || y == x@),
{
    let ghost orig = v@;
    let mut i: usize = 0;
    while i < v.len() && str_lt(&v[i], &x)
        invariant
            0 <= i <= v.len(),
            v@ == orig,
            strictly_sorted_strs(orig),
            forall|t: int| 0 <= t < i ==> lex_lt(orig[t]@, x@),
        decreases v.len() - i,
    {
        i += 1;
    }
    if i < v.len() && v[i].eq(&x) {
        proof {
            assert(strs_contain(orig, x@));
            assert(forall|y: Seq<char>|
                strs_contain(v@, y) <==> (strs_contain(orig, y) || y == x@));
        }
        return ;
    }
    proof {
        if i < orig.len() {
            lemma_lex_connected(orig[i as int]@, x@);
        }
        assert forall|p: int, q: int|
            0 <= p < q < orig.len() + 1 implies #[trigger] lex_lt(
            orig.insert(i as int, x)[p]@,
            orig.insert(i as int, x)[q]@,
        ) by {
            let w = orig.insert(i as int, x);
            if p < i && q == i {
                assert(w[p]@ == orig[p]@ && w[q]@ == x@);
            } else if p == i && q > i {
                assert(w[p]@ == x@ && w[q]@ == orig[q - 1]@);
                if i < orig.len() && q - 1 > i {
                    lemma_lex_trans(x@, orig[i as int]@, orig[q - 1]@);
                }
            } else if p < i && q > i {
                assert(w[p]@ == orig[p]@ && w[q]@ == orig[q - 1]@);
                if q - 1 == p {
                    lemma_lex_trans(orig[p]@, x@, orig[q - 1]@);
                }
            } else if p > i && q > i {
                assert(w[p]@ == orig[p - 1]@ && w[q]@ == orig[q - 1]@);
            } else if p < i && q < i {
                assert(w[p]@ == orig[p]@ && w[q]@ == orig[q]@);
            }
        }
    }
    v.insert(i, x);
    proof {
        let w = v@;
        assert forall|y: Seq<char>|
            #[trigger] strs_contain(w, y) implies (strs_contain(orig, y) || y == x@) by {
            let k = choose|k: int| 0 <= k < w.len() && w[k]@ == y;
            if k < i {
                assert(orig[k]@ == y);
            } else if k > i {
                assert(orig[k - 1]@ == y);
            }
        }
        assert forall|y: Seq<char>|
            (strs_contain(orig, y) || y == x@) implies #[trigger] strs_contain(w, y) by {
            if strs_contain(orig, y) {
                let k = choose|k: int| 0 <= k < orig.len() && orig[k]@ == y;
                if k < i {
                    assert(w[k]@ == y);
                } else {
                    assert(w[k + 1]@ == y);
                }
            } else {
                assert(w[i as int]@ == y);
            }
        }
    }
}

/// Inserts a task into a strictly sorted vector, keeping it strictly sorted;
/// inserting a pair that is already present changes nothing.
pub fn insert_task_sorted(v: &mut Vec<UserTask>, x: UserTask)
    requires
        strictly_sorted_tasks(old(v)@),
    ensures
        strictly_sorted_tasks(final(v)@),
        forall|yi: Seq<char>, yn: Seq<char>|
            #[trigger] tasks_contain(final(v)@, yi, yn) <==> (tasks_contain(old(v)@, yi, yn)
                || (yi == x.id@ && yn == x.name@)),
{
    let ghost orig = v@;
    let mut i: usize = 0;
    while i < v.len() && task_lt_exec(&v[i], &x)
        invariant
            0 <= i <= v.len(),
            v@ == orig,
            strictly_sorted_tasks(orig),
            forall|t: int| 0 <= t < i ==> task_lt(&orig[t], &x),
        decreases v.len() - i,
    {
        i += 1;
    }
    if i < v.len() && v[i].id.eq(&x.id) && v[i].name.eq(&x.name) {
        proof {
            assert(tasks_contain(orig, x.id@, x.name@));
        }
        return ;
    }
    proof {
        if i < orig.len() {
            lemma_task_connected(&orig[i as int], &x);
        }
        assert forall|p: int, q: int|
            0 <= p < q < orig.len() + 1 implies #[trigger] task_lt(
            &orig.insert(i as int, x)[p],
            &orig.insert(i as int, x)[q],
        ) by {
            let w = orig.insert(i as int, x);
            if p < i && q == i {
            } else if p == i && q > i {
                if i < orig.len() && q - 1 > i {
                    lemma_task_trans(&x, &orig[i as int], &orig[q - 1]);
                }
            } else if p < i && q > i {
                if q - 1 == p {
                    lemma_task_trans(&orig[p], &x, &orig[q - 1]);
                }
            }
        }
    }
    v.insert(i, x);
    proof {
        let w = v@;
        assert forall|yi: Seq<char>, yn: Seq<char>|
            #[trigger] tasks_contain(w, yi, yn) implies (tasks_contain(orig, yi, yn) || (yi
            == x.id@ && yn == x.name@)) by {
            let k = choose|k: int|
                0 <= k < w.len() && w[k].id@ == yi && w[k].name@ == yn;
            if k < i {
                assert(orig[k].id@ == yi && orig[k].name@ == yn);
            } else if k > i {
                assert(orig[k - 1].id@ == yi && orig[k - 1].name@ == yn);
            }
        }
        assert forall|yi: Seq<char>, yn: Seq<char>|
            (tasks_contain(orig, yi, yn) || (yi == x.id@ && yn == x.name@))
            implies #[trigger] tasks_contain(w, yi, yn) by {
            if tasks_contain(orig, yi, yn) {
                let k = choose|k: int|
                    0 <= k < orig.len() && orig[k].id@ == yi && orig[k].name@ == yn;
                if k < i {
                    assert(w[k].id@ == yi && w[k].name@ == yn);
                } else {
                    assert(w[k + 1].id@ == yi && w[k + 1].name@ == yn);
                }
            } else {
                assert(w[i as int].id@ == yi && w[i as int].name@ == yn);
            }
        }
    }
}

/// Compares two tasks in the task order.
pub fn task_lt_exec(a: &UserTask, b: &UserTask) -> (r: bool)
    ensures
        r == task_lt(a, b),
{
    if str_lt(a.name.as_str(), b.name.as_str()) {
        true
    } else if a.name.eq(&b.name) {
        str_lt(a.id.as_str(), b.id.as_str())
    } else {
        false
    }
}

} // verus!
