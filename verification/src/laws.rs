//! Global properties of the scan: the output sequences are duplicate-free,
//! they are a function of the document alone (so scanning twice yields
//! identical output), and a collected variable name appears exactly once
//! however many sources produced it.

use vstd::prelude::*;
use crate::order::lemma_lex_connected;
use crate::order::lemma_lex_irrefl;
use crate::order::lemma_lex_trans;
use crate::order::lemma_task_connected;
use crate::order::lemma_task_irrefl;
use crate::order::lemma_task_trans;
use crate::order::lex_lt;
use crate::order::str_views;
use crate::order::strictly_sorted_strs;
use crate::order::strictly_sorted_tasks;
use crate::order::strs_contain;
use crate::order::task_eq;
use crate::order::task_lt;
use crate::order::tasks_contain;
use crate::order::UserTask;
use crate::scanner::result_of_model;
use crate::scanner::scan_model;
use crate::scanner::DelegateFilter;
use crate::scanner::ScanResult;

verus! {

/// The (id, name) pairs of `v`, in order.
pub open spec fn task_views(v: Seq<UserTask>) -> Seq<(Seq<char>, Seq<char>)> {
    v.map_values(|t: UserTask| (t.id@, t.name@))
}

/// A strictly sorted string sequence holds no duplicate values.
pub proof fn lemma_sorted_strs_distinct(v: Seq<String>)
    requires
        strictly_sorted_strs(v),
    ensures
        forall|i: int, j: int| 0 <= i < j < v.len() ==> v[i]@ != v[j]@,
{
    assert forall|i: int, j: int| 0 <= i < j < v.len() implies v[i]@ != v[j]@ by {
        lemma_lex_irrefl(v[i]@);
    }
}

/// A strictly sorted task sequence holds no duplicate (id, name) pair.
pub proof fn lemma_sorted_tasks_distinct(v: Seq<UserTask>)
    requires
        strictly_sorted_tasks(v),
    ensures
        forall|i: int, j: int| 0 <= i < j < v.len() ==> !task_eq(&v[i], &v[j]),
{
    assert forall|i: int, j: int| 0 <= i < j < v.len() implies !task_eq(&v[i], &v[j]) by {
        if task_eq(&v[i], &v[j]) {
            assert(task_lt(&v[i], &v[j]));
            lemma_lex_irrefl(v[i].name@);
            lemma_lex_irrefl(v[i].id@);
        }
    }
}

/// Two strictly sorted string sequences with the same members are the same
/// sequence: the sorted, deduplicated form of a set is unique.
pub proof fn lemma_sorted_unique_strs(a: Seq<String>, b: Seq<String>)
    requires
        strictly_sorted_strs(a),
        strictly_sorted_strs(b),
        forall|x: Seq<char>| #[trigger] strs_contain(a, x) <==> strs_contain(b, x),
    ensures
        str_views(a) == str_views(b),
    decreases a.len(),
{
    if a.len() == 0 {
        if b.len() > 0 {
            assert(strs_contain(b, b[0]@));
            assert(strs_contain(a, b[0]@));
        }
        assert(str_views(a) =~= str_views(b));
    } else {
        assert(strs_contain(a, a[0]@));
        assert(strs_contain(b, a[0]@));
        assert(b.len() > 0) by {
            if b.len() == 0 {
                assert(!strs_contain(b, a[0]@));
            }
        }
        // The heads are equal: each is its sequence's strict minimum.
        if a[0]@ != b[0]@ {
            lemma_lex_connected(a[0]@, b[0]@);
            let k = choose|k: int| 0 <= k < b.len() && b[k]@ == a[0]@;
            assert(strs_contain(b, b[0]@));
            assert(strs_contain(a, b[0]@));
            let m = choose|m: int| 0 <= m < a.len() && a[m]@ == b[0]@;
            if lex_lt(a[0]@, b[0]@) {
                assert(k > 0);
                assert(lex_lt(b[0]@, b[k]@));
                lemma_lex_trans(a[0]@, b[0]@, a[0]@);
                lemma_lex_irrefl(a[0]@);
            } else {
                assert(m > 0);
                assert(lex_lt(a[0]@, a[m]@));
                lemma_lex_trans(b[0]@, a[0]@, b[0]@);
                lemma_lex_irrefl(b[0]@);
            }
        }
        let a1 = a.drop_first();
        let b1 = b.drop_first();
        assert forall|i: int, j: int| 0 <= i < j < a1.len() implies lex_lt(
            a1[i]@,
            a1[j]@,
        ) by {
            assert(a1[i] == a[i + 1] && a1[j] == a[j + 1]);
        }
        assert forall|i: int, j: int| 0 <= i < j < b1.len() implies lex_lt(
            b1[i]@,
            b1[j]@,
        ) by {
            assert(b1[i] == b[i + 1] && b1[j] == b[j + 1]);
        }
        assert forall|x: Seq<char>| #[trigger] strs_contain(a1, x) implies strs_contain(b1, x) by {
            let j = choose|j: int| 0 <= j < a1.len() && a1[j]@ == x;
            assert(a1[j] == a[j + 1]);
            assert(strs_contain(a, x));
            assert(strs_contain(b, x));
            let k = choose|k: int| 0 <= k < b.len() && b[k]@ == x;
            if k == 0 {
                // then x == b[0]@ == a[0]@, yet x also sits at a[j + 1]
                assert(lex_lt(a[0]@, a[j + 1]@));
                lemma_lex_irrefl(x);
            } else {
                assert(b1[k - 1] == b[k]);
            }
        }
        assert forall|x: Seq<char>| strs_contain(b1, x) implies #[trigger] strs_contain(a1, x) by {
            let j = choose|j: int| 0 <= j < b1.len() && b1[j]@ == x;
            assert(b1[j] == b[j + 1]);
            assert(strs_contain(b, x));
            assert(strs_contain(a, x));
            let k = choose|k: int| 0 <= k < a.len() && a[k]@ == x;
            if k == 0 {
                assert(lex_lt(b[0]@, b[j + 1]@));
                lemma_lex_irrefl(x);
            } else {
                assert(a1[k - 1] == a[k]);
            }
        }
        lemma_sorted_unique_strs(a1, b1);
        assert(str_views(a1).len() == a1.len());
        assert(str_views(b1).len() == b1.len());
        assert(a.len() == b.len());
        assert forall|i: int| 0 <= i < a.len() implies a[i]@ == b[i]@ by {
            if i > 0 {
                assert(str_views(a1)[i - 1] == a1[i - 1]@);
                assert(str_views(b1)[i - 1] == b1[i - 1]@);
                assert(a1[i - 1] == a[i]);
                assert(b1[i - 1] == b[i]);
            }
        }
        assert(str_views(a) =~= str_views(b));
    }
}

/// Two strictly sorted task sequences with the same members are the same
/// sequence of (id, name) pairs.
pub proof fn lemma_sorted_unique_tasks(a: Seq<UserTask>, b: Seq<UserTask>)
    requires
        strictly_sorted_tasks(a),
        strictly_sorted_tasks(b),
        forall|xi: Seq<char>, xn: Seq<char>|
            #[trigger] tasks_contain(a, xi, xn) <==> tasks_contain(b, xi, xn),
    ensures
        task_views(a) == task_views(b),
    decreases a.len(),
{
    if a.len() == 0 {
        if b.len() > 0 {
            assert(tasks_contain(b, b[0].id@, b[0].name@));
            assert(tasks_contain(a, b[0].id@, b[0].name@));
        }
        assert(task_views(a) =~= task_views(b));
    } else {
        assert(tasks_contain(a, a[0].id@, a[0].name@));
        assert(tasks_contain(b, a[0].id@, a[0].name@));
        assert(b.len() > 0) by {
            if b.len() == 0 {
                assert(!tasks_contain(b, a[0].id@, a[0].name@));
            }
        }
        if !task_eq(&a[0], &b[0]) {
            lemma_task_connected(&a[0], &b[0]);
            let k = choose|k: int|
                0 <= k < b.len() && b[k].id@ == a[0].id@ && b[k].name@ == a[0].name@;
            assert(tasks_contain(b, b[0].id@, b[0].name@));
            assert(tasks_contain(a, b[0].id@, b[0].name@));
            let m = choose|m: int|
                0 <= m < a.len() && a[m].id@ == b[0].id@ && a[m].name@ == b[0].name@;
            if task_lt(&a[0], &b[0]) {
                assert(k > 0) by {
                    if k == 0 {
                        lemma_task_irrefl(&a[0]);
                    }
                }
                assert(task_lt(&b[0], &b[k]));
                lemma_task_trans(&a[0], &b[0], &b[k]);
                lemma_task_irrefl(&a[0]);
            } else {
                assert(m > 0) by {
                    if m == 0 {
                        lemma_task_irrefl(&b[0]);
                    }
                }
                assert(task_lt(&a[0], &a[m]));
                lemma_task_trans(&b[0], &a[0], &a[m]);
                lemma_task_irrefl(&b[0]);
            }
        }
        let a1 = a.drop_first();
        let b1 = b.drop_first();
        assert forall|i: int, j: int| 0 <= i < j < a1.len() implies task_lt(
            &a1[i],
            &a1[j],
        ) by {
            assert(a1[i] == a[i + 1] && a1[j] == a[j + 1]);
        }
        assert forall|i: int, j: int| 0 <= i < j < b1.len() implies task_lt(
            &b1[i],
            &b1[j],
        ) by {
            assert(b1[i] == b[i + 1] && b1[j] == b[j + 1]);
        }
        assert forall|xi: Seq<char>, xn: Seq<char>|
            #[trigger] tasks_contain(a1, xi, xn) implies tasks_contain(b1, xi, xn) by {
            let j = choose|j: int| 0 <= j < a1.len() && a1[j].id@ == xi && a1[j].name@ == xn;
            assert(a1[j] == a[j + 1]);
            assert(tasks_contain(a, xi, xn));
            assert(tasks_contain(b, xi, xn));
            let k = choose|k: int| 0 <= k < b.len() && b[k].id@ == xi && b[k].name@ == xn;
            if k == 0 {
                assert(task_lt(&a[0], &a[j + 1]));
                assert(task_eq(&a[0], &b[0]) && task_eq(&b[0], &a[j + 1]));
                lemma_task_irrefl(&a[0]);
            } else {
                assert(b1[k - 1] == b[k]);
            }
        }
        assert forall|xi: Seq<char>, xn: Seq<char>|
            tasks_contain(b1, xi, xn) implies #[trigger] tasks_contain(a1, xi, xn) by {
            let j = choose|j: int| 0 <= j < b1.len() && b1[j].id@ == xi && b1[j].name@ == xn;
            assert(b1[j] == b[j + 1]);
            assert(tasks_contain(b, xi, xn));
            assert(tasks_contain(a, xi, xn));
            let k = choose|k: int| 0 <= k < a.len() && a[k].id@ == xi && a[k].name@ == xn;
            if k == 0 {
                assert(task_lt(&b[0], &b[j + 1]));
                assert(task_eq(&b[0], &a[0]) && task_eq(&a[0], &b[j + 1]));
                lemma_task_irrefl(&b[0]);
            } else {
                assert(a1[k - 1] == a[k]);
            }
        }
        lemma_sorted_unique_tasks(a1, b1);
        assert(task_views(a1).len() == a1.len());
        assert(task_views(b1).len() == b1.len());
        assert(a.len() == b.len());
        assert forall|i: int| 0 <= i < a.len() implies a[i].id@ == b[i].id@ && a[i].name@
            == b[i].name@ by {
            if i > 0 {
                assert(task_views(a1)[i - 1] == (a1[i - 1].id@, a1[i - 1].name@));
                assert(task_views(b1)[i - 1] == (b1[i - 1].id@, b1[i - 1].name@));
                assert(a1[i - 1] == a[i]);
                assert(b1[i - 1] == b[i]);
            }
        }
        assert(task_views(a) =~= task_views(b));
    }
}

/// Running the scan twice on the same document yields identical output
/// sequences: the result is a function of the document and the filter.
pub proof fn lemma_scan_deterministic(
    r1: &ScanResult,
    r2: &ScanResult,
    doc: Seq<Seq<char>>,
    f: DelegateFilter,
)
    requires
        result_of_model(r1, scan_model(doc, f)),
        result_of_model(r2, scan_model(doc, f)),
    ensures
        str_views(r1.delegates@) == str_views(r2.delegates@),
        str_views(r1.context_variables@) == str_views(r2.context_variables@),
        task_views(r1.user_tasks@) == task_views(r2.user_tasks@),
{
    let m = scan_model(doc, f);
    assert forall|x: Seq<char>|
        #[trigger] strs_contain(r1.delegates@, x) <==> strs_contain(r2.delegates@, x) by {
        assert(strs_contain(r1.delegates@, x) <==> m.delegates.contains(x));
        assert(strs_contain(r2.delegates@, x) <==> m.delegates.contains(x));
    }
    lemma_sorted_unique_strs(r1.delegates@, r2.delegates@);
    assert forall|x: Seq<char>|
        #[trigger] strs_contain(r1.context_variables@, x) <==> strs_contain(
            r2.context_variables@,
            x,
        ) by {
        assert(strs_contain(r1.context_variables@, x) <==> m.variables.contains(x));
        assert(strs_contain(r2.context_variables@, x) <==> m.variables.contains(x));
    }
    lemma_sorted_unique_strs(r1.context_variables@, r2.context_variables@);
    assert forall|xi: Seq<char>, xn: Seq<char>|
        #[trigger] tasks_contain(r1.user_tasks@, xi, xn) <==> tasks_contain(
            r2.user_tasks@,
            xi,
            xn,
        ) by {
        assert(tasks_contain(r1.user_tasks@, xi, xn) <==> m.tasks.contains((xi, xn)));
        assert(tasks_contain(r2.user_tasks@, xi, xn) <==> m.tasks.contains((xi, xn)));
    }
    lemma_sorted_unique_tasks(r1.user_tasks@, r2.user_tasks@);
}

/// However many of the three sources produced a variable name, it occurs
/// exactly once in the final context-variable sequence.
pub proof fn lemma_variable_occurs_once(
    r: &ScanResult,
    doc: Seq<Seq<char>>,
    f: DelegateFilter,
    x: Seq<char>,
)
    requires
        result_of_model(r, scan_model(doc, f)),
        scan_model(doc, f).variables.contains(x),
    ensures
        exists|i: int| 0 <= i < r.context_variables@.len() && r.context_variables@[i]@ == x,
        forall|i: int, j: int|
            (0 <= i < r.context_variables@.len() && 0 <= j < r.context_variables@.len()
                && r.context_variables@[i]@ == x && r.context_variables@[j]@ == x) ==> i == j,
{
    assert(strs_contain(r.context_variables@, x));
    assert forall|i: int, j: int|
        (0 <= i < r.context_variables@.len() && 0 <= j < r.context_variables@.len()
            && r.context_variables@[i]@ == x && r.context_variables@[j]@ == x) implies i == j by {
        if i != j {
            lemma_lex_irrefl(x);
        }
    }
}

} // verus!
