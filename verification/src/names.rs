//! Lists of names in ascending order, each name once.

use crate::classpath::texts;
use vstd::prelude::*;

verus! {

/// Whether `a` comes before `b` in the order of a dictionary, with the
/// characters in the order of their code points.
pub open spec fn lex_less(a: Seq<char>, b: Seq<char>) -> bool
    decreases a.len(),
{
    if b.len() == 0 {
        false
    } else if a.len() == 0 {
        true
    } else if a[0] != b[0] {
        (a[0] as u32) < (b[0] as u32)
    } else {
        lex_less(a.drop_first(), b.drop_first())
    }
}

/// No text comes before itself.
pub proof fn lemma_lex_less_irreflexive(a: Seq<char>)
    ensures
        !lex_less(a, a),
    decreases a.len(),
{
    if a.len() > 0 {
        lemma_lex_less_irreflexive(a.drop_first());
    }
}

/// What comes before a text comes before all that the text comes before.
pub proof fn lemma_lex_less_transitive(a: Seq<char>, b: Seq<char>, c: Seq<char>)
    requires
        lex_less(a, b),
        lex_less(b, c),
    ensures
        lex_less(a, c),
    decreases a.len(),
{
    if a.len() > 0 && a[0] == b[0] && b[0] == c[0] {
        lemma_lex_less_transitive(a.drop_first(), b.drop_first(), c.drop_first());
    }
}

/// Whether each name of a list comes before all that follow it.
pub open spec fn strictly_sorted(names: Seq<Seq<char>>) -> bool {
    forall|i: int, j: int|
        0 <= i < j < names.len() ==> lex_less(#[trigger] names[i], #[trigger] names[j])
}

/// Two sorted lists of the same names are the same list.
pub proof fn lemma_sorted_list_is_unique(a: Seq<Seq<char>>, b: Seq<Seq<char>>)
    requires
        strictly_sorted(a),
        strictly_sorted(b),
        forall|s: Seq<char>| a.contains(s) <==> b.contains(s),
    ensures
        a == b,
    decreases a.len(),
{
    if a.len() == 0 {
        if b.len() > 0 {
            assert(b.contains(b[0]));
        }
        assert(a =~= b);
    } else if b.len() == 0 {
        assert(a.contains(a[0]));
    } else {
        assert(a.contains(a[0]));
        assert(b.contains(b[0]));
        let i = choose|i: int| 0 <= i < b.len() && b[i] == a[0];
        let j = choose|j: int| 0 <= j < a.len() && a[j] == b[0];
        if i > 0 && j > 0 {
            lemma_lex_less_transitive(a[0], a[j], b[i]);
            lemma_lex_less_irreflexive(a[0]);
        } else if i > 0 {
            lemma_lex_less_irreflexive(b[0]);
        } else if j > 0 {
            lemma_lex_less_irreflexive(a[0]);
        }
        assert(a[0] == b[0]);
        let ra = a.drop_first();
        let rb = b.drop_first();
        assert forall|s: Seq<char>| ra.contains(s) <==> rb.contains(s) by {
            lemma_lex_less_irreflexive(a[0]);
            if ra.contains(s) {
                let k = choose|k: int| 0 <= k < ra.len() && ra[k] == s;
                assert(a[k + 1] == s);
                assert(a.contains(s));
                let m = choose|m: int| 0 <= m < b.len() && b[m] == s;
                assert(lex_less(a[0], a[k + 1]));
                assert(m > 0);
                assert(rb[m - 1] == s);
            }
            if rb.contains(s) {
                let k = choose|k: int| 0 <= k < rb.len() && rb[k] == s;
                assert(b[k + 1] == s);
                assert(b.contains(s));
                let m = choose|m: int| 0 <= m < a.len() && a[m] == s;
                assert(lex_less(b[0], b[k + 1]));
                assert(m > 0);
                assert(ra[m - 1] == s);
            }
        }
        assert(strictly_sorted(ra)) by {
            assert forall|x: int, y: int| 0 <= x < y < ra.len() implies lex_less(
                #[trigger] ra[x],
                #[trigger] ra[y],
            ) by {
                assert(lex_less(a[x + 1], a[y + 1]));
            }
        }
        assert(strictly_sorted(rb)) by {
            assert forall|x: int, y: int| 0 <= x < y < rb.len() implies lex_less(
                #[trigger] rb[x],
                #[trigger] rb[y],
            ) by {
                assert(lex_less(b[x + 1], b[y + 1]));
            }
        }
        lemma_sorted_list_is_unique(ra, rb);
        assert(a =~= seq![a[0]] + ra);
        assert(b =~= seq![b[0]] + rb);
    }
}

/// How two texts stand to each other.
#[derive(Clone, Copy, Debug, PartialEq, Eq, Structural)]
pub enum Order {
    Before,
    Same,
    After,
}

/// How `a` stands to `b` in the order of a dictionary.
pub fn order_of(a: &str, b: &str) -> (order: Order)
    ensures
        match order {
            Order::Before => lex_less(a@, b@),
            Order::Same => a@ == b@,
            Order::After => lex_less(b@, a@),
        },
{
    let a_len = a.unicode_len();
    let b_len = b.unicode_len();
    let mut i: usize = 0;
    assert(a@.subrange(0, a_len as int) =~= a@);
    assert(b@.subrange(0, b_len as int) =~= b@);
    while i < a_len && i < b_len
        invariant
            i <= a_len,
            i <= b_len,
            a_len == a@.len(),
            b_len == b@.len(),
            forall|k: int| 0 <= k < i ==> a@[k] == b@[k],
            lex_less(a@, b@) == lex_less(
                a@.subrange(i as int, a_len as int),
                b@.subrange(i as int, b_len as int),
            ),
            lex_less(b@, a@) == lex_less(
                b@.subrange(i as int, b_len as int),
                a@.subrange(i as int, a_len as int),
            ),
        decreases a_len - i,
    {
        let x = a.get_char(i);
        let y = b.get_char(i);
        let ghost a_rest = a@.subrange(i as int, a_len as int);
        let ghost b_rest = b@.subrange(i as int, b_len as int);
        assert(a_rest[0] == x && b_rest[0] == y);
        if x != y {
            if (x as u32) < (y as u32) {
                return Order::Before;
            } else {
                return Order::After;
            }
        }
        assert(a_rest.drop_first() =~= a@.subrange(i + 1, a_len as int));
        assert(b_rest.drop_first() =~= b@.subrange(i + 1, b_len as int));
        i = i + 1;
    }
    assert(a@.subrange(0, a_len as int) =~= a@);
    if a_len == b_len {
        assert(a@ =~= b@);
        Order::Same
    } else if a_len < b_len {
        Order::Before
    } else {
        Order::After
    }
}

/// Puts `name` at its place in the sorted list `names`, unless it stands
/// there already.
pub(crate) fn insert_sorted(names: &mut Vec<String>, name: String)
    requires
        strictly_sorted(texts(old(names)@)),
    ensures
        strictly_sorted(texts(final(names)@)),
        forall|s: Seq<char>|
            texts(final(names)@).contains(s) <==> (s == name@ || texts(old(names)@).contains(s)),
{
    let ghost before = texts(names@);
    let mut at: usize = 0;
    while at < names.len()
        invariant
            at <= names@.len(),
            names@ == old(names)@,
            before == texts(names@),
            strictly_sorted(before),
            forall|k: int| 0 <= k < at ==> lex_less(#[trigger] before[k], name@),
        decreases names@.len() - at,
    {
        match order_of(names[at].as_str(), name.as_str()) {
            Order::Before => {
                at = at + 1;
            },
            Order::Same => {
                assert(before[at as int] == name@);
                assert(before.contains(name@));
                return ;
            },
            Order::After => {
                names.insert(at, name);
                proof {
                    lemma_inserted(before, texts(names@), at as int, name@);
                }
                return ;
            },
        }
    }
    names.push(name);
    proof {
        assert(texts(names@) =~= before.insert(at as int, name@));
        lemma_inserted(before, texts(names@), at as int, name@);
    }
}

/// A sorted list stays sorted, and gains one name, when a name is put
/// after all that come before it and before all that it comes before.
proof fn lemma_inserted(before: Seq<Seq<char>>, after: Seq<Seq<char>>, at: int, name: Seq<char>)
    requires
        strictly_sorted(before),
        0 <= at <= before.len(),
        after =~= before.insert(at, name),
        forall|k: int| 0 <= k < at ==> lex_less(#[trigger] before[k], name),
        at < before.len() ==> lex_less(name, before[at]),
    ensures
        strictly_sorted(after),
        forall|s: Seq<char>| after.contains(s) <==> (s == name || before.contains(s)),
{
    assert forall|i: int, j: int| 0 <= i < j < after.len() implies lex_less(
        #[trigger] after[i],
        #[trigger] after[j],
    ) by {
        if j == at {
            assert(after[i] == before[i]);
        } else if i == at {
            assert(after[j] == before[j - 1]);
            if j - 1 > at {
                assert(lex_less(before[at], before[j - 1]));
                lemma_lex_less_transitive(name, before[at], before[j - 1]);
            }
        } else if i < at && j > at {
            assert(after[i] == before[i]);
            assert(after[j] == before[j - 1]);
            if i < j - 1 {
                assert(lex_less(before[i], before[j - 1]));
            }
        } else if j < at {
            assert(after[i] == before[i] && after[j] == before[j]);
        } else {
            assert(after[i] == before[i - 1] && after[j] == before[j - 1]);
            assert(lex_less(before[i - 1], before[j - 1]));
        }
    }
    assert forall|s: Seq<char>| after.contains(s) <==> (s == name || before.contains(s)) by {
        if after.contains(s) {
            let k = choose|k: int| 0 <= k < after.len() && after[k] == s;
            if k < at {
                assert(before[k] == s);
            } else if k > at {
                assert(before[k - 1] == s);
            }
        }
        if s == name {
            assert(after[at] == s);
        }
        if before.contains(s) {
            let k = choose|k: int| 0 <= k < before.len() && before[k] == s;
            if k < at {
                assert(after[k] == s);
            } else {
                assert(after[k + 1] == s);
            }
        }
    }
}

/// A list with one more name at its end holds that name and what it held.
proof fn lemma_contains_push(list: Seq<Seq<char>>, name: Seq<char>, s: Seq<char>)
    ensures
        list.push(name).contains(s) <==> (list.contains(s) || s == name),
{
    let longer = list.push(name);
    if longer.contains(s) {
        let k = choose|k: int| 0 <= k < longer.len() && longer[k] == s;
        if k < list.len() {
            assert(list[k] == s);
        }
    }
    if list.contains(s) {
        let k = choose|k: int| 0 <= k < list.len() && list[k] == s;
        assert(longer[k] == s);
    }
    if s == name {
        assert(longer[list.len() as int] == s);
    }
}

/// Puts each of `more` at its place in the sorted list `names`, unless it
/// stands there already.
pub(crate) fn insert_all_sorted(names: &mut Vec<String>, more: &Vec<String>)
    requires
        strictly_sorted(texts(old(names)@)),
    ensures
        strictly_sorted(texts(final(names)@)),
        forall|s: Seq<char>|
            texts(final(names)@).contains(s) <==> (texts(more@).contains(s) || texts(
                old(names)@,
            ).contains(s)),
{
    let ghost before = texts(names@);
    let mut i: usize = 0;
    assert(texts(more@).subrange(0, 0) =~= Seq::<Seq<char>>::empty());
    while i < more.len()
        invariant
            i <= more@.len(),
            before == texts(old(names)@),
            strictly_sorted(texts(names@)),
            forall|s: Seq<char>|
                texts(names@).contains(s) <==> (before.contains(s) || texts(more@).subrange(
                    0,
                    i as int,
                ).contains(s)),
        decreases more@.len() - i,
    {
        let ghost so_far = texts(names@);
        let ghost done = texts(more@).subrange(0, i as int);
        insert_sorted(names, more[i].clone());
        proof {
            let added = texts(more@)[i as int];
            let longer = texts(more@).subrange(0, i + 1);
            assert(longer =~= done.push(added));
            assert forall|s: Seq<char>|
                texts(names@).contains(s) <==> (before.contains(s) || longer.contains(s)) by {
                lemma_contains_push(done, added, s);
                assert(so_far.contains(s) <==> (before.contains(s) || done.contains(s)));
            }
        }
        i = i + 1;
    }
    proof {
        assert(texts(more@).subrange(0, i as int) =~= texts(more@));
        assert(before == texts(old(names)@));
        assert forall|s: Seq<char>|
            texts(names@).contains(s) <==> (texts(more@).contains(s) || texts(
                old(names)@,
            ).contains(s)) by {
            assert(texts(names@).contains(s) <==> (before.contains(s) || texts(more@).subrange(
                0,
                i as int,
            ).contains(s)));
        }
    }
}

} // verus!
