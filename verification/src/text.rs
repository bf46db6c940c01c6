//! Text helpers on character sequences: Unicode white space, trimming and
//! splitting into words, the lexicographic order of names, sorted sets of
//! names, and joining with a separator.

use vstd::prelude::*;

verus! {

/// The Unicode `White_Space` property.
pub open spec fn is_white_space(c: char) -> bool {
    let u = c as u32;
    (0x9 <= u && u <= 0xD) || u == 0x20 || u == 0x85 || u == 0xA0 || u == 0x1680 || (0x2000 <= u
        && u <= 0x200A) || u == 0x2028 || u == 0x2029 || u == 0x202F || u == 0x205F || u == 0x3000
}

/// Whether `c` has the Unicode `White_Space` property.
pub fn white_space(c: char) -> (r: bool)
    ensures
        r == is_white_space(c),
{
    let u = c as u32;
    (0x9 <= u && u <= 0xD) || u == 0x20 || u == 0x85 || u == 0xA0 || u == 0x1680 || (0x2000 <= u
        && u <= 0x200A) || u == 0x2028 || u == 0x2029 || u == 0x202F || u == 0x205F || u == 0x3000
}

/// `s` without leading and trailing white space.
pub open spec fn trimmed(s: Seq<char>) -> Seq<char>
    decreases s.len(),
{
    if s.len() == 0 {
        s
    } else if is_white_space(s[0]) {
        trimmed(s.drop_first())
    } else if is_white_space(s.last()) {
        trimmed(s.drop_last())
    } else {
        s
    }
}

/// `s` without leading and trailing white space.
pub fn trim(s: &str) -> (r: String)
    ensures
        r@ == trimmed(s@),
{
    let n = s.unicode_len();
    let mut start: usize = 0;
    let mut end: usize = n;
    assert(s@.subrange(0, n as int) =~= s@);
    while start < end && white_space(s.get_char(start))
        invariant
            n == s@.len(),
            start <= end <= n,
            end == n,
            trimmed(s@) == trimmed(s@.subrange(start as int, end as int)),
        decreases end - start,
    {
        let ghost t = s@.subrange(start as int, end as int);
        assert(t.drop_first() =~= s@.subrange(start + 1, end as int));
        start += 1;
    }
    while start < end && white_space(s.get_char(end - 1))
        invariant
            n == s@.len(),
            start <= end <= n,
            start == end || !is_white_space(s@[start as int]),
            trimmed(s@) == trimmed(s@.subrange(start as int, end as int)),
        decreases end - start,
    {
        let ghost t = s@.subrange(start as int, end as int);
        assert(t.drop_last() =~= s@.subrange(start as int, end - 1));
        assert(t[0] == s@[start as int]);
        end -= 1;
    }
    String::from_str(s.substring_char(start, end))
}

/// The words of `s`: its maximal runs of characters that are not white
/// space, in order.
pub open spec fn words(s: Seq<char>) -> Seq<Seq<char>>
    decreases s.len(),
{
    if s.len() == 0 {
        Seq::empty()
    } else {
        let w = words(s.drop_last());
        if is_white_space(s.last()) {
            w
        } else if s.len() >= 2 && !is_white_space(s[s.len() - 2]) {
            w.update(w.len() - 1, w.last().push(s.last()))
        } else {
            w.push(seq![s.last()])
        }
    }
}

pub open spec fn views_of(items: Seq<String>) -> Seq<Seq<char>> {
    items.map_values(|item: String| item@)
}

/// The words of `s`, separated by any amount of white space.
pub fn split_words(s: &str) -> (r: Vec<String>)
    ensures
        views_of(r@) == words(s@),
{
    let n = s.unicode_len();
    let mut found: Vec<String> = Vec::new();
    let mut start: usize = 0;
    let mut in_word = false;
    let mut i: usize = 0;
    assert(s@.take(0) =~= Seq::<char>::empty());
    assert(views_of(found@) =~= Seq::<Seq<char>>::empty());
    while i < n
        invariant
            n == s@.len(),
            i <= n,
            start <= i,
            in_word == (i > 0 && !is_white_space(s@[i - 1])),
            in_word ==> start < i,
            views_of(found@) + (if in_word {
                seq![s@.subrange(start as int, i as int)]
            } else {
                Seq::empty()
            }) == words(s@.take(i as int)),
        decreases n - i,
    {
        let c = s.get_char(i);
        let ghost before = views_of(found@);
        let ghost prefix = s@.take(i + 1);
        assert(prefix.drop_last() =~= s@.take(i as int));
        assert(prefix.last() == c);
        if i > 0 {
            assert(prefix[i - 1] == s@[i - 1]);
        }
        if white_space(c) {
            if in_word {
                found.push(String::from_str(s.substring_char(start, i)));
                assert(views_of(found@) =~= before.push(s@.subrange(start as int, i as int)));
                assert(views_of(found@) =~= before + seq![s@.subrange(start as int, i as int)]);
            } else {
                assert(before + Seq::<Seq<char>>::empty() =~= before);
            }
            in_word = false;
            assert(views_of(found@) + Seq::<Seq<char>>::empty() =~= views_of(found@));
        } else {
            if in_word {
                let ghost w = words(s@.take(i as int));
                assert(s@.subrange(start as int, i + 1) =~= s@.subrange(start as int, i as int).push(
                    c,
                ));
                assert(before + seq![s@.subrange(start as int, i + 1)] =~= w.update(
                    w.len() - 1,
                    w.last().push(c),
                ));
            } else {
                start = i;
                in_word = true;
                let ghost w = words(s@.take(i as int));
                assert(before + Seq::<Seq<char>>::empty() =~= before);
                assert(s@.subrange(start as int, i + 1) =~= seq![c]);
                assert(before + seq![s@.subrange(start as int, i + 1)] =~= w.push(seq![c]));
            }
        }
        i += 1;
    }
    assert(s@.take(n as int) =~= s@);
    if in_word {
        let ghost before = views_of(found@);
        found.push(String::from_str(s.substring_char(start, n)));
        assert(views_of(found@) =~= before + seq![s@.subrange(start as int, n as int)]);
    } else {
        assert(views_of(found@) + Seq::<Seq<char>>::empty() =~= views_of(found@));
    }
    found
}

/// The items joined with `sep` between neighbours.
pub open spec fn joined(items: Seq<Seq<char>>, sep: Seq<char>) -> Seq<char>
    decreases items.len(),
{
    if items.len() == 0 {
        Seq::empty()
    } else if items.len() == 1 {
        items[0]
    } else {
        joined(items.drop_last(), sep) + sep + items.last()
    }
}

/// The items joined with `sep` between neighbours.
pub fn join(items: &Vec<String>, sep: &str) -> (r: String)
    ensures
        r@ == joined(views_of(items@), sep@),
{
    let mut text = String::new();
    let mut i: usize = 0;
    assert(views_of(items@).take(0) =~= Seq::<Seq<char>>::empty());
    while i < items.len()
        invariant
            i <= items@.len(),
            text@ == joined(views_of(items@).take(i as int), sep@),
        decreases items@.len() - i,
    {
        let ghost done = views_of(items@).take(i + 1);
        assert(done.drop_last() =~= views_of(items@).take(i as int));
        assert(done.last() == items@[i as int]@);
        if i > 0 {
            text.append(sep);
        }
        text.append(items[i].as_str());
        i += 1;
    }
    assert(views_of(items@).take(items@.len() as int) =~= views_of(items@));
    text
}

/// `a` comes before `b` when both are compared from position `i` on: at
/// the first differing position the smaller character code wins, and a
/// proper prefix comes first.
pub open spec fn lex_less_from(a: Seq<char>, b: Seq<char>, i: int) -> bool
    decreases a.len() - i,
{
    if i >= a.len() {
        i < b.len()
    } else if i >= b.len() {
        false
    } else if a[i] != b[i] {
        a[i] < b[i]
    } else {
        lex_less_from(a, b, i + 1)
    }
}

/// The order of `String`s: lexicographic by character code.
pub open spec fn lex_less(a: Seq<char>, b: Seq<char>) -> bool {
    lex_less_from(a, b, 0)
}

proof fn lemma_lex_from_irreflexive(a: Seq<char>, i: int)
    requires
        0 <= i,
    ensures
        !lex_less_from(a, a, i),
    decreases a.len() - i,
{
    if i < a.len() {
        lemma_lex_from_irreflexive(a, i + 1);
    }
}

proof fn lemma_lex_from_total(a: Seq<char>, b: Seq<char>, i: int)
    requires
        0 <= i <= a.len(),
        i <= b.len(),
        a.take(i) == b.take(i),
        !lex_less_from(a, b, i),
        !lex_less_from(b, a, i),
    ensures
        a == b,
    decreases a.len() - i,
{
    if i >= a.len() {
        assert(a =~= a.take(i));
        assert(b =~= b.take(i));
    } else {
        assert(i < b.len());
        assert(a[i] == b[i]);
        assert(a.take(i + 1) =~= a.take(i).push(a[i]));
        assert(b.take(i + 1) =~= b.take(i).push(b[i]));
        lemma_lex_from_total(a, b, i + 1);
    }
}

proof fn lemma_lex_from_transitive(a: Seq<char>, b: Seq<char>, c: Seq<char>, i: int)
    requires
        0 <= i,
        lex_less_from(a, b, i),
        lex_less_from(b, c, i),
    ensures
        lex_less_from(a, c, i),
    decreases a.len() - i,
{
    if i < a.len() && i < b.len() && i < c.len() && a[i] == b[i] && b[i] == c[i] {
        lemma_lex_from_transitive(a, b, c, i + 1);
    }
}

/// The order of names is a strict total order.
pub proof fn lemma_lex_order(a: Seq<char>, b: Seq<char>, c: Seq<char>)
    ensures
        !lex_less(a, a),
        lex_less(a, b) && lex_less(b, c) ==> lex_less(a, c),
        a != b ==> lex_less(a, b) || lex_less(b, a),
        !(lex_less(a, b) && lex_less(b, a)),
{
    lemma_lex_from_irreflexive(a, 0);
    if lex_less(a, b) && lex_less(b, c) {
        lemma_lex_from_transitive(a, b, c, 0);
    }
    if lex_less(a, b) && lex_less(b, a) {
        lemma_lex_from_transitive(a, b, a, 0);
    }
    if !lex_less(a, b) && !lex_less(b, a) {
        assert(a.take(0) =~= b.take(0));
        lemma_lex_from_total(a, b, 0);
    }
}

/// Whether `a` comes before `b` in the order of names.
pub fn str_less(a: &str, b: &str) -> (r: bool)
    ensures
        r == lex_less(a@, b@),
{
    let n = a.unicode_len();
    let m = b.unicode_len();
    let mut i: usize = 0;
    while i < n && i < m && a.get_char(i) == b.get_char(i)
        invariant
            n == a@.len(),
            m == b@.len(),
            i <= n,
            i <= m,
            lex_less(a@, b@) == lex_less_from(a@, b@, i as int),
        decreases n - i,
    {
        i += 1;
    }
    if i >= n {
        i < m
    } else if i >= m {
        false
    } else {
        a.get_char(i) < b.get_char(i)
    }
}

/// Names in strictly increasing order: sorted and without repeats. Sets of
/// names are kept as vectors in this order: vstd specifies `BTreeSet` only
/// for key types whose ordering it models, and `String` is not one of them,
/// so a `BTreeSet<String>` would give the proofs nothing to work with.
pub open spec fn sorted_distinct(items: Seq<Seq<char>>) -> bool {
    forall|i: int, j: int| 0 <= i < j < items.len() ==> lex_less(items[i], items[j])
}

/// Adds `item` to a sorted set of names, keeping it sorted and without
/// repeats.
pub fn insert_sorted(set: &mut Vec<String>, item: &str)
    requires
        sorted_distinct(views_of(old(set)@)),
    ensures
        sorted_distinct(views_of(final(set)@)),
        views_of(final(set)@).to_set() == views_of(old(set)@).to_set().insert(item@),
{
    let n = set.len();
    let mut p: usize = 0;
    while p < n && str_less(set[p].as_str(), item)
        invariant
            n == set@.len(),
            p <= n,
            forall|j: int| 0 <= j < p ==> lex_less(#[trigger] set@[j]@, item@),
        decreases n - p,
    {
        p += 1;
    }
    let ghost before = views_of(set@);
    if p < n && !str_less(item, set[p].as_str()) {
        proof {
            lemma_lex_order(set@[p as int]@, item@, item@);
            assert(before[p as int] == item@);
            assert(before.to_set().insert(item@) =~= before.to_set());
        }
        return;
    }
    proof {
        assert forall|j: int| p <= j < n implies lex_less(item@, #[trigger] before[j]) by {
            lemma_lex_order(before[p as int], item@, item@);
            if j > p {
                lemma_lex_order(item@, before[p as int], before[j]);
            }
        }
    }
    set.insert(p, String::from_str(item));
    proof {
        let after = views_of(set@);
        assert(after =~= before.insert(p as int, item@));
        assert forall|i: int, j: int| 0 <= i < j < after.len() implies lex_less(
            after[i],
            after[j],
        ) by {
            if j < p {
            } else if i < p && j == p {
            } else if i < p && j > p {
                lemma_lex_order(after[i], item@, after[j]);
            } else if i == p {
            } else {
            }
        }
        assert(after.to_set() =~= before.to_set().insert(item@)) by {
            assert forall|x: Seq<char>| after.to_set().contains(x) implies before.to_set().insert(
                item@,
            ).contains(x) by {
                let k = choose|k: int| 0 <= k < after.len() && after[k] == x;
                if k < p {
                    assert(before[k] == x);
                } else if k > p {
                    assert(before[k - 1] == x);
                }
            }
            assert forall|x: Seq<char>| before.to_set().insert(item@).contains(x) implies after.to_set().contains(
                x,
            ) by {
                if x == item@ {
                    assert(after[p as int] == x);
                } else {
                    let k = choose|k: int| 0 <= k < before.len() && before[k] == x;
                    if k < p {
                        assert(after[k] == x);
                    } else {
                        assert(after[k + 1] == x);
                    }
                }
            }
        }
    }
}

/// Whether a name occurs among `items`.
pub fn contains_name(items: &Vec<String>, name: &str) -> (r: bool)
    ensures
        r == views_of(items@).contains(name@),
{
    let mut i: usize = 0;
    while i < items.len()
        invariant
            i <= items@.len(),
            forall|j: int| 0 <= j < i ==> #[trigger] items@[j]@ != name@,
        decreases items@.len() - i,
    {
        if !str_less(items[i].as_str(), name) && !str_less(name, items[i].as_str()) {
            proof {
                lemma_lex_order(items@[i as int]@, name@, name@);
                assert(views_of(items@)[i as int] == name@);
            }
            return true;
        }
        proof {
            lemma_lex_order(items@[i as int]@, name@, name@);
        }
        i += 1;
    }
    proof {
        if views_of(items@).contains(name@) {
            let k = choose|k: int| 0 <= k < items@.len() && views_of(items@)[k] == name@;
            assert(items@[k]@ == name@);
        }
    }
    false
}

/// A sorted set of the names in `items`.
pub fn sorted_set(items: &Vec<String>) -> (r: Vec<String>)
    ensures
        sorted_distinct(views_of(r@)),
        views_of(r@).to_set() == views_of(items@).to_set(),
{
    let mut set: Vec<String> = Vec::new();
    let mut i: usize = 0;
    assert(views_of(set@).to_set() =~= views_of(items@).take(0).to_set());
    while i < items.len()
        invariant
            i <= items@.len(),
            sorted_distinct(views_of(set@)),
            views_of(set@).to_set() == views_of(items@).take(i as int).to_set(),
        decreases items@.len() - i,
    {
        insert_sorted(&mut set, items[i].as_str());
        assert(views_of(items@).take(i + 1) =~= views_of(items@).take(i as int).push(
            items@[i as int]@,
        ));
        proof {
            views_of(items@).take(i as int).lemma_push_to_set_commute(items@[i as int]@);
        }
        i += 1;
    }
    assert(views_of(items@).take(items@.len() as int) =~= views_of(items@));
    set
}

/// The names of the sorted set `a` that are not among `b`, sorted.
pub fn sorted_difference(a: &Vec<String>, b: &Vec<String>) -> (r: Vec<String>)
    requires
        sorted_distinct(views_of(a@)),
    ensures
        sorted_distinct(views_of(r@)),
        views_of(r@).to_set() == views_of(a@).to_set().difference(views_of(b@).to_set()),
{
    let ghost va = views_of(a@);
    let ghost vb = views_of(b@);
    let mut out: Vec<String> = Vec::new();
    let mut i: usize = 0;
    while i < a.len()
        invariant
            i <= a@.len(),
            va == views_of(a@),
            vb == views_of(b@),
            sorted_distinct(va),
            sorted_distinct(views_of(out@)),
            forall|k: int, t: int|
                0 <= k < out@.len() && i <= t < a@.len() ==> lex_less(
                    #[trigger] views_of(out@)[k],
                    #[trigger] va[t],
                ),
            views_of(out@).to_set() == va.take(i as int).to_set().difference(vb.to_set()),
        decreases a@.len() - i,
    {
        let ghost before = views_of(out@);
        let ghost x = va[i as int];
        assert(va.take(i + 1) =~= va.take(i as int).push(x));
        proof {
            va.take(i as int).lemma_push_to_set_commute(x);
        }
        if !contains_name(b, a[i].as_str()) {
            out.push(a[i].clone());
            proof {
                assert(views_of(out@) =~= before.push(x));
                before.lemma_push_to_set_commute(x);
                assert(views_of(out@).to_set() =~= va.take(i + 1).to_set().difference(vb.to_set()));
            }
        } else {
            assert(views_of(out@).to_set() =~= va.take(i + 1).to_set().difference(vb.to_set()));
        }
        i += 1;
    }
    assert(va.take(a@.len() as int) =~= va);
    out
}

} // verus!
