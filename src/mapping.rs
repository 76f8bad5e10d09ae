//! Column/value mappings held as association lists in insertion order.

use vstd::prelude::*;

verus! {

/// A column/value mapping as characters: pairs in insertion order.
pub type Pairs = Seq<(Seq<char>, Seq<char>)>;

/// The characters of each pair of `v`.
pub open spec fn pairs_view(v: Seq<(String, String)>) -> Pairs {
    v.map_values(|p: (String, String)| (p.0@, p.1@))
}

/// The keys of a mapping, in order.
pub open spec fn keys_of(m: Pairs) -> Seq<Seq<char>> {
    m.map_values(|p: (Seq<char>, Seq<char>)| p.0)
}

/// The values of a mapping, in order.
pub open spec fn values_of(m: Pairs) -> Seq<Seq<char>> {
    m.map_values(|p: (Seq<char>, Seq<char>)| p.1)
}

/// `m` with `k` bound to `v`: an existing binding of `k` is replaced in
/// place, otherwise the pair is appended.
pub open spec fn put(m: Pairs, k: Seq<char>, v: Seq<char>) -> Pairs {
    if keys_of(m).contains(k) {
        m.map_values(|p: (Seq<char>, Seq<char>)| if p.0 == k { (k, v) } else { p })
    } else {
        m.push((k, v))
    }
}

/// The value bound to `k` (its first binding), if any.
pub open spec fn lookup(m: Pairs, k: Seq<char>) -> Option<Seq<char>>
    decreases m.len(),
{
    if m.len() == 0 {
        None
    } else if m[0].0 == k {
        Some(m[0].1)
    } else {
        lookup(m.drop_first(), k)
    }
}

/// No key occurs twice.
pub open spec fn unique_keys(m: Pairs) -> bool {
    forall|i: int, j: int| 0 <= i < j < m.len() ==> m[i].0 != m[j].0
}

/// `put` keeps keys unique.
pub proof fn lemma_put_unique(m: Pairs, k: Seq<char>, v: Seq<char>)
    requires
        unique_keys(m),
    ensures
        unique_keys(put(m, k, v)),
{
    if !keys_of(m).contains(k) {
        let r = m.push((k, v));
        assert forall|i: int, j: int| 0 <= i < j < r.len() implies r[i].0 != r[j].0 by {
            if j == m.len() {
                assert(keys_of(m)[i] == m[i].0);
            }
        }
    }
}

/// Binds `k` to `v` in `m`.
pub fn put_pair(m: &mut Vec<(String, String)>, k: String, v: String)
    ensures
        pairs_view(final(m)@) == put(pairs_view(old(m)@), k@, v@),
{
    let ghost old_view = pairs_view(m@);
    let ghost mapped = old_view.map_values(
        |p: (Seq<char>, Seq<char>)| if p.0 == k@ { (k@, v@) } else { p },
    );
    let mut found = false;
    let mut i: usize = 0;
    while i < m.len()
        invariant
            i <= m.len(),
            m@.len() == old_view.len(),
            old_view == pairs_view(old(m)@),
            mapped.len() == old_view.len(),
            mapped == old_view.map_values(
                |p: (Seq<char>, Seq<char>)| if p.0 == k@ { (k@, v@) } else { p },
            ),
            found == exists|j: int| 0 <= j < i && old_view[j].0 == k@,
            forall|j: int| 0 <= j < i ==> (m@[j].0@, m@[j].1@) == mapped[j],
            forall|j: int| i <= j < m.len() ==> (m@[j].0@, m@[j].1@) == old_view[j],
        decreases m.len() - i,
    {
        assert((m@[i as int].0@, m@[i as int].1@) == old_view[i as int]);
        if m[i].0 == k {
            m.set(i, (k.clone(), v.clone()));
            found = true;
        }
        i = i + 1;
    }
    if !found {
        assert(!keys_of(old_view).contains(k@)) by {
            if keys_of(old_view).contains(k@) {
                let j = keys_of(old_view).index_of(k@);
                assert(old_view[j].0 == k@);
            }
        }
        assert(mapped =~= old_view);
        m.push((k, v));
        assert(pairs_view(m@) =~= old_view.push((k@, v@)));
    } else {
        proof {
            let j = choose|j: int| 0 <= j < old_view.len() && old_view[j].0 == k@;
            assert(keys_of(old_view)[j] == k@);
        }
        assert(pairs_view(m@) =~= mapped);
    }
}

/// The value bound to `k` in `m` (its first binding), if any.
pub fn get_value<'a>(m: &'a Vec<(String, String)>, k: &String) -> (r: Option<&'a String>)
    ensures
        match lookup(pairs_view(m@), k@) {
            Some(v) => r is Some && r->0@ == v,
            None => r is None,
        },
{
    let mut i: usize = 0;
    assert(pairs_view(m@).skip(0) =~= pairs_view(m@));
    while i < m.len()
        invariant
            i <= m.len(),
            lookup(pairs_view(m@), k@) == lookup(pairs_view(m@).skip(i as int), k@),
        decreases m.len() - i,
    {
        assert(pairs_view(m@).skip(i as int).drop_first() =~= pairs_view(m@).skip(i + 1));
        if m[i].0 == *k {
            return Some(&m[i].1);
        }
        i = i + 1;
    }
    None
}

} // verus!
