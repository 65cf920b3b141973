use vstd::prelude::*;

verus! {

/// First value stored under key `id`, if any.
pub open spec fn assoc_lookup<T>(s: Seq<(Seq<char>, T)>, id: Seq<char>) -> Option<T>
    decreases s.len(),
{
    if s.len() == 0 {
        None
    } else if s[0].0 == id {
        Some(s[0].1)
    } else {
        assoc_lookup(s.skip(1), id)
    }
}

/// The key/value pairs of an entry list, with keys as character sequences.
pub open spec fn entries_view<T>(v: Seq<(String, T)>) -> Seq<(Seq<char>, T)> {
    v.map_values(|p: (String, T)| (p.0@, p.1))
}

pub proof fn lemma_assoc_lookup_at<T>(s: Seq<(Seq<char>, T)>, id: Seq<char>, i: int)
    requires
        0 <= i < s.len(),
        s[i].0 == id,
        forall|j: int| 0 <= j < i ==> s[j].0 != id,
    ensures
        assoc_lookup(s, id) == Some(s[i].1),
    decreases i,
{
    if i == 0 {
    } else {
        assert(s[0].0 != id);
        let t = s.skip(1);
        assert(t[i - 1] == s[i]);
        assert(forall|j: int| 0 <= j < i - 1 ==> t[j] == s[j + 1]);
        lemma_assoc_lookup_at(t, id, i - 1);
    }
}

pub proof fn lemma_assoc_lookup_none<T>(s: Seq<(Seq<char>, T)>, id: Seq<char>)
    requires
        forall|j: int| 0 <= j < s.len() ==> s[j].0 != id,
    ensures
        assoc_lookup(s, id) is None,
    decreases s.len(),
{
    if s.len() > 0 {
        let t = s.skip(1);
        assert(forall|j: int| 0 <= j < t.len() ==> t[j] == s[j + 1]);
        lemma_assoc_lookup_none(t, id);
    }
}

/// Linear search of an entry list by key.
pub fn assoc_get<'a, T>(v: &'a Vec<(String, T)>, id: &String) -> (r: Option<&'a T>)
    ensures
        match r {
            Some(t) => assoc_lookup(entries_view(v@), id@) == Some(*t),
            None => assoc_lookup(entries_view(v@), id@) is None,
        },
{
    let n = v.len();
    let mut i: usize = 0;
    while i < n
        invariant
            n == v@.len(),
            i <= n,
            forall|j: int| 0 <= j < i ==> #[trigger] v@[j].0@ != id@,
        decreases n - i,
    {
        let p = &v[i];
        if p.0 == *id {
            proof {
                assert(entries_view(v@)[i as int].0 == v@[i as int].0@);
                lemma_assoc_lookup_at(entries_view(v@), id@, i as int);
            }
            return Some(&p.1);
        }
        i = i + 1;
    }
    proof {
        assert(forall|j: int|
            0 <= j < entries_view(v@).len() ==> #[trigger] entries_view(v@)[j].0 != id@);
        lemma_assoc_lookup_none(entries_view(v@), id@);
    }
    None
}

/// Store `val` under `id`, shadowing any earlier entry with that key.
pub fn assoc_set<T>(v: &mut Vec<(String, T)>, id: String, val: T)
    ensures
        forall|q: Seq<char>|
            #[trigger] assoc_lookup(entries_view(final(v)@), q) == if q == id@ {
                Some(val)
            } else {
                assoc_lookup(entries_view(old(v)@), q)
            },
{
    let ghost old_entries = entries_view(v@);
    v.insert(0, (id, val));
    proof {
        assert(entries_view(v@).skip(1) =~= old_entries);
        assert(entries_view(v@)[0].0 == id@);
        assert forall|q: Seq<char>|
            #[trigger] assoc_lookup(entries_view(v@), q) == if q == id@ {
                Some(val)
            } else {
                assoc_lookup(old_entries, q)
            } by {
            if q == id@ {
                assert(assoc_lookup(entries_view(v@), q) == Some(entries_view(v@)[0].1));
            }
        }
    }
}

} // verus!
