//! Association lists of strings: the exec-side stand-in for a mapping with
//! unique keys, looked up by first match.

use vstd::prelude::*;

verus! {

/// The character sequence an optional string stands for.
pub open spec fn opt_name_view(o: Option<String>) -> Option<Seq<char>> {
    match o {
        Some(s) => Some(s@),
        None => None,
    }
}

/// The character sequences a list of strings stands for.
pub open spec fn names_view(s: Seq<String>) -> Seq<Seq<char>> {
    s.map_values(|x: String| x@)
}

/// The character-sequence pairs a list of string pairs stands for.
pub open spec fn pairs_view(s: Seq<(String, String)>) -> Seq<(Seq<char>, Seq<char>)> {
    s.map_values(|x: (String, String)| (x.0@, x.1@))
}

/// First-match lookup in an association list.
pub open spec fn assoc(s: Seq<(Seq<char>, Seq<char>)>, k: Seq<char>) -> Option<Seq<char>>
    decreases s.len(),
{
    if s.len() == 0 {
        None
    } else if s[0].0 == k {
        Some(s[0].1)
    } else {
        assoc(s.drop_first(), k)
    }
}

/// Appending a pair at the end changes only lookups that found nothing.
pub proof fn lemma_assoc_push(s: Seq<(Seq<char>, Seq<char>)>, x: (Seq<char>, Seq<char>), k: Seq<char>)
    ensures
        assoc(s.push(x), k) == (match assoc(s, k) {
            Some(v) => Some(v),
            None => if x.0 == k {
                Some(x.1)
            } else {
                None
            },
        }),
    decreases s.len(),
{
    if s.len() == 0 {
        assert(s.push(x)[0] == x);
        assert(s.push(x).drop_first() =~= Seq::<(Seq<char>, Seq<char>)>::empty());
    } else {
        assert(s.push(x)[0] == s[0]);
        assert(s.push(x).drop_first() =~= s.drop_first().push(x));
        lemma_assoc_push(s.drop_first(), x, k);
    }
}

/// No key occurs twice in the association list.
pub open spec fn unique_keys(s: Seq<(Seq<char>, Seq<char>)>) -> bool {
    forall|i: int, j: int| 0 <= i < j < s.len() ==> (#[trigger] s[i]).0 != (#[trigger] s[j]).0
}

/// A lookup finds nothing exactly when no pair carries the key.
pub proof fn lemma_assoc_none(s: Seq<(Seq<char>, Seq<char>)>, k: Seq<char>)
    ensures
        (assoc(s, k) is None) <==> (forall|i: int| 0 <= i < s.len() ==> (#[trigger] s[i]).0 != k),
    decreases s.len(),
{
    if s.len() == 0 {
    } else {
        lemma_assoc_none(s.drop_first(), k);
        assert forall|i: int| 0 <= i < s.drop_first().len() implies #[trigger] s.drop_first()[i]
            == s[i + 1] by {}
        if s[0].0 != k && (forall|i: int| 0 <= i < s.drop_first().len() ==> (#[trigger] s.drop_first()[i]).0
            != k) {
            assert forall|i: int| 0 <= i < s.len() implies (#[trigger] s[i]).0 != k by {
                if i > 0 {
                    assert(s.drop_first()[i - 1] == s[i]);
                }
            }
        }
    }
}

/// First-match lookup, executable.
pub fn assoc_get<'a>(v: &'a Vec<(String, String)>, k: &String) -> (r: Option<&'a String>)
    ensures
        match r {
            Some(value) => assoc(pairs_view(v@), k@) == Some(value@),
            None => assoc(pairs_view(v@), k@) is None,
        },
{
    let n = v.len();
    let mut i: usize = 0;
    proof {
        assert(pairs_view(v@).subrange(0, n as int) =~= pairs_view(v@));
    }
    while i < n
        invariant
            i <= n,
            n == v@.len(),
            assoc(pairs_view(v@), k@) == assoc(pairs_view(v@).subrange(i as int, n as int), k@),
        decreases n - i,
    {
        let pair = &v[i];
        proof {
            assert(pairs_view(v@).subrange(i as int, n as int)[0] == (v@[i as int].0@, v@[
                i as int].1@));
            assert(pairs_view(v@).subrange(i as int, n as int).drop_first() =~= pairs_view(
                v@,
            ).subrange(i as int + 1, n as int));
        }
        if pair.0 == *k {
            return Some(&pair.1);
        }
        i = i + 1;
    }
    proof {
        assert(pairs_view(v@).subrange(n as int, n as int) =~= Seq::<(Seq<char>, Seq<char>)>::empty());
    }
    None
}

/// Whether a list of names holds this name.
pub fn contains_name(v: &Vec<String>, k: &String) -> (r: bool)
    ensures
        r == names_view(v@).contains(k@),
{
    let n = v.len();
    let mut i: usize = 0;
    while i < n
        invariant
            i <= n,
            n == v@.len(),
            forall|j: int| 0 <= j < i ==> names_view(v@)[j] != k@,
        decreases n - i,
    {
        if v[i] == *k {
            proof {
                assert(names_view(v@)[i as int] == k@);
            }
            return true;
        }
        i = i + 1;
    }
    proof {
        assert(forall|j: int| 0 <= j < names_view(v@).len() ==> names_view(v@)[j] != k@);
    }
    false
}

} // verus!
