//! First-match lookup over small association vectors, shared by the schema
//! view, the fragment table, the variables map and directive lookups.
use vstd::prelude::*;

verus! {

/// A record that can be found by a textual key.
pub trait Keyed: Sized {
    spec fn key(self) -> Seq<char>;

    fn key_ref(&self) -> (r: &String)
        ensures
            r@ == self.key(),
    ;
}

/// The first element of `s` whose key is `name`, if any.
pub open spec fn spec_find<T: Keyed>(s: Seq<T>, name: Seq<char>) -> Option<T>
    decreases s,
{
    if s.len() == 0 {
        None
    } else if s[0].key() == name {
        Some(s[0])
    } else {
        spec_find(s.drop_first(), name)
    }
}

/// A found element's key is `name`, and a hit means some element has it.
pub proof fn lemma_spec_find_found<T: Keyed>(s: Seq<T>, name: Seq<char>)
    requires
        spec_find(s, name) is Some,
    ensures
        spec_find(s, name)->Some_0.key() == name,
        exists|i: int| 0 <= i < s.len() && s[i] == spec_find(s, name)->Some_0,
    decreases s,
{
    if s.len() > 0 && s[0].key() != name {
        lemma_spec_find_found(s.drop_first(), name);
        let j = choose|j: int|
            0 <= j < s.drop_first().len() && s.drop_first()[j] == spec_find(s, name)->Some_0;
        assert(s[j + 1] == spec_find(s, name)->Some_0);
    }
}

/// Searching after appending one element: an earlier hit wins; otherwise the
/// new element answers exactly when its key matches.
pub proof fn lemma_spec_find_push<T: Keyed>(s: Seq<T>, x: T, name: Seq<char>)
    ensures
        spec_find(s.push(x), name) == (if spec_find(s, name) is Some {
            spec_find(s, name)
        } else if x.key() == name {
            Some(x)
        } else {
            None
        }),
    decreases s,
{
    if s.len() == 0 {
        assert(s.push(x).drop_first() =~= s);
        assert(s.push(x)[0] == x);
    } else {
        assert(s.push(x)[0] == s[0]);
        assert(s.push(x).drop_first() =~= s.drop_first().push(x));
        lemma_spec_find_push(s.drop_first(), x, name);
    }
}

/// Linear scan returning the first element whose key equals `name`.
pub fn find_by_key<'a, T: Keyed>(items: &'a Vec<T>, name: &String) -> (r: Option<&'a T>)
    ensures
        match r {
            Some(t) => spec_find(items@, name@) == Some(*t),
            None => spec_find(items@, name@) is None,
        },
{
    let mut i: usize = 0;
    proof {
        assert(items@.skip(0) =~= items@);
    }
    while i < items.len()
        invariant
            i <= items.len(),
            spec_find(items@, name@) == spec_find(items@.skip(i as int), name@),
        decreases items.len() - i,
    {
        let k = items[i].key_ref();
        if *k == *name {
            proof {
                assert(items@.skip(i as int)[0] == items@[i as int]);
            }
            return Some(&items[i]);
        }
        proof {
            assert(items@.skip(i as int)[0] == items@[i as int]);
            assert(items@.skip(i as int).drop_first() =~= items@.skip(i as int + 1));
        }
        i = i + 1;
    }
    proof {
        assert(items@.skip(i as int).len() == 0);
    }
    None
}

/// Like `find_by_key`, but returns the position of the first match.
pub fn find_index_by_key<T: Keyed>(items: &Vec<T>, name: &String) -> (r: Option<usize>)
    ensures
        match r {
            Some(i) => i < items@.len() && items@[i as int].key() == name@ && (forall|j: int|
                0 <= j < i ==> items@[j].key() != name@),
            None => forall|j: int| 0 <= j < items@.len() ==> items@[j].key() != name@,
        },
{
    let mut i: usize = 0;
    while i < items.len()
        invariant
            i <= items.len(),
            forall|j: int| 0 <= j < i ==> items@[j].key() != name@,
        decreases items.len() - i,
    {
        let k = items[i].key_ref();
        if *k == *name {
            return Some(i);
        }
        i = i + 1;
    }
    None
}

impl Keyed for String {
    open spec fn key(self) -> Seq<char> {
        self@
    }

    fn key_ref(&self) -> (r: &String) {
        self
    }
}

} // verus!
