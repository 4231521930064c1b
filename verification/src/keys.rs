use vstd::prelude::*;

verus! {

/// The names of a list of keys, as sequences of characters.
pub open spec fn names(keys: Seq<String>) -> Seq<Seq<char>> {
    keys.map_values(|k: String| k@)
}

/// A key name that the overlay tracks: one without a parenthesis. The input
/// hook writes keys it cannot name with their raw code in parentheses
/// (such as `Unknown(191)`); those are never tracked.
pub open spec fn named_key(name: Seq<char>) -> bool {
    !name.contains('(')
}

/// An empty list of keys.
pub fn no_keys() -> (keys: Vec<String>)
    ensures
        names(keys@) == Seq::<Seq<char>>::empty(),
{
    let keys: Vec<String> = Vec::new();
    assert(names(keys@) =~= Seq::<Seq<char>>::empty());
    keys
}

/// The test that keeps every key but the one of the given name.
pub open spec fn other_than(name: Seq<char>) -> spec_fn(Seq<char>) -> bool {
    |k: Seq<char>| k != name
}

/// The test that keeps every key not named in `dropped`.
pub open spec fn not_among(dropped: Seq<Seq<char>>) -> spec_fn(Seq<char>) -> bool {
    |k: Seq<char>| !dropped.contains(k)
}

/// Whether `name` is a key name that the overlay tracks.
pub fn is_named_key(name: &String) -> (named: bool)
    ensures
        named == named_key(name@),
{
    let s = name.as_str();
    let len = s.unicode_len();
    let mut i: usize = 0;
    while i < len
        invariant
            s@ == name@,
            len == s@.len(),
            i <= len,
            forall|j: int| 0 <= j < i ==> s@[j] != '(',
        decreases len - i,
    {
        if s.get_char(i) == '(' {
            return false;
        }
        i = i + 1;
    }
    true
}

/// Whether the list of keys holds a key of the given name.
pub fn holds_key(keys: &Vec<String>, name: &String) -> (found: bool)
    ensures
        found == names(keys@).contains(name@),
{
    let mut i: usize = 0;
    while i < keys.len()
        invariant
            i <= keys.len(),
            forall|j: int| 0 <= j < i ==> keys@[j]@ != name@,
        decreases keys.len() - i,
    {
        if keys[i] == *name {
            assert(names(keys@)[i as int] == name@);
            return true;
        }
        i = i + 1;
    }
    assert forall|j: int| 0 <= j < names(keys@).len() implies names(keys@)[j] != name@ by {}
    false
}

/// Whether two lists of keys name the same keys in the same order.
pub fn same_keys(a: &Vec<String>, b: &Vec<String>) -> (same: bool)
    ensures
        same == (names(a@) == names(b@)),
{
    if a.len() != b.len() {
        assert(names(a@).len() != names(b@).len());
        return false;
    }
    let mut i: usize = 0;
    while i < a.len()
        invariant
            a.len() == b.len(),
            i <= a.len(),
            forall|j: int| 0 <= j < i ==> a@[j]@ == b@[j]@,
        decreases a.len() - i,
    {
        if a[i] != b[i] {
            assert(names(a@)[i as int] != names(b@)[i as int]);
            return false;
        }
        i = i + 1;
    }
    assert(names(a@) =~= names(b@));
    true
}

/// A copy of a list of keys.
pub fn copy_keys(keys: &Vec<String>) -> (copy: Vec<String>)
    ensures
        names(copy@) == names(keys@),
{
    let mut copy: Vec<String> = Vec::new();
    let mut i: usize = 0;
    while i < keys.len()
        invariant
            i <= keys.len(),
            copy@.len() == i,
            forall|j: int| 0 <= j < i ==> copy@[j]@ == keys@[j]@,
        decreases keys.len() - i,
    {
        copy.push(keys[i].clone());
        i = i + 1;
    }
    assert(names(copy@) =~= names(keys@));
    copy
}

/// The list of keys without those of the given name, the others kept in
/// their order.
pub fn without_key(keys: &Vec<String>, name: &String) -> (rest: Vec<String>)
    ensures
        names(rest@) == names(keys@).filter(other_than(name@)),
{
    let ghost pred = other_than(name@);
    let mut rest: Vec<String> = Vec::new();
    let mut i: usize = 0;
    while i < keys.len()
        invariant
            i <= keys.len(),
            pred == other_than(name@),
            names(rest@) == names(keys@).take(i as int).filter(pred),
        decreases keys.len() - i,
    {
        reveal_with_fuel(Seq::<_>::filter, 1);
        assert(names(keys@).take(i + 1).drop_last() =~= names(keys@).take(i as int));
        if keys[i] != *name {
            rest.push(keys[i].clone());
            assert(names(rest@) =~= names(keys@).take(i as int).filter(pred).push(keys@[i as int]@));
        }
        i = i + 1;
    }
    assert(names(keys@).take(keys.len() as int) =~= names(keys@));
    rest
}


/// The list of keys without those named in `dropped`, the others kept in
/// their order.
pub fn without_keys(keys: &Vec<String>, dropped: &Vec<String>) -> (rest: Vec<String>)
    ensures
        names(rest@) == names(keys@).filter(not_among(names(dropped@))),
{
    let ghost pred = not_among(names(dropped@));
    let mut rest: Vec<String> = Vec::new();
    let mut i: usize = 0;
    while i < keys.len()
        invariant
            i <= keys.len(),
            pred == not_among(names(dropped@)),
            names(rest@) == names(keys@).take(i as int).filter(pred),
        decreases keys.len() - i,
    {
        reveal_with_fuel(Seq::<_>::filter, 1);
        assert(names(keys@).take(i + 1).drop_last() =~= names(keys@).take(i as int));
        if !holds_key(dropped, &keys[i]) {
            rest.push(keys[i].clone());
            assert(names(rest@) =~= names(keys@).take(i as int).filter(pred).push(keys@[i as int]@));
        }
        i = i + 1;
    }
    assert(names(keys@).take(keys.len() as int) =~= names(keys@));
    rest
}

/// Keeping only some elements of a sequence keeps it free of duplicates,
/// and keeps only elements that it held.
pub proof fn lemma_filter_distinct(s: Seq<Seq<char>>, pred: spec_fn(Seq<char>) -> bool)
    requires
        s.no_duplicates(),
    ensures
        s.filter(pred).no_duplicates(),
        forall|k: Seq<char>| #[trigger] s.filter(pred).contains(k) ==> s.contains(k),
    decreases s.len(),
{
    reveal(Seq::filter);
    assert forall|k: Seq<char>| #[trigger] s.filter(pred).contains(k) implies s.contains(k) by {
        s.lemma_filter_contains_rev(pred, k);
    }
    if s.len() > 0 {
        let rest = s.drop_last();
        assert(rest.no_duplicates());
        lemma_filter_distinct(rest, pred);
        if pred(s.last()) {
            let f = rest.filter(pred);
            if f.contains(s.last()) {
                let i = choose|i: int| 0 <= i < rest.len() && rest[i] == s.last();
                assert(s[i] == s[s.len() - 1]);
            }
            assert(f.push(s.last()).no_duplicates()) by {
                assert forall|i: int, j: int|
                    0 <= i < f.len() + 1 && 0 <= j < f.len() + 1 && i != j
                    implies f.push(s.last())[i] != f.push(s.last())[j] by {
                    if i == f.len() {
                        assert(!f.contains(s.last()));
                        assert(f.contains(f[j]));
                    } else if j == f.len() {
                        assert(f.contains(f[i]));
                    }
                }
            }
        }
    }
}

} // verus!
