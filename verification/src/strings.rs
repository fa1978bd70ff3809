//! Small verified string helpers: membership in a list of names, first position of a name, and the
//! decimal rendering of counts and indices used in the human-readable notes and error messages.
use vstd::prelude::*;

verus! {

/// The views of a list of owned strings.
pub open spec fn views(v: Seq<String>) -> Seq<Seq<char>> {
    v.map_values(|s: String| s@)
}

/// Whether `name` occurs in `list`.
pub fn contains_name(list: &Vec<String>, name: &String) -> (r: bool)
    ensures
        r == views(list@).contains(name@),
{
    let mut i: usize = 0;
    while i < list.len()
        invariant
            0 <= i <= list.len(),
            forall|k: int| 0 <= k < i ==> list@[k]@ != name@,
        decreases list.len() - i,
    {
        if list[i] == *name {
            assert(views(list@)[i as int] == name@);
            return true;
        }
        i = i + 1;
    }
    assert forall|k: int| 0 <= k < views(list@).len() implies views(list@)[k] != name@ by {
        assert(views(list@)[k] == list@[k]@);
    }
    false
}

/// The first index at which `name` occurs in `names` (`None` when absent).
pub open spec fn spec_position(names: Seq<Seq<char>>, name: Seq<char>) -> Option<int> {
    if names.contains(name) {
        Some(choose|i: int| 0 <= i < names.len() && names[i] == name && forall|k: int| 0 <= k < i ==> names[k] != name)
    } else {
        None
    }
}

/// `i` is the first position of `name` in `names`.
pub open spec fn is_first_position(names: Seq<Seq<char>>, name: Seq<char>, i: int) -> bool {
    &&& 0 <= i < names.len()
    &&& names[i] == name
    &&& forall|k: int| 0 <= k < i ==> names[k] != name
}

/// The first position of a present name is unique and is the one `spec_position` picks.
pub proof fn lemma_first_position_unique(names: Seq<Seq<char>>, name: Seq<char>, i: int)
    requires
        is_first_position(names, name, i),
    ensures
        spec_position(names, name) == Some(i),
{
    assert(names.contains(name));
    let j = choose|j: int| 0 <= j < names.len() && names[j] == name && forall|k: int| 0 <= k < j ==> names[k] != name;
    assert(is_first_position(names, name, i));
    if j < i {
        assert(names[j] != name);
    } else if i < j {
        assert(names[i] != name);
    }
}

/// The first index of `name` in `names`.
pub fn position_of(names: &Vec<String>, name: &String) -> (r: Option<usize>)
    ensures
        r matches Some(i) ==> is_first_position(views(names@), name@, i as int),
        r is None ==> !views(names@).contains(name@),
        r is Some <==> views(names@).contains(name@),
        match r {
            Some(i) => spec_position(views(names@), name@) == Some(i as int),
            None => spec_position(views(names@), name@) is None,
        },
{
    let mut i: usize = 0;
    while i < names.len()
        invariant
            0 <= i <= names.len(),
            forall|k: int| 0 <= k < i ==> names@[k]@ != name@,
        decreases names.len() - i,
    {
        if names[i] == *name {
            proof {
                assert forall|k: int| 0 <= k < i implies views(names@)[k] != name@ by {
                    assert(views(names@)[k] == names@[k]@);
                }
                assert(views(names@)[i as int] == name@);
                lemma_first_position_unique(views(names@), name@, i as int);
            }
            return Some(i);
        }
        i = i + 1;
    }
    assert forall|k: int| 0 <= k < views(names@).len() implies views(names@)[k] != name@ by {
        assert(views(names@)[k] == names@[k]@);
    }
    None
}

/// The decimal digit character for `d` (`0 <= d < 10`).
pub open spec fn digit_char(d: int) -> char {
    if d == 0 { '0' } else if d == 1 { '1' } else if d == 2 { '2' } else if d == 3 { '3' }
    else if d == 4 { '4' } else if d == 5 { '5' } else if d == 6 { '6' } else if d == 7 { '7' }
    else if d == 8 { '8' } else { '9' }
}

/// The decimal rendering of a natural number, most significant digit first, with no leading zeros
/// (`"0"` for zero).
pub open spec fn decimal(n: nat) -> Seq<char>
    decreases n,
{
    if n < 10 {
        seq![digit_char(n as int)]
    } else {
        decimal(n / 10) + seq![digit_char((n % 10) as int)]
    }
}

fn digit_str(d: usize) -> (r: &'static str)
    requires
        d < 10,
    ensures
        r@ == seq![digit_char(d as int)],
{
    if d == 0 {
        proof { reveal_strlit("0"); }
        "0"
    } else if d == 1 {
        proof { reveal_strlit("1"); }
        "1"
    } else if d == 2 {
        proof { reveal_strlit("2"); }
        "2"
    } else if d == 3 {
        proof { reveal_strlit("3"); }
        "3"
    } else if d == 4 {
        proof { reveal_strlit("4"); }
        "4"
    } else if d == 5 {
        proof { reveal_strlit("5"); }
        "5"
    } else if d == 6 {
        proof { reveal_strlit("6"); }
        "6"
    } else if d == 7 {
        proof { reveal_strlit("7"); }
        "7"
    } else if d == 8 {
        proof { reveal_strlit("8"); }
        "8"
    } else {
        proof { reveal_strlit("9"); }
        "9"
    }
}

/// Append the decimal rendering of `n` to `s`.
pub fn push_decimal(s: &mut String, n: usize)
    ensures
        final(s)@ == old(s)@ + decimal(n as nat),
    decreases n,
{
    if n < 10 {
        s.append(digit_str(n));
    } else {
        push_decimal(s, n / 10);
        s.append(digit_str(n % 10));
    }
}

/// The notes `acc` after merging `extra` in order, skipping any note already present.
pub open spec fn merged(acc: Seq<Seq<char>>, extra: Seq<Seq<char>>) -> Seq<Seq<char>>
    decreases extra.len(),
{
    if extra.len() == 0 {
        acc
    } else {
        let m = merged(acc, extra.drop_last());
        if m.contains(extra.last()) { m } else { m.push(extra.last()) }
    }
}

/// Append the notes of `extra` that `notes` does not hold yet, in order (each note is surfaced
/// once, however many sources report it).
pub fn push_new_notes(notes: &mut Vec<String>, extra: &Vec<String>)
    ensures
        views(final(notes)@) == merged(views(old(notes)@), views(extra@)),
{
    let ghost start = views(notes@);
    let mut i: usize = 0;
    while i < extra.len()
        invariant
            0 <= i <= extra.len(),
            views(notes@) == merged(start, views(extra@).subrange(0, i as int)),
        decreases extra.len() - i,
    {
        let ghost sub = views(extra@).subrange(0, i as int + 1);
        assert(sub.drop_last() =~= views(extra@).subrange(0, i as int));
        assert(sub.last() == extra@[i as int]@);
        let ghost before = views(notes@);
        if !contains_name(notes, &extra[i]) {
            notes.push(extra[i].clone());
            proof {
                assert(views(notes@) =~= before.push(extra@[i as int]@));
            }
        }
        i = i + 1;
    }
    assert(views(extra@).subrange(0, extra@.len() as int) =~= views(extra@));
}

/// Merging keeps every earlier note in place, makes every merged note present, and never
/// introduces a duplicate into a duplicate-free list.
pub proof fn lemma_merged_covers_once(acc: Seq<Seq<char>>, extra: Seq<Seq<char>>)
    ensures
        merged(acc, extra).len() >= acc.len(),
        merged(acc, extra).subrange(0, acc.len() as int) == acc,
        forall|k: int| 0 <= k < extra.len() ==> merged(acc, extra).contains(#[trigger] extra[k]),
        forall|x: Seq<char>| merged(acc, extra).contains(x) ==> acc.contains(x) || extra.contains(x),
        acc.no_duplicates() ==> merged(acc, extra).no_duplicates(),
    decreases extra.len(),
{
    if extra.len() > 0 {
        let init = extra.drop_last();
        lemma_merged_covers_once(acc, init);
        let m = merged(acc, init);
        let x = extra.last();
        assert forall|k: int| 0 <= k < extra.len() implies merged(acc, extra).contains(#[trigger] extra[k]) by {
            if k < init.len() {
                assert(init[k] == extra[k]);
                assert(m.contains(init[k]));
                if !m.contains(x) {
                    let j = choose|j: int| 0 <= j < m.len() && m[j] == init[k];
                    assert(m.push(x)[j] == init[k]);
                }
            } else {
                if !m.contains(x) {
                    assert(m.push(x)[m.len() as int] == x);
                }
            }
        }
        assert forall|y: Seq<char>| merged(acc, extra).contains(y) implies acc.contains(y) || extra.contains(y) by {
            if m.contains(y) {
                if init.contains(y) {
                    let j = choose|j: int| 0 <= j < init.len() && init[j] == y;
                    assert(extra[j] == y);
                }
            } else {
                assert(y == x);
                assert(extra[extra.len() - 1] == y);
            }
        }
        if !m.contains(x) {
            assert(m.push(x).subrange(0, acc.len() as int) =~= m.subrange(0, acc.len() as int));
        }
    }
}

} // verus!
