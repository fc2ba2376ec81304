//! Text arguments: the constructors of the library accept either a string
//! slice or an owned `String`, as the `Into<String>` parameters of a Rust
//! builder API do.
use vstd::prelude::*;

verus! {

/// A value that can be turned into an owned `String`.
pub trait IntoText: Sized {
    /// The characters the value stands for.
    spec fn text_view(&self) -> Seq<char>;

    /// Turns the value into an owned `String` holding the same characters.
    fn into_text(self) -> (r: String)
        ensures
            r@ == self.text_view(),
    ;
}

impl<'a> IntoText for &'a str {
    open spec fn text_view(&self) -> Seq<char> {
        (*self)@
    }

    fn into_text(self) -> (r: String) {
        self.to_owned()
    }
}

impl IntoText for String {
    open spec fn text_view(&self) -> Seq<char> {
        self@
    }

    fn into_text(self) -> (r: String) {
        self
    }
}

/// Calls `<str as PartialEq>::eq`: two string slices are equal exactly when
/// they hold the same characters.
#[verifier::external_body]
pub(crate) fn str_eq(a: &str, b: &str) -> (r: bool)
    ensures
        r == (a@ == b@),
{
    a == b
}

/// Whether `s` occurs among the strings of `v`.
pub fn contains_string(v: &Vec<String>, s: &str) -> (r: bool)
    ensures
        r == (exists|i: int| 0 <= i < v@.len() && #[trigger] v@[i]@ == s@),
{
    let mut i: usize = 0;
    while i < v.len()
        invariant
            i <= v@.len(),
            forall|j: int| 0 <= j < i ==> #[trigger] v@[j]@ != s@,
        decreases v@.len() - i,
    {
        if str_eq(v[i].as_str(), s) {
            return true;
        }
        i = i + 1;
    }
    false
}

} // verus!

verus! {

/// The strings of `list` joined with `sep` between each two.
pub open spec fn seq_join(list: Seq<Seq<char>>, sep: Seq<char>) -> Seq<char>
    decreases list.len(),
{
    if list.len() == 0 {
        Seq::empty()
    } else if list.len() == 1 {
        list[0]
    } else {
        seq_join(list.drop_last(), sep) + sep + list.last()
    }
}

/// Joins the strings of `list` with `sep` between each two.
pub fn join_strings(list: &Vec<String>, sep: &str) -> (r: String)
    ensures
        r@ == seq_join(list@.map_values(|s: String| s@), sep@),
{
    let ghost items = list@.map_values(|s: String| s@);
    let mut r = String::new();
    let mut i: usize = 0;
    while i < list.len()
        invariant
            i <= list@.len(),
            items == list@.map_values(|s: String| s@),
            r@ == seq_join(items.take(i as int), sep@),
        decreases list@.len() - i,
    {
        assert(items.take(i + 1).drop_last() =~= items.take(i as int));
        if i != 0 {
            r.append(sep);
            r.append(list[i].as_str());
        } else {
            r.append(list[i].as_str());
            assert(items.take(1) =~= seq![items[0]]);
            assert(Seq::<char>::empty() + list[0]@ =~= list[0]@);
        }
        i = i + 1;
    }
    assert(items.take(list@.len() as int) =~= items);
    r
}

/// Removes `s` from a list of distinct strings, if it is there.
pub fn remove_string(v: &mut Vec<String>, s: &str)
    requires
        old(v)@.map_values(|x: String| x@).no_duplicates(),
    ensures
        final(v)@.map_values(|x: String| x@).no_duplicates(),
        final(v)@.map_values(|x: String| x@).to_set() == old(v)@.map_values(|x: String| x@).to_set().remove(s@),
{
    let ghost before = v@.map_values(|x: String| x@);
    let mut i: usize = 0;
    while i < v.len()
        invariant
            i <= v@.len(),
            before == v@.map_values(|x: String| x@),
            before == old(v)@.map_values(|x: String| x@),
            before.no_duplicates(),
            forall|j: int| 0 <= j < i ==> #[trigger] v@[j]@ != s@,
        decreases v@.len() - i,
    {
        if str_eq(v[i].as_str(), s) {
            let ghost idx = i as int;
            v.remove(i);
            let ghost after = v@.map_values(|x: String| x@);
            assert(after =~= before.remove(idx));
            assert forall|a: int, b: int| 0 <= a < after.len() && 0 <= b < after.len() && a != b implies after[a] != after[b] by {
                let a2 = if a < idx { a } else { a + 1 };
                let b2 = if b < idx { b } else { b + 1 };
                assert(after[a] == before[a2] && after[b] == before[b2]);
            }
            assert forall|y: Seq<char>| after.to_set().contains(y) == before.to_set().remove(s@).contains(y) by {
                if after.contains(y) {
                    let a = choose|a: int| 0 <= a < after.len() && after[a] == y;
                    let a2 = if a < idx { a } else { a + 1 };
                    assert(after[a] == before[a2]);
                    assert(a2 != idx);
                    assert(before[idx] == s@);
                }
                if before.contains(y) && y != s@ {
                    let a = choose|a: int| 0 <= a < before.len() && before[a] == y;
                    assert(a != idx);
                    let a2 = if a < idx { a } else { a - 1 };
                    assert(after[a2] == y);
                }
            }
            assert(after.to_set() =~= before.to_set().remove(s@));
            return;
        }
        i = i + 1;
    }
    assert forall|y: Seq<char>| before.to_set().contains(y) implies y != s@ by {
        let a = choose|a: int| 0 <= a < before.len() && before[a] == y;
        assert(v@[a]@ != s@);
    }
    assert(before.to_set() =~= before.to_set().remove(s@));
}

} // verus!

verus! {

/// `String::push`, which std documents as appending the given character to
/// the end of the string.
pub assume_specification[ String::push ](s: &mut String, ch: char)
    ensures
        final(s)@ == old(s)@.push(ch),
;

} // verus!
