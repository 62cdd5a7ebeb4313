//! Names as sequences of characters: trimming, and lists of names.
use vstd::prelude::*;
use vstd::string::*;

verus! {

/// Whether `c` has the Unicode property `White_Space`.
pub open spec fn is_whitespace(c: char) -> bool {
    ||| '\u{9}' <= c <= '\u{d}'
    ||| c == ' '
    ||| c == '\u{85}'
    ||| c == '\u{a0}'
    ||| c == '\u{1680}'
    ||| '\u{2000}' <= c <= '\u{200a}'
    ||| c == '\u{2028}'
    ||| c == '\u{2029}'
    ||| c == '\u{202f}'
    ||| c == '\u{205f}'
    ||| c == '\u{3000}'
}

/// `s` without the whitespace that it begins with.
pub open spec fn trimmed_front(s: Seq<char>) -> Seq<char>
    decreases s.len(),
{
    if s.len() > 0 && is_whitespace(s.first()) {
        trimmed_front(s.drop_first())
    } else {
        s
    }
}

/// `s` without the whitespace that it ends with.
pub open spec fn trimmed_back(s: Seq<char>) -> Seq<char>
    decreases s.len(),
{
    if s.len() > 0 && is_whitespace(s.last()) {
        trimmed_back(s.drop_last())
    } else {
        s
    }
}

/// `s` without the whitespace at either end.
pub open spec fn trimmed(s: Seq<char>) -> Seq<char> {
    trimmed_back(trimmed_front(s))
}

/// `str::trim` of the standard library: the text without its leading and trailing whitespace,
/// where whitespace is the Unicode property `White_Space`.
pub assume_specification[ str::trim ](s: &str) -> (r: &str)
    ensures
        r@ == trimmed(s@),
;

/// A trimmed text, as an owned string.
pub fn trim_text(s: &str) -> (r: String)
    ensures
        r@ == trimmed(s@),
{
    s.trim().to_string()
}

/// The names that a list of strings holds.
pub open spec fn texts(list: Seq<String>) -> Seq<Seq<char>> {
    list.map_values(|s: String| s@)
}

/// `list` without the occurrences of `name`, the others in their order.
pub open spec fn without(list: Seq<Seq<char>>, name: Seq<char>) -> Seq<Seq<char>> {
    list.filter(|s: Seq<char>| s != name)
}

/// Whether two texts hold the same characters.
pub fn same_text(a: &str, b: &str) -> (r: bool)
    ensures
        r == (a@ == b@),
{
    a.to_string() == b.to_string()
}

/// Whether `list` holds `name`.
pub fn contains_text(list: &Vec<String>, name: &String) -> (r: bool)
    ensures
        r == texts(list@).contains(name@),
{
    let mut i: usize = 0;
    while i < list.len()
        invariant
            i <= list.len(),
            forall|j: int| 0 <= j < i ==> list@[j]@ != name@,
        decreases list.len() - i,
    {
        if list[i] == *name {
            assert(texts(list@)[i as int] == name@);
            return true;
        }
        i = i + 1;
    }
    assert forall|j: int| 0 <= j < texts(list@).len() implies texts(list@)[j] != name@ by {
        assert(texts(list@)[j] == list@[j]@);
    }
    false
}

/// The members of `list` other than `name`, in their order.
pub fn without_text(list: &Vec<String>, name: &String) -> (r: Vec<String>)
    ensures
        texts(r@) == without(texts(list@), name@),
{
    let mut r: Vec<String> = Vec::new();
    let mut i: usize = 0;
    let ghost all = texts(list@);
    assert(texts(r@) =~= without(all.take(0), name@)) by {
        reveal(Seq::filter);
    }
    while i < list.len()
        invariant
            i <= list.len(),
            all == texts(list@),
            texts(r@) == without(all.take(i as int), name@),
        decreases list.len() - i,
    {
        let ghost before = r@;
        proof {
            lemma_without_push(all.take(i as int), all[i as int], name@);
            assert(all.take(i + 1) =~= all.take(i as int).push(all[i as int]));
        }
        if list[i] != *name {
            r.push(list[i].clone());
            assert(texts(r@) =~= texts(before).push(all[i as int]));
        }
        i = i + 1;
    }
    assert(all.take(list.len() as int) =~= all);
    r
}

/// A list with the same names.
pub fn clone_texts(list: &Vec<String>) -> (r: Vec<String>)
    ensures
        texts(r@) == texts(list@),
{
    let r = list.clone();
    assert(texts(r@) =~= texts(list@));
    r
}

/// Adds a name to the end of a list.
pub fn push_text(list: &mut Vec<String>, s: &String)
    ensures
        texts(final(list)@) == texts(old(list)@).push(s@),
{
    list.push(s.clone());
    assert(texts(list@) =~= texts(old(list)@).push(s@));
}

/// Pushing a name onto a list, seen through [`without`].
pub proof fn lemma_without_push(list: Seq<Seq<char>>, last: Seq<char>, name: Seq<char>)
    ensures
        without(list.push(last), name) == if last == name {
            without(list, name)
        } else {
            without(list, name).push(last)
        },
{
    reveal(Seq::filter);
    assert(list.push(last).drop_last() =~= list);
}

/// What [`without`] keeps: every other name, and each name as often as the list held it.
pub proof fn lemma_without(list: Seq<Seq<char>>, name: Seq<char>)
    ensures
        without(list, name).len() <= list.len(),
        !without(list, name).contains(name),
        forall|s: Seq<char>|
            s != name ==> #[trigger] without(list, name).contains(s) == list.contains(s),
        list.no_duplicates() ==> without(list, name).no_duplicates(),
    decreases list.len(),
{
    if list.len() == 0 {
        reveal(Seq::filter);
        assert(without(list, name) =~= list);
    } else {
        let front = list.drop_last();
        let last = list.last();
        assert(list =~= front.push(last));
        lemma_without(front, name);
        lemma_without_push(front, last, name);
        assert forall|s: Seq<char>| s != name implies #[trigger] without(list, name).contains(s)
            == list.contains(s) by {
            lemma_push_contains(front, last, s);
            lemma_push_contains(without(front, name), last, s);
        }
        lemma_push_contains(without(front, name), last, name);
        if list.no_duplicates() {
            assert(front.no_duplicates()) by {
                assert forall|i: int, j: int|
                    0 <= i < front.len() && 0 <= j < front.len() && i != j implies front[i]
                    != front[j] by {
                    assert(list[i] != list[j]);
                }
            }
            if last != name {
                assert(!front.contains(last)) by {
                    if front.contains(last) {
                        let i = choose|i: int| 0 <= i < front.len() && front[i] == last;
                        assert(list[i] == list[list.len() - 1]);
                    }
                }
                assert(!without(front, name).contains(last));
            }
        }
    }
}

/// Removing a name that the list does not hold changes nothing.
pub proof fn lemma_without_absent(list: Seq<Seq<char>>, name: Seq<char>)
    requires
        !list.contains(name),
    ensures
        without(list, name) == list,
    decreases list.len(),
{
    if list.len() == 0 {
        reveal(Seq::filter);
        assert(without(list, name) =~= list);
    } else {
        let front = list.drop_last();
        assert(list =~= front.push(list.last()));
        lemma_push_contains(front, list.last(), name);
        lemma_without_absent(front, name);
        lemma_without_push(front, list.last(), name);
    }
}

/// What a list holds once a name was pushed onto it.
pub proof fn lemma_push_contains<A>(list: Seq<A>, last: A, s: A)
    ensures
        list.push(last).contains(s) == (list.contains(s) || s == last),
{
    let longer = list.push(last);
    if list.contains(s) {
        let i = choose|i: int| 0 <= i < list.len() && list[i] == s;
        assert(longer[i] == s);
    }
    if s == last {
        assert(longer[list.len() as int] == s);
    }
    if longer.contains(s) && s != last {
        let i = choose|i: int| 0 <= i < longer.len() && longer[i] == s;
        assert(list[i] == s);
    }
}

/// Where the text begins that is left when the whitespace at the front is gone.
pub proof fn lemma_trimmed_front(s: Seq<char>) -> (i: int)
    ensures
        0 <= i <= s.len(),
        trimmed_front(s) == s.subrange(i, s.len() as int),
        forall|k: int| 0 <= k < i ==> is_whitespace(#[trigger] s[k]),
        i < s.len() ==> !is_whitespace(s[i]),
    decreases s.len(),
{
    if s.len() > 0 && is_whitespace(s.first()) {
        let rest = s.drop_first();
        let i = lemma_trimmed_front(rest);
        assert(trimmed_front(s) =~= s.subrange(i + 1, s.len() as int));
        assert forall|k: int| 0 <= k < i + 1 implies is_whitespace(#[trigger] s[k]) by {
            if k > 0 {
                assert(rest[k - 1] == s[k]);
            }
        }
        i + 1
    } else {
        assert(s =~= s.subrange(0, s.len() as int));
        0
    }
}

/// Where the text ends that is left when the whitespace at the back is gone.
pub proof fn lemma_trimmed_back(s: Seq<char>) -> (j: int)
    ensures
        0 <= j <= s.len(),
        trimmed_back(s) == s.subrange(0, j),
        forall|k: int| j <= k < s.len() ==> is_whitespace(#[trigger] s[k]),
        j > 0 ==> !is_whitespace(s[j - 1]),
    decreases s.len(),
{
    if s.len() > 0 && is_whitespace(s.last()) {
        let rest = s.drop_last();
        let j = lemma_trimmed_back(rest);
        assert(trimmed_back(s) =~= s.subrange(0, j));
        assert forall|k: int| j <= k < s.len() implies is_whitespace(#[trigger] s[k]) by {
            if k < s.len() - 1 {
                assert(rest[k] == s[k]);
            }
        }
        j
    } else {
        assert(s =~= s.subrange(0, s.len() as int));
        s.len() as int
    }
}

/// Trimming never lengthens a text.
pub proof fn lemma_trimmed_len(s: Seq<char>)
    ensures
        trimmed(s).len() <= s.len(),
{
    lemma_trimmed_front(s);
    lemma_trimmed_back(trimmed_front(s));
}

} // verus!
