//! Small verified text helpers on the character view of strings.

use vstd::prelude::*;

verus! {

/// Whether `word` occurs in `text` as a contiguous run of characters.
pub open spec fn has_infix(text: Seq<char>, word: Seq<char>) -> bool {
    exists|i: int| 0 <= i && i + word.len() <= text.len() && #[trigger] text.subrange(i, i + word.len()) == word
}

/// The characters of `s`, in order.
pub fn chars_of(s: &str) -> (chars: Vec<char>)
    ensures
        chars@ == s@,
{
    let mut chars: Vec<char> = Vec::new();
    for c in it: s.chars()
        invariant
            chars@ == it.seq().take(it.index() as int),
            it.seq() == s@,
    {
        chars.push(c);
    }
    chars
}

/// Whether `word` occurs in `text` as a contiguous run of characters.
pub fn contains_infix(text: &Vec<char>, word: &Vec<char>) -> (found: bool)
    ensures
        found == has_infix(text@, word@),
{
    if word.len() > text.len() {
        return false;
    }
    let last: usize = text.len() - word.len();
    let mut i: usize = 0;
    while i <= last
        invariant
            last == text.len() - word.len(),
            word.len() <= text.len(),
            0 <= i <= last + 1,
            forall|k: int| 0 <= k < i ==> #[trigger] text@.subrange(k, k + word.len()) != word@,
        decreases last + 1 - i,
    {
        let mut j: usize = 0;
        let mut same: bool = true;
        while j < word.len()
            invariant
                0 <= j <= word.len(),
                i <= last,
                last == text.len() - word.len(),
                same == forall|m: int| 0 <= m < j ==> text@[i + m] == word@[m],
            decreases word.len() - j,
        {
            if text[i + j] != word[j] {
                same = false;
            }
            j = j + 1;
        }
        if same {
            assert(text@.subrange(i as int, i + word.len()) =~= word@);
            return true;
        }
        assert(text@.subrange(i as int, i + word.len())[0] == text@[i as int]);
        assert(text@.subrange(i as int, i + word.len()) != word@) by {
            let m = choose|m: int| 0 <= m < word.len() && text@[i + m] != word@[m];
            assert(text@.subrange(i as int, i + word.len())[m] == text@[i + m]);
        }
        i = i + 1;
    }
    false
}

/// Whether two strings hold the same characters.
pub fn str_eq(a: &str, b: &str) -> (same: bool)
    ensures
        same == (a@ == b@),
{
    let ca = chars_of(a);
    let cb = chars_of(b);
    if ca.len() != cb.len() {
        return false;
    }
    let mut i: usize = 0;
    while i < ca.len()
        invariant
            ca@ == a@,
            cb@ == b@,
            ca.len() == cb.len(),
            0 <= i <= ca.len(),
            forall|k: int| 0 <= k < i ==> ca@[k] == cb@[k],
        decreases ca.len() - i,
    {
        if ca[i] != cb[i] {
            return false;
        }
        i = i + 1;
    }
    assert(ca@ =~= cb@);
    true
}

} // verus!
