//! String tables: runs of bytes that each end in a zero byte.

use vstd::prelude::*;

verus! {

/// Whether `end` is where the run that begins at `start` ends: the first
/// zero byte at or after `start`.
pub open spec fn ends_at(s: Seq<u8>, start: int, end: int) -> bool {
    &&& start <= end < s.len()
    &&& s[end] == 0
    &&& forall|j: int| start <= j < end ==> s[j] != 0
}

/// Whether a zero byte stands at or after `start`.
pub open spec fn terminated(s: Seq<u8>, start: int) -> bool {
    exists|end: int| ends_at(s, start, end)
}

/// The bytes of `s` from `start` to `end`, each as the character of the
/// same code point.
pub open spec fn chars_between(s: Seq<u8>, start: int, end: int) -> Seq<char> {
    Seq::new((end - start) as nat, |k: int| s[start + k] as char)
}

/// The name that the string table `s` holds at `start`: the bytes before
/// the first zero byte at or after `start`. Where no zero byte follows,
/// the name is empty.
pub open spec fn elf_string(s: Seq<u8>, start: int) -> Seq<char> {
    if terminated(s, start) {
        chars_between(s, start, choose|end: int| ends_at(s, start, end))
    } else {
        Seq::empty()
    }
}

/// A run ends in one place only.
pub proof fn lemma_end_unique(s: Seq<u8>, start: int, a: int, b: int)
    requires
        ends_at(s, start, a),
        ends_at(s, start, b),
    ensures
        a == b,
{
    if a < b {
        assert(s[a] != 0);
    } else if b < a {
        assert(s[b] != 0);
    }
}

/// The name at `start` runs up to any place that is known to be the end.
pub proof fn lemma_elf_string_to(s: Seq<u8>, start: int, end: int)
    requires
        ends_at(s, start, end),
    ensures
        elf_string(s, start) == chars_between(s, start, end),
{
    let e = choose|e: int| ends_at(s, start, e);
    lemma_end_unique(s, start, e, end);
}

/// `String::push` appends the character to the end of the string.
pub assume_specification[ String::push ](s: &mut String, c: char)
    ensures
        final(s)@ == old(s)@.push(c),
;

/// Reads the name that starts at `start` in the string table `data`.
pub fn get_elf_string(data: &Vec<u8>, start: usize) -> (name: String)
    ensures
        name@ == elf_string(data@, start as int),
{
    let mut end: usize = 0;
    let mut found: bool = false;
    let mut i: usize = start;
    while i < data.len()
        invariant_except_break
            start <= i,
            !found,
            forall|j: int| start <= j < i && j < data@.len() ==> data@[j] != 0,
        ensures
            found ==> ends_at(data@, start as int, end as int),
            !found ==> forall|j: int| start <= j < data@.len() ==> data@[j] != 0,
        decreases data@.len() - i,
    {
        if data[i] == 0u8 {
            end = i;
            found = true;
            break;
        }
        i = i + 1;
    }
    let mut name = String::new();
    if !found {
        return name;
    }
    proof {
        lemma_elf_string_to(data@, start as int, end as int);
    }
    let mut k: usize = start;
    while k < end
        invariant
            start <= k <= end < data@.len(),
            name@ == chars_between(data@, start as int, k as int),
        decreases end - k,
    {
        name.push(data[k] as char);
        k = k + 1;
        assert(name@ =~= chars_between(data@, start as int, k as int));
    }
    name
}

} // verus!
