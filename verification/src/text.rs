use vstd::prelude::*;

verus! {

/// The characters of `s`, in order.
pub fn chars_of(s: &str) -> (v: Vec<char>)
    ensures
        v@ == s@,
{
    let mut v: Vec<char> = Vec::new();
    for c in it: s.chars()
        invariant
            v@ == it.seq().take(it.index() as int),
            it.seq() == s@,
    {
        v.push(c);
    }
    v
}

} // verus!

verus! {

/// `p` is a prefix of `s`.
pub fn has_prefix(s: &str, p: &str) -> (r: bool)
    ensures
        r == p@.is_prefix_of(s@),
{
    let sv = chars_of(s);
    let pv = chars_of(p);
    if pv.len() > sv.len() {
        return false;
    }
    let mut i: usize = 0;
    while i < pv.len()
        invariant
            sv@ == s@,
            pv@ == p@,
            pv.len() <= sv.len(),
            i <= pv.len(),
            forall|j: int| 0 <= j < i ==> pv@[j] == sv@[j],
        decreases pv.len() - i,
    {
        if pv[i] != sv[i] {
            assert(p@ !~= s@.subrange(0, p@.len() as int)) by {
                assert(p@[i as int] != s@.subrange(0, p@.len() as int)[i as int]);
            }
            return false;
        }
        i += 1;
    }
    assert(p@ =~= s@.subrange(0, p@.len() as int));
    true
}

/// The code point of `c` with ASCII upper-case letters mapped to lower case;
/// every other character is left as it is.
pub open spec fn ascii_fold(c: char) -> u32 {
    if 65 <= (c as u32) <= 90 {
        (c as u32 + 32) as u32
    } else {
        c as u32
    }
}

/// `needle` occurs in `hay` at position `i`, letters compared without regard
/// to ASCII case.
pub open spec fn occurs_folded_at(hay: Seq<char>, needle: Seq<char>, i: int) -> bool {
    &&& 0 <= i
    &&& i + needle.len() <= hay.len()
    &&& forall|j: int| 0 <= j < needle.len() ==> ascii_fold(#[trigger] hay[i + j]) == ascii_fold(needle[j])
}

/// `needle` occurs somewhere in `hay`, ASCII letters compared without regard
/// to case.
pub open spec fn contains_folded(hay: Seq<char>, needle: Seq<char>) -> bool {
    exists|i: int| occurs_folded_at(hay, needle, i)
}

fn fold_char(c: char) -> (r: u32)
    ensures
        r == ascii_fold(c),
{
    let n = c as u32;
    if 65 <= n && n <= 90 {
        n + 32
    } else {
        n
    }
}

fn occurs_at(hay: &Vec<char>, needle: &Vec<char>, i: usize) -> (r: bool)
    requires
        i + needle@.len() <= hay@.len(),
    ensures
        r == occurs_folded_at(hay@, needle@, i as int),
{
    let hl = hay.len();
    let mut j: usize = 0;
    while j < needle.len()
        invariant
            hl == hay@.len(),
            i + needle@.len() <= hay@.len(),
            j <= needle@.len(),
            forall|k: int| 0 <= k < j ==> ascii_fold(#[trigger] hay@[i + k]) == ascii_fold(needle@[k]),
        decreases needle.len() - j,
    {
        if fold_char(hay[i + j]) != fold_char(needle[j]) {
            assert(ascii_fold(hay@[i + j as int]) != ascii_fold(needle@[j as int]));
            return false;
        }
        j += 1;
    }
    true
}

/// Does `needle` occur in `hay`, ASCII letters compared without regard to
/// case? (The substring test behind memory search.)
pub fn contains_ignoring_ascii_case(hay: &str, needle: &str) -> (r: bool)
    ensures
        r == contains_folded(hay@, needle@),
        r <==> exists|i: int| occurs_folded_at(hay@, needle@, i),
{
    let hv = chars_of(hay);
    let nv = chars_of(needle);
    if nv.len() > hv.len() {
        assert forall|i: int| !occurs_folded_at(hay@, needle@, i) by {}
        return false;
    }
    if nv.len() == 0 {
        assert(occurs_folded_at(hay@, needle@, 0));
        return true;
    }
    let hl = hv.len();
    let last = hl - nv.len();
    let mut i: usize = 0;
    while i <= last
        invariant
            hv@ == hay@,
            nv@ == needle@,
            hl == hv@.len(),
            last == hv@.len() - nv@.len(),
            0 < nv@.len() <= hv@.len(),
            i <= last + 1,
            forall|k: int| 0 <= k < i ==> !occurs_folded_at(hay@, needle@, k),
        decreases last + 1 - i,
    {
        if occurs_at(&hv, &nv, i) {
            return true;
        }
        i += 1;
    }
    assert forall|k: int| !occurs_folded_at(hay@, needle@, k) by {
        if 0 <= k && k < i {
        }
    }
    false
}

} // verus!

verus! {

/// A granted path covers a requested path when they are equal, or when the
/// requested path lies below the granted one: the granted path is a prefix
/// of it and either ends with `/` itself or is followed by `/` in it. A
/// sibling that merely shares the leading characters (`/notes-private`
/// for `/notes`) is not covered.
pub open spec fn path_covers(granted: Seq<char>, requested: Seq<char>) -> bool {
    &&& granted.is_prefix_of(requested)
    &&& {
        ||| requested.len() == granted.len()
        ||| (granted.len() > 0 && granted.last() == '/')
        ||| requested[granted.len() as int] == '/'
    }
}

/// Does the granted path cover the requested path (itself or something
/// below it)?
pub fn covers_path(granted: &str, requested: &str) -> (r: bool)
    ensures
        r == path_covers(granted@, requested@),
{
    if !has_prefix(requested, granted) {
        return false;
    }
    let g = chars_of(granted);
    let q = chars_of(requested);
    if q.len() == g.len() {
        return true;
    }
    if g.len() > 0 && g[g.len() - 1] == '/' {
        return true;
    }
    q[g.len()] == '/'
}

} // verus!
