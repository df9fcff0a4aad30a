use vstd::prelude::*;

verus! {

/// Whether two character sequences are equal.
pub fn same_text(a: &str, b: &str) -> (r: bool)
    ensures
        r == (a@ == b@),
{
    let n = a.unicode_len();
    if n != b.unicode_len() {
        return false;
    }
    let mut i: usize = 0;
    while i < n
        invariant
            n == a@.len(),
            n == b@.len(),
            i <= n,
            a@.subrange(0, i as int) == b@.subrange(0, i as int),
        decreases n - i,
    {
        if a.get_char(i) != b.get_char(i) {
            return false;
        }
        assert(a@.subrange(0, i + 1) == a@.subrange(0, i as int).push(a@[i as int]));
        assert(b@.subrange(0, i + 1) == b@.subrange(0, i as int).push(b@[i as int]));
        i = i + 1;
    }
    assert(a@ == a@.subrange(0, n as int));
    assert(b@ == b@.subrange(0, n as int));
    true
}

/// Whether `n` characters of `a` from `a_from` equal `n` characters of `b` from `b_from`.
pub fn chars_match(a: &str, a_from: usize, b: &str, b_from: usize, n: usize) -> (r: bool)
    requires
        a_from + n <= a@.len(),
        b_from + n <= b@.len(),
    ensures
        r == (a@.subrange(a_from as int, a_from + n) == b@.subrange(b_from as int, b_from + n)),
{
    let _ = a.unicode_len();
    let _ = b.unicode_len();
    let mut k: usize = 0;
    while k < n
        invariant
            a@.len() <= usize::MAX,
            b@.len() <= usize::MAX,
            a_from + n <= a@.len(),
            b_from + n <= b@.len(),
            k <= n,
            a@.subrange(a_from as int, a_from + k) == b@.subrange(b_from as int, b_from + k),
        decreases n - k,
    {
        if a.get_char(a_from + k) != b.get_char(b_from + k) {
            assert(a@.subrange(a_from as int, a_from + n)[k as int] != b@.subrange(b_from as int, b_from + n)[k as int]);
            return false;
        }
        assert(a@.subrange(a_from as int, a_from + k + 1) == a@.subrange(a_from as int, a_from + k).push(a@[a_from + k]));
        assert(b@.subrange(b_from as int, b_from + k + 1) == b@.subrange(b_from as int, b_from + k).push(b@[b_from + k]));
        k = k + 1;
    }
    true
}

/// The position of the last `.` in `s`.
pub open spec fn last_dot(s: Seq<char>) -> Option<int>
    decreases s.len(),
{
    if s.len() == 0 {
        None
    } else if s.last() == '.' {
        Some(s.len() - 1)
    } else {
        last_dot(s.drop_last())
    }
}

/// The extension of a file name: what follows its last `.`, unless that dot opens the
/// name (a hidden file) or there is none.
pub open spec fn extension_of(s: Seq<char>) -> Option<Seq<char>> {
    match last_dot(s) {
        Some(i) => if i > 0 {
            Some(s.subrange(i + 1, s.len() as int))
        } else {
            None
        },
        None => None,
    }
}

/// A file name without its extension.
pub open spec fn stem_of(s: Seq<char>) -> Seq<char> {
    match last_dot(s) {
        Some(i) => if i > 0 {
            s.subrange(0, i)
        } else {
            s
        },
        None => s,
    }
}

/// Whether a file name names a board's metadata file.
pub open spec fn is_metadata_name(s: Seq<char>) -> bool {
    extension_of(s) == Some("toml"@)
}

/// The name of the picture that goes with a metadata file.
pub open spec fn image_name_of(s: Seq<char>) -> Seq<char> {
    stem_of(s) + ".png"@
}

proof fn lemma_last_dot_bounds(s: Seq<char>)
    ensures
        last_dot(s) matches Some(i) ==> 0 <= i < s.len() && s[i] == '.',
    decreases s.len(),
{
    if s.len() > 0 && s.last() != '.' {
        lemma_last_dot_bounds(s.drop_last());
    }
}

/// The position of the last `.` in `s`.
fn last_dot_index(s: &str) -> (r: Option<usize>)
    ensures
        match r {
            Some(i) => last_dot(s@) == Some(i as int),
            None => last_dot(s@) is None,
        },
{
    let mut j: usize = s.unicode_len();
    assert(s@.subrange(0, j as int) == s@);
    while j > 0
        invariant
            j <= s@.len(),
            last_dot(s@) == last_dot(s@.subrange(0, j as int)),
        decreases j,
    {
        assert(s@.subrange(0, j as int).drop_last() == s@.subrange(0, j - 1));
        if s.get_char(j - 1) == '.' {
            return Some(j - 1);
        }
        j = j - 1;
    }
    None
}

/// The number of characters in the stem of `s`.
fn stem_len(s: &str) -> (r: usize)
    ensures
        r <= s@.len(),
        stem_of(s@) == s@.subrange(0, r as int),
{
    proof {
        lemma_last_dot_bounds(s@);
    }
    match last_dot_index(s) {
        Some(i) => if i > 0 {
            i
        } else {
            assert(s@.subrange(0, s@.len() as int) == s@);
            s.unicode_len()
        },
        None => {
            assert(s@.subrange(0, s@.len() as int) == s@);
            s.unicode_len()
        },
    }
}

/// Whether `name` names a board's metadata file (extension `toml`).
pub fn is_metadata_file_name(name: &str) -> (r: bool)
    ensures
        r == is_metadata_name(name@),
{
    proof {
        lemma_last_dot_bounds(name@);
        reveal_strlit("toml");
    }
    match last_dot_index(name) {
        Some(i) => {
            let n = name.unicode_len();
            assert("toml"@.len() == 4);
            assert("toml"@.subrange(0, 4) == "toml"@);
            if i > 0 && n - (i + 1) == 4 {
                chars_match(name, i + 1, "toml", 0, 4)
            } else {
                false
            }
        },
        None => false,
    }
}

/// Whether `candidate` is the name of the picture that goes with the metadata file `meta_name`.
pub fn is_image_name_for(meta_name: &str, candidate: &str) -> (r: bool)
    ensures
        r == (candidate@ == image_name_of(meta_name@)),
{
    proof {
        reveal_strlit(".png");
    }
    let k = stem_len(meta_name);
    let n = candidate.unicode_len();
    if n < 4 || n - 4 != k {
        return false;
    }
    let r = chars_match(candidate, 0, meta_name, 0, k) && chars_match(candidate, k, ".png", 0, 4);
    let ghost want = image_name_of(meta_name@);
    assert(".png"@.len() == 4);
    assert(".png"@.subrange(0, 4) == ".png"@);
    assert(want.len() == k + 4);
    assert(want.subrange(0, k as int) == meta_name@.subrange(0, k as int));
    assert(want.subrange(k as int, k + 4) == ".png"@);
    if r {
        assert forall|j: int| 0 <= j < want.len() implies candidate@[j] == want[j] by {
            if j < k {
                assert(candidate@[j] == candidate@.subrange(0, k as int)[j]);
            } else {
                assert(candidate@[j] == candidate@.subrange(k as int, k + 4)[j - k]);
            }
        }
        assert(candidate@ =~= want);
    }
    r
}

} // verus!
