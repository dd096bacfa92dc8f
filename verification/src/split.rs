use vstd::prelude::*;
use vstd::string::StrSliceExecFns;

verus! {

/// Whether `split_once` can split `s` at `pattern` without cutting a
/// multi-byte character: the pattern is ASCII, or it does not occur.
pub open spec fn splittable(s: Seq<char>, pattern: char) -> bool {
    (pattern as u32) < 128 || !s.contains(pattern)
}

/// The two parts of `s` around the first occurrence of `pattern`, which
/// belongs to neither; where `pattern` does not occur, all of `s` and
/// nothing.
pub open spec fn split_spec(s: Seq<char>, pattern: char) -> (Seq<char>, Seq<char>)
    decreases s.len(),
{
    if s.len() == 0 {
        (Seq::empty(), Seq::empty())
    } else if s[0] == pattern {
        (Seq::empty(), s.skip(1))
    } else {
        let (h, t) = split_spec(s.skip(1), pattern);
        (seq![s[0]] + h, t)
    }
}

/// The parts that [`split_spec`] gives reassemble `s`, and the first holds
/// no `pattern`; they are the only parts that do so.
pub proof fn lemma_split_spec(s: Seq<char>, pattern: char, h: Seq<char>, t: Seq<char>)
    ensures
        s.contains(pattern) ==> {
            &&& split_spec(s, pattern).0 + seq![pattern] + split_spec(s, pattern).1 == s
            &&& !split_spec(s, pattern).0.contains(pattern)
        },
        !s.contains(pattern) ==> split_spec(s, pattern) == (s, Seq::<char>::empty()),
        s.contains(pattern) && h + seq![pattern] + t == s && !h.contains(pattern)
            ==> split_spec(s, pattern) == (h, t),
    decreases s.len(),
{
    if s.len() > 0 {
        let rest = s.skip(1);
        if s[0] == pattern {
            assert(Seq::<char>::empty() + seq![pattern] + rest =~= s);
            if s.contains(pattern) && h + seq![pattern] + t == s && !h.contains(pattern) {
                if h.len() > 0 {
                    assert((h + seq![pattern] + t)[0] == h[0]);
                    assert(h.contains(h[0]));
                }
                assert(h =~= Seq::<char>::empty());
                assert(t =~= rest) by {
                    assert forall|k: int| 0 <= k < t.len() implies t[k] == rest[k] by {
                        assert((h + seq![pattern] + t)[k + 1] == t[k]);
                    }
                }
            }
        } else {
            let h2 = if h.len() > 0 { h.skip(1) } else { h };
            lemma_split_spec(rest, pattern, h2, t);
            let (rh, rt) = split_spec(rest, pattern);
            if s.contains(pattern) {
                let k = choose|k: int| 0 <= k < s.len() && s[k] == pattern;
                assert(rest[k - 1] == pattern);
                assert(rest.contains(pattern));
                assert(seq![s[0]] + rh + seq![pattern] + rt =~= seq![s[0]] + (rh + seq![pattern] + rt));
                assert(seq![s[0]] + rest =~= s);
                if (seq![s[0]] + rh).contains(pattern) {
                    let j = choose|j: int| 0 <= j < (seq![s[0]] + rh).len() && (seq![s[0]] + rh)[j] == pattern;
                    assert(rh[j - 1] == pattern);
                }
                if h + seq![pattern] + t == s && !h.contains(pattern) {
                    assert(h.len() > 0) by {
                        if h.len() == 0 {
                            assert((h + seq![pattern] + t)[0] == pattern);
                        }
                    }
                    assert(h[0] == s[0]) by {
                        assert((h + seq![pattern] + t)[0] == h[0]);
                    }
                    assert(h2 + seq![pattern] + t =~= rest) by {
                        assert forall|k: int| 0 <= k < rest.len() implies (h2 + seq![pattern] + t)[k] == rest[k] by {
                            assert((h + seq![pattern] + t)[k + 1] == s[k + 1]);
                        }
                    }
                    assert(!h2.contains(pattern)) by {
                        if h2.contains(pattern) {
                            let j = choose|j: int| 0 <= j < h2.len() && h2[j] == pattern;
                            assert(h[j + 1] == pattern);
                        }
                    }
                    assert(seq![s[0]] + h2 =~= h);
                }
            } else {
                assert(!rest.contains(pattern)) by {
                    if rest.contains(pattern) {
                        let k = choose|k: int| 0 <= k < rest.len() && rest[k] == pattern;
                        assert(s[k + 1] == pattern);
                    }
                }
                assert(seq![s[0]] + rest =~= s);
            }
        }
    } else {
        assert(s =~= Seq::<char>::empty());
    }
}

/// Splits `s` at the first occurrence of `pattern`, which belongs to neither
/// part; where `pattern` does not occur, the first part is all of `s` and
/// the second part is empty. Only a pattern of one byte (an ASCII
/// character) may occur in `s`: a longer one would be cut in two.
pub fn split_once<'a>(s: &'a str, pattern: char) -> (r: (&'a str, &'a str))
    requires
        splittable(s@, pattern),
    ensures
        s@.contains(pattern) ==> {
            &&& r.0@ + seq![pattern] + r.1@ == s@
            &&& !r.0@.contains(pattern)
        },
        !s@.contains(pattern) ==> r.0@ == s@ && r.1@.len() == 0,
        (r.0@, r.1@) == split_spec(s@, pattern),
{
    proof {
        lemma_split_spec(s@, pattern, Seq::empty(), Seq::empty());
    }
    let n = s.unicode_len();
    let mut i: usize = 0;
    while i < n
        invariant
            n == s@.len(),
            i <= n,
            forall|j: int| 0 <= j < i ==> s@[j] != pattern,
        ensures
            i <= n,
            forall|j: int| 0 <= j < i ==> s@[j] != pattern,
            i < n ==> s@[i as int] == pattern,
        decreases n - i,
    {
        if s.get_char(i) == pattern {
            break;
        }
        i = i + 1;
    }
    if i < n {
        let left = s.substring_char(0, i);
        let right = s.substring_char(i + 1, n);
        assert(left@ + seq![pattern] + right@ =~= s@);
        assert(!left@.contains(pattern)) by {
            if left@.contains(pattern) {
                let k = choose|k: int| 0 <= k < left@.len() && left@[k] == pattern;
                assert(s@[k] == pattern);
            }
        }
        proof {
            lemma_split_spec(s@, pattern, left@, right@);
        }
        (left, right)
    } else {
        assert(!s@.contains(pattern));
        let left = s.substring_char(0, n);
        let right = s.substring_char(n, n);
        assert(left@ =~= s@);
        assert(right@ =~= Seq::<char>::empty());
        (left, right)
    }
}

} // verus!
