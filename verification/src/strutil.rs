//! Small executable helpers over strings, specified character by character.

use vstd::prelude::*;

verus! {

/// Exact character-wise equality of two string slices.
pub fn str_eq(a: &str, b: &str) -> (r: bool)
    ensures
        r == (a@ == b@),
{
    let alen = a.unicode_len();
    let blen = b.unicode_len();
    if alen != blen {
        return false;
    }
    let mut i: usize = 0;
    while i < alen
        invariant
            i <= alen,
            alen == a@.len(),
            alen == b@.len(),
            forall|j: int| 0 <= j < i ==> a@[j] == b@[j],
        decreases alen - i,
    {
        if a.get_char(i) != b.get_char(i) {
            return false;
        }
        i += 1;
    }
    proof {
        assert(a@ =~= b@);
    }
    true
}

/// Whether `p` lies lexically at or under `root`, where both are written as
/// absolute slash-separated paths: either the two are equal, or `root` is a
/// proper prefix of `p` that ends at a component boundary.
pub open spec fn path_under(root: Seq<char>, p: Seq<char>) -> bool {
    ||| p == root
    ||| (root.len() < p.len() && p.take(root.len() as int) == root && (root == seq!['/']
        || p[root.len() as int] == '/'))
}

/// Decide [`path_under`] on string slices.
pub fn is_under(root: &str, p: &str) -> (r: bool)
    ensures
        r == path_under(root@, p@),
{
    let rlen = root.unicode_len();
    let plen = p.unicode_len();
    if plen < rlen {
        return false;
    }
    let mut i: usize = 0;
    while i < rlen
        invariant
            i <= rlen,
            rlen == root@.len(),
            plen == p@.len(),
            rlen <= plen,
            forall|j: int| 0 <= j < i ==> p@[j] == root@[j],
        decreases rlen - i,
    {
        if p.get_char(i) != root.get_char(i) {
            proof {
                assert(p@.take(rlen as int)[i as int] != root@[i as int]);
                assert(p@ != root@) by {
                    if p@ == root@ {
                        assert(p@[i as int] == root@[i as int]);
                    }
                }
            }
            return false;
        }
        i += 1;
    }
    if plen == rlen {
        proof {
            assert(p@ =~= root@);
        }
        return true;
    }
    proof {
        assert(p@.take(rlen as int) =~= root@);
        assert(p@ != root@) by {
            if p@ == root@ {
                assert(p@.len() == root@.len());
            }
        }
    }
    if rlen == 1 && root.get_char(0) == '/' {
        proof {
            assert(root@ =~= seq!['/']);
        }
        return true;
    }
    let boundary = p.get_char(rlen) == '/';
    proof {
        if !boundary {
            assert(root@ != seq!['/']) by {
                if root@ =~= seq!['/'] {
                    assert(root@.len() == 1 && root@[0] == '/');
                }
            }
        }
    }
    boundary
}

/// ASCII lowercase of one character; anything outside `A`..`Z` is unchanged.
pub open spec fn lower_char(c: char) -> char {
    if c == 'A' {
        'a'
    } else if c == 'B' {
        'b'
    } else if c == 'C' {
        'c'
    } else if c == 'D' {
        'd'
    } else if c == 'E' {
        'e'
    } else if c == 'F' {
        'f'
    } else if c == 'G' {
        'g'
    } else if c == 'H' {
        'h'
    } else if c == 'I' {
        'i'
    } else if c == 'J' {
        'j'
    } else if c == 'K' {
        'k'
    } else if c == 'L' {
        'l'
    } else if c == 'M' {
        'm'
    } else if c == 'N' {
        'n'
    } else if c == 'O' {
        'o'
    } else if c == 'P' {
        'p'
    } else if c == 'Q' {
        'q'
    } else if c == 'R' {
        'r'
    } else if c == 'S' {
        's'
    } else if c == 'T' {
        't'
    } else if c == 'U' {
        'u'
    } else if c == 'V' {
        'v'
    } else if c == 'W' {
        'w'
    } else if c == 'X' {
        'x'
    } else if c == 'Y' {
        'y'
    } else if c == 'Z' {
        'z'
    } else {
        c
    }
}

/// ASCII lowercase of a character sequence.
pub open spec fn lower_chars(s: Seq<char>) -> Seq<char> {
    s.map_values(|c: char| lower_char(c))
}

/// Whether `a`, lowered character by character, equals `b`.
pub fn eq_lowered(a: &str, b: &str) -> (r: bool)
    ensures
        r == (lower_chars(a@) == b@),
{
    let alen = a.unicode_len();
    let blen = b.unicode_len();
    if alen != blen {
        proof {
            assert(lower_chars(a@).len() == a@.len());
        }
        return false;
    }
    let mut i: usize = 0;
    while i < alen
        invariant
            i <= alen,
            alen == a@.len(),
            alen == b@.len(),
            forall|j: int| 0 <= j < i ==> lower_char(a@[j]) == b@[j],
        decreases alen - i,
    {
        let c = a.get_char(i);
        let lc: char = if c == 'A' {
            'a'
        } else if c == 'B' {
            'b'
        } else if c == 'C' {
            'c'
        } else if c == 'D' {
            'd'
        } else if c == 'E' {
            'e'
        } else if c == 'F' {
            'f'
        } else if c == 'G' {
            'g'
        } else if c == 'H' {
            'h'
        } else if c == 'I' {
            'i'
        } else if c == 'J' {
            'j'
        } else if c == 'K' {
            'k'
        } else if c == 'L' {
            'l'
        } else if c == 'M' {
            'm'
        } else if c == 'N' {
            'n'
        } else if c == 'O' {
            'o'
        } else if c == 'P' {
            'p'
        } else if c == 'Q' {
            'q'
        } else if c == 'R' {
            'r'
        } else if c == 'S' {
            's'
        } else if c == 'T' {
            't'
        } else if c == 'U' {
            'u'
        } else if c == 'V' {
            'v'
        } else if c == 'W' {
            'w'
        } else if c == 'X' {
            'x'
        } else if c == 'Y' {
            'y'
        } else if c == 'Z' {
            'z'
        } else {
            c
        };
        if lc != b.get_char(i) {
            proof {
                assert(lower_chars(a@)[i as int] != b@[i as int]);
                assert(lower_chars(a@) != b@) by {
                    if lower_chars(a@) == b@ {
                        assert(lower_chars(a@)[i as int] == b@[i as int]);
                    }
                }
            }
            return false;
        }
        i += 1;
    }
    proof {
        assert(lower_chars(a@) =~= b@);
    }
    true
}

} // verus!
