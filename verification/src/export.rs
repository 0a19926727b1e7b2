//! File names for exported responses.

use vstd::prelude::*;
use crate::builder::strip_trailing;
use crate::text::{chars_of, push_all};

verus! {

/// A character kept in a file name: ASCII letters and digits, `-` and `_`.
pub open spec fn safe_char(c: char) -> bool {
    ('0' <= c && c <= '9') || ('a' <= c && c <= 'z') || ('A' <= c && c <= 'Z') || c == '-' || c
        == '_'
}

/// `s` without its leading characters `c`.
pub open spec fn strip_leading(s: Seq<char>, c: char) -> Seq<char>
    decreases s.len(),
{
    if s.len() > 0 && s[0] == c {
        strip_leading(s.drop_first(), c)
    } else {
        s
    }
}

/// `s` with every character that is not safe replaced by `_`.
pub open spec fn mask_unsafe(s: Seq<char>) -> Seq<char> {
    s.map_values(|c: char| if safe_char(c) {
        c
    } else {
        '_'
    })
}

/// A safe file-name stem for `name`: every other character becomes `_`,
/// leading and trailing `_` are dropped, and nothing left gives `response`.
pub open spec fn sanitized(name: Seq<char>) -> Seq<char> {
    let mapped = mask_unsafe(name);
    let t = strip_leading(strip_trailing(mapped, '_'), '_');
    if t.len() == 0 {
        "response"@
    } else {
        t
    }
}

/// Reduces an arbitrary request name to a safe filename stem.
pub fn sanitize_filename(name: &str) -> (r: String)
    ensures
        r@ == sanitized(name@),
{
    let cs = chars_of(name);
    let mut mapped: Vec<char> = Vec::new();
    let mut i: usize = 0;
    while i < cs.len()
        invariant
            i <= cs@.len(),
            cs@ == name@,
            mapped@ == mask_unsafe(name@).take(i as int),
        decreases cs@.len() - i,
    {
        let c = cs[i];
        let safe = ('0' <= c && c <= '9') || ('a' <= c && c <= 'z') || ('A' <= c && c <= 'Z') || c
            == '-' || c == '_';
        mapped.push(if safe {
            c
        } else {
            '_'
        });
        i += 1;
        proof {
            assert(mapped@ =~= mask_unsafe(name@).take(i as int));
        }
    }
    let ghost m = mapped@;
    proof {
        assert(m.take(m.len() as int) =~= m);
        assert(mask_unsafe(name@).take(cs@.len() as int) =~= mask_unsafe(name@));
    }
    let mut end = mapped.len();
    while end > 0 && mapped[end - 1] == '_'
        invariant
            end <= mapped@.len(),
            mapped@ == m,
            strip_trailing(m, '_') == strip_trailing(m.take(end as int), '_'),
        decreases end,
    {
        proof {
            assert(m.take(end as int).drop_last() =~= m.take(end - 1));
        }
        end -= 1;
    }
    proof {
        let t = m.take(end as int);
        assert(strip_trailing(t, '_') == t);
        assert(t.subrange(0, end as int) =~= t);
    }
    let mut start: usize = 0;
    while start < end && mapped[start] == '_'
        invariant
            start <= end <= mapped@.len(),
            mapped@ == m,
            strip_leading(strip_trailing(m, '_'), '_') == strip_leading(
                m.subrange(start as int, end as int),
                '_',
            ),
        decreases end - start,
    {
        proof {
            assert(m.subrange(start as int, end as int).drop_first() =~= m.subrange(
                start + 1,
                end as int,
            ));
        }
        start += 1;
    }
    proof {
        let t = m.subrange(start as int, end as int);
        if start < end {
            assert(t[0] == m[start as int]);
        }
        assert(strip_leading(t, '_') == t);
    }
    if start == end {
        return String::from_str("response");
    }
    proof {
        assert(m.subrange(start as int, end as int).len() > 0);
    }
    let mut r = String::new();
    push_all(&mut r, &mapped.as_slice()[start..end]);
    r
}

} // verus!
