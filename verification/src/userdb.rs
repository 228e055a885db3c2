//! Scanning a colon-separated account database (the `/etc/passwd` and
//! `/etc/group` shape): the first line whose third field is the wanted
//! numeric id names the account. This is the fallback used when the
//! system's own lookup gives no answer.

use vstd::prelude::*;
use vstd::string::StrSliceExecFns;
use crate::strutil::{chars_of_str, string_from_chars};

verus! {

/// Splitting on a separator, as the standard splitter does: one piece
/// more than there are separators, so an empty text is one empty piece.
pub open spec fn split_spec(s: Seq<char>, sep: char) -> Seq<Seq<char>>
    decreases s.len(),
{
    if s.len() == 0 {
        seq![Seq::<char>::empty()]
    } else if s.last() == sep {
        split_spec(s.drop_last(), sep).push(Seq::empty())
    } else {
        let r = split_spec(s.drop_last(), sep);
        r.update(r.len() - 1, r.last().push(s.last()))
    }
}

proof fn lemma_split_nonempty(s: Seq<char>, sep: char)
    ensures
        split_spec(s, sep).len() >= 1,
    decreases s.len(),
{
    if s.len() > 0 {
        lemma_split_nonempty(s.drop_last(), sep);
    }
}

/// All characters are decimal digits, and there is at least one.
pub open spec fn all_digits(s: Seq<char>) -> bool {
    s.len() > 0 && (forall|i: int| 0 <= i < s.len() ==> 48 <= #[trigger] s[i] as int <= 57)
}

/// The number the digits spell, most significant first.
pub open spec fn digits_value(s: Seq<char>) -> nat
    decreases s.len(),
{
    if s.len() == 0 {
        0
    } else {
        digits_value(s.drop_last()) * 10 + (s.last() as int - 48) as nat
    }
}

/// What parsing a decimal `u32` accepts: an optional leading `+`, then
/// digits only, spelling a value that fits.
pub open spec fn parse_u32_spec(s: Seq<char>) -> Option<u32> {
    let body = if s.len() > 0 && s[0] == '+' {
        s.skip(1)
    } else {
        s
    };
    if all_digits(body) && digits_value(body) <= 0xffff_ffff {
        Option::Some(digits_value(body) as u32)
    } else {
        Option::None
    }
}

proof fn lemma_digits_value_monotone(s: Seq<char>, i: int)
    requires
        0 <= i <= s.len(),
    ensures
        digits_value(s) >= digits_value(s.subrange(0, i)),
    decreases s.len() - i,
{
    if i < s.len() {
        lemma_digits_value_monotone(s, i + 1);
        let a = s.subrange(0, i);
        let b = s.subrange(0, i + 1);
        assert(b.drop_last() =~= a);
        assert(digits_value(b) == digits_value(a) * 10 + (b.last() as int - 48) as nat);
    } else {
        assert(s.subrange(0, i) =~= s);
    }
}

/// Parse a decimal `u32`, accepting exactly what `parse_u32_spec` accepts.
pub fn parse_u32(s: &str) -> (r: Option<u32>)
    ensures
        r == parse_u32_spec(s@),
{
    let cs = chars_of_str(s);
    let n = cs.len();
    let start: usize = if n > 0 && cs[0] == '+' {
        1
    } else {
        0
    };
    let ghost body = if s@.len() > 0 && s@[0] == '+' {
        s@.skip(1)
    } else {
        s@
    };
    proof {
        assert(body =~= s@.subrange(start as int, n as int));
    }
    if start == n {
        proof {
            assert(!all_digits(body));
        }
        return Option::None;
    }
    let mut val: u64 = 0;
    let mut i: usize = start;
    while i < n
        invariant
            start <= i <= n,
            n == cs@.len(),
            cs@ == s@,
            body == s@.subrange(start as int, n as int),
            body == (if s@.len() > 0 && s@[0] == '+' {
                s@.skip(1)
            } else {
                s@
            }),
            start == (if s@.len() > 0 && s@[0] == '+' {
                1int
            } else {
                0int
            }),
            forall|j: int| start <= j < i ==> 48 <= #[trigger] cs@[j] as int <= 57,
            val as int == digits_value(s@.subrange(start as int, i as int)),
            val <= 0xffff_ffff,
        decreases n - i,
    {
        let c = cs[i];
        if !(c >= '0' && c <= '9') {
            proof {
                assert(body[i - start] == cs@[i as int]);
                assert(!(48 <= body[i - start] as int <= 57));
                assert(!all_digits(body));
            }
            return Option::None;
        }
        let d: u64 = (c as u32 - 48) as u64;
        proof {
            assert(c as int >= 48 && c as int <= 57);
            assert(d as int == c as int - 48);
        }
        let next: u64 = val * 10 + d;
        proof {
            let pre = s@.subrange(start as int, i as int);
            let post = s@.subrange(start as int, i + 1);
            assert(post.drop_last() =~= pre);
            assert(post.last() == s@[i as int]);
            assert(next as int == digits_value(post));
        }
        if next > 0xffff_ffff {
            proof {
                let post = s@.subrange(start as int, i + 1);
                if all_digits(body) {
                    lemma_digits_value_monotone(body, i + 1 - start);
                    assert(body.subrange(0, i + 1 - start) =~= post);
                    assert(digits_value(body) >= digits_value(post));
                    assert(digits_value(body) > 0xffff_ffff);
                }
            }
            return Option::None;
        }
        val = next;
        i = i + 1;
    }
    proof {
        assert(s@.subrange(start as int, n as int) =~= body);
        assert(all_digits(body));
        assert(val as int == digits_value(body));
    }
    Option::Some(val as u32)
}

/// Split a text on one separator character.
pub fn split_on(s: &str, sep: char) -> (r: Vec<String>)
    ensures
        r.deep_view() == split_spec(s@, sep),
{
    let cs = chars_of_str(s);
    let n = cs.len();
    let mut done: Vec<String> = Vec::new();
    let mut cur: Vec<char> = Vec::new();
    let mut i: usize = 0;
    while i < n
        invariant
            i <= n,
            n == cs@.len(),
            cs@ == s@,
            split_spec(s@.subrange(0, i as int), sep) == done.deep_view().push(cur@),
        decreases n - i,
    {
        let c = cs[i];
        let ghost ddv = done.deep_view();
        let ghost cv = cur@;
        if c == sep {
            let piece = string_from_chars(&cur);
            done.push(piece);
            cur.clear();
            proof {
                assert(done.deep_view() =~= ddv.push(cv));
            }
        } else {
            cur.push(c);
        }
        i = i + 1;
        proof {
            let pre = s@.subrange(0, i - 1);
            let post = s@.subrange(0, i as int);
            assert(post.drop_last() =~= pre);
            assert(post.last() == s@[i - 1]);
            if c == sep {
                assert(split_spec(post, sep) =~= done.deep_view().push(cur@));
            } else {
                let r0 = split_spec(pre, sep);
                assert(r0 == ddv.push(cv));
                assert(r0.len() >= 1) by {
                    lemma_split_nonempty(pre, sep);
                }
                assert(r0.last() == cv);
                assert(split_spec(post, sep) =~= r0.update(r0.len() - 1, cv.push(c)));
                assert(r0.update(r0.len() - 1, cv.push(c)) =~= done.deep_view().push(cur@));
            }
        }
    }
    proof {
        assert(s@.subrange(0, n as int) =~= s@);
    }
    let piece = string_from_chars(&cur);
    let ghost ddv = done.deep_view();
    done.push(piece);
    proof {
        assert(done.deep_view() =~= ddv.push(cur@));
    }
    done
}

/// Whether one database line names the wanted id: at least three
/// colon-separated fields, the third spelling `id` in decimal.
pub open spec fn line_matches_id(line: Seq<char>, id: u32) -> bool {
    let f = split_spec(line, ':');
    f.len() >= 3 && parse_u32_spec(f[2]) == Option::Some(id)
}

/// The answer the database scan gives from line `i` on: the first field
/// of the first matching line.
pub open spec fn lookup_from(lines: Seq<Seq<char>>, i: int, id: u32) -> Option<Seq<char>>
    decreases lines.len() - i,
{
    if i < 0 || i >= lines.len() {
        Option::None
    } else if line_matches_id(lines[i], id) {
        Option::Some(split_spec(lines[i], ':')[0])
    } else {
        lookup_from(lines, i + 1, id)
    }
}

/// The name the database gives a numeric id, if any line carries it.
pub open spec fn lookup_spec(content: Seq<char>, id: u32) -> Option<Seq<char>> {
    lookup_from(split_spec(content, '\n'), 0, id)
}

/// Scan a colon-separated account database for a numeric id and return
/// the account name on its line.
pub fn lookup_name_by_id(db: &str, id: u32) -> (r: Option<String>)
    ensures
        ({
            match lookup_spec(db@, id) {
                Option::Some(name) => r matches Some(s) && s@ == name,
                Option::None => r is None,
            }
        }),
{
    let lines = split_on(db, '\n');
    let ghost lv = lines.deep_view();
    let mut i: usize = 0;
    while i < lines.len()
        invariant
            i <= lines@.len(),
            lv == lines.deep_view(),
            lv.len() == lines@.len(),
            forall|m: int| 0 <= m < lines@.len() ==> lv[m] == #[trigger] lines@[m]@,
            lookup_from(lv, 0, id) == lookup_from(lv, i as int, id),
            lv == split_spec(db@, ':' ) || lv == split_spec(db@, '\n'),
            lookup_spec(db@, id) == lookup_from(lv, 0, id),
        decreases lines@.len() - i,
    {
        let fields = split_on(lines[i].as_str(), ':');
        if fields.len() >= 3 {
            match parse_u32(fields[2].as_str()) {
                Option::Some(v) => {
                    if v == id {
                        proof {
                            assert(line_matches_id(lv[i as int], id));
                            assert(fields.deep_view()[0] == split_spec(lv[i as int], ':')[0]);
                        }
                        return Option::Some(fields[0].clone());
                    }
                },
                Option::None => {},
            }
        }
        proof {
            assert(!line_matches_id(lv[i as int], id));
        }
        i = i + 1;
    }
    Option::None
}

} // verus!
