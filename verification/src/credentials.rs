//! The credentials file: plain text, one `key:value` pair per line. Only
//! lines with exactly one colon hold a pair; when a key repeats, the last
//! pair wins, as filling a map line by line would have it.

use vstd::prelude::*;

use crate::config::opt_str_view;
use crate::text::count_char;
use crate::text::find_char;
use crate::text::lemma_find_char_is;
use crate::text::pairs_view;
use crate::text::spec_split_lines;
use crate::text::split_lines;
use crate::text::str_eq;
use crate::text::strs_view;

verus! {

use vstd::string::*;

/// A line with its trailing carriage return removed, the way reading a text
/// file line by line strips one.
pub open spec fn strip_cr(l: Seq<char>) -> Seq<char> {
    if l.len() > 0 && l.last() == '\r' {
        l.drop_last()
    } else {
        l
    }
}

/// The key-value pair a credentials line holds: with exactly one colon in
/// the line, the text before it and the text after it. Other lines hold
/// none.
pub open spec fn spec_cred_line(l: Seq<char>) -> Option<(Seq<char>, Seq<char>)> {
    if count_char(strip_cr(l), ':') == 1 {
        Some(
            (
                strip_cr(l).take(find_char(strip_cr(l), ':')),
                strip_cr(l).skip(find_char(strip_cr(l), ':') + 1),
            ),
        )
    } else {
        None
    }
}

/// The pairs of a sequence of credentials lines, in order.
pub open spec fn spec_cred_pairs(lines: Seq<Seq<char>>) -> Seq<(Seq<char>, Seq<char>)>
    decreases lines.len(),
{
    if lines.len() == 0 {
        Seq::empty()
    } else {
        spec_cred_pairs(lines.drop_last()) + (match spec_cred_line(lines.last()) {
            Some(p) => seq![p],
            None => Seq::<(Seq<char>, Seq<char>)>::empty(),
        })
    }
}

/// The pairs a credentials file text holds.
pub open spec fn spec_credentials(text: Seq<char>) -> Seq<(Seq<char>, Seq<char>)> {
    spec_cred_pairs(spec_split_lines(text))
}

/// The value of the last pair with the given key, if any: the value a map
/// filled pair by pair would hold.
pub open spec fn lookup_last(pairs: Seq<(Seq<char>, Seq<char>)>, key: Seq<char>) -> Option<
    Seq<char>,
>
    decreases pairs.len(),
{
    if pairs.len() == 0 {
        None
    } else if pairs.last().0 == key {
        Some(pairs.last().1)
    } else {
        lookup_last(pairs.drop_last(), key)
    }
}

/// Reads a credentials file text into its pairs, as [`spec_credentials`]
/// says.
pub fn parse_credentials(text: &str) -> (r: Vec<(String, String)>)
    ensures
        pairs_view(r@) == spec_credentials(text@),
{
    let lines = split_lines(text);
    let ghost ls = spec_split_lines(text@);
    let mut out: Vec<(String, String)> = Vec::new();
    let mut i: usize = 0;
    proof {
        assert(pairs_view(out@) =~= spec_cred_pairs(ls.take(0)));
    }
    while i < lines.len()
        invariant
            i <= lines@.len(),
            strs_view(lines@) == ls,
            ls == spec_split_lines(text@),
            pairs_view(out@) == spec_cred_pairs(ls.take(i as int)),
        decreases lines@.len() - i,
    {
        let line = &lines[i];
        let ghost lv = ls[i as int];
        proof {
            assert(lv == line@);
            assert(ls.take(i + 1).drop_last() =~= ls.take(i as int));
            assert(ls.take(i + 1).last() == lv);
        }
        let n = line.unicode_len();
        let t: &str = if n > 0 && line.as_str().get_char(n - 1) == '\r' {
            line.as_str().substring_char(0, n - 1)
        } else {
            line.as_str()
        };
        let ghost tv = strip_cr(lv);
        proof {
            assert(t@ =~= tv);
        }
        let m = t.unicode_len();
        let mut cnt: usize = 0;
        let mut pos: usize = 0;
        let mut j: usize = 0;
        proof {
            assert(tv.take(0) =~= Seq::<char>::empty());
        }
        while j < m
            invariant
                j <= m,
                m == tv.len(),
                t@ == tv,
                cnt <= j,
                cnt as nat == count_char(tv.take(j as int), ':'),
                cnt > 0 ==> pos < j && tv[pos as int] == ':' && (forall|k: int|
                    0 <= k < pos ==> tv[k] != ':'),
                cnt == 0 ==> forall|k: int| 0 <= k < j ==> tv[k] != ':',
            decreases m - j,
        {
            proof {
                assert(tv.take(j + 1).drop_last() =~= tv.take(j as int));
                assert(tv.take(j + 1).last() == tv[j as int]);
            }
            if t.get_char(j) == ':' {
                if cnt == 0 {
                    pos = j;
                }
                cnt = cnt + 1;
            }
            j += 1;
        }
        proof {
            assert(tv.take(m as int) =~= tv);
        }
        if cnt == 1 {
            proof {
                lemma_find_char_is(tv, ':', pos as int);
            }
            let key = t.substring_char(0, pos).to_owned();
            let value = t.substring_char(pos + 1, m).to_owned();
            proof {
                assert(key@ =~= tv.take(find_char(tv, ':')));
                assert(value@ =~= tv.skip(find_char(tv, ':') + 1));
                assert(spec_cred_line(lv) == Some((key@, value@)));
                assert(pairs_view(out@.push((key, value))) =~= pairs_view(out@) + seq![
                    (key@, value@),
                ]);
            }
            out.push((key, value));
        } else {
            proof {
                assert(spec_cred_line(lv) is None);
                assert(pairs_view(out@) + Seq::<(Seq<char>, Seq<char>)>::empty() =~= pairs_view(
                    out@,
                ));
            }
        }
        i += 1;
    }
    proof {
        assert(ls.take(lines@.len() as int) =~= ls);
    }
    out
}

/// Finds the value of the last pair with the given key, as [`lookup_last`]
/// says.
pub fn lookup(pairs: &Vec<(String, String)>, key: &str) -> (r: Option<String>)
    ensures
        opt_str_view(r) == lookup_last(pairs_view(pairs@), key@),
{
    let ghost pv = pairs_view(pairs@);
    let mut i: usize = pairs.len();
    proof {
        assert(pv.take(pairs@.len() as int) =~= pv);
    }
    while i > 0
        invariant
            i <= pairs@.len(),
            pv == pairs_view(pairs@),
            lookup_last(pv, key@) == lookup_last(pv.take(i as int), key@),
        decreases i,
    {
        i -= 1;
        proof {
            assert(pv.take(i + 1).drop_last() =~= pv.take(i as int));
            assert(pv.take(i + 1).last() == pv[i as int]);
        }
        if str_eq(pairs[i].0.as_str(), key) {
            return Some(pairs[i].1.clone());
        }
    }
    proof {
        assert(pv.take(0) =~= Seq::<(Seq<char>, Seq<char>)>::empty());
    }
    None
}

} // verus!
