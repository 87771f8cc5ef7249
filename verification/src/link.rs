//! Cursor extraction from a pagination link header.
//!
//! A list endpoint's response carries a header whose value is a
//! comma-separated list of `<url>; rel="name"` entries.  The entry tagged
//! `rel="next"` names the next page to fetch; its absence is the normal
//! end-of-data signal.

use vstd::prelude::*;

verus! {

/// The relation tag that marks the entry holding the next page's URL.
pub open spec fn rel_next_tag() -> Seq<char> {
    "rel=\"next\""@
}

/// The trailing marker stripped from a matching entry to recover the URL.
pub open spec fn next_marker() -> Seq<char> {
    ">; rel=\"next\""@
}

pub open spec fn seq_ends_with(s: Seq<char>, suffix: Seq<char>) -> bool {
    s.len() >= suffix.len() && s.subrange(s.len() - suffix.len(), s.len() as int) == suffix
}

pub open spec fn seq_starts_with(s: Seq<char>, prefix: Seq<char>) -> bool {
    s.len() >= prefix.len() && s.subrange(0, prefix.len() as int) == prefix
}

/// Index of the first comma in `s`, or `-1` if there is none.
pub open spec fn find_comma(s: Seq<char>) -> int
    decreases s.len(),
{
    if s.len() == 0 {
        -1
    } else if s[0] == ',' {
        0
    } else {
        let r = find_comma(s.drop_first());
        if r < 0 {
            -1
        } else {
            r + 1
        }
    }
}

/// All leading `<` characters removed, as `trim_start_matches("<")` leaves it.
pub open spec fn trim_lead_lt(s: Seq<char>) -> Seq<char>
    decreases s.len(),
{
    if s.len() > 0 && s[0] == '<' {
        trim_lead_lt(s.drop_first())
    } else {
        s
    }
}

/// The `>; rel="next"` marker removed from the end as often as it is there,
/// as `trim_end_matches` leaves it.
pub open spec fn trim_marker(s: Seq<char>) -> Seq<char>
    decreases s.len(),
{
    if next_marker().len() > 0 && seq_ends_with(s, next_marker()) {
        trim_marker(s.take(s.len() - next_marker().len()))
    } else {
        s
    }
}

/// What one matching entry is reduced to: leading `<` stripped, then the
/// trailing marker stripped.
pub open spec fn trim_entry(s: Seq<char>) -> Seq<char> {
    trim_marker(trim_lead_lt(s))
}

/// The URL tagged `rel="next"` in a link header value: the first
/// comma-separated entry that ends with `rel="next"`, trimmed of its angle
/// bracket and relation marker; `None` when no entry matches.
pub open spec fn next_link_of(s: Seq<char>) -> Option<Seq<char>>
    decreases s.len(),
{
    let i = find_comma(s);
    if 0 <= i < s.len() {
        let entry = s.take(i);
        if seq_ends_with(entry, rel_next_tag()) {
            Some(trim_entry(entry))
        } else {
            next_link_of(s.skip(i + 1))
        }
    } else {
        if seq_ends_with(s, rel_next_tag()) {
            Some(trim_entry(s))
        } else {
            None
        }
    }
}

/// `find_comma` names the first comma: it is in range, it is a comma, and
/// nothing before it is one; `-1` means no comma at all.
proof fn lemma_find_comma(s: Seq<char>)
    ensures
        find_comma(s) == -1 || 0 <= find_comma(s) < s.len(),
        find_comma(s) >= 0 ==> s[find_comma(s)] == ',',
        forall|k: int| 0 <= k < find_comma(s) ==> s[k] != ',',
        find_comma(s) == -1 ==> forall|k: int| 0 <= k < s.len() ==> s[k] != ',',
    decreases s.len(),
{
    if s.len() == 0 {
    } else if s[0] == ',' {
    } else {
        lemma_find_comma(s.drop_first());
        assert forall|k: int| 0 <= k < find_comma(s) implies s[k] != ',' by {
            if k >= 1 {
                assert(s.drop_first()[k - 1] != ',');
            }
        }
        if find_comma(s) == -1 {
            assert forall|k: int| 0 <= k < s.len() implies s[k] != ',' by {
                if k >= 1 {
                    assert(s.drop_first()[k - 1] != ',');
                }
            }
        }
    }
}

/// A position scanned to be the first comma (or the end, with no comma
/// anywhere) is what `find_comma` returns.
proof fn lemma_find_comma_unique(s: Seq<char>, j: int)
    requires
        0 <= j <= s.len(),
        forall|k: int| 0 <= k < j ==> s[k] != ',',
        j < s.len() ==> s[j] == ',',
    ensures
        j < s.len() ==> find_comma(s) == j,
        j == s.len() ==> find_comma(s) == -1,
    decreases j,
{
    lemma_find_comma(s);
    if j < s.len() {
        if find_comma(s) == -1 {
            assert(s[j] != ',');
        } else {
            let i = find_comma(s);
            if i < j {
                assert(s[i] != ',');
            }
            if j < i {
                assert(s[j] != ',');
            }
        }
    } else {
        if find_comma(s) >= 0 {
            assert(s[find_comma(s)] != ',');
        }
    }
}

/// Stripping leading `<` characters leaves exactly the suffix past them.
proof fn lemma_trim_lead_lt(s: Seq<char>, k: int)
    requires
        0 <= k <= s.len(),
        forall|m: int| 0 <= m < k ==> s[m] == '<',
        k < s.len() ==> s[k] != '<',
    ensures
        trim_lead_lt(s) == s.skip(k),
    decreases k,
{
    if k == 0 {
        assert(s.skip(0) =~= s);
    } else {
        assert(s[0] == '<');
        lemma_trim_lead_lt(s.drop_first(), k - 1);
        assert(s.drop_first().skip(k - 1) =~= s.skip(k));
    }
}

/// No character of `s` is a comma.
pub open spec fn no_comma(s: Seq<char>) -> bool {
    forall|k: int| 0 <= k < s.len() ==> s[k] != ','
}

/// The comma-joined header value made of the given entries.
pub open spec fn join_entries(es: Seq<Seq<char>>) -> Seq<char>
    decreases es.len(),
{
    if es.len() == 0 {
        Seq::empty()
    } else if es.len() == 1 {
        es[0]
    } else {
        es[0] + seq![','] + join_entries(es.drop_first())
    }
}

/// Index of the first entry tagged `rel="next"`, or `-1` if none is.
pub open spec fn first_tagged(es: Seq<Seq<char>>) -> int
    decreases es.len(),
{
    if es.len() == 0 {
        -1
    } else if seq_ends_with(es[0], rel_next_tag()) {
        0
    } else {
        let r = first_tagged(es.drop_first());
        if r < 0 {
            -1
        } else {
            r + 1
        }
    }
}

/// Cursor extraction is exact on every well-formed header: a header joined
/// from comma-free entries yields the first entry tagged `rel="next"`,
/// trimmed of its markers, and yields nothing when no entry is so tagged.
pub proof fn lemma_next_link_of_entries(es: Seq<Seq<char>>)
    requires
        es.len() > 0,
        forall|i: int| 0 <= i < es.len() ==> no_comma(#[trigger] es[i]),
    ensures
        first_tagged(es) < 0 ==> next_link_of(join_entries(es)) is None,
        first_tagged(es) >= 0 ==> 0 <= first_tagged(es) < es.len() && next_link_of(
            join_entries(es),
        ) == Some(trim_entry(es[first_tagged(es)])),
    decreases es.len(),
{
    let s = join_entries(es);
    if es.len() == 1 {
        lemma_find_comma_unique(s, s.len() as int);
    } else {
        let rest = join_entries(es.drop_first());
        assert(s == es[0] + seq![','] + rest);
        assert forall|k: int| 0 <= k < es[0].len() implies s[k] != ',' by {
            assert(s[k] == es[0][k]);
        }
        assert(s[es[0].len() as int] == ',');
        lemma_find_comma_unique(s, es[0].len() as int);
        assert(s.take(es[0].len() as int) =~= es[0]);
        assert(forall|i: int| 0 <= i < es.drop_first().len() ==> es.drop_first()[i] == es[i + 1]);
        if seq_ends_with(es[0], rel_next_tag()) {
            assert(next_link_of(s) == Some(trim_entry(es[0])));
        } else {
            assert(s.skip(es[0].len() + 1 as int) =~= rest);
            lemma_next_link_of_entries(es.drop_first());
            assert(next_link_of(s) == next_link_of(rest));
        }
    }
}

/// A well-formed tagged entry `<u>; rel="next"` is trimmed back to exactly
/// `u`, provided `u` itself has no comma, no leading `<`, and does not end
/// with the relation marker.
pub proof fn lemma_tagged_entry_trims(u: Seq<char>)
    requires
        no_comma(u),
        u.len() > 0 ==> u[0] != '<',
        !seq_ends_with(u, next_marker()),
    ensures
        no_comma(seq!['<'] + u + next_marker()),
        seq_ends_with(seq!['<'] + u + next_marker(), rel_next_tag()),
        trim_entry(seq!['<'] + u + next_marker()) == u,
{
    reveal_strlit(">; rel=\"next\"");
    reveal_strlit("rel=\"next\"");
    let e = seq!['<'] + u + next_marker();
    assert(next_marker().len() == 13);
    assert(rel_next_tag().len() == 10);
    assert forall|k: int| 0 <= k < e.len() implies e[k] != ',' by {
        if k == 0 {
        } else if k < 1 + u.len() {
            assert(e[k] == u[k - 1]);
        } else {
            assert(e[k] == next_marker()[k - 1 - u.len()]);
        }
    }
    assert(e.subrange(e.len() - 10, e.len() as int) =~= rel_next_tag());
    lemma_trim_lead_lt(e, 1);
    let t = e.skip(1);
    assert(t =~= u + next_marker());
    assert(seq_ends_with(t, next_marker())) by {
        assert(t.subrange(t.len() - 13, t.len() as int) =~= next_marker());
    }
    assert(t.take(t.len() - 13) =~= u);
    assert(trim_marker(u) == u);
    assert(trim_marker(t) == trim_marker(u));
}

fn tag_str() -> (r: &'static str)
    ensures
        r@ == rel_next_tag(),
{
    "rel=\"next\""
}

fn marker_str() -> (r: &'static str)
    ensures
        r@ == next_marker(),
{
    ">; rel=\"next\""
}

/// Whether the characters `lo..hi` of `s` end with `pat`.
fn suffix_matches(s: &str, lo: usize, hi: usize, pat: &str) -> (b: bool)
    requires
        lo <= hi <= s@.len(),
    ensures
        b == seq_ends_with(s@.subrange(lo as int, hi as int), pat@),
{
    let m = pat.unicode_len();
    if hi - lo < m {
        return false;
    }
    let base = hi - m;
    let mut k: usize = 0;
    while k < m
        invariant
            0 <= k <= m,
            lo <= base,
            base + m == hi <= s@.len(),
            m == pat@.len(),
            forall|t: int| 0 <= t < k ==> s@[base + t] == pat@[t],
        decreases m - k,
    {
        if s.get_char(base + k) != pat.get_char(k) {
            proof {
                let seg = s@.subrange(lo as int, hi as int);
                if seq_ends_with(seg, pat@) {
                    assert(seg.subrange(seg.len() - pat@.len(), seg.len() as int)[k as int]
                        == pat@[k as int]);
                    assert(s@[base + k] == pat@[k as int]);
                }
            }
            return false;
        }
        k += 1;
    }
    proof {
        let seg = s@.subrange(lo as int, hi as int);
        assert(seg.subrange(seg.len() - pat@.len(), seg.len() as int) =~= pat@);
    }
    true
}

/// The URL of the `rel="next"` entry of a link header value, if one is
/// there: the first comma-separated entry ending with `rel="next"`, with
/// its leading `<` and trailing `>; rel="next"` markers stripped.  Any
/// other value, the empty string included, has no next cursor.
pub fn get_next_from_link(link: &str) -> (r: Option<String>)
    ensures
        (r is Some) == (next_link_of(link@) is Some),
        r is Some ==> r->0@ == next_link_of(link@)->0,
{
    let n = link.unicode_len();
    let mut start: usize = 0;
    proof {
        assert(link@.skip(0) =~= link@);
    }
    loop
        invariant
            start <= n,
            n == link@.len(),
            next_link_of(link@) == next_link_of(link@.skip(start as int)),
        decreases n - start,
    {
        let ghost suffix = link@.skip(start as int);
        // Find the end of the current entry: the next comma, or the end.
        let mut j = start;
        while j < n && link.get_char(j) != ','
            invariant
                start <= j <= n,
                n == link@.len(),
                forall|k: int| start <= k < j ==> link@[k] != ',',
            decreases n - j,
        {
            j += 1;
        }
        proof {
            assert forall|k: int| 0 <= k < j - start implies suffix[k] != ',' by {
                assert(link@[start + k] != ',');
            }
            if j < n {
                assert(suffix[j - start] == link@[j as int]);
            }
            lemma_find_comma_unique(suffix, j - start);
            assert(suffix.take(j - start) =~= link@.subrange(start as int, j as int));
            assert(suffix =~= link@.subrange(start as int, n as int));
        }
        let ghost entry = link@.subrange(start as int, j as int);
        if suffix_matches(link, start, j, tag_str()) {
            // The entry is tagged rel="next": strip the markers.
            proof {
                if j < n {
                    assert(next_link_of(suffix) == Some(trim_entry(entry)));
                } else {
                    assert(next_link_of(suffix) == Some(trim_entry(entry)));
                }
            }
            let mut lo = start;
            while lo < j && link.get_char(lo) == '<'
                invariant
                    start <= lo <= j <= n,
                    n == link@.len(),
                    forall|k: int| start <= k < lo ==> link@[k] == '<',
                decreases j - lo,
            {
                lo += 1;
            }
            proof {
                assert forall|m: int| 0 <= m < lo - start implies entry[m] == '<' by {
                    assert(link@[start + m] == '<');
                }
                if lo < j {
                    assert(entry[lo - start] == link@[lo as int]);
                }
                lemma_trim_lead_lt(entry, lo - start);
                assert(entry.skip(lo - start) =~= link@.subrange(lo as int, j as int));
                reveal_strlit(">; rel=\"next\"");
            }
            let mut hi = j;
            let m = marker_str().unicode_len();
            while suffix_matches(link, lo, hi, marker_str())
                invariant
                    lo <= hi <= j <= n,
                    n == link@.len(),
                    next_marker().len() == m,
                    m >= 1,
                    trim_marker(link@.subrange(lo as int, j as int)) == trim_marker(
                        link@.subrange(lo as int, hi as int),
                    ),
                decreases hi,
            {
                proof {
                    let cur = link@.subrange(lo as int, hi as int);
                    assert(cur.take(cur.len() - next_marker().len()) =~= link@.subrange(
                        lo as int,
                        hi - m,
                    ));
                }
                hi -= m;
            }
            proof {
                let cur = link@.subrange(lo as int, hi as int);
                assert(trim_marker(cur) == cur);
                assert(trim_entry(entry) == cur);
            }
            let out = link.substring_char(lo, hi);
            return Some(out.to_owned());
        }
        if j == n {
            // Sole or last entry, and it does not carry the tag.
            proof {
                assert(next_link_of(suffix) is None);
            }
            return None;
        }
        proof {
            assert(suffix.skip(j - start + 1) =~= link@.skip(j + 1));
            assert(next_link_of(suffix) == next_link_of(link@.skip(j + 1)));
        }
        start = j + 1;
    }
}

} // verus!
