//! Splitting a `key=value[,key=value]*` spec into pairs. Whitespace
//! around keys and unquoted values is dropped; a value in double quotes
//! is taken verbatim and may hold commas, `=` and spaces.

use vstd::prelude::*;
use crate::channel::spec::error::{ChannelSpecError, SpecErrV};
use crate::text::{chars_of, push_char, push_str, string_from};

verus! {

/// Unicode white space, as `char::is_whitespace` defines it.
pub open spec fn is_ws(c: char) -> bool {
    ('\u{9}' <= c && c <= '\u{d}') || c == ' ' || c == '\u{85}' || c == '\u{a0}' || c
        == '\u{1680}' || ('\u{2000}' <= c && c <= '\u{200a}') || c == '\u{2028}' || c
        == '\u{2029}' || c == '\u{202f}' || c == '\u{205f}' || c == '\u{3000}'
}

/// Whether `c` is Unicode white space.
pub fn is_whitespace(c: char) -> (r: bool)
    ensures
        r == is_ws(c),
{
    ('\u{9}' <= c && c <= '\u{d}') || c == ' ' || c == '\u{85}' || c == '\u{a0}' || c
        == '\u{1680}' || ('\u{2000}' <= c && c <= '\u{200a}') || c == '\u{2028}' || c
        == '\u{2029}' || c == '\u{202f}' || c == '\u{205f}' || c == '\u{3000}'
}

/// The number of leading white-space characters of `s[from..to]`.
pub open spec fn ws_lead(s: Seq<char>, from: nat, to: nat) -> nat
    decreases to - from,
{
    if from < to && is_ws(s[from as int]) {
        ws_lead(s, from + 1, to)
    } else {
        from
    }
}

/// The end of `s[from..to]` with trailing white space removed.
pub open spec fn ws_trail(s: Seq<char>, from: nat, to: nat) -> nat
    decreases to - from,
{
    if from < to && is_ws(s[to - 1]) {
        ws_trail(s, from, (to - 1) as nat)
    } else {
        to
    }
}

/// `s[from..to]` without leading and trailing white space.
pub open spec fn trim_range(s: Seq<char>, from: nat, to: nat) -> Seq<char> {
    let a = ws_lead(s, from, to);
    s.subrange(a as int, ws_trail(s, a, to) as int)
}

/// `s` without leading and trailing white space.
pub open spec fn trim(s: Seq<char>) -> Seq<char> {
    trim_range(s, 0, s.len())
}

/// The first index at or after `pos` holding neither white space nor a
/// comma.
pub open spec fn skip_sep(s: Seq<char>, pos: nat) -> nat
    decreases s.len() - pos,
{
    if pos < s.len() && (is_ws(s[pos as int]) || s[pos as int] == ',') {
        skip_sep(s, pos + 1)
    } else {
        pos
    }
}

/// The first index at or after `pos` that is not white space.
pub open spec fn skip_ws(s: Seq<char>, pos: nat) -> nat
    decreases s.len() - pos,
{
    if pos < s.len() && is_ws(s[pos as int]) {
        skip_ws(s, pos + 1)
    } else {
        pos
    }
}

/// The first index at or after `pos` holding `c`, or the length.
pub open spec fn find_char(s: Seq<char>, pos: nat, c: char) -> nat
    decreases s.len() - pos,
{
    if pos < s.len() && s[pos as int] != c {
        find_char(s, pos + 1, c)
    } else {
        pos
    }
}

/// The message of an unterminated quoted value.
pub open spec fn unterminated_msg(key: Seq<char>) -> Seq<char> {
    "unterminated quoted value for `"@ + key + "`"@
}

/// The pairs of `s[pos..]` (an already trimmed spec) appended to `acc`,
/// or the first error.
pub open spec fn pairs_from(s: Seq<char>, pos: nat, acc: Seq<(Seq<char>, Seq<char>)>) -> Result<
    Seq<(Seq<char>, Seq<char>)>,
    SpecErrV,
>
    decreases s.len() - pos,
{
    let p0 = skip_sep(s, pos);
    if p0 >= s.len() {
        Ok(acc)
    } else {
        let eq = find_char(s, p0, '=');
        let key = trim_range(s, p0, eq);
        let p1 = if eq < s.len() {
            eq + 1
        } else {
            eq
        };
        if key.len() == 0 {
            Err(SpecErrV::EmptyKey)
        } else {
            let p2 = skip_ws(s, p1);
            if p2 < s.len() && s[p2 as int] == '"' {
                let close = find_char(s, p2 + 1, '"');
                if close >= s.len() {
                    Err(SpecErrV::Malformed(unterminated_msg(key)))
                } else {
                    let val = s.subrange(p2 + 1int, close as int);
                    if pos < close + 1 <= s.len() {
                        pairs_from(s, close + 1, acc.push((key, val)))
                    } else {
                        Ok(acc)
                    }
                }
            } else {
                let comma = find_char(s, p2, ',');
                let val = trim_range(s, p2, comma);
                if pos < comma <= s.len() {
                    pairs_from(s, comma, acc.push((key, val)))
                } else {
                    Ok(acc.push((key, val)))
                }
            }
        }
    }
}

/// The pairs of a spec string.
pub open spec fn tokenize_spec(s: Seq<char>) -> Result<Seq<(Seq<char>, Seq<char>)>, SpecErrV> {
    let t = trim(s);
    if t.len() == 0 {
        Ok(Seq::empty())
    } else {
        pairs_from(t, 0, Seq::empty())
    }
}

/// The views of a list of pairs.
pub open spec fn pairs_view(p: Seq<(String, String)>) -> Seq<(Seq<char>, Seq<char>)> {
    p.map_values(|x: (String, String)| (x.0@, x.1@))
}

proof fn lemma_ws_lead_bounds(s: Seq<char>, from: nat, to: nat)
    requires
        from <= to,
    ensures
        from <= ws_lead(s, from, to) <= to,
    decreases to - from,
{
    if from < to && is_ws(s[from as int]) {
        lemma_ws_lead_bounds(s, from + 1, to);
    }
}

proof fn lemma_ws_trail_bounds(s: Seq<char>, from: nat, to: nat)
    requires
        from <= to,
    ensures
        from <= ws_trail(s, from, to) <= to,
    decreases to - from,
{
    if from < to && is_ws(s[to - 1]) {
        lemma_ws_trail_bounds(s, from, (to - 1) as nat);
    }
}

proof fn lemma_scan_bounds(s: Seq<char>, pos: nat, c: char)
    requires
        pos <= s.len(),
    ensures
        pos <= skip_sep(s, pos) <= s.len(),
        pos <= skip_ws(s, pos) <= s.len(),
        pos <= find_char(s, pos, c) <= s.len(),
        find_char(s, pos, c) < s.len() ==> s[find_char(s, pos, c) as int] == c,
    decreases s.len() - pos,
{
    if pos < s.len() {
        lemma_scan_bounds(s, pos + 1, c);
    }
}

/// The bounds of `s[from..to]` without surrounding white space.
pub fn trim_bounds(s: &[char], from: usize, to: usize) -> (r: (usize, usize))
    requires
        from <= to <= s@.len(),
    ensures
        r.0 == ws_lead(s@, from as nat, to as nat),
        r.1 == ws_trail(s@, r.0 as nat, to as nat),
        from <= r.0 <= r.1 <= to,
{
    let mut a = from;
    while a < to && is_whitespace(s[a])
        invariant
            from <= a <= to <= s@.len(),
            ws_lead(s@, from as nat, to as nat) == ws_lead(s@, a as nat, to as nat),
        decreases to - a,
    {
        a += 1;
    }
    let mut b = to;
    while b > a && is_whitespace(s[b - 1])
        invariant
            from <= a <= b <= to <= s@.len(),
            ws_trail(s@, a as nat, to as nat) == ws_trail(s@, a as nat, b as nat),
        decreases b - a,
    {
        b -= 1;
    }
    (a, b)
}

fn skip_separators(s: &[char], pos: usize) -> (r: usize)
    requires
        pos <= s@.len(),
    ensures
        r == skip_sep(s@, pos as nat),
{
    let mut i = pos;
    while i < s.len() && (is_whitespace(s[i]) || s[i] == ',')
        invariant
            pos <= i <= s@.len(),
            skip_sep(s@, pos as nat) == skip_sep(s@, i as nat),
        decreases s.len() - i,
    {
        i += 1;
    }
    i
}

fn skip_spaces(s: &[char], pos: usize) -> (r: usize)
    requires
        pos <= s@.len(),
    ensures
        r == skip_ws(s@, pos as nat),
{
    let mut i = pos;
    while i < s.len() && is_whitespace(s[i])
        invariant
            pos <= i <= s@.len(),
            skip_ws(s@, pos as nat) == skip_ws(s@, i as nat),
        decreases s.len() - i,
    {
        i += 1;
    }
    i
}

fn find(s: &[char], pos: usize, c: char) -> (r: usize)
    requires
        pos <= s@.len(),
    ensures
        r == find_char(s@, pos as nat, c),
{
    let mut i = pos;
    while i < s.len() && s[i] != c
        invariant
            pos <= i <= s@.len(),
            find_char(s@, pos as nat, c) == find_char(s@, i as nat, c),
        decreases s.len() - i,
    {
        i += 1;
    }
    i
}

/// Split a spec into its key/value pairs.
pub fn tokenize(s: &str) -> (r: Result<Vec<(String, String)>, ChannelSpecError>)
    ensures
        match r {
            Ok(p) => tokenize_spec(s@) == Ok::<Seq<(Seq<char>, Seq<char>)>, SpecErrV>(
                pairs_view(p@),
            ),
            Err(e) => tokenize_spec(s@) == Err::<Seq<(Seq<char>, Seq<char>)>, SpecErrV>(e@),
        },
{
    let all = chars_of(s);
    let (a, b) = trim_bounds(all.as_slice(), 0, all.len());
    let t = crate::text::slice_chars(all.as_slice(), a, b);
    let ghost ts = t@;
    assert(ts == trim(s@));
    let mut pairs: Vec<(String, String)> = Vec::new();
    if t.len() == 0 {
        assert(pairs_view(pairs@) =~= Seq::<(Seq<char>, Seq<char>)>::empty());
        return Ok(pairs);
    }
    let n = t.len();
    let mut pos: usize = 0;
    assert(pairs_view(pairs@) =~= Seq::<(Seq<char>, Seq<char>)>::empty());
    loop
        invariant
            t@ == ts,
            ts == trim(s@),
            ts.len() > 0,
            n == ts.len(),
            pos <= n,
            tokenize_spec(s@) == pairs_from(ts, pos as nat, pairs_view(pairs@)),
        decreases n - pos,
    {
        let ghost acc = pairs_view(pairs@);
        let p0 = skip_separators(t.as_slice(), pos);
        if p0 >= n {
            return Ok(pairs);
        }
        proof {
            lemma_scan_bounds(ts, pos as nat, '=');
            lemma_scan_bounds(ts, p0 as nat, '=');
        }
        let eq = find(t.as_slice(), p0, '=');
        let (ka, kb) = trim_bounds(t.as_slice(), p0, eq);
        let key = string_from(&t, ka, kb);
        let p1 = if eq < n { eq + 1 } else { eq };
        if ka == kb {
            return Err(ChannelSpecError::EmptyKey);
        }
        proof {
            lemma_scan_bounds(ts, p1 as nat, '"');
        }
        let p2 = skip_spaces(t.as_slice(), p1);
        if p2 < n && t[p2] == '"' {
            proof {
                lemma_scan_bounds(ts, (p2 + 1) as nat, '"');
            }
            let close = find(t.as_slice(), p2 + 1, '"');
            if close >= n {
                let mut msg = String::new();
                push_str(&mut msg, "unterminated quoted value for `");
                push_str(&mut msg, key.as_str());
                push_str(&mut msg, "`");
                assert(msg@ =~= unterminated_msg(key@));
                return Err(ChannelSpecError::Malformed(msg));
            }
            let val = string_from(&t, p2 + 1, close);
            pairs.push((key, val));
            assert(pairs_view(pairs@) =~= acc.push((pairs@[pairs@.len() - 1].0@, pairs@[pairs@.len() - 1].1@)));
            pos = close + 1;
        } else {
            proof {
                lemma_scan_bounds(ts, p2 as nat, ',');
            }
            let comma = find(t.as_slice(), p2, ',');
            let (va, vb) = trim_bounds(t.as_slice(), p2, comma);
            let val = string_from(&t, va, vb);
            pairs.push((key, val));
            assert(pairs_view(pairs@) =~= acc.push((pairs@[pairs@.len() - 1].0@, pairs@[pairs@.len() - 1].1@)));
            if comma <= pos {
                return Ok(pairs);
            }
            pos = comma;
        }
    }
}

/// `v` in double quotes when it holds a comma, `=` or white space;
/// otherwise `v` itself.
pub open spec fn quote_spec(v: Seq<char>) -> Seq<char> {
    if exists|i: int| 0 <= i < v.len() && (v[i] == ',' || v[i] == '=' || is_ws(v[i])) {
        seq!['"'] + v + seq!['"']
    } else {
        v
    }
}

/// Quote a value for printing when it needs it.
pub fn quote_if_needed(v: &str) -> (s: String)
    ensures
        s@ == quote_spec(v@),
{
    let c = chars_of(v);
    let mut needs = false;
    let mut i: usize = 0;
    while i < c.len()
        invariant
            0 <= i <= c@.len(),
            c@ == v@,
            needs == exists|j: int| 0 <= j < i && (c@[j] == ',' || c@[j] == '=' || is_ws(c@[j])),
        decreases c.len() - i,
    {
        let x = c[i];
        if x == ',' || x == '=' || is_whitespace(x) {
            needs = true;
        }
        i += 1;
    }
    let mut s = String::new();
    if needs {
        push_char(&mut s, '"');
        push_str(&mut s, v);
        push_char(&mut s, '"');
    } else {
        push_str(&mut s, v);
    }
    assert(s@ =~= quote_spec(v@));
    s
}

} // verus!
