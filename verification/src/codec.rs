//! The on-disk codec for the progress record.
//!
//! The record is stored as a small self-describing JSON document with a
//! fixed field order.  Both directions are verified against one spec
//! grammar, and parsing a rendered record gives the record back
//! unchanged.

use vstd::prelude::*;
use crate::progress::ProgressFile;
use crate::text::{
    append_dec,
    append_str,
    chars_of,
    digit_value,
    is_digit,
    is_digit_char,
    digit_val,
    spec_dec,
    spec_dec_val,
    string_of,
};
use vstd::string::StrSliceExecFns;

verus! {

// ---------------------------------------------------------------------
// Views
// ---------------------------------------------------------------------
/// The view of an optional string.
pub open spec fn opt_view(o: Option<String>) -> Option<Seq<char>> {
    match o {
        Some(s) => Some(s@),
        None => None,
    }
}

/// The view of the hint-tally list.
pub open spec fn hints_view(h: Seq<(String, u32)>) -> Seq<(Seq<char>, u32)> {
    h.map_values(|p: (String, u32)| (p.0@, p.1))
}

/// The abstract content of a progress record: everything the codec
/// stores, as mathematical values.
pub open spec fn progress_view(p: ProgressFile) -> (u32, Seq<Seq<char>>, Option<Seq<char>>, Seq<
    (Seq<char>, u32),
>, Option<Seq<char>>, Option<Seq<char>>) {
    (
        p.version,
        p.completed.deep_view(),
        opt_view(p.current),
        hints_view(p.hints_used@),
        opt_view(p.started_at),
        opt_view(p.last_activity),
    )
}

// ---------------------------------------------------------------------
// Spec rendering
// ---------------------------------------------------------------------
/// How one character is stored inside a quoted string: quotes and
/// backslashes get a backslash escape, everything else is itself.
pub open spec fn spec_esc_char(c: char) -> Seq<char> {
    if c == '"' {
        seq!['\\', '"']
    } else if c == '\\' {
        seq!['\\', '\\']
    } else {
        seq![c]
    }
}

/// A string's characters, escaped.
pub open spec fn spec_esc(s: Seq<char>) -> Seq<char>
    decreases s.len(),
{
    if s.len() == 0 {
        Seq::empty()
    } else {
        spec_esc_char(s[0]) + spec_esc(s.drop_first())
    }
}

/// A quoted, escaped string.
pub open spec fn spec_jstr(s: Seq<char>) -> Seq<char> {
    seq!['"'] + spec_esc(s) + seq!['"']
}

/// A quoted string or the null keyword.
pub open spec fn spec_jopt(o: Option<Seq<char>>) -> Seq<char> {
    match o {
        Some(s) => spec_jstr(s),
        None => "null"@,
    }
}

/// The comma-separated items of a string array.
pub open spec fn spec_jstr_items(l: Seq<Seq<char>>) -> Seq<char>
    decreases l.len(),
{
    if l.len() == 0 {
        Seq::empty()
    } else if l.len() == 1 {
        spec_jstr(l[0])
    } else {
        spec_jstr(l[0]) + seq![','] + spec_jstr_items(l.drop_first())
    }
}

/// One tally entry: a quoted key, a colon, a decimal count.
pub open spec fn spec_pair(p: (Seq<char>, u32)) -> Seq<char> {
    spec_jstr(p.0) + seq![':'] + spec_dec(p.1 as nat)
}

/// The comma-separated entries of the tally object.
pub open spec fn spec_pair_items(l: Seq<(Seq<char>, u32)>) -> Seq<char>
    decreases l.len(),
{
    if l.len() == 0 {
        Seq::empty()
    } else if l.len() == 1 {
        spec_pair(l[0])
    } else {
        spec_pair(l[0]) + seq![','] + spec_pair_items(l.drop_first())
    }
}

/// The full rendering of a progress record.
pub open spec fn spec_render_progress(
    version: u32,
    completed: Seq<Seq<char>>,
    current: Option<Seq<char>>,
    hints: Seq<(Seq<char>, u32)>,
    started_at: Option<Seq<char>>,
    last_activity: Option<Seq<char>>,
) -> Seq<char> {
    "{\"version\":"@ + spec_dec(version as nat) + ",\"completed\":["@ + spec_jstr_items(completed)
        + seq![']'] + ",\"current\":"@ + spec_jopt(current) + ",\"hints_used\":{"@
        + spec_pair_items(hints) + seq!['}'] + ",\"started_at\":"@ + spec_jopt(started_at)
        + ",\"last_activity\":"@ + spec_jopt(last_activity) + seq!['}']
}

// ---------------------------------------------------------------------
// Executable rendering
// ---------------------------------------------------------------------
/// Escaping one more character extends the escaped text.
proof fn lemma_esc_push(s: Seq<char>, c: char)
    ensures
        spec_esc(s.push(c)) == spec_esc(s) + spec_esc_char(c),
    decreases s.len(),
{
    if s.len() == 0 {
        assert(s.push(c)[0] == c);
        assert(s.push(c).drop_first() =~= Seq::<char>::empty());
        assert(spec_esc(s.push(c)) == spec_esc_char(c) + spec_esc(s.push(c).drop_first()));
        assert(spec_esc(s.push(c).drop_first()) == Seq::<char>::empty());
        assert(spec_esc(s.push(c)) =~= spec_esc(s) + spec_esc_char(c));
    } else {
        lemma_esc_push(s.drop_first(), c);
        assert(s.push(c)[0] == s[0]);
        assert(s.push(c).drop_first() =~= s.drop_first().push(c));
        assert(spec_esc(s.push(c)) == spec_esc_char(s[0]) + spec_esc(s.drop_first().push(c)));
        assert(spec_esc(s.drop_first().push(c)) == spec_esc(s.drop_first()) + spec_esc_char(c));
        assert(spec_esc(s) == spec_esc_char(s[0]) + spec_esc(s.drop_first()));
        assert(spec_esc(s.push(c)) =~= spec_esc(s) + spec_esc_char(c));
    }
}

fn append_escaped(out: &mut Vec<char>, s: &str)
    ensures
        final(out)@ == old(out)@ + spec_esc(s@),
{
    let v = chars_of(s);
    let mut i: usize = 0;
    proof {
        assert(s@.subrange(0, 0) =~= Seq::<char>::empty());
        assert(out@ =~= old(out)@ + spec_esc(s@.subrange(0, 0)));
    }
    while i < v.len()
        invariant
            v@ == s@,
            i <= v@.len(),
            out@ == old(out)@ + spec_esc(s@.subrange(0, i as int)),
        decreases v@.len() - i,
    {
        let c = v[i];
        if c == '"' {
            out.push('\\');
            out.push('"');
        } else if c == '\\' {
            out.push('\\');
            out.push('\\');
        } else {
            out.push(c);
        }
        proof {
            let pre = s@.subrange(0, i as int);
            assert(s@.subrange(0, i as int + 1) =~= pre.push(s@[i as int]));
            lemma_esc_push(pre, s@[i as int]);
            assert(out@ =~= old(out)@ + spec_esc(s@.subrange(0, i as int + 1)));
        }
        i += 1;
    }
    proof {
        assert(s@.subrange(0, v@.len() as int) =~= s@);
    }
}

fn append_jstr(out: &mut Vec<char>, s: &str)
    ensures
        final(out)@ == old(out)@ + spec_jstr(s@),
{
    out.push('"');
    append_escaped(out, s);
    out.push('"');
    proof {
        assert(out@ =~= old(out)@ + spec_jstr(s@));
    }
}

fn append_jopt(out: &mut Vec<char>, o: &Option<String>)
    ensures
        final(out)@ == old(out)@ + spec_jopt(opt_view(*o)),
{
    match o {
        Some(s) => append_jstr(out, s.as_str()),
        None => append_str(out, "null"),
    }
}

fn append_jstr_items(out: &mut Vec<char>, l: &Vec<String>)
    ensures
        final(out)@ == old(out)@ + spec_jstr_items(l.deep_view()),
{
    let n = l.len();
    let mut i: usize = 0;
    while i < n
        invariant
            n == l@.len(),
            i <= n,
            l.deep_view().len() == n,
            out@ == old(out)@ + (if i == 0 {
                Seq::<char>::empty()
            } else {
                spec_jstr_items(l.deep_view().take(i as int))
            }),
        decreases n - i,
    {
        if i > 0 {
            out.push(',');
        }
        append_jstr(out, l[i].as_str());
        proof {
            assert(l.deep_view()[i as int] == l@[i as int]@);
            lemma_jstr_items_take(l.deep_view(), i as int);
            assert(out@ =~= old(out)@ + spec_jstr_items(l.deep_view().take(i as int + 1)));
        }
        i += 1;
    }
    proof {
        if n > 0 {
            assert(l.deep_view().take(n as int) =~= l.deep_view());
        }
    }
}

/// Extending the rendered items by one more string.
proof fn lemma_jstr_items_take(l: Seq<Seq<char>>, i: int)
    requires
        0 <= i < l.len(),
    ensures
        i == 0 ==> spec_jstr_items(l.take(1)) == spec_jstr(l[0]),
        i > 0 ==> spec_jstr_items(l.take(i + 1)) == spec_jstr_items(l.take(i)) + seq![',']
            + spec_jstr(l[i]),
    decreases i,
{
    if i == 0 {
        assert(l.take(1).len() == 1);
        assert(l.take(1)[0] == l[0]);
    } else {
        lemma_jstr_items_take(l.drop_first(), i - 1);
        let a = l.take(i + 1);
        assert(a.len() >= 2);
        assert(a[0] == l[0]);
        assert(a.drop_first() =~= l.drop_first().take(i));
        assert(l.take(i)[0] == l[0]);
        assert(l.take(i).drop_first() =~= l.drop_first().take(i - 1));
        assert(l.drop_first()[i - 1] == l[i]);
        if i == 1 {
            assert(spec_jstr_items(a) == spec_jstr(l[0]) + seq![','] + spec_jstr_items(
                l.drop_first().take(1),
            ));
            assert(l.take(1).len() == 1);
            assert(l.take(1)[0] == l[0]);
        } else {
            assert(l.take(i).len() == i);
        }
    }
}

/// Extending the rendered tally entries by one more pair.
proof fn lemma_pair_items_take(l: Seq<(Seq<char>, u32)>, i: int)
    requires
        0 <= i < l.len(),
    ensures
        i == 0 ==> spec_pair_items(l.take(1)) == spec_pair(l[0]),
        i > 0 ==> spec_pair_items(l.take(i + 1)) == spec_pair_items(l.take(i)) + seq![',']
            + spec_pair(l[i]),
    decreases i,
{
    if i == 0 {
        assert(l.take(1).len() == 1);
        assert(l.take(1)[0] == l[0]);
    } else {
        lemma_pair_items_take(l.drop_first(), i - 1);
        let a = l.take(i + 1);
        assert(a.len() >= 2);
        assert(a[0] == l[0]);
        assert(a.drop_first() =~= l.drop_first().take(i));
        assert(l.take(i)[0] == l[0]);
        assert(l.take(i).drop_first() =~= l.drop_first().take(i - 1));
        assert(l.drop_first()[i - 1] == l[i]);
        if i == 1 {
            assert(l.take(1).len() == 1);
            assert(l.take(1)[0] == l[0]);
        } else {
            assert(l.take(i).len() == i);
        }
    }
}

fn append_pair_items(out: &mut Vec<char>, l: &Vec<(String, u32)>)
    ensures
        final(out)@ == old(out)@ + spec_pair_items(hints_view(l@)),
{
    let n = l.len();
    let mut i: usize = 0;
    while i < n
        invariant
            n == l@.len(),
            i <= n,
            hints_view(l@).len() == n,
            out@ == old(out)@ + (if i == 0 {
                Seq::<char>::empty()
            } else {
                spec_pair_items(hints_view(l@).take(i as int))
            }),
        decreases n - i,
    {
        if i > 0 {
            out.push(',');
        }
        append_jstr(out, l[i].0.as_str());
        out.push(':');
        append_dec(out, l[i].1 as u64);
        proof {
            assert(hints_view(l@)[i as int] == (l@[i as int].0@, l@[i as int].1));
            lemma_pair_items_take(hints_view(l@), i as int);
            assert(out@ =~= old(out)@ + spec_pair_items(hints_view(l@).take(i as int + 1)));
        }
        i += 1;
    }
    proof {
        if n > 0 {
            assert(hints_view(l@).take(n as int) =~= hints_view(l@));
        }
    }
}

/// Renders a progress record to its canonical document text.
pub fn render_progress(p: &ProgressFile) -> (r: String)
    ensures
        r@ == spec_render_progress(
            p.version,
            p.completed.deep_view(),
            opt_view(p.current),
            hints_view(p.hints_used@),
            opt_view(p.started_at),
            opt_view(p.last_activity),
        ),
{
    let mut out: Vec<char> = Vec::new();
    append_str(&mut out, "{\"version\":");
    append_dec(&mut out, p.version as u64);
    append_str(&mut out, ",\"completed\":[");
    append_jstr_items(&mut out, &p.completed);
    out.push(']');
    append_str(&mut out, ",\"current\":");
    append_jopt(&mut out, &p.current);
    append_str(&mut out, ",\"hints_used\":{");
    append_pair_items(&mut out, &p.hints_used);
    out.push('}');
    append_str(&mut out, ",\"started_at\":");
    append_jopt(&mut out, &p.started_at);
    append_str(&mut out, ",\"last_activity\":");
    append_jopt(&mut out, &p.last_activity);
    out.push('}');
    proof {
        assert(out@ =~= spec_render_progress(
            p.version,
            p.completed.deep_view(),
            opt_view(p.current),
            hints_view(p.hints_used@),
            opt_view(p.started_at),
            opt_view(p.last_activity),
        ));
    }
    string_of(&out)
}

// ---------------------------------------------------------------------
// Spec parsing
// ---------------------------------------------------------------------
/// Consumes an exact literal prefix.
pub open spec fn spec_expect(s: Seq<char>, lit: Seq<char>) -> Option<Seq<char>> {
    if s.len() >= lit.len() && s.take(lit.len() as int) == lit {
        Some(s.skip(lit.len() as int))
    } else {
        None
    }
}

/// The character named by an escape: the inverse of the escapes the
/// renderer writes, plus the conventional `n`, `r`, `t` and `/`.
pub open spec fn spec_unesc(c: char) -> Option<char> {
    if c == '"' {
        Some('"')
    } else if c == '\\' {
        Some('\\')
    } else if c == 'n' {
        Some('\n')
    } else if c == 'r' {
        Some('\r')
    } else if c == 't' {
        Some('\t')
    } else if c == '/' {
        Some('/')
    } else {
        None
    }
}

/// Parses the characters of a quoted string after its opening quote,
/// up to and including the closing quote.
pub open spec fn sp_jstr_body(s: Seq<char>) -> Option<(Seq<char>, Seq<char>)>
    decreases s.len(),
{
    if s.len() == 0 {
        None
    } else if s[0] == '"' {
        Some((Seq::empty(), s.drop_first()))
    } else if s[0] == '\\' {
        if s.len() < 2 {
            None
        } else {
            match spec_unesc(s[1]) {
                None => None,
                Some(c) => match sp_jstr_body(s.skip(2)) {
                    None => None,
                    Some((t, r)) => Some((seq![c] + t, r)),
                },
            }
        }
    } else {
        match sp_jstr_body(s.drop_first()) {
            None => None,
            Some((t, r)) => Some((seq![s[0]] + t, r)),
        }
    }
}

/// Parses a quoted string.
pub open spec fn sp_jstr(s: Seq<char>) -> Option<(Seq<char>, Seq<char>)> {
    if s.len() > 0 && s[0] == '"' {
        sp_jstr_body(s.drop_first())
    } else {
        None
    }
}

/// The length of the digit run at the head of `s`.
pub open spec fn sp_digits_len(s: Seq<char>) -> int
    decreases s.len(),
{
    if s.len() == 0 || !is_digit(s[0]) {
        0
    } else {
        1 + sp_digits_len(s.drop_first())
    }
}

/// Parses a decimal number that fits `u32`.
pub open spec fn sp_u32(s: Seq<char>) -> Option<(u32, Seq<char>)> {
    let n = sp_digits_len(s);
    if n == 0 {
        None
    } else if spec_dec_val(s.take(n)) > u32::MAX {
        None
    } else {
        Some((spec_dec_val(s.take(n)) as u32, s.skip(n)))
    }
}

/// Parses a quoted string or the null keyword.
pub open spec fn sp_jopt(s: Seq<char>) -> Option<(Option<Seq<char>>, Seq<char>)> {
    if s.len() > 0 && s[0] == '"' {
        match sp_jstr(s) {
            None => None,
            Some((x, r)) => Some((Some(x), r)),
        }
    } else {
        match spec_expect(s, "null"@) {
            None => None,
            Some(r) => Some((None, r)),
        }
    }
}

/// Parses the continuation of a string array after one element: a
/// closing bracket, or a comma and another element.
pub open spec fn sp_jstr_list_rest(s: Seq<char>) -> Option<(Seq<Seq<char>>, Seq<char>)>
    decreases s.len(),
{
    if s.len() == 0 {
        None
    } else if s[0] == ']' {
        Some((Seq::empty(), s.drop_first()))
    } else if s[0] == ',' {
        match sp_jstr(s.drop_first()) {
            None => None,
            Some((x, r)) => if r.len() < s.len() {
                match sp_jstr_list_rest(r) {
                    None => None,
                    Some((t, r2)) => Some((seq![x] + t, r2)),
                }
            } else {
                None
            },
        }
    } else {
        None
    }
}

/// Parses a string array after its opening bracket.
pub open spec fn sp_jstr_list(s: Seq<char>) -> Option<(Seq<Seq<char>>, Seq<char>)> {
    if s.len() > 0 && s[0] == ']' {
        Some((Seq::empty(), s.drop_first()))
    } else {
        match sp_jstr(s) {
            None => None,
            Some((x, r)) => match sp_jstr_list_rest(r) {
                None => None,
                Some((t, r2)) => Some((seq![x] + t, r2)),
            },
        }
    }
}

/// Parses one tally entry: a quoted key, a colon, a count.
pub open spec fn sp_pair(s: Seq<char>) -> Option<((Seq<char>, u32), Seq<char>)> {
    match sp_jstr(s) {
        None => None,
        Some((k, r)) => if r.len() > 0 && r[0] == ':' {
            match sp_u32(r.drop_first()) {
                None => None,
                Some((x, r2)) => Some(((k, x), r2)),
            }
        } else {
            None
        },
    }
}

/// Parses the continuation of the tally object after one entry.
pub open spec fn sp_pairs_rest(s: Seq<char>) -> Option<(Seq<(Seq<char>, u32)>, Seq<char>)>
    decreases s.len(),
{
    if s.len() == 0 {
        None
    } else if s[0] == '}' {
        Some((Seq::empty(), s.drop_first()))
    } else if s[0] == ',' {
        match sp_pair(s.drop_first()) {
            None => None,
            Some((p, r)) => if r.len() < s.len() {
                match sp_pairs_rest(r) {
                    None => None,
                    Some((t, r2)) => Some((seq![p] + t, r2)),
                }
            } else {
                None
            },
        }
    } else {
        None
    }
}

/// Parses the tally object after its opening brace.
pub open spec fn sp_pairs_list(s: Seq<char>) -> Option<(Seq<(Seq<char>, u32)>, Seq<char>)> {
    if s.len() > 0 && s[0] == '}' {
        Some((Seq::empty(), s.drop_first()))
    } else {
        match sp_pair(s) {
            None => None,
            Some((p, r)) => match sp_pairs_rest(r) {
                None => None,
                Some((t, r2)) => Some((seq![p] + t, r2)),
            },
        }
    }
}

/// Parses a whole progress document.
pub open spec fn sp_progress(s: Seq<char>) -> Option<
    (u32, Seq<Seq<char>>, Option<Seq<char>>, Seq<(Seq<char>, u32)>, Option<Seq<char>>, Option<
        Seq<char>,
    >),
> {
    match spec_expect(s, "{\"version\":"@) {
        None => None,
        Some(s1) => match sp_u32(s1) {
            None => None,
            Some((version, s2)) => match spec_expect(s2, ",\"completed\":["@) {
                None => None,
                Some(s3) => match sp_jstr_list(s3) {
                    None => None,
                    Some((completed, s4)) => match spec_expect(s4, ",\"current\":"@) {
                        None => None,
                        Some(s5) => match sp_jopt(s5) {
                            None => None,
                            Some((current, s6)) => match spec_expect(s6, ",\"hints_used\":{"@) {
                                None => None,
                                Some(s7) => match sp_pairs_list(s7) {
                                    None => None,
                                    Some((hints, s8)) => match spec_expect(
                                        s8,
                                        ",\"started_at\":"@,
                                    ) {
                                        None => None,
                                        Some(s9) => match sp_jopt(s9) {
                                            None => None,
                                            Some((started_at, s10)) => match spec_expect(
                                                s10,
                                                ",\"last_activity\":"@,
                                            ) {
                                                None => None,
                                                Some(s11) => match sp_jopt(s11) {
                                                    None => None,
                                                    Some((last_activity, s12)) => if s12 =~= seq![
                                                        '}',
                                                    ] {
                                                        Some(
                                                            (
                                                                version,
                                                                completed,
                                                                current,
                                                                hints,
                                                                started_at,
                                                                last_activity,
                                                            ),
                                                        )
                                                    } else {
                                                        None
                                                    },
                                                },
                                            },
                                        },
                                    },
                                },
                            },
                        },
                    },
                },
            },
        },
    }
}

// ---------------------------------------------------------------------
// Executable parsing
// ---------------------------------------------------------------------
spec fn sp_prepend(prefix: Seq<char>, o: Option<(Seq<char>, Seq<char>)>) -> Option<
    (Seq<char>, Seq<char>),
> {
    match o {
        None => None,
        Some((t, r)) => Some((prefix + t, r)),
    }
}

fn expect_lit(v: &Vec<char>, i: usize, lit: &str) -> (r: Option<usize>)
    requires
        i <= v@.len(),
    ensures
        match r {
            Some(j) => i <= j <= v@.len() && spec_expect(v@.skip(i as int), lit@) == Some(
                v@.skip(j as int),
            ),
            None => spec_expect(v@.skip(i as int), lit@) is None,
        },
{
    let n = lit.unicode_len();
    if v.len() - i < n {
        return None;
    }
    let mut k: usize = 0;
    while k < n
        invariant
            n == lit@.len(),
            i + n <= v@.len(),
            v@.len() <= usize::MAX,
            k <= n,
            forall|t: int| 0 <= t < k ==> v@[i + t] == lit@[t],
        decreases n - k,
    {
        if v[i + k] != lit.get_char(k) {
            proof {
                let s = v@.skip(i as int);
                assert(s.take(n as int)[k as int] == v@[i + k]);
                assert(s.take(n as int) != lit@);
            }
            return None;
        }
        k += 1;
    }
    proof {
        let s = v@.skip(i as int);
        assert(s.take(n as int) =~= lit@);
        assert(s.skip(n as int) =~= v@.skip(i + n));
    }
    Some(i + n)
}

fn unesc_char(c: char) -> (r: Option<char>)
    ensures
        r == spec_unesc(c),
{
    if c == '"' {
        Some('"')
    } else if c == '\\' {
        Some('\\')
    } else if c == 'n' {
        Some('\n')
    } else if c == 'r' {
        Some('\r')
    } else if c == 't' {
        Some('\t')
    } else if c == '/' {
        Some('/')
    } else {
        None
    }
}

fn parse_jstr(v: &Vec<char>, i: usize) -> (r: Option<(String, usize)>)
    requires
        i <= v@.len(),
    ensures
        match r {
            Some((x, j)) => i + 2 <= j <= v@.len() && sp_jstr(v@.skip(i as int)) == Some(
                (x@, v@.skip(j as int)),
            ),
            None => sp_jstr(v@.skip(i as int)) is None,
        },
{
    if i == v.len() || v[i] != '"' {
        return None;
    }
    proof {
        assert(v@.skip(i as int).drop_first() =~= v@.skip(i as int + 1));
    }
    let mut out: Vec<char> = Vec::new();
    let mut j: usize = i + 1;
    proof {
        let x = sp_jstr_body(v@.skip(i as int + 1));
        match x {
            Some((t, r)) => {
                assert(out@ + t =~= t);
            },
            None => {},
        }
        assert(sp_jstr_body(v@.skip(i as int + 1)) == sp_prepend(
            out@,
            sp_jstr_body(v@.skip(j as int)),
        ));
    }
    while j < v.len()
        invariant
            i + 1 <= j <= v@.len(),
            sp_jstr(v@.skip(i as int)) == sp_jstr_body(v@.skip(i as int + 1)),
            sp_jstr_body(v@.skip(i as int + 1)) == sp_prepend(
                out@,
                sp_jstr_body(v@.skip(j as int)),
            ),
        decreases v@.len() - j,
    {
        let c = v[j];
        if c == '"' {
            proof {
                let s = v@.skip(j as int);
                assert(s[0] == '"');
                assert(s.drop_first() =~= v@.skip(j as int + 1));
                assert(out@ + Seq::<char>::empty() =~= out@);
            }
            let x = string_of(&out);
            return Some((x, j + 1));
        } else if c == '\\' {
            if j + 1 == v.len() {
                proof {
                    let s = v@.skip(j as int);
                    assert(s.len() == 1);
                }
                return None;
            }
            let e = v[j + 1];
            proof {
                let s = v@.skip(j as int);
                assert(s[0] == '\\');
                assert(s[1] == v@[j as int + 1]);
                assert(s.len() >= 2);
            }
            match unesc_char(e) {
                None => {
                    return None;
                },
                Some(u) => {
                    let ghost out_old = out@;
                    out.push(u);
                    proof {
                        let s = v@.skip(j as int);
                        assert(s.skip(2) =~= v@.skip(j as int + 2));
                        match sp_jstr_body(v@.skip(j as int + 2)) {
                            Some((t, r)) => {
                                assert(out_old + (seq![u] + t) =~= out@ + t);
                            },
                            None => {},
                        }
                    }
                    j += 2;
                },
            }
        } else {
            let ghost out_old = out@;
            out.push(c);
            proof {
                let s = v@.skip(j as int);
                assert(s[0] == c);
                assert(s.drop_first() =~= v@.skip(j as int + 1));
                match sp_jstr_body(v@.skip(j as int + 1)) {
                    Some((t, r)) => {
                        assert(out_old + (seq![c] + t) =~= out@ + t);
                    },
                    None => {},
                }
            }
            j += 1;
        }
    }
    proof {
        assert(v@.skip(j as int).len() == 0);
    }
    None
}

/// The digit-run length at the head of `s` is pinned by the first
/// non-digit position.
proof fn lemma_digits_len(s: Seq<char>, k: int)
    requires
        0 <= k <= s.len(),
        forall|t: int| 0 <= t < k ==> is_digit(#[trigger] s[t]),
        k == s.len() || !is_digit(s[k]),
    ensures
        sp_digits_len(s) == k,
    decreases k,
{
    if k == 0 {
    } else {
        lemma_digits_len(s.drop_first(), k - 1);
    }
}

/// A longer digit prefix never has a smaller value.
proof fn lemma_dec_val_monotone(s: Seq<char>, k: int, n: int)
    requires
        0 <= k <= n <= s.len(),
    ensures
        spec_dec_val(s.take(k)) <= spec_dec_val(s.take(n)),
    decreases n - k,
{
    if k < n {
        lemma_dec_val_monotone(s, k, n - 1);
        let a = s.take(n);
        assert(a.drop_last() =~= s.take(n - 1));
        assert(spec_dec_val(s.take(n)) == spec_dec_val(s.take(n - 1)) * 10 + digit_val(a.last()));
    }
}

fn parse_u32(v: &Vec<char>, i: usize) -> (r: Option<(u32, usize)>)
    requires
        i <= v@.len(),
    ensures
        match r {
            Some((x, j)) => i < j <= v@.len() && sp_u32(v@.skip(i as int)) == Some(
                (x, v@.skip(j as int)),
            ),
            None => sp_u32(v@.skip(i as int)) is None,
        },
{
    let ghost s = v@.skip(i as int);
    let mut m: usize = i;
    while m < v.len() && is_digit_char(v[m])
        invariant
            i <= m <= v@.len(),
            s == v@.skip(i as int),
            forall|t: int| 0 <= t < m - i ==> is_digit(#[trigger] s[t]),
        decreases v@.len() - m,
    {
        proof {
            assert(s[m - i] == v@[m as int]);
        }
        m += 1;
    }
    proof {
        if m < v@.len() {
            assert(s[m - i] == v@[m as int]);
        }
        lemma_digits_len(s, m - i);
    }
    if m == i {
        return None;
    }
    // Accumulate the value, failing on overflow.
    let mut acc: u64 = 0;
    let mut t: usize = i;
    while t < m
        invariant
            i <= t <= m <= v@.len(),
            s == v@.skip(i as int),
            sp_digits_len(s) == m - i,
            forall|q: int| 0 <= q < m - i ==> is_digit(#[trigger] s[q]),
            acc == spec_dec_val(s.take(t - i)),
            acc <= u32::MAX,
        decreases m - t,
    {
        proof {
            assert(s[t - i] == v@[t as int]);
        }
        let d = digit_value(v[t]);
        proof {
            let ext = s.take(t - i + 1);
            assert(ext.drop_last() =~= s.take(t - i));
            assert(ext.last() == s[t - i]);
            assert(spec_dec_val(ext) == spec_dec_val(s.take(t - i)) * 10 + digit_val(s[t - i]));
        }
        acc = acc * 10 + d;
        if acc > 0xffff_ffff {
            proof {
                lemma_dec_val_monotone(s, t - i + 1, m - i);
            }
            return None;
        }
        t += 1;
    }
    proof {
        assert(s.skip((m - i) as int) =~= v@.skip(m as int));
    }
    Some((acc as u32, m))
}

fn parse_jopt(v: &Vec<char>, i: usize) -> (r: Option<(Option<String>, usize)>)
    requires
        i <= v@.len(),
    ensures
        match r {
            Some((x, j)) => i < j <= v@.len() && sp_jopt(v@.skip(i as int)) == Some(
                (opt_view(x), v@.skip(j as int)),
            ),
            None => sp_jopt(v@.skip(i as int)) is None,
        },
{
    if i < v.len() && v[i] == '"' {
        match parse_jstr(v, i) {
            None => None,
            Some((x, j)) => Some((Some(x), j)),
        }
    } else {
        proof {
            if i < v@.len() {
                assert(v@.skip(i as int)[0] == v@[i as int]);
            }
        }
        match expect_lit(v, i, "null") {
            None => None,
            Some(j) => {
                proof {
                    reveal_strlit("null");
                }
                Some((None, j))
            },
        }
    }
}

spec fn sp_prepend_strs(prefix: Seq<Seq<char>>, o: Option<(Seq<Seq<char>>, Seq<char>)>) -> Option<
    (Seq<Seq<char>>, Seq<char>),
> {
    match o {
        None => None,
        Some((t, r)) => Some((prefix + t, r)),
    }
}

fn parse_jstr_list(v: &Vec<char>, i: usize) -> (r: Option<(Vec<String>, usize)>)
    requires
        i <= v@.len(),
    ensures
        match r {
            Some((x, j)) => i < j <= v@.len() && sp_jstr_list(v@.skip(i as int)) == Some(
                (x.deep_view(), v@.skip(j as int)),
            ),
            None => sp_jstr_list(v@.skip(i as int)) is None,
        },
{
    if i == v.len() {
        return None;
    }
    proof {
        assert(v@.skip(i as int)[0] == v@[i as int]);
    }
    if v[i] == ']' {
        let out: Vec<String> = Vec::new();
        proof {
            assert(v@.skip(i as int).drop_first() =~= v@.skip(i as int + 1));
            assert(out.deep_view() =~= Seq::<Seq<char>>::empty());
        }
        return Some((out, i + 1));
    }
    let first = parse_jstr(v, i);
    match first {
        None => None,
        Some((x0, j0)) => {
            let mut acc: Vec<String> = Vec::new();
            let ghost x0v = x0@;
            acc.push(x0);
            let mut j: usize = j0;
            proof {
                assert(acc.deep_view() =~= seq![x0v]);
                match sp_jstr_list_rest(v@.skip(j as int)) {
                    Some((t, r2)) => {
                        assert(seq![x0v] + t =~= acc.deep_view() + t);
                    },
                    None => {},
                }
            }
            while j < v.len()
        invariant
            i < j <= v@.len(),
            sp_jstr_list(v@.skip(i as int)) == sp_prepend_strs(
                acc.deep_view(),
                sp_jstr_list_rest(v@.skip(j as int)),
            ),
        decreases v@.len() - j,
            {
                let c = v[j];
                proof {
                    assert(v@.skip(j as int)[0] == v@[j as int]);
                }
                if c == ']' {
                    proof {
                        assert(v@.skip(j as int).drop_first() =~= v@.skip(j as int + 1));
                        assert(acc.deep_view() + Seq::<Seq<char>>::empty() =~= acc.deep_view());
                    }
                    return Some((acc, j + 1));
                }
                if c != ',' {
                    return None;
                }
                proof {
                    assert(v@.skip(j as int).drop_first() =~= v@.skip(j as int + 1));
                }
                match parse_jstr(v, j + 1) {
                    None => {
                        return None;
                    },
                    Some((x, j2)) => {
                        let ghost acc_old = acc.deep_view();
                        let ghost xv = x@;
                        acc.push(x);
                        proof {
                            assert(acc.deep_view() =~= acc_old.push(xv));
                            assert(v@.skip(j2 as int).len() < v@.skip(j as int).len());
                            match sp_jstr_list_rest(v@.skip(j2 as int)) {
                                Some((t, r2)) => {
                                    assert(acc_old + (seq![xv] + t) =~= acc.deep_view() + t);
                                },
                                None => {},
                            }
                        }
                        j = j2;
                    },
                }
            }
            None
        },
    }
}

spec fn sp_prepend_pairs(
    prefix: Seq<(Seq<char>, u32)>,
    o: Option<(Seq<(Seq<char>, u32)>, Seq<char>)>,
) -> Option<(Seq<(Seq<char>, u32)>, Seq<char>)> {
    match o {
        None => None,
        Some((t, r)) => Some((prefix + t, r)),
    }
}

fn parse_pair(v: &Vec<char>, i: usize) -> (r: Option<((String, u32), usize)>)
    requires
        i <= v@.len(),
    ensures
        match r {
            Some((p, j)) => i < j <= v@.len() && sp_pair(v@.skip(i as int)) == Some(
                ((p.0@, p.1), v@.skip(j as int)),
            ),
            None => sp_pair(v@.skip(i as int)) is None,
        },
{
    match parse_jstr(v, i) {
        None => None,
        Some((k, j)) => {
            if j == v.len() || v[j] != ':' {
                proof {
                    if j < v@.len() {
                        assert(v@.skip(j as int)[0] == v@[j as int]);
                    }
                }
                return None;
            }
            proof {
                assert(v@.skip(j as int)[0] == v@[j as int]);
                assert(v@.skip(j as int).drop_first() =~= v@.skip(j as int + 1));
            }
            match parse_u32(v, j + 1) {
                None => None,
                Some((x, j2)) => Some(((k, x), j2)),
            }
        },
    }
}

fn parse_pairs_list(v: &Vec<char>, i: usize) -> (r: Option<(Vec<(String, u32)>, usize)>)
    requires
        i <= v@.len(),
    ensures
        match r {
            Some((x, j)) => i < j <= v@.len() && sp_pairs_list(v@.skip(i as int)) == Some(
                (hints_view(x@), v@.skip(j as int)),
            ),
            None => sp_pairs_list(v@.skip(i as int)) is None,
        },
{
    if i == v.len() {
        return None;
    }
    proof {
        assert(v@.skip(i as int)[0] == v@[i as int]);
    }
    if v[i] == '}' {
        let out: Vec<(String, u32)> = Vec::new();
        proof {
            assert(v@.skip(i as int).drop_first() =~= v@.skip(i as int + 1));
            assert(hints_view(out@) =~= Seq::<(Seq<char>, u32)>::empty());
        }
        return Some((out, i + 1));
    }
    let first = parse_pair(v, i);
    match first {
        None => None,
        Some((p0, j0)) => {
            let mut acc: Vec<(String, u32)> = Vec::new();
            let ghost p0v = (p0.0@, p0.1);
            acc.push(p0);
            let mut j: usize = j0;
            proof {
                assert(hints_view(acc@) =~= seq![p0v]);
                match sp_pairs_rest(v@.skip(j as int)) {
                    Some((t, r2)) => {
                        assert(seq![p0v] + t =~= hints_view(acc@) + t);
                    },
                    None => {},
                }
            }
            while j < v.len()
        invariant
            i < j <= v@.len(),
            sp_pairs_list(v@.skip(i as int)) == sp_prepend_pairs(
                hints_view(acc@),
                sp_pairs_rest(v@.skip(j as int)),
            ),
        decreases v@.len() - j,
            {
                let c = v[j];
                proof {
                    assert(v@.skip(j as int)[0] == v@[j as int]);
                }
                if c == '}' {
                    proof {
                        assert(v@.skip(j as int).drop_first() =~= v@.skip(j as int + 1));
                        assert(hints_view(acc@) + Seq::<(Seq<char>, u32)>::empty() =~= hints_view(
                            acc@,
                        ));
                    }
                    return Some((acc, j + 1));
                }
                if c != ',' {
                    return None;
                }
                proof {
                    assert(v@.skip(j as int).drop_first() =~= v@.skip(j as int + 1));
                }
                match parse_pair(v, j + 1) {
                    None => {
                        return None;
                    },
                    Some((p, j2)) => {
                        let ghost acc_old = hints_view(acc@);
                        let ghost pv = (p.0@, p.1);
                        acc.push(p);
                        proof {
                            assert(hints_view(acc@) =~= acc_old.push(pv));
                            assert(v@.skip(j2 as int).len() < v@.skip(j as int).len());
                            match sp_pairs_rest(v@.skip(j2 as int)) {
                                Some((t, r2)) => {
                                    assert(acc_old + (seq![pv] + t) =~= hints_view(acc@) + t);
                                },
                                None => {},
                            }
                        }
                        j = j2;
                    },
                }
            }
            None
        },
    }
}

/// Parses a progress document.  Returns the record exactly when the
/// text is a well-formed document, and nothing otherwise.
#[verifier::rlimit(80)]
pub fn parse_progress(s: &str) -> (r: Option<ProgressFile>)
    ensures
        match r {
            Some(p) => sp_progress(s@) == Some(progress_view(p)),
            None => sp_progress(s@) is None,
        },
{
    let v = chars_of(s);
    proof {
        assert(v@.skip(0) =~= s@);
    }
    let s1 = match expect_lit(&v, 0, "{\"version\":") {
        None => {
            return None;
        },
        Some(j) => j,
    };
    let (version, s2) = match parse_u32(&v, s1) {
        None => {
            return None;
        },
        Some(p) => p,
    };
    let s3 = match expect_lit(&v, s2, ",\"completed\":[") {
        None => {
            return None;
        },
        Some(j) => j,
    };
    let (completed, s4) = match parse_jstr_list(&v, s3) {
        None => {
            return None;
        },
        Some(p) => p,
    };
    let s5 = match expect_lit(&v, s4, ",\"current\":") {
        None => {
            return None;
        },
        Some(j) => j,
    };
    let (current, s6) = match parse_jopt(&v, s5) {
        None => {
            return None;
        },
        Some(p) => p,
    };
    let s7 = match expect_lit(&v, s6, ",\"hints_used\":{") {
        None => {
            return None;
        },
        Some(j) => j,
    };
    let (hints_used, s8) = match parse_pairs_list(&v, s7) {
        None => {
            return None;
        },
        Some(p) => p,
    };
    let s9 = match expect_lit(&v, s8, ",\"started_at\":") {
        None => {
            return None;
        },
        Some(j) => j,
    };
    let (started_at, s10) = match parse_jopt(&v, s9) {
        None => {
            return None;
        },
        Some(p) => p,
    };
    let s11 = match expect_lit(&v, s10, ",\"last_activity\":") {
        None => {
            return None;
        },
        Some(j) => j,
    };
    let (last_activity, s12) = match parse_jopt(&v, s11) {
        None => {
            return None;
        },
        Some(p) => p,
    };
    if s12 >= v.len() || v.len() - s12 != 1 || v[s12] != '}' {
        proof {
            if s12 < v@.len() {
                assert(v@.skip(s12 as int)[0] == v@[s12 as int]);
            }
            assert(!(v@.skip(s12 as int) =~= seq!['}']));
        }
        return None;
    }
    proof {
        assert(v@.skip(s12 as int) =~= seq!['}']);
    }
    Some(
        ProgressFile {
            version,
            completed,
            current,
            hints_used,
            started_at,
            last_activity,
        },
    )
}

// ---------------------------------------------------------------------
// Round trip
// ---------------------------------------------------------------------
proof fn lemma_expect_prefix(lit: Seq<char>, rest: Seq<char>)
    ensures
        spec_expect(lit + rest, lit) == Some(rest),
{
    let s = lit + rest;
    assert(s.take(lit.len() as int) =~= lit);
    assert(s.skip(lit.len() as int) =~= rest);
}

proof fn lemma_jstr_body_roundtrip(x: Seq<char>, tail: Seq<char>)
    ensures
        sp_jstr_body(spec_esc(x) + seq!['"'] + tail) == Some((x, tail)),
    decreases x.len(),
{
    let s = spec_esc(x) + seq!['"'] + tail;
    if x.len() == 0 {
        assert(s =~= seq!['"'] + tail);
        assert(s[0] == '"');
        assert(s.drop_first() =~= tail);
    } else {
        lemma_jstr_body_roundtrip(x.drop_first(), tail);
        let c = x[0];
        let inner = spec_esc(x.drop_first()) + seq!['"'] + tail;
        assert(spec_esc(x) == spec_esc_char(c) + spec_esc(x.drop_first()));
        if c == '"' || c == '\\' {
            assert(spec_esc_char(c) == seq!['\\', c]);
            assert(s =~= seq!['\\', c] + inner);
            assert(s[0] == '\\');
            assert(s[1] == c);
            assert(s.len() >= 2);
            assert(spec_unesc(c) == Some(c));
            assert(s.skip(2) =~= inner);
            assert(seq![c] + x.drop_first() =~= x);
        } else {
            assert(spec_esc_char(c) == seq![c]);
            assert(s =~= seq![c] + inner);
            assert(s[0] == c);
            assert(s.drop_first() =~= inner);
            assert(seq![c] + x.drop_first() =~= x);
        }
    }
}

proof fn lemma_jstr_roundtrip(x: Seq<char>, tail: Seq<char>)
    ensures
        sp_jstr(spec_jstr(x) + tail) == Some((x, tail)),
        (spec_jstr(x) + tail)[0] == '"',
        spec_jstr(x).len() >= 2,
{
    let s = spec_jstr(x) + tail;
    assert(s[0] == '"');
    assert(s.drop_first() =~= spec_esc(x) + seq!['"'] + tail);
    lemma_jstr_body_roundtrip(x, tail);
}

proof fn lemma_dec_val_of_dec(n: nat)
    ensures
        spec_dec_val(spec_dec(n)) == n,
    decreases n,
{
    if n < 10 {
        assert(spec_dec(n) == seq![crate::text::spec_digit(n)]);
        assert(spec_dec(n).drop_last() =~= Seq::<char>::empty());
        assert(spec_dec(n).last() == crate::text::spec_digit(n));
        assert(digit_val(crate::text::spec_digit(n)) == n);
        assert(spec_dec_val(spec_dec(n)) == spec_dec_val(Seq::<char>::empty()) * 10 + digit_val(
            crate::text::spec_digit(n),
        ));
        assert(spec_dec_val(spec_dec(n)) == n);
    } else {
        lemma_dec_val_of_dec(n / 10);
        let d = spec_dec(n);
        assert(d == spec_dec(n / 10) + seq![crate::text::spec_digit(n % 10)]);
        assert(d.len() > 0);
        assert(d.drop_last() =~= spec_dec(n / 10));
        assert(d.last() == crate::text::spec_digit(n % 10));
        assert(digit_val(crate::text::spec_digit(n % 10)) == n % 10);
        assert(spec_dec_val(d) == spec_dec_val(spec_dec(n / 10)) * 10 + digit_val(
            crate::text::spec_digit(n % 10),
        ));
        assert(spec_dec_val(d) == (n / 10) * 10 + n % 10);
        assert((n / 10) * 10 + n % 10 == n);
        assert(spec_dec_val(spec_dec(n)) == n);
    }
}

proof fn lemma_digits_len_concat(a: Seq<char>, rest: Seq<char>)
    requires
        forall|i: int| 0 <= i < a.len() ==> is_digit(#[trigger] a[i]),
        rest.len() == 0 || !is_digit(rest[0]),
    ensures
        sp_digits_len(a + rest) == a.len(),
    decreases a.len(),
{
    let s = a + rest;
    if a.len() == 0 {
        assert(s =~= rest);
    } else {
        lemma_digits_len_concat(a.drop_first(), rest);
        assert(s[0] == a[0]);
        assert(s.drop_first() =~= a.drop_first() + rest);
    }
}

proof fn lemma_u32_roundtrip(x: u32, rest: Seq<char>)
    requires
        rest.len() == 0 || !is_digit(rest[0]),
    ensures
        sp_u32(spec_dec(x as nat) + rest) == Some((x, rest)),
{
    let a = spec_dec(x as nat);
    let s = a + rest;
    crate::text::lemma_spec_dec_digits(x as nat);
    lemma_digits_len_concat(a, rest);
    assert(sp_digits_len(s) == a.len());
    assert(s.take(a.len() as int) =~= a);
    lemma_dec_val_of_dec(x as nat);
    assert(s.skip(a.len() as int) =~= rest);
}

proof fn lemma_jopt_roundtrip(o: Option<Seq<char>>, tail: Seq<char>)
    requires
        tail.len() > 0,
    ensures
        sp_jopt(spec_jopt(o) + tail) == Some((o, tail)),
{
    let s = spec_jopt(o) + tail;
    match o {
        Some(x) => {
            lemma_jstr_roundtrip(x, tail);
            assert(s[0] == '"');
        },
        None => {
            reveal_strlit("null");
            assert(s[0] == 'n');
            lemma_expect_prefix("null"@, tail);
        },
    }
}

/// The rendering of a list continuation: a comma before each item.
spec fn spec_jstr_items_rest(l: Seq<Seq<char>>) -> Seq<char>
    decreases l.len(),
{
    if l.len() == 0 {
        Seq::empty()
    } else {
        seq![','] + spec_jstr(l[0]) + spec_jstr_items_rest(l.drop_first())
    }
}

proof fn lemma_jstr_items_decomp(l: Seq<Seq<char>>)
    requires
        l.len() >= 1,
    ensures
        spec_jstr_items(l) == spec_jstr(l[0]) + spec_jstr_items_rest(l.drop_first()),
    decreases l.len(),
{
    if l.len() == 1 {
        assert(spec_jstr_items_rest(l.drop_first()) == Seq::<char>::empty());
        assert(spec_jstr_items(l) =~= spec_jstr(l[0]) + spec_jstr_items_rest(l.drop_first()));
    } else {
        lemma_jstr_items_decomp(l.drop_first());
        assert(spec_jstr_items(l) == spec_jstr(l[0]) + seq![','] + spec_jstr_items(
            l.drop_first(),
        ));
        assert(spec_jstr_items_rest(l.drop_first()) == seq![','] + spec_jstr(l.drop_first()[0])
            + spec_jstr_items_rest(l.drop_first().drop_first()));
        assert(spec_jstr_items(l) =~= spec_jstr(l[0]) + spec_jstr_items_rest(l.drop_first()));
    }
}

proof fn lemma_jstr_list_rest_roundtrip(l: Seq<Seq<char>>, tail: Seq<char>)
    ensures
        sp_jstr_list_rest(spec_jstr_items_rest(l) + seq![']'] + tail) == Some((l, tail)),
    decreases l.len(),
{
    let s = spec_jstr_items_rest(l) + seq![']'] + tail;
    if l.len() == 0 {
        assert(s =~= seq![']'] + tail);
        assert(s[0] == ']');
        assert(s.drop_first() =~= tail);
        assert(l =~= Seq::<Seq<char>>::empty());
    } else {
        lemma_jstr_list_rest_roundtrip(l.drop_first(), tail);
        let r = spec_jstr_items_rest(l.drop_first()) + seq![']'] + tail;
        assert(s =~= seq![','] + (spec_jstr(l[0]) + r));
        assert(s[0] == ',');
        assert(s.drop_first() =~= spec_jstr(l[0]) + r);
        lemma_jstr_roundtrip(l[0], r);
        assert(r.len() < s.len());
        assert(seq![l[0]] + l.drop_first() =~= l);
    }
}

proof fn lemma_jstr_list_roundtrip(l: Seq<Seq<char>>, tail: Seq<char>)
    ensures
        sp_jstr_list(spec_jstr_items(l) + seq![']'] + tail) == Some((l, tail)),
{
    let s = spec_jstr_items(l) + seq![']'] + tail;
    if l.len() == 0 {
        assert(s =~= seq![']'] + tail);
        assert(s[0] == ']');
        assert(s.drop_first() =~= tail);
        assert(l =~= Seq::<Seq<char>>::empty());
    } else {
        lemma_jstr_items_decomp(l);
        let r = spec_jstr_items_rest(l.drop_first()) + seq![']'] + tail;
        assert(s =~= spec_jstr(l[0]) + r);
        lemma_jstr_roundtrip(l[0], r);
        assert(s[0] == '"');
        lemma_jstr_list_rest_roundtrip(l.drop_first(), tail);
        assert(seq![l[0]] + l.drop_first() =~= l);
    }
}

proof fn lemma_pair_roundtrip(p: (Seq<char>, u32), tail: Seq<char>)
    requires
        tail.len() > 0,
        !is_digit(tail[0]),
    ensures
        sp_pair(spec_pair(p) + tail) == Some((p, tail)),
        (spec_pair(p) + tail)[0] == '"',
        spec_pair(p).len() >= 4,
{
    let s = spec_pair(p) + tail;
    let r = seq![':'] + spec_dec(p.1 as nat) + tail;
    assert(s =~= spec_jstr(p.0) + r);
    lemma_jstr_roundtrip(p.0, r);
    assert(r[0] == ':');
    assert(r.drop_first() =~= spec_dec(p.1 as nat) + tail);
    lemma_u32_roundtrip(p.1, tail);
    crate::text::lemma_spec_dec_digits(p.1 as nat);
}

/// The rendering of a tally continuation: a comma before each entry.
spec fn spec_pair_items_rest(l: Seq<(Seq<char>, u32)>) -> Seq<char>
    decreases l.len(),
{
    if l.len() == 0 {
        Seq::empty()
    } else {
        seq![','] + spec_pair(l[0]) + spec_pair_items_rest(l.drop_first())
    }
}

proof fn lemma_pair_items_decomp(l: Seq<(Seq<char>, u32)>)
    requires
        l.len() >= 1,
    ensures
        spec_pair_items(l) == spec_pair(l[0]) + spec_pair_items_rest(l.drop_first()),
    decreases l.len(),
{
    if l.len() == 1 {
        assert(spec_pair_items_rest(l.drop_first()) == Seq::<char>::empty());
        assert(spec_pair_items(l) =~= spec_pair(l[0]) + spec_pair_items_rest(l.drop_first()));
    } else {
        lemma_pair_items_decomp(l.drop_first());
        assert(spec_pair_items(l) == spec_pair(l[0]) + seq![','] + spec_pair_items(
            l.drop_first(),
        ));
        assert(spec_pair_items_rest(l.drop_first()) == seq![','] + spec_pair(l.drop_first()[0])
            + spec_pair_items_rest(l.drop_first().drop_first()));
        assert(spec_pair_items(l) =~= spec_pair(l[0]) + spec_pair_items_rest(l.drop_first()));
    }
}

proof fn lemma_pairs_rest_roundtrip(l: Seq<(Seq<char>, u32)>, tail: Seq<char>)
    ensures
        sp_pairs_rest(spec_pair_items_rest(l) + seq!['}'] + tail) == Some((l, tail)),
    decreases l.len(),
{
    let s = spec_pair_items_rest(l) + seq!['}'] + tail;
    if l.len() == 0 {
        assert(s =~= seq!['}'] + tail);
        assert(s[0] == '}');
        assert(s.drop_first() =~= tail);
        assert(l =~= Seq::<(Seq<char>, u32)>::empty());
    } else {
        lemma_pairs_rest_roundtrip(l.drop_first(), tail);
        let r = spec_pair_items_rest(l.drop_first()) + seq!['}'] + tail;
        assert(s =~= seq![','] + (spec_pair(l[0]) + r));
        assert(s[0] == ',');
        assert(s.drop_first() =~= spec_pair(l[0]) + r);
        assert(r[0] == ',' || r[0] == '}');
        lemma_pair_roundtrip(l[0], r);
        assert(r.len() < s.len());
        assert(seq![l[0]] + l.drop_first() =~= l);
    }
}

proof fn lemma_pairs_list_roundtrip(l: Seq<(Seq<char>, u32)>, tail: Seq<char>)
    ensures
        sp_pairs_list(spec_pair_items(l) + seq!['}'] + tail) == Some((l, tail)),
{
    let s = spec_pair_items(l) + seq!['}'] + tail;
    if l.len() == 0 {
        assert(s =~= seq!['}'] + tail);
        assert(s[0] == '}');
        assert(s.drop_first() =~= tail);
        assert(l =~= Seq::<(Seq<char>, u32)>::empty());
    } else {
        lemma_pair_items_decomp(l);
        let r = spec_pair_items_rest(l.drop_first()) + seq!['}'] + tail;
        assert(s =~= spec_pair(l[0]) + r);
        assert(r[0] == ',' || r[0] == '}');
        lemma_pair_roundtrip(l[0], r);
        assert(s[0] == '"');
        lemma_pairs_rest_roundtrip(l.drop_first(), tail);
        assert(seq![l[0]] + l.drop_first() =~= l);
    }
}

/// Saving then loading yields an equal record: parsing the rendering
/// of any progress record gives exactly that record back.
#[verifier::rlimit(100)]
pub proof fn lemma_progress_round_trip(
    version: u32,
    completed: Seq<Seq<char>>,
    current: Option<Seq<char>>,
    hints: Seq<(Seq<char>, u32)>,
    started_at: Option<Seq<char>>,
    last_activity: Option<Seq<char>>,
)
    ensures
        sp_progress(
            spec_render_progress(version, completed, current, hints, started_at, last_activity),
        ) == Some((version, completed, current, hints, started_at, last_activity)),
{
    let k1 = "{\"version\":"@;
    let k2 = ",\"completed\":["@;
    let k3 = ",\"current\":"@;
    let k4 = ",\"hints_used\":{"@;
    let k5 = ",\"started_at\":"@;
    let k6 = ",\"last_activity\":"@;
    reveal_strlit(",\"completed\":[");

    let w = spec_render_progress(version, completed, current, hints, started_at, last_activity);

    // The tails of the document, from the back.
    let rest12 = seq!['}'];
    let rest11 = spec_jopt(last_activity) + rest12;
    let rest10 = k6 + rest11;
    let rest9 = spec_jopt(started_at) + rest10;
    let rest8 = k5 + rest9;
    let rest7 = spec_pair_items(hints) + seq!['}'] + rest8;
    let rest6 = k4 + rest7;
    let rest5 = spec_jopt(current) + rest6;
    let rest4 = k3 + rest5;
    let rest3 = spec_jstr_items(completed) + seq![']'] + rest4;
    let rest2 = k2 + rest3;
    let rest1 = spec_dec(version as nat) + rest2;

    assert(w =~= k1 + rest1);
    lemma_expect_prefix(k1, rest1);

    assert(rest2[0] == ',');
    lemma_u32_roundtrip(version, rest2);

    assert(rest3 =~= k2.skip(k2.len() as int) + rest3);
    lemma_expect_prefix(k2, rest3);

    lemma_jstr_list_roundtrip(completed, rest4);

    lemma_expect_prefix(k3, rest5);

    assert(rest6.len() > 0);
    lemma_jopt_roundtrip(current, rest6);

    lemma_expect_prefix(k4, rest7);

    lemma_pairs_list_roundtrip(hints, rest8);

    lemma_expect_prefix(k5, rest9);

    assert(rest10.len() > 0);
    lemma_jopt_roundtrip(started_at, rest10);

    lemma_expect_prefix(k6, rest11);

    assert(rest12.len() > 0);
    lemma_jopt_roundtrip(last_activity, rest12);
}

} // verus!
