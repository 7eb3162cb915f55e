//! The rendering layer: a result map as one compact single-line JSON
//! object, or as plain text.  Plain `get` output joins the non-URL
//! entry values with single spaces; a nested query mapping prints as
//! `key=value` pairs joined by commas.

use vstd::prelude::*;
use crate::component::url_key;
use crate::resultmap::{EntryValue, ResultMap, ValView};
use crate::text::str_chars;

verus! {

/// A lowercase hexadecimal digit character.
pub open spec fn hex_digit(d: nat) -> char
    recommends
        d < 16,
{
    if d == 0 { '0' }
    else if d == 1 { '1' }
    else if d == 2 { '2' }
    else if d == 3 { '3' }
    else if d == 4 { '4' }
    else if d == 5 { '5' }
    else if d == 6 { '6' }
    else if d == 7 { '7' }
    else if d == 8 { '8' }
    else if d == 9 { '9' }
    else if d == 10 { 'a' }
    else if d == 11 { 'b' }
    else if d == 12 { 'c' }
    else if d == 13 { 'd' }
    else if d == 14 { 'e' }
    else { 'f' }
}

/// The JSON escape of one character: quotes and backslashes are
/// escaped, newline, carriage return and tab use their short escapes,
/// other control characters the `\u00XX` form, everything else stands
/// as itself.
pub open spec fn esc_char(c: char) -> Seq<char> {
    if c == '"' {
        seq!['\\', '"']
    } else if c == '\\' {
        seq!['\\', '\\']
    } else if c == '\n' {
        seq!['\\', 'n']
    } else if c == '\r' {
        seq!['\\', 'r']
    } else if c == '\t' {
        seq!['\\', 't']
    } else if (c as u32) < 32 {
        seq!['\\', 'u', '0', '0', hex_digit((c as u32 / 16) as nat), hex_digit(
            (c as u32 % 16) as nat,
        )]
    } else {
        seq![c]
    }
}

/// The JSON escape of a character sequence.
pub open spec fn esc(s: Seq<char>) -> Seq<char>
    decreases s.len(),
{
    if s.len() == 0 {
        Seq::empty()
    } else {
        esc_char(s[0]) + esc(s.drop_first())
    }
}

/// Escaping distributes over appending one character.
proof fn lemma_esc_snoc(a: Seq<char>, c: char)
    ensures
        esc(a.push(c)) == esc(a) + esc_char(c),
    decreases a.len(),
{
    if a.len() == 0 {
        assert(a.push(c)[0] == c);
        assert(a.push(c).drop_first() =~= Seq::<char>::empty());
        assert(esc(a.push(c)) == esc_char(c) + esc(Seq::<char>::empty()));
        assert(esc(Seq::<char>::empty()) =~= Seq::<char>::empty());
        assert(esc(a) =~= Seq::<char>::empty());
        assert(esc(a.push(c)) =~= esc(a) + esc_char(c));
    } else {
        assert(a.push(c)[0] == a[0]);
        assert(a.push(c).drop_first() =~= a.drop_first().push(c));
        lemma_esc_snoc(a.drop_first(), c);
        assert(esc_char(a[0]) + (esc(a.drop_first()) + esc_char(c)) =~= (esc_char(a[0]) + esc(
            a.drop_first(),
        )) + esc_char(c));
    }
}

/// A JSON string literal: the escaped text in double quotes.
pub open spec fn json_str(s: Seq<char>) -> Seq<char> {
    seq!['"'] + esc(s) + seq!['"']
}

/// The members of a JSON object of string pairs, comma-separated.
pub open spec fn json_pairs_body(ps: Seq<(Seq<char>, Seq<char>)>) -> Seq<char>
    decreases ps.len(),
{
    if ps.len() == 0 {
        Seq::empty()
    } else if ps.len() == 1 {
        json_str(ps[0].0) + seq![':'] + json_str(ps[0].1)
    } else {
        json_pairs_body(ps.drop_last()) + seq![','] + json_str(ps.last().0) + seq![':']
            + json_str(ps.last().1)
    }
}

/// A result value as JSON: a string, or an object of the query pairs.
pub open spec fn json_val(v: ValView) -> Seq<char> {
    match v {
        ValView::Text(s) => json_str(s),
        ValView::Pairs(ps) => seq!['{'] + json_pairs_body(ps) + seq!['}'],
    }
}

/// The members of the result object, comma-separated, in map order.
pub open spec fn json_entries_body(es: Seq<(Seq<char>, ValView)>) -> Seq<char>
    decreases es.len(),
{
    if es.len() == 0 {
        Seq::empty()
    } else if es.len() == 1 {
        json_str(es[0].0) + seq![':'] + json_val(es[0].1)
    } else {
        json_entries_body(es.drop_last()) + seq![','] + json_str(es.last().0) + seq![':']
            + json_val(es.last().1)
    }
}

/// A result map as one compact JSON object, keys in map order.
pub open spec fn spec_render_json(es: Seq<(Seq<char>, ValView)>) -> Seq<char> {
    seq!['{'] + json_entries_body(es) + seq!['}']
}

/// A nested query mapping as plain text: `key=value` pairs joined by
/// commas, in map order.
pub open spec fn pairs_plain(ps: Seq<(Seq<char>, Seq<char>)>) -> Seq<char>
    decreases ps.len(),
{
    if ps.len() == 0 {
        Seq::empty()
    } else if ps.len() == 1 {
        ps[0].0 + seq!['='] + ps[0].1
    } else {
        pairs_plain(ps.drop_last()) + seq![','] + ps.last().0 + seq!['='] + ps.last().1
    }
}

/// A result value as plain text.
pub open spec fn plain_val(v: ValView) -> Seq<char> {
    match v {
        ValView::Text(s) => s,
        ValView::Pairs(ps) => pairs_plain(ps),
    }
}

/// Entry values joined by single spaces, in map order.
pub open spec fn join_vals(es: Seq<(Seq<char>, ValView)>) -> Seq<char>
    decreases es.len(),
{
    if es.len() == 0 {
        Seq::empty()
    } else if es.len() == 1 {
        plain_val(es[0].1)
    } else {
        join_vals(es.drop_last()) + seq![' '] + plain_val(es.last().1)
    }
}

/// Plain `get` output: the full-URL entry is omitted, the remaining
/// values are joined by single spaces in map order.
pub open spec fn spec_render_plain_get(es: Seq<(Seq<char>, ValView)>) -> Seq<char> {
    join_vals(es.skip(1))
}

/// A lowercase hexadecimal digit character.
fn hex_char(d: u32) -> (c: char)
    requires
        d < 16,
    ensures
        c == hex_digit(d as nat),
{
    if d == 0 { '0' }
    else if d == 1 { '1' }
    else if d == 2 { '2' }
    else if d == 3 { '3' }
    else if d == 4 { '4' }
    else if d == 5 { '5' }
    else if d == 6 { '6' }
    else if d == 7 { '7' }
    else if d == 8 { '8' }
    else if d == 9 { '9' }
    else if d == 10 { 'a' }
    else if d == 11 { 'b' }
    else if d == 12 { 'c' }
    else if d == 13 { 'd' }
    else if d == 14 { 'e' }
    else { 'f' }
}

/// Appends the characters of `s` to `out`.
fn push_str_chars(out: &mut Vec<char>, s: &str)
    ensures
        final(out)@ == old(out)@ + s@,
{
    let chars = str_chars(s);
    let n = chars.len();
    let mut i: usize = 0;
    while i < n
        invariant
            n == chars@.len(),
            chars@ == s@,
            i <= n,
            out@ == old(out)@ + s@.take(i as int),
        decreases n - i,
    {
        out.push(chars[i]);
        proof {
            assert(old(out)@ + s@.take(i + 1) =~= (old(out)@ + s@.take(i as int)).push(
                s@[i as int],
            ));
        }
        i = i + 1;
    }
    proof {
        assert(s@.take(n as int) =~= s@);
    }
}

/// Appends the JSON escape of `s` to `out`.
fn push_escaped(out: &mut Vec<char>, s: &str)
    ensures
        final(out)@ == old(out)@ + esc(s@),
{
    let chars = str_chars(s);
    let n = chars.len();
    let mut i: usize = 0;
    proof {
        assert(esc(s@.take(0)) =~= Seq::<char>::empty());
        assert(out@ =~= old(out)@ + esc(s@.take(0)));
    }
    while i < n
        invariant
            n == chars@.len(),
            chars@ == s@,
            i <= n,
            out@ == old(out)@ + esc(s@.take(i as int)),
        decreases n - i,
    {
        let c = chars[i];
        let cv = c as u32;
        if c == '"' {
            out.push('\\');
            out.push('"');
        } else if c == '\\' {
            out.push('\\');
            out.push('\\');
        } else if c == '\n' {
            out.push('\\');
            out.push('n');
        } else if c == '\r' {
            out.push('\\');
            out.push('r');
        } else if c == '\t' {
            out.push('\\');
            out.push('t');
        } else if cv < 32 {
            out.push('\\');
            out.push('u');
            out.push('0');
            out.push('0');
            out.push(hex_char(cv / 16));
            out.push(hex_char(cv % 16));
        } else {
            out.push(c);
        }
        proof {
            assert(out@ =~= (old(out)@ + esc(s@.take(i as int))) + esc_char(s@[i as int]));
            assert(s@.take(i + 1) =~= s@.take(i as int).push(s@[i as int]));
            lemma_esc_snoc(s@.take(i as int), s@[i as int]);
            assert(out@ =~= old(out)@ + esc(s@.take(i + 1)));
        }
        i = i + 1;
    }
    proof {
        assert(s@.take(n as int) =~= s@);
    }
}

/// Appends a JSON string literal for `s` to `out`.
fn push_json_str(out: &mut Vec<char>, s: &str)
    ensures
        final(out)@ == old(out)@ + json_str(s@),
{
    out.push('"');
    push_escaped(out, s);
    out.push('"');
    proof {
        assert(final(out)@ =~= old(out)@ + json_str(s@));
    }
}

/// Appends the JSON object of the query pairs to `out`.
fn push_pairs_json(out: &mut Vec<char>, ps: &Vec<(String, String)>)
    ensures
        final(out)@ == old(out)@ + json_val(ValView::Pairs(ps.deep_view())),
{
    out.push('{');
    let ghost dv = ps.deep_view();
    let n = ps.len();
    proof {
        assert(dv.len() == ps@.len());
        assert(json_pairs_body(dv.take(0)) =~= Seq::<char>::empty());
        assert(out@ =~= old(out)@ + seq!['{'] + json_pairs_body(dv.take(0)));
    }
    let mut i: usize = 0;
    while i < n
        invariant
            n == ps@.len(),
            dv == ps.deep_view(),
            dv.len() == n,
            i <= n,
            out@ == old(out)@ + seq!['{'] + json_pairs_body(dv.take(i as int)),
        decreases n - i,
    {
        if i > 0 {
            out.push(',');
        }
        push_json_str(out, ps[i].0.as_str());
        out.push(':');
        push_json_str(out, ps[i].1.as_str());
        proof {
            assert(dv[i as int] == (ps@[i as int].0@, ps@[i as int].1@));
            let pre = dv.take(i as int);
            assert(dv.take(i + 1).drop_last() =~= pre);
            assert(dv.take(i + 1).last() == dv[i as int]);
            if i == 0 {
                assert(out@ =~= old(out)@ + seq!['{'] + json_pairs_body(dv.take(1)));
            } else {
                assert(json_pairs_body(dv.take(i + 1)) == json_pairs_body(pre) + seq![',']
                    + json_str(dv[i as int].0) + seq![':'] + json_str(dv[i as int].1));
                assert(out@ =~= old(out)@ + seq!['{'] + json_pairs_body(dv.take(i + 1)));
            }
        }
        i = i + 1;
    }
    out.push('}');
    proof {
        assert(dv.take(n as int) =~= dv);
        assert(final(out)@ =~= old(out)@ + json_val(ValView::Pairs(dv)));
    }
}

/// Renders a result map as one compact single-line JSON object, keys
/// in map order.
pub fn render_json(m: &ResultMap) -> (r: Vec<char>)
    ensures
        r@ == spec_render_json(m@),
{
    let mut out: Vec<char> = Vec::new();
    out.push('{');
    let n = m.entries.len();
    proof {
        assert(json_entries_body(m@.take(0)) =~= Seq::<char>::empty());
        assert(out@ =~= seq!['{'] + json_entries_body(m@.take(0)));
    }
    let mut i: usize = 0;
    while i < n
        invariant
            n == m.entries@.len(),
            m@.len() == n,
            i <= n,
            out@ == seq!['{'] + json_entries_body(m@.take(i as int)),
        decreases n - i,
    {
        if i > 0 {
            out.push(',');
        }
        push_json_str(&mut out, m.entries[i].0.as_str());
        out.push(':');
        match &m.entries[i].1 {
            EntryValue::Text(s) => {
                push_json_str(&mut out, s.as_str());
            }
            EntryValue::Pairs(ps) => {
                push_pairs_json(&mut out, ps);
            }
        }
        proof {
            assert(m@[i as int] == (m.entries@[i as int].0@, m.entries@[i as int].1@));
            let pre = m@.take(i as int);
            assert(m@.take(i + 1).drop_last() =~= pre);
            assert(m@.take(i + 1).last() == m@[i as int]);
            if i == 0 {
                assert(out@ =~= seq!['{'] + json_entries_body(m@.take(1)));
            } else {
                assert(json_entries_body(m@.take(i + 1)) == json_entries_body(pre) + seq![',']
                    + json_str(m@[i as int].0) + seq![':'] + json_val(m@[i as int].1));
                assert(out@ =~= seq!['{'] + json_entries_body(m@.take(i + 1)));
            }
        }
        i = i + 1;
    }
    out.push('}');
    proof {
        assert(m@.take(n as int) =~= m@);
        assert(out@ =~= spec_render_json(m@));
    }
    out
}

/// Appends the plain text of one entry value to `out`.
fn push_plain_val(out: &mut Vec<char>, v: &EntryValue)
    ensures
        final(out)@ == old(out)@ + plain_val(v@),
{
    match v {
        EntryValue::Text(s) => {
            push_str_chars(out, s.as_str());
        }
        EntryValue::Pairs(ps) => {
            let ghost dv = ps.deep_view();
            let n = ps.len();
            proof {
                assert(dv.len() == ps@.len());
                assert(pairs_plain(dv.take(0)) =~= Seq::<char>::empty());
                assert(out@ =~= old(out)@ + pairs_plain(dv.take(0)));
            }
            let mut i: usize = 0;
            while i < n
                invariant
                    n == ps@.len(),
                    dv == ps.deep_view(),
                    dv.len() == n,
                    i <= n,
                    out@ == old(out)@ + pairs_plain(dv.take(i as int)),
                decreases n - i,
            {
                if i > 0 {
                    out.push(',');
                }
                push_str_chars(out, ps[i].0.as_str());
                out.push('=');
                push_str_chars(out, ps[i].1.as_str());
                proof {
                    assert(dv[i as int] == (ps@[i as int].0@, ps@[i as int].1@));
                    let pre = dv.take(i as int);
                    assert(dv.take(i + 1).drop_last() =~= pre);
                    assert(dv.take(i + 1).last() == dv[i as int]);
                    if i == 0 {
                        assert(out@ =~= old(out)@ + pairs_plain(dv.take(1)));
                    } else {
                        assert(pairs_plain(dv.take(i + 1)) == pairs_plain(pre) + seq![',']
                            + dv[i as int].0 + seq!['='] + dv[i as int].1);
                        assert(out@ =~= old(out)@ + pairs_plain(dv.take(i + 1)));
                    }
                }
                i = i + 1;
            }
            proof {
                assert(dv.take(n as int) =~= dv);
            }
        }
    }
}

/// Renders a result map for a plain-text `get`: the full-URL entry is
/// omitted, the remaining entry values joined by single spaces.
pub fn render_plain_get(m: &ResultMap) -> (r: Vec<char>)
    requires
        m@.len() >= 1,
        m@[0].0 == url_key(),
    ensures
        r@ == spec_render_plain_get(m@),
{
    let mut out: Vec<char> = Vec::new();
    let n = m.entries.len();
    let ghost tail = m@.skip(1);
    proof {
        assert(join_vals(tail.take(0)) =~= Seq::<char>::empty());
        assert(out@ =~= join_vals(tail.take(0)));
    }
    let mut i: usize = 1;
    while i < n
        invariant
            n == m.entries@.len(),
            m@.len() == n,
            n >= 1,
            1 <= i <= n,
            tail == m@.skip(1),
            out@ == join_vals(tail.take(i - 1)),
        decreases n - i,
    {
        if i > 1 {
            out.push(' ');
        }
        push_plain_val(&mut out, &m.entries[i].1);
        proof {
            assert(m@[i as int] == (m.entries@[i as int].0@, m.entries@[i as int].1@));
            assert(tail[i - 1] == m@[i as int]);
            let pre = tail.take(i - 1);
            assert(tail.take(i as int).drop_last() =~= pre);
            assert(tail.take(i as int).last() == tail[i - 1]);
            if i == 1 {
                assert(out@ =~= join_vals(tail.take(1)));
            } else {
                assert(join_vals(tail.take(i as int)) == join_vals(pre) + seq![' '] + plain_val(
                    tail[i - 1].1,
                ));
                assert(out@ =~= join_vals(tail.take(i as int)));
            }
        }
        i = i + 1;
    }
    proof {
        assert(tail.take(n - 1) =~= tail);
    }
    out
}

} // verus!
