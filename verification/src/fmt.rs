//! Turning a value into output text. Top-level strings are emitted
//! verbatim and an undefined value emits nothing; inside collections,
//! strings are quoted.

use vstd::prelude::*;

use crate::value::{list_view, kvs_view, Val, Value, lemma_list_view, lemma_kvs_view};

verus! {

broadcast use vstd::std_specs::vec::group_vec_axioms;

pub open spec fn digit_char(d: int) -> char {
    if d == 0 {
        '0'
    } else if d == 1 {
        '1'
    } else if d == 2 {
        '2'
    } else if d == 3 {
        '3'
    } else if d == 4 {
        '4'
    } else if d == 5 {
        '5'
    } else if d == 6 {
        '6'
    } else if d == 7 {
        '7'
    } else if d == 8 {
        '8'
    } else {
        '9'
    }
}

/// Decimal digits of a nonnegative number, most significant first.
pub open spec fn dec_digits(n: int) -> Seq<char>
    decreases n,
{
    if n < 10 {
        seq![digit_char(n)]
    } else {
        dec_digits(n / 10).push(digit_char(n % 10))
    }
}

/// Decimal rendering of a signed number.
pub open spec fn sp_fmt_int(n: i64) -> Seq<char> {
    if n < 0 {
        seq!['-'] + dec_digits(-(n as int))
    } else {
        dec_digits(n as int)
    }
}

/// Rendering of one value at the top level of output.
pub open spec fn sp_fmt(v: Val) -> Seq<char>
    decreases v, 1int,
{
    match v {
        Val::Null => "none"@,
        Val::Bool(b) => if b {
            "true"@
        } else {
            "false"@
        },
        Val::Int(n) => sp_fmt_int(n),
        Val::Str(s) => s,
        Val::List(items) => seq!['['] + sp_fmt_items(items) + seq![']'],
        Val::Dict(entries) => seq!['{'] + sp_fmt_entries(entries) + seq!['}'],
        Val::Kwargs(entries) => seq!['{'] + sp_fmt_entries(entries) + seq!['}'],
        Val::Obj(entries) => seq!['{'] + sp_fmt_entries(entries) + seq!['}'],
        Val::Undef => Seq::empty(),
    }
}

/// Rendering of one value inside a collection: strings are quoted.
pub open spec fn sp_fmt_elem(v: Val) -> Seq<char>
    decreases v, 2int,
{
    match v {
        Val::Str(s) => seq!['"'] + s + seq!['"'],
        _ => sp_fmt(v),
    }
}

/// Comma-separated renderings of a sequence of values.
pub open spec fn sp_fmt_items(items: Seq<Val>) -> Seq<char>
    decreases items, 3int,
{
    if items.len() == 0 {
        Seq::empty()
    } else if items.len() == 1 {
        sp_fmt_elem(items[0])
    } else {
        sp_fmt_items(items.drop_last()) + seq![',', ' '] + sp_fmt_elem(items.last())
    }
}

/// Comma-separated `"key": value` renderings of entries.
pub open spec fn sp_fmt_entries(entries: Seq<(Seq<char>, Val)>) -> Seq<char>
    decreases entries, 3int,
{
    if entries.len() == 0 {
        Seq::empty()
    } else if entries.len() == 1 {
        sp_fmt_entry(entries[0].0, entries[0].1)
    } else {
        sp_fmt_entries(entries.drop_last()) + seq![',', ' '] + sp_fmt_entry(
            entries.last().0,
            entries.last().1,
        )
    }
}

pub open spec fn sp_fmt_entry(k: Seq<char>, v: Val) -> Seq<char>
    decreases v, 4int,
{
    seq!['"'] + k + seq!['"', ':', ' '] + sp_fmt_elem(v)
}

/// Pushes every character of `s` onto `out`.
#[verifier::loop_isolation(false)]
pub fn push_str_chars(out: &mut Vec<char>, s: &str)
    ensures
        final(out)@ == old(out)@ + s@,
{
    let n = s.unicode_len();
    let mut i: usize = 0;
    while i < n
        invariant
            i <= n,
            n == s@.len(),
            out@ =~= old(out)@ + s@.take(i as int),
        decreases n - i,
    {
        out.push(s.get_char(i));
        proof {
            assert(old(out)@ + s@.take(i as int + 1) =~= (old(out)@ + s@.take(i as int)).push(
                s@[i as int],
            ));
        }
        i += 1;
    }
    proof {
        assert(s@.take(n as int) =~= s@);
    }
}

/// Decimal digits of a nonnegative number, as characters.
pub fn fmt_mag(n: u64) -> (r: Vec<char>)
    ensures
        r@ == dec_digits(n as int),
    decreases n,
{
    let d = n % 10;
    let c: char = if d == 0 {
        '0'
    } else if d == 1 {
        '1'
    } else if d == 2 {
        '2'
    } else if d == 3 {
        '3'
    } else if d == 4 {
        '4'
    } else if d == 5 {
        '5'
    } else if d == 6 {
        '6'
    } else if d == 7 {
        '7'
    } else if d == 8 {
        '8'
    } else {
        '9'
    };
    assert(c == digit_char(n as int % 10));
    if n < 10 {
        let mut out: Vec<char> = Vec::new();
        out.push(c);
        proof {
            assert(out@ =~= seq![digit_char(n as int)]);
        }
        out
    } else {
        let mut out = fmt_mag(n / 10);
        out.push(c);
        out
    }
}

/// Decimal rendering of a signed number, appended to `out`.
pub fn push_int(out: &mut Vec<char>, n: i64)
    ensures
        final(out)@ == old(out)@ + sp_fmt_int(n),
{
    if n < 0 {
        out.push('-');
        let mag: u64 = (-(n as i128)) as u64;
        let digs = fmt_mag(mag);
        let mut k: usize = 0;
        proof {
            assert(out@ =~= old(out)@ + seq!['-'] + dec_digits(mag as int).take(0));
        }
        while k < digs.len()
            invariant
                k <= digs@.len(),
                digs@ == dec_digits(mag as int),
                mag == -(n as int),
                out@ =~= old(out)@ + seq!['-'] + digs@.take(k as int),
            decreases digs@.len() - k,
        {
            out.push(digs[k]);
            proof {
                assert(old(out)@ + seq!['-'] + digs@.take(k as int + 1) =~= (old(out)@ + seq!['-']
                    + digs@.take(k as int)).push(digs@[k as int]));
            }
            k += 1;
        }
        proof {
            assert(digs@.take(digs@.len() as int) =~= digs@);
            assert(out@ =~= old(out)@ + sp_fmt_int(n));
        }
    } else {
        let digs = fmt_mag(n as u64);
        let mut k: usize = 0;
        proof {
            assert(out@ =~= old(out)@ + digs@.take(0));
        }
        while k < digs.len()
            invariant
                k <= digs@.len(),
                digs@ == dec_digits(n as int),
                n >= 0,
                out@ =~= old(out)@ + digs@.take(k as int),
            decreases digs@.len() - k,
        {
            out.push(digs[k]);
            proof {
                assert(old(out)@ + digs@.take(k as int + 1) =~= (old(out)@ + digs@.take(
                    k as int,
                )).push(digs@[k as int]));
            }
            k += 1;
        }
        proof {
            assert(digs@.take(digs@.len() as int) =~= digs@);
            assert(out@ =~= old(out)@ + sp_fmt_int(n));
        }
    }
}

/// Renders `v` onto `out` as top-level output text.
pub fn push_fmt(out: &mut Vec<char>, v: &Value)
    ensures
        final(out)@ == old(out)@ + sp_fmt(v@),
    decreases v, 1int,
{
    broadcast use lemma_list_view, lemma_kvs_view;

    match v {
        Value::Null => {
            push_str_chars(out, "none");
            proof {
                reveal_strlit("none");
            }
        }
        Value::Bool(b) => {
            if *b {
                push_str_chars(out, "true");
            } else {
                push_str_chars(out, "false");
            }
        }
        Value::Int(n) => {
            push_int(out, *n);
        }
        Value::Str(s) => {
            push_str_chars(out, s.as_str());
        }
        Value::List(items) => {
            out.push('[');
            push_fmt_items(out, items);
            out.push(']');
            proof {
                assert(out@ =~= old(out)@ + sp_fmt(v@));
            }
        }
        Value::Dict(entries) => {
            out.push('{');
            push_fmt_entries(out, entries);
            out.push('}');
            proof {
                assert(out@ =~= old(out)@ + sp_fmt(v@));
            }
        }
        Value::Kwargs(entries) => {
            out.push('{');
            push_fmt_entries(out, entries);
            out.push('}');
            proof {
                assert(out@ =~= old(out)@ + sp_fmt(v@));
            }
        }
        Value::Obj(o) => {
            out.push('{');
            push_fmt_entries(out, &o.attrs);
            out.push('}');
            proof {
                assert(out@ =~= old(out)@ + sp_fmt(v@));
            }
        }
        Value::Undef => {
            proof {
                assert(out@ =~= old(out)@ + sp_fmt(v@));
            }
        }
    }
}

/// Renders `v` onto `out` as a collection element.
pub fn push_fmt_elem(out: &mut Vec<char>, v: &Value)
    ensures
        final(out)@ == old(out)@ + sp_fmt_elem(v@),
    decreases v, 2int,
{
    match v {
        Value::Str(s) => {
            out.push('"');
            push_str_chars(out, s.as_str());
            out.push('"');
            proof {
                assert(out@ =~= old(out)@ + sp_fmt_elem(v@));
            }
        }
        _ => {
            push_fmt(out, v);
            proof {
                assert(sp_fmt_elem(v@) == sp_fmt(v@));
            }
        }
    }
}

/// Renders a comma-separated element list onto `out`.
#[verifier::loop_isolation(false)]
pub fn push_fmt_items(out: &mut Vec<char>, items: &Vec<Value>)
    ensures
        final(out)@ == old(out)@ + sp_fmt_items(list_view(items@)),
    decreases items, 3int,
{
    broadcast use lemma_list_view;

    let mut i: usize = 0;
    proof {
        assert(sp_fmt_items(list_view(items@).take(0)) =~= Seq::<char>::empty());
        assert(out@ =~= old(out)@ + sp_fmt_items(list_view(items@).take(0)));
    }
    while i < items.len()
        invariant
            i <= items@.len(),
            out@ =~= old(out)@ + sp_fmt_items(list_view(items@).take(i as int)),
        decreases items@.len() - i,
    {
        if i > 0 {
            out.push(',');
            out.push(' ');
        }
        push_fmt_elem(out, &items[i]);
        proof {
            let lv = list_view(items@);
            assert(lv.take(i as int + 1).drop_last() =~= lv.take(i as int));
            assert(lv.take(i as int + 1).last() == lv[i as int]);
            if i == 0 {
                assert(sp_fmt_items(lv.take(1)) == sp_fmt_elem(lv[0]));
            }
            assert(out@ =~= old(out)@ + sp_fmt_items(lv.take(i as int + 1)));
        }
        i += 1;
    }
    proof {
        assert(list_view(items@).take(items@.len() as int) =~= list_view(items@));
    }
}

/// Renders a comma-separated entry list onto `out`.
#[verifier::loop_isolation(false)]
pub fn push_fmt_entries(out: &mut Vec<char>, entries: &Vec<(String, Value)>)
    ensures
        final(out)@ == old(out)@ + sp_fmt_entries(kvs_view(entries@)),
    decreases entries, 3int,
{
    broadcast use lemma_kvs_view;

    let mut i: usize = 0;
    proof {
        assert(sp_fmt_entries(kvs_view(entries@).take(0)) =~= Seq::<char>::empty());
        assert(out@ =~= old(out)@ + sp_fmt_entries(kvs_view(entries@).take(0)));
    }
    while i < entries.len()
        invariant
            i <= entries@.len(),
            out@ =~= old(out)@ + sp_fmt_entries(kvs_view(entries@).take(i as int)),
        decreases entries@.len() - i,
    {
        if i > 0 {
            out.push(',');
            out.push(' ');
        }
        out.push('"');
        push_str_chars(out, entries[i].0.as_str());
        out.push('"');
        out.push(':');
        out.push(' ');
        push_fmt_elem(out, &entries[i].1);
        proof {
            let ev = kvs_view(entries@);
            assert(ev.take(i as int + 1).drop_last() =~= ev.take(i as int));
            assert(ev.take(i as int + 1).last() == ev[i as int]);
            assert(sp_fmt_entry(ev[i as int].0, ev[i as int].1) =~= seq!['"']
                + entries@[i as int].0@ + seq!['"', ':', ' '] + sp_fmt_elem(
                entries@[i as int].1@,
            ));
            if i == 0 {
                assert(sp_fmt_entries(ev.take(1)) == sp_fmt_entry(ev[0].0, ev[0].1));
            } else {
                assert(sp_fmt_entries(ev.take(i as int + 1)) == sp_fmt_entries(ev.take(i as int))
                    + seq![',', ' '] + sp_fmt_entry(ev[i as int].0, ev[i as int].1));
            }
            assert(out@ =~= old(out)@ + sp_fmt_entries(ev.take(i as int + 1)));
        }
        i += 1;
    }
    proof {
        assert(kvs_view(entries@).take(entries@.len() as int) =~= kvs_view(entries@));
    }
}

} // verus!
