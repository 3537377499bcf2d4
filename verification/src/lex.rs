//! The tokenizer for tag bodies: expression text between `{{ }}` or
//! `{% %}` markers becomes a token sequence. The spec-level tokenizer
//! `sp_lex` is the model the executable one is proved against.

use vstd::prelude::*;

verus! {

broadcast use vstd::std_specs::vec::group_vec_axioms;

pub open spec fn is_space(c: char) -> bool {
    c == ' ' || c == '\t' || c == '\n' || c == '\r'
}

pub open spec fn is_digit(c: char) -> bool {
    48 <= c as u32 && c as u32 <= 57
}

pub open spec fn is_ident_start(c: char) -> bool {
    (97 <= c as u32 && c as u32 <= 122) || (65 <= c as u32 && c as u32 <= 90) || c == '_'
}

pub open spec fn is_ident_char(c: char) -> bool {
    is_ident_start(c) || is_digit(c)
}

pub open spec fn digit_val(c: char) -> int {
    c as u32 - 48
}

pub fn c_is_space(c: char) -> (r: bool)
    ensures
        r == is_space(c),
{
    c == ' ' || c == '\t' || c == '\n' || c == '\r'
}

pub fn c_is_digit(c: char) -> (r: bool)
    ensures
        r == is_digit(c),
{
    let u = c as u32;
    48 <= u && u <= 57
}

pub fn c_is_ident_start(c: char) -> (r: bool)
    ensures
        r == is_ident_start(c),
{
    let u = c as u32;
    (97 <= u && u <= 122) || (65 <= u && u <= 90) || c == '_'
}

pub fn c_is_ident_char(c: char) -> (r: bool)
    ensures
        r == is_ident_char(c),
{
    c_is_ident_start(c) || c_is_digit(c)
}

/// A clamped position step: equals `j` whenever `i < j <= n`, which is
/// the case on every path the executable compiler takes; the clamp only
/// makes termination of the spec-level recursion structural.
pub open spec fn adv(n: int, i: int, j: int) -> int {
    if i < j && j <= n {
        j
    } else if i + 1 <= n {
        i + 1
    } else {
        n
    }
}

/// First position at or after `i` that holds a non-space character.
pub open spec fn sp_ws(s: Seq<char>, i: int) -> int
    decreases s.len() - i,
{
    if 0 <= i < s.len() && is_space(s[i]) {
        sp_ws(s, i + 1)
    } else {
        i
    }
}

/// End of the identifier that starts at `i`.
pub open spec fn sp_ident_end(s: Seq<char>, i: int) -> int
    decreases s.len() - i,
{
    if 0 <= i < s.len() && is_ident_char(s[i]) {
        sp_ident_end(s, i + 1)
    } else {
        i
    }
}

/// End of the digit run that starts at `i`.
pub open spec fn sp_int_end(s: Seq<char>, i: int) -> int
    decreases s.len() - i,
{
    if 0 <= i < s.len() && is_digit(s[i]) {
        sp_int_end(s, i + 1)
    } else {
        i
    }
}

/// First position at or after `i` holding character `c`, if any.
pub open spec fn sp_find_char(s: Seq<char>, i: int, c: char) -> Option<int>
    decreases s.len() - i,
{
    if !(0 <= i < s.len()) {
        Option::None
    } else if s[i] == c {
        Option::Some(i)
    } else {
        sp_find_char(s, i + 1, c)
    }
}

/// Decimal accumulation of the digits in `s[i..e]` onto `acc`; `None`
/// signals that the literal does not fit in a 64-bit signed integer.
pub open spec fn sp_int_acc(s: Seq<char>, i: int, e: int, acc: i64) -> Option<i64>
    decreases e - i,
{
    if i < e && 0 <= i {
        let d = digit_val(s[i]);
        if acc <= (i64::MAX - d) / 10 {
            sp_int_acc(s, i + 1, e, (acc * 10 + d) as i64)
        } else {
            Option::None
        }
    } else {
        Option::Some(acc)
    }
}

/// Model of a token.
pub enum TokV {
    Ident(Seq<char>),
    IntTok(i64),
    StrTok(Seq<char>),
    OpEq,
    OpNe,
    OpLt,
    OpLe,
    OpGt,
    OpGe,
    Pipe,
    Dot,
    Comma,
    LPar,
    RPar,
    Assign,
}

/// A token of the expression language.
pub enum Tok {
    Ident(String),
    IntTok(i64),
    StrTok(String),
    OpEq,
    OpNe,
    OpLt,
    OpLe,
    OpGt,
    OpGe,
    Pipe,
    Dot,
    Comma,
    LPar,
    RPar,
    Assign,
}

impl View for Tok {
    type V = TokV;

    open spec fn view(&self) -> TokV {
        match self {
            Tok::Ident(s) => TokV::Ident(s@),
            Tok::IntTok(n) => TokV::IntTok(*n),
            Tok::StrTok(s) => TokV::StrTok(s@),
            Tok::OpEq => TokV::OpEq,
            Tok::OpNe => TokV::OpNe,
            Tok::OpLt => TokV::OpLt,
            Tok::OpLe => TokV::OpLe,
            Tok::OpGt => TokV::OpGt,
            Tok::OpGe => TokV::OpGe,
            Tok::Pipe => TokV::Pipe,
            Tok::Dot => TokV::Dot,
            Tok::Comma => TokV::Comma,
            Tok::LPar => TokV::LPar,
            Tok::RPar => TokV::RPar,
            Tok::Assign => TokV::Assign,
        }
    }
}

/// The model of a token vector, elementwise.
pub open spec fn toks_view(s: Seq<Tok>) -> Seq<TokV>
    decreases s,
{
    if s.len() == 0 {
        Seq::empty()
    } else {
        toks_view(s.drop_last()).push(s.last()@)
    }
}

pub broadcast proof fn lemma_toks_view(s: Seq<Tok>)
    ensures
        (#[trigger] toks_view(s)).len() == s.len(),
        forall|i: int| 0 <= i < s.len() ==> toks_view(s)[i] == s[i]@,
    decreases s.len(),
{
    if s.len() > 0 {
        lemma_toks_view(s.drop_last());
        assert(toks_view(s) == toks_view(s.drop_last()).push(s.last()@));
        assert(toks_view(s).len() == s.len());
        assert forall|i: int| 0 <= i < s.len() implies toks_view(s)[i] == s[i]@ by {
            if i < s.len() - 1 {
                assert(s.drop_last()[i] == s[i]);
                assert(toks_view(s)[i] == toks_view(s.drop_last())[i]);
            } else {
                assert(s[i] == s.last());
            }
        }
    }
}

pub open spec fn tok_cons(t: TokV, rest: Option<Seq<TokV>>) -> Option<Seq<TokV>> {
    match rest {
        Option::None => Option::None,
        Option::Some(r) => Option::Some(seq![t] + r),
    }
}

/// The token sequence of `s[i..]`, or `None` on a character no token
/// starts with, an unterminated string literal, or an integer literal
/// that does not fit.
pub open spec fn sp_lex(s: Seq<char>, i: int) -> Option<Seq<TokV>>
    decreases s.len() - i,
{
    let n = s.len() as int;
    let j = sp_ws(s, i);
    if !(0 <= j < n) {
        Option::Some(Seq::empty())
    } else {
        let c = s[j];
        if is_ident_start(c) {
            let e = sp_ident_end(s, j);
            tok_cons(TokV::Ident(s.subrange(j, adv(n, i, e))), sp_lex(s, adv(n, i, e)))
        } else if is_digit(c) {
            let e = sp_int_end(s, j);
            match sp_int_acc(s, j, adv(n, i, e), 0) {
                Option::None => Option::None,
                Option::Some(v) => tok_cons(TokV::IntTok(v), sp_lex(s, adv(n, i, e))),
            }
        } else if c == '\'' || c == '"' {
            match sp_find_char(s, j + 1, c) {
                Option::None => Option::None,
                Option::Some(k) => tok_cons(
                    TokV::StrTok(s.subrange(j + 1, adv(n, i, k))),
                    sp_lex(s, adv(n, i, k + 1)),
                ),
            }
        } else if c == '=' {
            if j + 1 < n && s[j + 1] == '=' {
                tok_cons(TokV::OpEq, sp_lex(s, adv(n, i, j + 2)))
            } else {
                tok_cons(TokV::Assign, sp_lex(s, adv(n, i, j + 1)))
            }
        } else if c == '!' {
            if j + 1 < n && s[j + 1] == '=' {
                tok_cons(TokV::OpNe, sp_lex(s, adv(n, i, j + 2)))
            } else {
                Option::None
            }
        } else if c == '<' {
            if j + 1 < n && s[j + 1] == '=' {
                tok_cons(TokV::OpLe, sp_lex(s, adv(n, i, j + 2)))
            } else {
                tok_cons(TokV::OpLt, sp_lex(s, adv(n, i, j + 1)))
            }
        } else if c == '>' {
            if j + 1 < n && s[j + 1] == '=' {
                tok_cons(TokV::OpGe, sp_lex(s, adv(n, i, j + 2)))
            } else {
                tok_cons(TokV::OpGt, sp_lex(s, adv(n, i, j + 1)))
            }
        } else if c == '|' {
            tok_cons(TokV::Pipe, sp_lex(s, adv(n, i, j + 1)))
        } else if c == '.' {
            tok_cons(TokV::Dot, sp_lex(s, adv(n, i, j + 1)))
        } else if c == ',' {
            tok_cons(TokV::Comma, sp_lex(s, adv(n, i, j + 1)))
        } else if c == '(' {
            tok_cons(TokV::LPar, sp_lex(s, adv(n, i, j + 1)))
        } else if c == ')' {
            tok_cons(TokV::RPar, sp_lex(s, adv(n, i, j + 1)))
        } else {
            Option::None
        }
    }
}

/// Executable whitespace skip.
pub fn ws(cs: &Vec<char>, i: usize) -> (r: usize)
    requires
        i <= cs@.len(),
    ensures
        r as int == sp_ws(cs@, i as int),
        i <= r <= cs@.len(),
    decreases cs@.len() - i,
{
    if i < cs.len() && c_is_space(cs[i]) {
        ws(cs, i + 1)
    } else {
        i
    }
}

/// Executable identifier-end scan.
pub fn ident_end(cs: &Vec<char>, i: usize) -> (r: usize)
    requires
        i <= cs@.len(),
    ensures
        r as int == sp_ident_end(cs@, i as int),
        i <= r <= cs@.len(),
    decreases cs@.len() - i,
{
    if i < cs.len() && c_is_ident_char(cs[i]) {
        ident_end(cs, i + 1)
    } else {
        i
    }
}

/// Executable digit-run-end scan.
pub fn int_end(cs: &Vec<char>, i: usize) -> (r: usize)
    requires
        i <= cs@.len(),
    ensures
        r as int == sp_int_end(cs@, i as int),
        i <= r <= cs@.len(),
    decreases cs@.len() - i,
{
    if i < cs.len() && c_is_digit(cs[i]) {
        int_end(cs, i + 1)
    } else {
        i
    }
}

/// Executable character search.
pub fn find_char(cs: &Vec<char>, i: usize, c: char) -> (r: Option<usize>)
    requires
        i <= cs@.len(),
    ensures
        match r {
            Option::Some(k) => sp_find_char(cs@, i as int, c) == Option::Some(k as int) && i <= k
                < cs@.len(),
            Option::None => sp_find_char(cs@, i as int, c) is None,
        },
    decreases cs@.len() - i,
{
    if i >= cs.len() {
        None
    } else if cs[i] == c {
        Some(i)
    } else {
        find_char(cs, i + 1, c)
    }
}

/// Executable decimal accumulation with an overflow check.
pub fn int_acc(cs: &Vec<char>, i: usize, e: usize, acc: i64) -> (r: Option<i64>)
    requires
        i <= e <= cs@.len(),
        acc >= 0,
        forall|k: int| i <= k < e ==> is_digit(cs@[k]),
    ensures
        r == sp_int_acc(cs@, i as int, e as int, acc),
    decreases e - i,
{
    if i < e {
        let d: i64 = (cs[i] as u32 - 48) as i64;
        assert(d == digit_val(cs@[i as int]));
        if acc <= (i64::MAX - d) / 10 {
            int_acc(cs, i + 1, e, acc * 10 + d)
        } else {
            None
        }
    } else {
        Some(acc)
    }
}

/// Tokenizes `cs[i..]`; `Err(())` exactly when the model rejects it.
pub fn lex_at(cs: &Vec<char>, i: usize) -> (r: Result<Vec<Tok>, ()>)
    requires
        i <= cs@.len(),
    ensures
        match r {
            Result::Ok(ts) => sp_lex(cs@, i as int) == Option::Some(toks_view(ts@)),
            Result::Err(_) => sp_lex(cs@, i as int) is None,
        },
    decreases cs@.len() - i,
{
    broadcast use lemma_toks_view;

    let n = cs.len();
    let j = ws(cs, i);
    if j >= n {
        let ts: Vec<Tok> = Vec::new();
        assert(toks_view(ts@) =~= Seq::<TokV>::empty());
        return Ok(ts);
    }
    let c = cs[j];
    if c_is_ident_start(c) {
        let e = ident_end(cs, j + 1);
        assert(e as int == sp_ident_end(cs@, j as int));
        let name = crate::text::sub_string(cs, j, e);
        let rest = lex_at(cs, e)?;
        let mut ts = rest;
        ts.insert(0, Tok::Ident(name));
        proof {
            assert(toks_view(ts@) =~= tok_cons(TokV::Ident(cs@.subrange(j as int, e as int)), sp_lex(cs@, e as int))->0);
        }
        Ok(ts)
    } else if c_is_digit(c) {
        let e = int_end(cs, j + 1);
        assert(e as int == sp_int_end(cs@, j as int));
        proof {
            lemma_int_run(cs@, j as int, e as int);
        }
        match int_acc(cs, j, e, 0) {
            None => Err(()),
            Some(v) => {
                let rest = lex_at(cs, e)?;
                let mut ts = rest;
                ts.insert(0, Tok::IntTok(v));
                proof {
                    assert(toks_view(ts@) =~= tok_cons(TokV::IntTok(v), sp_lex(cs@, e as int))->0);
                }
                Ok(ts)
            }
        }
    } else if c == '\'' || c == '"' {
        match find_char(cs, j + 1, c) {
            None => Err(()),
            Some(k) => {
                let lit = crate::text::sub_string(cs, j + 1, k);
                let rest = lex_at(cs, k + 1)?;
                let mut ts = rest;
                ts.insert(0, Tok::StrTok(lit));
                proof {
                    assert(toks_view(ts@) =~= tok_cons(TokV::StrTok(cs@.subrange(j as int + 1, k as int)), sp_lex(cs@, k as int + 1))->0);
                }
                Ok(ts)
            }
        }
    } else {
        let (tok, e): (Tok, usize) = if c == '=' {
            if j + 1 < n && cs[j + 1] == '=' {
                (Tok::OpEq, j + 2)
            } else {
                (Tok::Assign, j + 1)
            }
        } else if c == '!' {
            if j + 1 < n && cs[j + 1] == '=' {
                (Tok::OpNe, j + 2)
            } else {
                return Err(());
            }
        } else if c == '<' {
            if j + 1 < n && cs[j + 1] == '=' {
                (Tok::OpLe, j + 2)
            } else {
                (Tok::OpLt, j + 1)
            }
        } else if c == '>' {
            if j + 1 < n && cs[j + 1] == '=' {
                (Tok::OpGe, j + 2)
            } else {
                (Tok::OpGt, j + 1)
            }
        } else if c == '|' {
            (Tok::Pipe, j + 1)
        } else if c == '.' {
            (Tok::Dot, j + 1)
        } else if c == ',' {
            (Tok::Comma, j + 1)
        } else if c == '(' {
            (Tok::LPar, j + 1)
        } else if c == ')' {
            (Tok::RPar, j + 1)
        } else {
            return Err(());
        };
        let rest = lex_at(cs, e)?;
        let mut ts = rest;
        let ghost tv = tok@;
        ts.insert(0, tok);
        proof {
            assert(toks_view(ts@) =~= tok_cons(tv, sp_lex(cs@, e as int))->0);
        }
        Ok(ts)
    }
}

/// Every character of a digit run is a digit.
pub proof fn lemma_int_run(s: Seq<char>, i: int, e: int)
    requires
        0 <= i <= s.len(),
        e == sp_int_end(s, i),
    ensures
        i <= e <= s.len(),
        forall|k: int| i <= k < e ==> is_digit(s[k]),
    decreases s.len() - i,
{
    if 0 <= i < s.len() && is_digit(s[i]) {
        lemma_int_run(s, i + 1, e);
    }
}

} // verus!
