//! The undeclared-variable analyzer: a single top-to-bottom pass over a
//! template's nodes that collects every name read before being bound by
//! an assignment. With path tracking on, a reference followed by static
//! attribute accesses is recorded as the full dotted path.

use vstd::prelude::*;

use crate::ir::{args_view, lemma_args_view, lemma_nodes_view, nodes_view, Arg, ArgV, Expr, ExprV, Node, NodeV};
use crate::text::collect_chars;

verus! {

broadcast use vstd::std_specs::vec::group_vec_axioms;

/// The dotted path of a chain of static attribute accesses over a
/// variable, if the expression is such a chain.
pub open spec fn path_of(e: ExprV) -> Option<Seq<char>>
    decreases e,
{
    match e {
        ExprV::Var(n) => Option::Some(n),
        ExprV::Attr(b, a) => match path_of(*b) {
            Option::Some(p) => Option::Some(p + seq!['.'] + a),
            Option::None => Option::None,
        },
        _ => Option::None,
    }
}

/// The root variable of a chain of attribute accesses, if any.
pub open spec fn root_of(e: ExprV) -> Option<Seq<char>>
    decreases e,
{
    match e {
        ExprV::Var(n) => Option::Some(n),
        ExprV::Attr(b, _) => root_of(*b),
        _ => Option::None,
    }
}

/// The undeclared names an expression reads, given the set of names
/// bound so far.
pub open spec fn sp_und_expr(e: ExprV, bound: Set<Seq<char>>, track: bool) -> Set<Seq<char>>
    decreases e, 0int,
{
    match e {
        ExprV::Var(n) => if bound.contains(n) {
            Set::empty()
        } else {
            Set::empty().insert(n)
        },
        ExprV::Attr(b, a) => match root_of(e) {
            Option::Some(root) => if bound.contains(root) {
                Set::empty()
            } else if track {
                Set::empty().insert(path_of(e)->0)
            } else {
                Set::empty().insert(root)
            },
            Option::None => sp_und_expr(*b, bound, track),
        },
        ExprV::Cmp(_, a, b) => sp_und_expr(*a, bound, track).union(sp_und_expr(*b, bound, track)),
        ExprV::Filter(b, _, args) => sp_und_expr(*b, bound, track).union(
            sp_und_args(args, bound, track, 0),
        ),
        ExprV::Call(_, args) => sp_und_args(args, bound, track, 0),
        _ => Set::empty(),
    }
}

/// The undeclared names the arguments from `i` on read.
pub open spec fn sp_und_args(args: Seq<ArgV>, bound: Set<Seq<char>>, track: bool, i: int) -> Set<
    Seq<char>,
>
    decreases args, args.len() - i,
{
    if !(0 <= i < args.len()) {
        Set::empty()
    } else {
        (match args[i] {
            ArgV::Pos(e) => sp_und_expr(e, bound, track),
            ArgV::Kw(_, e) => sp_und_expr(e, bound, track),
        }).union(sp_und_args(args, bound, track, i + 1))
    }
}

/// The undeclared names of the nodes from `i` on, given the names
/// bound so far; an assignment binds its name for all later nodes.
pub open spec fn sp_und_nodes(nodes: Seq<NodeV>, i: int, bound: Set<Seq<char>>, track: bool) -> Set<
    Seq<char>,
>
    decreases nodes.len() - i,
{
    if !(0 <= i < nodes.len()) {
        Set::empty()
    } else {
        match nodes[i] {
            NodeV::Text(_) => sp_und_nodes(nodes, i + 1, bound, track),
            NodeV::Emit(e) => sp_und_expr(e, bound, track).union(
                sp_und_nodes(nodes, i + 1, bound, track),
            ),
            NodeV::Assign(name, e) => sp_und_expr(e, bound, track).union(
                sp_und_nodes(nodes, i + 1, bound.insert(name), track),
            ),
        }
    }
}

/// The undeclared names of a whole template.
pub open spec fn sp_undeclared(nodes: Seq<NodeV>, track: bool) -> Set<Seq<char>> {
    sp_und_nodes(nodes, 0, Set::empty(), track)
}

/// The set of character sequences a string vector holds.
pub open spec fn strs_set(v: Seq<String>) -> Set<Seq<char>>
    decreases v,
{
    if v.len() == 0 {
        Set::empty()
    } else {
        strs_set(v.drop_last()).insert(v.last()@)
    }
}

/// No two entries hold the same characters.
pub open spec fn strs_nodup(v: Seq<String>) -> bool {
    forall|k: int, l: int| 0 <= k < l < v.len() ==> v[k]@ != v[l]@
}

pub proof fn lemma_strs_set(v: Seq<String>)
    ensures
        forall|x: Seq<char>|
            #[trigger] strs_set(v).contains(x) <==> exists|j: int| 0 <= j < v.len() && v[j]@ == x,
    decreases v.len(),
{
    if v.len() > 0 {
        lemma_strs_set(v.drop_last());
        assert forall|x: Seq<char>| #[trigger]
            strs_set(v).contains(x) implies exists|j: int| 0 <= j < v.len() && v[j]@ == x by {
            if x == v.last()@ {
                assert(v[v.len() - 1]@ == x);
            } else {
                assert(strs_set(v.drop_last()).contains(x));
                let j = choose|j: int| 0 <= j < v.drop_last().len() && v.drop_last()[j]@ == x;
                assert(v.drop_last()[j] == v[j]);
                assert(v[j]@ == x);
            }
        }
        assert forall|x: Seq<char>|
            (exists|j: int| 0 <= j < v.len() && v[j]@ == x) implies #[trigger] strs_set(
            v,
        ).contains(x) by {
            let j = choose|j: int| 0 <= j < v.len() && v[j]@ == x;
            if j < v.len() - 1 {
                assert(v.drop_last()[j]@ == x);
                assert(strs_set(v.drop_last()).contains(x));
                assert(strs_set(v).contains(x));
            } else {
                assert(x == v.last()@);
                assert(strs_set(v).contains(x));
            }
        }
    }
}

/// Whether some entry holds exactly these characters.
fn contains_str(v: &Vec<String>, s: &str) -> (r: bool)
    ensures
        r == strs_set(v@).contains(s@),
{
    proof {
        lemma_strs_set(v@);
    }
    let mut i: usize = 0;
    while i < v.len()
        invariant
            i <= v@.len(),
            forall|j: int| 0 <= j < i ==> v@[j]@ != s@,
        decreases v@.len() - i,
    {
        if crate::value::str_eq(v[i].as_str(), s) {
            proof {
                lemma_strs_set(v@);
            }
            return true;
        }
        i += 1;
    }
    proof {
        lemma_strs_set(v@);
    }
    false
}

/// Adds a name unless an equal one is present.
fn add_name(out: &mut Vec<String>, name: String)
    requires
        strs_nodup(old(out)@),
    ensures
        strs_set(final(out)@) == strs_set(old(out)@).insert(name@),
        strs_nodup(final(out)@),
{
    proof {
        lemma_strs_set(out@);
    }
    if !contains_str(out, name.as_str()) {
        let ghost pre = out@;
        out.push(name);
        proof {
            assert(out@.drop_last() =~= pre);
            lemma_strs_set(out@);
        }
    } else {
        proof {
            assert(strs_set(out@).insert(name@) =~= strs_set(out@));
        }
    }
}

/// Collects `sp_und_expr(e)` into `out`.
fn und_expr(e: &Expr, bound: &Vec<String>, track: bool, out: &mut Vec<String>)
    requires
        strs_nodup(old(out)@),
    ensures
        strs_set(final(out)@) == strs_set(old(out)@).union(
            sp_und_expr(e@, strs_set(bound@), track),
        ),
        strs_nodup(final(out)@),
    decreases e, 0int,
{
    match e {
        Expr::Var(n) => {
            if !contains_str(bound, n.as_str()) {
                add_name(out, n.clone());
                proof {
                    assert(strs_set(out@) =~= strs_set(old(out)@).union(
                        sp_und_expr(e@, strs_set(bound@), track),
                    ));
                }
            } else {
                proof {
                    assert(strs_set(out@) =~= strs_set(out@).union(
                        sp_und_expr(e@, strs_set(bound@), track),
                    ));
                }
            }
        }
        Expr::Attr(b, _) => {
            match path_root_chars(e) {
                Some((root, path)) => {
                    proof {
                        assert(root_of(e@) == Option::Some(root@));
                        assert(path_of(e@) == Option::Some(path@));
                    }
                    if !contains_str(bound, root.as_str()) {
                        if track {
                            add_name(out, path);
                        } else {
                            add_name(out, root);
                        }
                        proof {
                            assert(strs_set(out@) =~= strs_set(old(out)@).union(
                                sp_und_expr(e@, strs_set(bound@), track),
                            ));
                        }
                    } else {
                        proof {
                            assert(strs_set(out@) =~= strs_set(out@).union(
                                sp_und_expr(e@, strs_set(bound@), track),
                            ));
                        }
                    }
                }
                None => {
                    und_expr(b, bound, track, out);
                }
            }
        }
        Expr::Cmp(_, a, b) => {
            und_expr(a, bound, track, out);
            und_expr(b, bound, track, out);
            proof {
                assert(strs_set(out@) =~= strs_set(old(out)@).union(
                    sp_und_expr(e@, strs_set(bound@), track),
                ));
            }
        }
        Expr::Filter(b, _, args) => {
            und_expr(b, bound, track, out);
            und_args(args, bound, track, 0, out);
            proof {
                assert(strs_set(out@) =~= strs_set(old(out)@).union(
                    sp_und_expr(e@, strs_set(bound@), track),
                ));
            }
        }
        Expr::Call(_, args) => {
            und_args(args, bound, track, 0, out);
            proof {
                assert(strs_set(out@) =~= strs_set(old(out)@).union(
                    sp_und_expr(e@, strs_set(bound@), track),
                ));
            }
        }
        _ => {
            proof {
                assert(strs_set(out@) =~= strs_set(out@).union(
                    sp_und_expr(e@, strs_set(bound@), track),
                ));
            }
        }
    }
}

/// The root and dotted path of a static attribute chain, as strings.
fn path_root_chars(e: &Expr) -> (r: Option<(String, String)>)
    ensures
        match r {
            Option::Some((root, path)) => root_of(e@) == Option::Some(root@) && path_of(e@)
                == Option::Some(path@),
            Option::None => root_of(e@) is None && path_of(e@) is None,
        },
    decreases e,
{
    match e {
        Expr::Var(n) => Some((n.clone(), n.clone())),
        Expr::Attr(b, a) => {
            match path_root_chars(b) {
                Some((root, path)) => {
                    let mut cs = crate::text::str_chars(path.as_str());
                    cs.push('.');
                    let ghost mid = cs@;
                    let acs = crate::text::str_chars(a.as_str());
                    let mut t: usize = 0;
                    while t < acs.len()
                        invariant
                            t <= acs@.len(),
                            cs@ =~= mid + acs@.take(t as int),
                        decreases acs@.len() - t,
                    {
                        cs.push(acs[t]);
                        proof {
                            assert(cs@ =~= mid + acs@.take(t as int + 1));
                        }
                        t += 1;
                    }
                    proof {
                        assert(acs@.take(acs@.len() as int) =~= acs@);
                        assert(cs@ =~= path@ + seq!['.'] + a@);
                    }
                    Some((root, collect_chars(&cs)))
                }
                None => None,
            }
        }
        _ => None,
    }
}

/// Collects `sp_und_args(args, i)` into `out`.
fn und_args(args: &Vec<Arg>, bound: &Vec<String>, track: bool, i: usize, out: &mut Vec<String>)
    requires
        strs_nodup(old(out)@),
        i <= args@.len(),
    ensures
        strs_set(final(out)@) == strs_set(old(out)@).union(
            sp_und_args(args_view(args@), strs_set(bound@), track, i as int),
        ),
        strs_nodup(final(out)@),
    decreases args, args@.len() - i,
{
    broadcast use lemma_args_view;

    if i >= args.len() {
        proof {
            assert(strs_set(out@) =~= strs_set(out@).union(
                sp_und_args(args_view(args@), strs_set(bound@), track, i as int),
            ));
        }
        return ;
    }
    match &args[i] {
        Arg::Pos(e) => {
            und_expr(e, bound, track, out);
        }
        Arg::Kw(_, e) => {
            und_expr(e, bound, track, out);
        }
    }
    und_args(args, bound, track, i + 1, out);
    proof {
        assert(strs_set(out@) =~= strs_set(old(out)@).union(
            sp_und_args(args_view(args@), strs_set(bound@), track, i as int),
        ));
    }
}

/// Collects the undeclared names of the nodes from `i` on.
fn und_nodes(
    nodes: &Vec<Node>,
    i: usize,
    bound: &mut Vec<String>,
    track: bool,
    out: &mut Vec<String>,
)
    requires
        strs_nodup(old(out)@),
        i <= nodes@.len(),
    ensures
        strs_set(final(out)@) == strs_set(old(out)@).union(
            sp_und_nodes(nodes_view(nodes@), i as int, strs_set(old(bound)@), track),
        ),
        strs_nodup(final(out)@),
    decreases nodes@.len() - i,
{
    broadcast use lemma_nodes_view;

    if i >= nodes.len() {
        proof {
            assert(strs_set(out@) =~= strs_set(out@).union(
                sp_und_nodes(nodes_view(nodes@), i as int, strs_set(bound@), track),
            ));
        }
        return ;
    }
    match &nodes[i] {
        Node::Text(_) => {
            und_nodes(nodes, i + 1, bound, track, out);
        }
        Node::Emit(e) => {
            und_expr(e, bound, track, out);
            und_nodes(nodes, i + 1, bound, track, out);
            proof {
                assert(strs_set(out@) =~= strs_set(old(out)@).union(
                    sp_und_nodes(nodes_view(nodes@), i as int, strs_set(old(bound)@), track),
                ));
            }
        }
        Node::Assign(name, e) => {
            und_expr(e, bound, track, out);
            let ghost b0 = strs_set(bound@);
            let ghost pre = bound@;
            bound.push(name.clone());
            proof {
                assert(bound@.drop_last() =~= pre);
                assert(strs_set(bound@) == b0.insert(name@));
            }
            und_nodes(nodes, i + 1, bound, track, out);
            proof {
                assert(strs_set(out@) =~= strs_set(old(out)@).union(
                    sp_und_nodes(nodes_view(nodes@), i as int, strs_set(old(bound)@), track),
                ));
            }
        }
    }
}

/// The undeclared variables of a compiled node sequence: every name
/// read before being assigned, each once; with `track` set, dotted
/// attribute paths instead of root names.
pub fn undeclared_of_nodes(nodes: &Vec<Node>, track: bool) -> (r: Vec<String>)
    ensures
        strs_set(r@) == sp_undeclared(nodes_view(nodes@), track),
        strs_nodup(r@),
{
    let mut out: Vec<String> = Vec::new();
    let mut bound: Vec<String> = Vec::new();
    proof {
        assert(strs_set(out@) =~= Set::<Seq<char>>::empty());
        assert(strs_set(bound@) =~= Set::<Seq<char>>::empty());
    }
    und_nodes(nodes, 0, &mut bound, track, &mut out);
    proof {
        assert(Set::<Seq<char>>::empty().union(sp_undeclared(nodes_view(nodes@), track))
            =~= sp_undeclared(nodes_view(nodes@), track));
    }
    out
}

} // verus!
