//! The parser of an invocation:
//! `Block*`, where `Block := Attr* Vis? Type '{' (Attr* Ident),* ','? '}'`
//! and `Attr := '#' '[' Ident Token* ']'` (an annotation ends at its first `]`).
use vstd::prelude::*;
use crate::token::{Token, Tok, Delim, toks, copy_range};
use crate::model::{
    Attr, AttrV, AttrIdent, AttrIdentV, MicrotypeDecl, MicrotypeMacro, DeclV, attrs_view,
    decls_view,
};
use crate::error::MicrotypeError;

verus! {

/// The tokens of an annotation.
pub open spec fn render_attr(a: AttrV) -> Seq<Tok> {
    seq![Tok::Punct('#'), Tok::Open(Delim::Bracket), Tok::Ident(a.name)] + a.args + seq![
        Tok::Close(Delim::Bracket),
    ]
}

/// The tokens of a list of annotations.
pub open spec fn render_attrs(s: Seq<AttrV>) -> Seq<Tok>
    decreases s.len(),
{
    if s.len() == 0 {
        Seq::empty()
    } else {
        render_attrs(s.drop_last()) + render_attr(s.last())
    }
}

/// The tokens of a declared name.
pub open spec fn render_name(n: AttrIdentV) -> Seq<Tok> {
    render_attrs(n.attributes) + seq![Tok::Ident(n.ident)]
}

/// The tokens of a non-empty list of names, separated by commas.
pub open spec fn render_list(ns: Seq<AttrIdentV>) -> Seq<Tok>
    decreases ns.len(),
{
    if ns.len() <= 1 {
        if ns.len() == 0 {
            Seq::empty()
        } else {
            render_name(ns[0])
        }
    } else {
        render_list(ns.drop_last()) + seq![Tok::Punct(',')] + render_name(ns.last())
    }
}

/// The tokens of a list of names, with a trailing comma where `trailing`
/// holds and the list is not empty.
pub open spec fn render_names(ns: Seq<AttrIdentV>, trailing: bool) -> Seq<Tok> {
    if trailing && ns.len() > 0 {
        render_list(ns) + seq![Tok::Punct(',')]
    } else {
        render_list(ns)
    }
}

/// The tokens of a block.
pub open spec fn render_decl(d: DeclV, trailing: bool) -> Seq<Tok> {
    render_attrs(d.attrs) + d.vis + d.inner + seq![Tok::Open(Delim::Brace)] + render_names(
        d.idents,
        trailing,
    ) + seq![Tok::Close(Delim::Brace)]
}

/// The tokens of a list of blocks; `trailing` says, for each block, whether
/// its names end in a comma.
pub open spec fn render_decls(ds: Seq<DeclV>, trailing: Seq<bool>) -> Seq<Tok>
    decreases ds.len(),
{
    if ds.len() == 0 || trailing.len() == 0 {
        Seq::empty()
    } else {
        render_decls(ds.drop_last(), trailing.drop_last()) + render_decl(ds.last(), trailing.last())
    }
}

/// Whether the block `d` gives the tokens `t`, with or without a trailing
/// comma after its names.
pub open spec fn renders_decl(d: DeclV, t: Seq<Tok>) -> bool {
    render_decl(d, false) == t || render_decl(d, true) == t
}

/// Whether the blocks `ds` give the tokens `t`, for some choice of
/// trailing commas.
pub open spec fn renders(ds: Seq<DeclV>, t: Seq<Tok>) -> bool {
    exists|trailing: Seq<bool>| #[trigger] render_decls(ds, trailing) == t
}

/// Whether `t` holds the tokens `x` from position `p` on.
pub open spec fn at(t: Seq<Tok>, p: int, x: Seq<Tok>) -> bool {
    0 <= p && p + x.len() <= t.len() && t.subrange(p, p + x.len()) == x
}

/// Whether `x` does not occur in `s`.
pub open spec fn lacks(s: Seq<Tok>, x: Tok) -> bool {
    forall|i: int| 0 <= i < s.len() ==> s[i] != x
}

/// An annotation that the parser reads back: its tokens hold no `]`.
pub open spec fn wf_attr(a: AttrV) -> bool {
    lacks(a.args, Tok::Close(Delim::Bracket))
}

/// Annotations that the parser reads back.
pub open spec fn wf_attrs(s: Seq<AttrV>) -> bool {
    forall|i: int| 0 <= i < s.len() ==> wf_attr(#[trigger] s[i])
}

/// A visibility that the parser reads back: none, `pub`, or `pub(...)`
/// with no `)` inside.
pub open spec fn wf_vis(v: Seq<Tok>) -> bool {
    v.len() == 0 || v == seq![Tok::Ident("pub"@)] || (v.len() >= 3 && v[0] == Tok::Ident("pub"@)
        && v[1] == Tok::Open(Delim::Paren) && v.last() == Tok::Close(Delim::Paren) && lacks(
        v.subrange(2, v.len() - 1),
        Tok::Close(Delim::Paren),
    ))
}

/// An inner type that the parser reads back after the visibility `vis`:
/// not empty, with no `{`, and not starting with what would be read as an
/// annotation or a visibility.
pub open spec fn wf_inner(vis: Seq<Tok>, inner: Seq<Tok>) -> bool {
    &&& inner.len() > 0
    &&& lacks(inner, Tok::Open(Delim::Brace))
    &&& inner[0] != Tok::Punct('#')
    &&& vis.len() == 0 ==> inner[0] != Tok::Ident("pub"@)
    &&& vis == seq![Tok::Ident("pub"@)] ==> inner[0] != Tok::Open(Delim::Paren)
}

/// A block that the parser reads back.
pub open spec fn wf_decl(d: DeclV) -> bool {
    &&& wf_attrs(d.attrs)
    &&& wf_vis(d.vis)
    &&& wf_inner(d.vis, d.inner)
    &&& forall|i: int| 0 <= i < d.idents.len() ==> wf_attrs(#[trigger] d.idents[i].attributes)
}

/// Whether `t` is the rendering of well-formed blocks.
pub open spec fn well_formed_input(t: Seq<Tok>) -> bool {
    exists|ds: Seq<DeclV>, tr: Seq<bool>|
        (forall|i: int| 0 <= i < ds.len() ==> wf_decl(#[trigger] ds[i])) && tr.len() == ds.len()
            && #[trigger] render_decls(ds, tr) == t
}

proof fn lemma_at_split(t: Seq<Tok>, p: int, x: Seq<Tok>, y: Seq<Tok>)
    requires
        at(t, p, x + y),
    ensures
        at(t, p, x),
        at(t, p + x.len(), y),
{
    let w = t.subrange(p, p + x.len() + y.len());
    assert(w == x + y);
    assert forall|i: int| 0 <= i < x.len() implies t.subrange(p, p + x.len())[i] == x[i] by {
        assert(w[i] == (x + y)[i]);
    }
    assert(t.subrange(p, p + x.len()) =~= x);
    assert forall|i: int| 0 <= i < y.len() implies t.subrange(p + x.len(), p + x.len() + y.len())[i]
        == y[i] by {
        assert(w[x.len() + i] == (x + y)[x.len() + i]);
    }
    assert(t.subrange(p + x.len(), p + x.len() + y.len()) =~= y);
}

proof fn lemma_at_index(t: Seq<Tok>, p: int, x: Seq<Tok>, i: int)
    requires
        at(t, p, x),
        0 <= i < x.len(),
    ensures
        t[p + i] == x[i],
{
    assert(t.subrange(p, p + x.len())[i] == t[p + i]);
}

proof fn lemma_render_attrs_add(a: Seq<AttrV>, b: Seq<AttrV>)
    ensures
        render_attrs(a + b) == render_attrs(a) + render_attrs(b),
    decreases b.len(),
{
    if b.len() == 0 {
        assert(a + b =~= a);
        assert(render_attrs(a) + render_attrs(b) =~= render_attrs(a));
    } else {
        lemma_render_attrs_add(a, b.drop_last());
        assert((a + b).drop_last() =~= a + b.drop_last());
        assert(render_attrs(a) + render_attrs(b) =~= render_attrs(a) + render_attrs(b.drop_last())
            + render_attr(b.last()));
    }
}

/// The tokens of annotations `s` are those of `s[0]` followed by those of
/// the rest.
proof fn lemma_render_attrs_first(s: Seq<AttrV>)
    requires
        s.len() > 0,
    ensures
        render_attrs(s) == render_attr(s[0]) + render_attrs(s.skip(1)),
{
    lemma_render_attrs_add(seq![s[0]], s.skip(1));
    assert(seq![s[0]] + s.skip(1) =~= s);
    let one = seq![s[0]];
    assert(one.drop_last() =~= Seq::<AttrV>::empty());
    assert(render_attrs(one.drop_last()) == Seq::<Tok>::empty());
    assert(render_attrs(one) == render_attrs(one.drop_last()) + render_attr(one.last()));
    assert(render_attrs(one) =~= render_attr(s[0]));
}

/// Rendered annotations are empty or start with `#`.
proof fn lemma_render_attrs_start(s: Seq<AttrV>)
    ensures
        s.len() == 0 ==> render_attrs(s).len() == 0,
        s.len() > 0 ==> render_attrs(s).len() > 0 && render_attrs(s)[0] == Tok::Punct('#'),
{
    if s.len() > 0 {
        lemma_render_attrs_first(s);
    }
}

/// Splits the tokens of a list of names after its `k`-th name.
proof fn lemma_render_list_split(ns: Seq<AttrIdentV>, k: int)
    requires
        1 <= k < ns.len(),
    ensures
        render_list(ns) == render_list(ns.take(k)) + seq![Tok::Punct(',')] + render_list(ns.skip(k)),
    decreases ns.len(),
{
    let dl = ns.drop_last();
    if k == ns.len() - 1 {
        assert(ns.take(k) =~= dl);
        assert(ns.skip(k) =~= seq![ns.last()]);
    } else {
        lemma_render_list_split(dl, k);
        assert(dl.take(k) =~= ns.take(k));
        assert(ns.skip(k).drop_last() =~= dl.skip(k));
        assert(ns.skip(k).last() == ns.last());
        assert(render_list(ns) =~= render_list(ns.take(k)) + seq![Tok::Punct(',')] + render_list(
            ns.skip(k),
        ));
    }
}

/// The tokens of a list of names start with those of its first name.
proof fn lemma_render_list_first(ns: Seq<AttrIdentV>)
    requires
        ns.len() > 0,
    ensures
        ns.len() == 1 ==> render_list(ns) == render_name(ns[0]),
        ns.len() > 1 ==> render_list(ns) == render_name(ns[0]) + seq![Tok::Punct(',')] + render_list(
            ns.skip(1),
        ),
{
    if ns.len() > 1 {
        lemma_render_list_split(ns, 1);
        assert(ns.take(1) =~= seq![ns[0]]);
    }
}

proof fn lemma_render_decls_add(a: Seq<DeclV>, ta: Seq<bool>, b: Seq<DeclV>, tb: Seq<bool>)
    requires
        a.len() == ta.len(),
        b.len() == tb.len(),
    ensures
        render_decls(a + b, ta + tb) == render_decls(a, ta) + render_decls(b, tb),
    decreases b.len(),
{
    if b.len() == 0 {
        assert(a + b =~= a);
        assert(ta + tb =~= ta);
        assert(render_decls(a, ta) + render_decls(b, tb) =~= render_decls(a, ta));
    } else {
        lemma_render_decls_add(a, ta, b.drop_last(), tb.drop_last());
        assert((a + b).drop_last() =~= a + b.drop_last());
        assert((ta + tb).drop_last() =~= ta + tb.drop_last());
        assert(render_decls(a, ta) + render_decls(b, tb) =~= render_decls(a, ta) + render_decls(
            b.drop_last(),
            tb.drop_last(),
        ) + render_decl(b.last(), tb.last()));
    }
}

/// The tokens of a list of blocks start with those of its first block.
proof fn lemma_render_decls_first(ds: Seq<DeclV>, tr: Seq<bool>)
    requires
        ds.len() > 0,
        ds.len() == tr.len(),
    ensures
        render_decls(ds, tr) == render_decl(ds[0], tr[0]) + render_decls(ds.skip(1), tr.skip(1)),
{
    lemma_render_decls_add(seq![ds[0]], seq![tr[0]], ds.skip(1), tr.skip(1));
    assert(seq![ds[0]] + ds.skip(1) =~= ds);
    assert(seq![tr[0]] + tr.skip(1) =~= tr);
    let one = seq![ds[0]];
    let tone = seq![tr[0]];
    assert(one.drop_last() =~= Seq::<DeclV>::empty());
    assert(render_decls(one.drop_last(), tone.drop_last()) == Seq::<Tok>::empty());
    assert(render_decls(one, tone) == render_decls(one.drop_last(), tone.drop_last())
        + render_decl(one.last(), tone.last()));
    assert(render_decls(one, tone) =~= render_decl(ds[0], tr[0]));
}

/// Whether the token at `p` is the punctuation `c`.
fn is_punct(v: &Vec<Token>, p: usize, c: char) -> (r: bool)
    requires
        p < v@.len(),
    ensures
        r == (toks(v@)[p as int] == Tok::Punct(c)),
{
    match &v[p] {
        Token::Punct(x) => *x == c,
        _ => false,
    }
}

/// Whether the token at `p` opens a group with delimiter `d`.
fn is_open(v: &Vec<Token>, p: usize, d: Delim) -> (r: bool)
    requires
        p < v@.len(),
    ensures
        r == (toks(v@)[p as int] == Tok::Open(d)),
{
    match &v[p] {
        Token::Open(x) => *x == d,
        _ => false,
    }
}

/// Whether the token at `p` closes a group with delimiter `d`.
fn is_close(v: &Vec<Token>, p: usize, d: Delim) -> (r: bool)
    requires
        p < v@.len(),
    ensures
        r == (toks(v@)[p as int] == Tok::Close(d)),
{
    match &v[p] {
        Token::Close(x) => *x == d,
        _ => false,
    }
}

/// The first position at or after `p` that holds `Close(d)`, or the length.
fn find_close(v: &Vec<Token>, p: usize, d: Delim) -> (r: usize)
    requires
        p <= v@.len(),
    ensures
        p <= r <= v@.len(),
        r < v@.len() ==> toks(v@)[r as int] == Tok::Close(d),
        forall|k: int| p <= k < r ==> toks(v@)[k] != Tok::Close(d),
{
    let mut j: usize = p;
    while j < v.len() && !is_close(v, j, d)
        invariant
            p <= j <= v@.len(),
            forall|k: int| p <= k < j ==> toks(v@)[k] != Tok::Close(d),
        decreases v@.len() - j,
    {
        j = j + 1;
    }
    j
}

/// Parses one annotation that starts at `p`.
fn parse_attr(v: &Vec<Token>, p: usize, Ghost(goal): Ghost<AttrV>) -> (r: Result<(Attr, usize), MicrotypeError>)
    requires
        p <= v@.len(),
    ensures
        match r {
            Ok((a, q)) => p < q <= v@.len() && toks(v@).subrange(p as int, q as int) == render_attr(a@)
                && a.span == p,
            Err(e) => crate::error::span_of(e) <= v@.len(),
        },
        at(toks(v@), p as int, render_attr(goal)) && wf_attr(goal) ==> r is Ok && (r->Ok_0).1 == p
            + render_attr(goal).len(),
{
    let ghost t = toks(v@);
    let ghost hyp = at(t, p as int, render_attr(goal)) && wf_attr(goal);
    let ghost e: int = p + 3 + goal.args.len();
    proof {
        if hyp {
            lemma_at_index(t, p as int, render_attr(goal), 0);
            lemma_at_index(t, p as int, render_attr(goal), 1);
            lemma_at_index(t, p as int, render_attr(goal), 2);
            lemma_at_index(t, p as int, render_attr(goal), 3 + goal.args.len() as int);
        }
    }
    let len = v.len();
    if p >= len || len - p < 3 || !is_punct(v, p, '#') || !is_open(v, p + 1, Delim::Bracket) {
        return Err(MicrotypeError::Grammar { span: p });
    }
    let name = match &v[p + 2] {
        Token::Ident(s) => s.clone(),
        _ => {
            return Err(MicrotypeError::Grammar { span: p + 2 });
        },
    };
    let j = find_close(v, p + 3, Delim::Bracket);
    proof {
        if hyp {
            if j < e {
                lemma_at_index(t, p as int, render_attr(goal), j - p);
                assert(render_attr(goal)[j - p] == goal.args[j - p - 3]);
            }
        }
    }
    if j >= len {
        return Err(MicrotypeError::Grammar { span: len });
    }
    let args = copy_range(v, p + 3, j);
    let a = Attr { name, args, span: p };
    assert(toks(v@).subrange(p as int, j + 1) =~= render_attr(a@));
    Ok((a, j + 1))
}

/// Whether `t` holds the well-formed annotations `goal` from `p` on, and
/// no `#` right after them.
pub open spec fn attrs_at(t: Seq<Tok>, p: int, goal: Seq<AttrV>) -> bool {
    &&& at(t, p, render_attrs(goal))
    &&& wf_attrs(goal)
    &&& (p + render_attrs(goal).len() == t.len() || t[p + render_attrs(goal).len()] != Tok::Punct(
        '#',
    ))
}

/// Parses the annotations that start at `p`, as long as a `#` comes.
fn parse_attrs(v: &Vec<Token>, p: usize, Ghost(goal): Ghost<Seq<AttrV>>) -> (r: Result<
    (Vec<Attr>, usize),
    MicrotypeError,
>)
    requires
        p <= v@.len(),
    ensures
        match r {
            Ok((s, q)) => p <= q <= v@.len() && toks(v@).subrange(p as int, q as int) == render_attrs(
                attrs_view(s@),
            ),
            Err(e) => crate::error::span_of(e) <= v@.len(),
        },
        attrs_at(toks(v@), p as int, goal) ==> r is Ok && (r->Ok_0).1 == p + render_attrs(goal).len(),
{
    let ghost t = toks(v@);
    let ghost hyp = attrs_at(t, p as int, goal);
    let ghost end = p + render_attrs(goal).len();
    let ghost mut k: int = 0;
    let mut out: Vec<Attr> = Vec::new();
    let mut q: usize = p;
    assert(goal.skip(0) =~= goal);
    while q < v.len() && is_punct(v, q, '#')
        invariant
            p <= q <= v@.len(),
            t == toks(v@),
            hyp == attrs_at(t, p as int, goal),
            end == p + render_attrs(goal).len(),
            toks(v@).subrange(p as int, q as int) == render_attrs(attrs_view(out@)),
            hyp ==> 0 <= k <= goal.len() && q + render_attrs(goal.skip(k)).len() == end && at(
                t,
                q as int,
                render_attrs(goal.skip(k)),
            ),
        decreases v@.len() - q,
    {
        proof {
            if hyp {
                lemma_render_attrs_start(goal.skip(k));
                if k == goal.len() {
                    assert(goal.skip(k).len() == 0);
                }
                assert(k < goal.len());
                lemma_render_attrs_first(goal.skip(k));
                assert(goal.skip(k)[0] == goal[k]);
                assert(goal.skip(k).skip(1) =~= goal.skip(k + 1));
                lemma_at_split(t, q as int, render_attr(goal[k]), render_attrs(goal.skip(k + 1)));
                assert(wf_attr(goal[k]));
            }
        }
        let ghost g = if hyp { goal[k] } else { arbitrary() };
        match parse_attr(v, q, Ghost(g)) {
            Ok((a, q2)) => {
                let ghost before = out@;
                out.push(a);
                assert(attrs_view(out@).drop_last() =~= attrs_view(before));
                assert(toks(v@).subrange(p as int, q2 as int) =~= toks(v@).subrange(p as int, q as int)
                    + toks(v@).subrange(q as int, q2 as int));
                q = q2;
                proof {
                    k = k + 1;
                }
            },
            Err(e) => {
                return Err(e);
            },
        }
    }
    proof {
        if hyp {
            lemma_render_attrs_start(goal.skip(k));
            if k < goal.len() {
                lemma_at_index(t, q as int, render_attrs(goal.skip(k)), 0);
            }
        }
    }
    Ok((out, q))
}

/// Parses an optional visibility `pub` or `pub(...)` at `p`.
fn parse_vis(v: &Vec<Token>, p: usize, Ghost(vis): Ghost<Seq<Tok>>, Ghost(inner): Ghost<Seq<Tok>>) -> (r: (
    Vec<Token>,
    usize,
))
    requires
        p <= v@.len(),
    ensures
        p <= r.1 <= v@.len(),
        toks(r.0@) == toks(v@).subrange(p as int, r.1 as int),
        at(toks(v@), p as int, vis + inner) && wf_vis(vis) && wf_inner(vis, inner) ==> r.1 == p
            + vis.len(),
{
    let ghost t = toks(v@);
    let ghost hyp = at(t, p as int, vis + inner) && wf_vis(vis) && wf_inner(vis, inner);
    proof {
        if hyp {
            reveal_strlit("pub");
            lemma_at_split(t, p as int, vis, inner);
            lemma_at_index(t, p as int + vis.len(), inner, 0);
            if vis.len() > 0 {
                lemma_at_index(t, p as int, vis, 0);
            }
            if vis.len() > 1 {
                lemma_at_index(t, p as int, vis, 1);
                lemma_at_index(t, p as int, vis, vis.len() - 1);
                assert forall|k: int| p + 2 <= k < p + vis.len() - 1 implies t[k] != Tok::Close(
                    Delim::Paren,
                ) by {
                    lemma_at_index(t, p as int, vis, k - p);
                    assert(vis.subrange(2, vis.len() - 1)[k - p - 2] == vis[k - p]);
                }
            }
        }
    }
    let len = v.len();
    if p < len && v[p].is_ident("pub") {
        if p + 1 < len && is_open(v, p + 1, Delim::Paren) {
            let j = find_close(v, p + 2, Delim::Paren);
            if j < len {
                return (copy_range(v, p, j + 1), j + 1);
            }
        }
        (copy_range(v, p, p + 1), p + 1)
    } else {
        (Vec::new(), p)
    }
}

/// The tokens of the names of a block that remain after its first `k`
/// names and their commas.
pub open spec fn rest_of_names(ns: Seq<AttrIdentV>, k: int, trailing: bool) -> Seq<Tok> {
    if k < ns.len() {
        render_list(ns.skip(k)) + if trailing {
            seq![Tok::Punct(',')]
        } else {
            Seq::<Tok>::empty()
        }
    } else {
        Seq::empty()
    }
}

/// The tokens of the names after name `k` of a list that holds more.
pub open spec fn after_name(ns: Seq<AttrIdentV>, k: int) -> Seq<Tok> {
    if k + 1 < ns.len() {
        seq![Tok::Punct(',')] + render_list(ns.skip(k + 1))
    } else {
        Seq::empty()
    }
}

/// Whether the names of a block are well formed.
pub open spec fn wf_names(ns: Seq<AttrIdentV>) -> bool {
    forall|i: int| 0 <= i < ns.len() ==> wf_attrs(#[trigger] ns[i].attributes)
}

/// The names from `k` on are name `k` followed by the rest.
proof fn lemma_names_step(ns: Seq<AttrIdentV>, k: int)
    requires
        0 <= k < ns.len(),
    ensures
        render_list(ns.skip(k)) == render_attrs(ns[k].attributes) + seq![Tok::Ident(ns[k].ident)]
            + after_name(ns, k),
{
    let x = ns.skip(k);
    lemma_render_list_first(x);
    assert(x[0] == ns[k]);
    if k + 1 < ns.len() {
        assert(x.skip(1) =~= ns.skip(k + 1));
    }
    assert(render_list(ns.skip(k)) =~= render_attrs(ns[k].attributes) + seq![
        Tok::Ident(ns[k].ident),
    ] + after_name(ns, k));
}

/// Parses the names of a block, from its `{` at `p` to its `}`.
#[verifier::rlimit(80)]
fn parse_names(
    v: &Vec<Token>,
    p: usize,
    Ghost(goal): Ghost<Seq<AttrIdentV>>,
    Ghost(goal_trailing): Ghost<bool>,
) -> (r: Result<(Vec<AttrIdent>, usize, bool), MicrotypeError>)
    requires
        p < v@.len(),
        toks(v@)[p as int] == Tok::Open(Delim::Brace),
    ensures
        match r {
            Ok((ns, q, trailing)) => p < q <= v@.len() && toks(v@).subrange(p as int, q as int)
                == seq![Tok::Open(Delim::Brace)] + render_names(
                ns@.map_values(|n: AttrIdent| n@),
                trailing,
            ) + seq![Tok::Close(Delim::Brace)],
            Err(e) => crate::error::span_of(e) <= v@.len(),
        },
        at(
            toks(v@),
            p as int,
            seq![Tok::Open(Delim::Brace)] + render_names(goal, goal_trailing) + seq![
                Tok::Close(Delim::Brace),
            ],
        ) && wf_names(goal) ==> r is Ok && (r->Ok_0).1 == p + 2 + render_names(
            goal,
            goal_trailing,
        ).len(),
{
    let ghost t = toks(v@);
    let ghost n = goal.len();
    let ghost tr = goal_trailing;
    let ghost close = seq![Tok::Close(Delim::Brace)];
    let ghost hyp = at(
        t,
        p as int,
        seq![Tok::Open(Delim::Brace)] + render_names(goal, tr) + close,
    ) && wf_names(goal);
    let ghost end: int = p + 2 + render_names(goal, tr).len();
    let ghost mut k: int = 0;
    proof {
        if hyp {
            assert(seq![Tok::Open(Delim::Brace)] + render_names(goal, tr) + close =~= seq![
                Tok::Open(Delim::Brace),
            ] + (render_names(goal, tr) + close));
            lemma_at_split(
                t,
                p as int,
                seq![Tok::Open(Delim::Brace)],
                render_names(goal, tr) + close,
            );
            assert(goal.skip(0) =~= goal);
            assert(rest_of_names(goal, 0, tr) =~= render_names(goal, tr));
        }
    }
    let len = v.len();
    let s: usize = p + 1;
    let mut q: usize = s;
    let mut names: Vec<AttrIdent> = Vec::new();
    loop
        invariant
            s == p + 1,
            s <= q <= v@.len(),
            len == v@.len(),
            t == toks(v@),
            t[p as int] == Tok::Open(Delim::Brace),
            n == goal.len(),
            tr == goal_trailing,
            close == seq![Tok::Close(Delim::Brace)],
            end == p + 2 + render_names(goal, tr).len(),
            hyp == (at(t, p as int, seq![Tok::Open(Delim::Brace)] + render_names(goal, tr) + close)
                && wf_names(goal)),
            t.subrange(s as int, q as int) == (if names@.len() == 0 {
                Seq::<Tok>::empty()
            } else {
                render_list(names@.map_values(|n: AttrIdent| n@)) + seq![Tok::Punct(',')]
            }),
            hyp ==> 0 <= k <= n && at(t, q as int, rest_of_names(goal, k, tr) + close) && q
                + rest_of_names(goal, k, tr).len() + 1 == end && (k == n ==> (n == 0 || tr)),
        decreases v@.len() - q,
    {
        let ghost nv = names@.map_values(|n: AttrIdent| n@);
        proof {
            if hyp {
                lemma_at_index(t, q as int, rest_of_names(goal, k, tr) + close, 0);
                if k < n {
                    lemma_names_step(goal, k);
                    lemma_render_attrs_start(goal[k].attributes);
                    let ra = render_attrs(goal[k].attributes);
                    let rest = seq![Tok::Ident(goal[k].ident)] + after_name(goal, k) + (if tr {
                        seq![Tok::Punct(',')]
                    } else {
                        Seq::<Tok>::empty()
                    }) + close;
                    assert(rest_of_names(goal, k, tr) + close =~= ra + rest);
                    lemma_at_split(t, q as int, ra, rest);
                    lemma_at_index(t, q + ra.len(), rest, 0);
                    if ra.len() > 0 {
                        lemma_at_index(t, q as int, ra, 0);
                    }
                    assert(wf_attrs(goal[k].attributes));
                }
            }
        }
        if q >= v.len() {
            return Err(MicrotypeError::Grammar { span: q });
        }
        if is_close(v, q, Delim::Brace) {
            assert(t[p as int] == Tok::Open(Delim::Brace));
            assert(t[q as int] == Tok::Close(Delim::Brace));
            assert(t.subrange(p as int, q + 1) =~= seq![Tok::Open(Delim::Brace)] + t.subrange(
                s as int,
                q as int,
            ) + seq![Tok::Close(Delim::Brace)]);
            assert(t.subrange(p as int, q + 1) == seq![Tok::Open(Delim::Brace)] + render_names(
                nv,
                names@.len() > 0,
            ) + seq![Tok::Close(Delim::Brace)]);
            let trailing = names.len() > 0;
            return Ok((names, q + 1, trailing));
        }
        let ghost ga = if hyp { goal[k].attributes } else { arbitrary() };
        let (attributes, q1) = match parse_attrs(v, q, Ghost(ga)) {
            Ok(x) => x,
            Err(e) => {
                return Err(e);
            },
        };
        if q1 >= v.len() {
            return Err(MicrotypeError::Grammar { span: q1 });
        }
        let ident = match &v[q1] {
            Token::Ident(x) => x.clone(),
            _ => {
                return Err(MicrotypeError::Grammar { span: q1 });
            },
        };
        let nm = AttrIdent { attributes, ident };
        let q2 = q1 + 1;
        assert(t.subrange(q as int, q2 as int) =~= t.subrange(q as int, q1 as int) + seq![t[q1 as int]]);
        assert(t.subrange(q as int, q2 as int) == render_name(nm@));
        let ghost old_names = names@;
        names.push(nm);
        let ghost nv2 = names@.map_values(|n: AttrIdent| n@);
        assert(nv2.drop_last() =~= nv);
        assert(nv2.last() == nm@);
        assert(t.subrange(s as int, q2 as int) =~= t.subrange(s as int, q as int) + t.subrange(
            q as int,
            q2 as int,
        ));
        assert(t.subrange(s as int, q2 as int) == render_list(nv2)) by {
            if old_names.len() == 0 {
                assert(nv2 =~= seq![nm@]);
            } else {
                assert(nv2.len() >= 2);
            }
        }
        let ghost after = after_name(goal, k) + (if tr {
            seq![Tok::Punct(',')]
        } else {
            Seq::<Tok>::empty()
        }) + close;
        proof {
            if hyp {
                let ra = render_attrs(goal[k].attributes);
                let rest = seq![Tok::Ident(goal[k].ident)] + after;
                assert(rest_of_names(goal, k, tr) + close =~= ra + rest);
                lemma_at_split(t, q as int, ra, rest);
                lemma_at_split(t, q1 as int, seq![Tok::Ident(goal[k].ident)], after);
                lemma_at_index(t, q2 as int, after, 0);
                if k + 1 < n {
                    assert(after =~= seq![Tok::Punct(',')] + (rest_of_names(goal, k + 1, tr)
                        + close));
                    lemma_at_split(
                        t,
                        q2 as int,
                        seq![Tok::Punct(',')],
                        rest_of_names(goal, k + 1, tr) + close,
                    );
                } else if tr {
                    assert(after =~= seq![Tok::Punct(',')] + (rest_of_names(goal, k + 1, tr)
                        + close));
                    lemma_at_split(
                        t,
                        q2 as int,
                        seq![Tok::Punct(',')],
                        rest_of_names(goal, k + 1, tr) + close,
                    );
                } else {
                    assert(after =~= close);
                }
            }
        }
        if q2 < v.len() && is_punct(v, q2, ',') {
            assert(t.subrange(s as int, q2 + 1) =~= t.subrange(s as int, q2 as int) + seq![
                Tok::Punct(','),
            ]);
            q = q2 + 1;
            proof {
                k = k + 1;
            }
        } else if q2 < v.len() && is_close(v, q2, Delim::Brace) {
            assert(t[p as int] == Tok::Open(Delim::Brace));
            assert(t[q2 as int] == Tok::Close(Delim::Brace));
            assert(t.subrange(p as int, q2 + 1) =~= seq![Tok::Open(Delim::Brace)] + t.subrange(
                s as int,
                q2 as int,
            ) + seq![Tok::Close(Delim::Brace)]);
            assert(t.subrange(p as int, q2 + 1) == seq![Tok::Open(Delim::Brace)] + render_names(
                nv2,
                false,
            ) + seq![Tok::Close(Delim::Brace)]);
            return Ok((names, q2 + 1, false));
        } else {
            return Err(MicrotypeError::Grammar { span: q2 });
        }
    }
}

/// Parses one block that starts at `p`; also says whether its names end
/// in a comma.
fn parse_decl(v: &Vec<Token>, p: usize, Ghost(goal): Ghost<DeclV>, Ghost(goal_trailing): Ghost<bool>) -> (r: Result<
    (MicrotypeDecl, usize, bool),
    MicrotypeError,
>)
    requires
        p <= v@.len(),
    ensures
        match r {
            Ok((d, q, trailing)) => p < q <= v@.len() && toks(v@).subrange(p as int, q as int)
                == render_decl(d@, trailing),
            Err(e) => crate::error::span_of(e) <= v@.len(),
        },
        at(toks(v@), p as int, render_decl(goal, goal_trailing)) && wf_decl(goal) ==> r is Ok && (
        r->Ok_0).1 == p + render_decl(goal, goal_trailing).len(),
{
    let ghost t = toks(v@);
    let ghost hyp = at(t, p as int, render_decl(goal, goal_trailing)) && wf_decl(goal);
    let ghost ra = render_attrs(goal.attrs);
    let ghost names = seq![Tok::Open(Delim::Brace)] + render_names(goal.idents, goal_trailing) + seq![
        Tok::Close(Delim::Brace),
    ];
    proof {
        if hyp {
            assert(render_decl(goal, goal_trailing) =~= ra + ((goal.vis + goal.inner) + names));
            lemma_at_split(t, p as int, ra, (goal.vis + goal.inner) + names);
            lemma_at_split(t, p + ra.len(), goal.vis + goal.inner, names);
            lemma_at_index(t, p + ra.len(), goal.vis + goal.inner, 0);
            reveal_strlit("pub");
            if goal.vis.len() > 0 {
                assert((goal.vis + goal.inner)[0] == goal.vis[0]);
            } else {
                assert((goal.vis + goal.inner)[0] == goal.inner[0]);
            }
        }
    }
    let len = v.len();
    let ghost ga = if hyp { goal.attrs } else { arbitrary() };
    let (attrs, q1) = match parse_attrs(v, p, Ghost(ga)) {
        Ok(x) => x,
        Err(e) => {
            return Err(e);
        },
    };
    let ghost gv = if hyp { goal.vis } else { arbitrary() };
    let ghost gi = if hyp { goal.inner } else { arbitrary() };
    let (vis, q2) = parse_vis(v, q1, Ghost(gv), Ghost(gi));
    let q3 = find_close_or_open_brace(v, q2);
    proof {
        if hyp {
            lemma_at_split(t, q1 as int, goal.vis, goal.inner);
            let e = q2 + goal.inner.len();
            lemma_at_index(t, q1 as int + (goal.vis + goal.inner).len(), names, 0);
            if q3 < e {
                lemma_at_index(t, q2 as int, goal.inner, q3 - q2);
            }
        }
    }
    if q3 >= len || q3 == q2 {
        return Err(MicrotypeError::Grammar { span: q3 });
    }
    let inner = copy_range(v, q2, q3);
    let ghost gn = if hyp { goal.idents } else { arbitrary() };
    let ghost gt = if hyp { goal_trailing } else { arbitrary() };
    let (idents, q4, trailing) = match parse_names(v, q3, Ghost(gn), Ghost(gt)) {
        Ok(x) => x,
        Err(e) => {
            return Err(e);
        },
    };
    let d = MicrotypeDecl { attrs, inner, idents, vis };
    assert(t.subrange(p as int, q4 as int) =~= t.subrange(p as int, q1 as int) + t.subrange(
        q1 as int,
        q2 as int,
    ) + t.subrange(q2 as int, q3 as int) + t.subrange(q3 as int, q4 as int));
    assert(t.subrange(p as int, q4 as int) =~= render_decl(d@, trailing));
    Ok((d, q4, trailing))
}

/// The first position at or after `p` that holds an opening brace, or the
/// length.
fn find_close_or_open_brace(v: &Vec<Token>, p: usize) -> (r: usize)
    requires
        p <= v@.len(),
    ensures
        p <= r <= v@.len(),
        r < v@.len() ==> toks(v@)[r as int] == Tok::Open(Delim::Brace),
        forall|k: int| p <= k < r ==> toks(v@)[k] != Tok::Open(Delim::Brace),
{
    let mut j: usize = p;
    while j < v.len() && !is_open(v, j, Delim::Brace)
        invariant
            p <= j <= v@.len(),
            forall|k: int| p <= k < j ==> toks(v@)[k] != Tok::Open(Delim::Brace),
        decreases v@.len() - j,
    {
        j = j + 1;
    }
    j
}

impl AttrIdent {
    /// Parses a whole input as one declared name with its annotations.
    pub fn parse(tokens: &Vec<Token>) -> (r: Result<AttrIdent, MicrotypeError>)
        ensures
            match r {
                Ok(n) => render_name(n@) == toks(tokens@),
                Err(e) => crate::error::span_of(e) <= tokens@.len(),
            },
            (exists|n: AttrIdentV| wf_attrs(n.attributes) && #[trigger] render_name(n) == toks(
                tokens@,
            )) ==> r is Ok,
    {
        let ghost t = toks(tokens@);
        let ghost hyp = exists|n: AttrIdentV| wf_attrs(n.attributes) && #[trigger] render_name(n)
            == t;
        let ghost gn = if hyp {
            choose|n: AttrIdentV| wf_attrs(n.attributes) && #[trigger] render_name(n) == t
        } else {
            arbitrary()
        };
        proof {
            if hyp {
                let ra = render_attrs(gn.attributes);
                assert(t.subrange(0, t.len() as int) =~= t);
                lemma_at_split(t, 0, ra, seq![Tok::Ident(gn.ident)]);
                lemma_at_index(t, ra.len() as int, seq![Tok::Ident(gn.ident)], 0);
            }
        }
        let len = tokens.len();
        let ghost ga = if hyp { gn.attributes } else { arbitrary() };
        let (attributes, q) = match parse_attrs(tokens, 0, Ghost(ga)) {
            Ok(x) => x,
            Err(e) => {
                return Err(e);
            },
        };
        if q >= len || q + 1 != len {
            return Err(MicrotypeError::Grammar { span: q });
        }
        let ident = match &tokens[q] {
            Token::Ident(x) => x.clone(),
            _ => {
                return Err(MicrotypeError::Grammar { span: q });
            },
        };
        let n = AttrIdent { attributes, ident };
        assert(t =~= t.subrange(0, q as int) + seq![t[q as int]]);
        Ok(n)
    }
}

impl MicrotypeDecl {
    /// Parses a whole input as one block.
    pub fn parse(tokens: &Vec<Token>) -> (r: Result<MicrotypeDecl, MicrotypeError>)
        ensures
            match r {
                Ok(d) => renders_decl(d@, toks(tokens@)),
                Err(e) => crate::error::span_of(e) <= tokens@.len(),
            },
            (exists|d: DeclV| wf_decl(d) && #[trigger] renders_decl(d, toks(tokens@))) ==> r is Ok,
    {
        let ghost t = toks(tokens@);
        let ghost hyp = exists|d: DeclV| wf_decl(d) && #[trigger] renders_decl(d, t);
        let ghost gd = if hyp {
            choose|d: DeclV| wf_decl(d) && #[trigger] renders_decl(d, t)
        } else {
            arbitrary()
        };
        let ghost gt = render_decl(gd, true) == t;
        proof {
            if hyp {
                assert(t.subrange(0, t.len() as int) =~= t);
                assert(render_decl(gd, gt) == t);
            }
        }
        match parse_decl(tokens, 0, Ghost(gd), Ghost(gt)) {
            Ok((d, q, trailing)) => {
                if q != tokens.len() {
                    return Err(MicrotypeError::Grammar { span: q });
                }
                assert(toks(tokens@).subrange(0, q as int) =~= toks(tokens@));
                assert(render_decl(d@, trailing) == toks(tokens@));
                assert(renders_decl(d@, toks(tokens@)));
                Ok(d)
            },
            Err(e) => Err(e),
        }
    }
}

impl MicrotypeMacro {
    /// Parses a whole invocation into its blocks, in source order. An empty
    /// input has no blocks; a block may declare no names. On success, the
    /// blocks give back the input token for token; and the parse succeeds
    /// on every rendering of well-formed blocks.
    pub fn parse(tokens: &Vec<Token>) -> (r: Result<MicrotypeMacro, MicrotypeError>)
        ensures
            match r {
                Ok(m) => renders(m@, toks(tokens@)),
                Err(e) => crate::error::span_of(e) <= tokens@.len(),
            },
            well_formed_input(toks(tokens@)) ==> r is Ok,
    {
        let ghost t = toks(tokens@);
        let ghost hyp = well_formed_input(t);
        let ghost (gds, gtr) = if hyp {
            choose|ds: Seq<DeclV>, tr: Seq<bool>|
                (forall|i: int| 0 <= i < ds.len() ==> wf_decl(#[trigger] ds[i])) && tr.len()
                    == ds.len() && #[trigger] render_decls(ds, tr) == t
        } else {
            (arbitrary(), arbitrary())
        };
        let ghost mut k: int = 0;
        proof {
            if hyp {
                assert(gds.skip(0) =~= gds);
                assert(gtr.skip(0) =~= gtr);
                assert(t.subrange(0, t.len() as int) =~= t);
            }
        }
        let mut decls: Vec<MicrotypeDecl> = Vec::new();
        let ghost mut trail: Seq<bool> = Seq::empty();
        let mut p: usize = 0;
        while p < tokens.len()
            invariant
                p <= tokens@.len(),
                t == toks(tokens@),
                trail.len() == decls@.len(),
                render_decls(decls_view(decls@), trail) == t.subrange(0, p as int),
                hyp == well_formed_input(t),
                hyp ==> (forall|i: int| 0 <= i < gds.len() ==> wf_decl(#[trigger] gds[i]))
                    && gtr.len() == gds.len(),
                hyp ==> 0 <= k <= gds.len() && at(t, p as int, render_decls(gds.skip(k), gtr.skip(k)))
                    && p + render_decls(gds.skip(k), gtr.skip(k)).len() == t.len(),
            decreases tokens@.len() - p,
        {
            proof {
                if hyp {
                    if k == gds.len() {
                        assert(gds.skip(k).len() == 0);
                        assert(render_decls(gds.skip(k), gtr.skip(k)).len() == 0);
                    }
                    assert(k < gds.len());
                    lemma_render_decls_first(gds.skip(k), gtr.skip(k));
                    assert(gds.skip(k)[0] == gds[k]);
                    assert(gtr.skip(k)[0] == gtr[k]);
                    assert(gds.skip(k).skip(1) =~= gds.skip(k + 1));
                    assert(gtr.skip(k).skip(1) =~= gtr.skip(k + 1));
                    lemma_at_split(
                        t,
                        p as int,
                        render_decl(gds[k], gtr[k]),
                        render_decls(gds.skip(k + 1), gtr.skip(k + 1)),
                    );
                    assert(wf_decl(gds[k]));
                }
            }
            let ghost gd = if hyp { gds[k] } else { arbitrary() };
            let ghost gt = if hyp { gtr[k] } else { arbitrary() };
            match parse_decl(tokens, p, Ghost(gd), Ghost(gt)) {
                Ok((d, q, tr)) => {
                    let ghost before = decls@;
                    decls.push(d);
                    let ghost old_trail = trail;
                    proof {
                        trail = trail.push(tr);
                        assert(decls_view(decls@).drop_last() =~= decls_view(before));
                        assert(decls_view(decls@).last() == d@);
                        assert(trail.drop_last() =~= old_trail);
                        assert(render_decls(decls_view(decls@), trail) == render_decls(
                            decls_view(before),
                            trail.drop_last(),
                        ) + render_decl(d@, tr));
                        assert(t.subrange(0, q as int) =~= t.subrange(0, p as int) + t.subrange(
                            p as int,
                            q as int,
                        ));
                    }
                    p = q;
                    proof {
                        k = k + 1;
                    }
                },
                Err(e) => {
                    return Err(e);
                },
            }
        }
        let m = MicrotypeMacro(decls);
        assert(t.subrange(0, p as int) =~= t);
        assert(render_decls(m@, trail) == toks(tokens@));
        assert(renders(m@, toks(tokens@)));
        Ok(m)
    }
}

} // verus!
