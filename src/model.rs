//! The parsed declaration and the per-wrapper specifications built from it.
use vstd::prelude::*;
use crate::token::{Token, Tok, toks, copy_tokens};

verus! {

/// One annotation `#[name ...]`: its name, the tokens that follow the name
/// inside the brackets, and the position of its `#` in the input.
#[derive(Debug)]
pub struct Attr {
    pub name: String,
    pub args: Vec<Token>,
    pub span: usize,
}

/// The value of an annotation.
pub struct AttrV {
    pub name: Seq<char>,
    pub args: Seq<Tok>,
    pub span: usize,
}

impl View for Attr {
    type V = AttrV;

    open spec fn view(&self) -> AttrV {
        AttrV { name: self.name@, args: toks(self.args@), span: self.span }
    }
}

/// The values of a list of annotations.
pub open spec fn attrs_view(s: Seq<Attr>) -> Seq<AttrV> {
    s.map_values(|a: Attr| a@)
}

impl Attr {
    /// A copy of this annotation.
    pub fn copy(&self) -> (r: Attr)
        ensures
            r@ == self@,
    {
        Attr { name: self.name.clone(), args: copy_tokens(&self.args), span: self.span }
    }
}

/// Appends copies of `src` to `dst`.
pub fn extend_attrs(dst: &mut Vec<Attr>, src: &Vec<Attr>)
    ensures
        attrs_view(final(dst)@) == attrs_view(old(dst)@) + attrs_view(src@),
{
    let ghost start = attrs_view(dst@);
    let mut i: usize = 0;
    while i < src.len()
        invariant
            i <= src@.len(),
            attrs_view(dst@) == start + attrs_view(src@).take(i as int),
        decreases src@.len() - i,
    {
        let a = src[i].copy();
        let ghost before = dst@;
        dst.push(a);
        assert(dst@ == before.push(a));
        assert(attrs_view(dst@) =~= attrs_view(before).push(src@[i as int]@));
        assert(attrs_view(dst@) =~= start + attrs_view(src@).take(i + 1));
        i = i + 1;
    }
    assert(attrs_view(src@).take(src@.len() as int) =~= attrs_view(src@));
}

/// A name declared in a block, with its own annotations.
#[derive(Debug)]
pub struct AttrIdent {
    pub attributes: Vec<Attr>,
    pub ident: String,
}

/// The value of a declared name.
pub struct AttrIdentV {
    pub attributes: Seq<AttrV>,
    pub ident: Seq<char>,
}

impl View for AttrIdent {
    type V = AttrIdentV;

    open spec fn view(&self) -> AttrIdentV {
        AttrIdentV { attributes: attrs_view(self.attributes@), ident: self.ident@ }
    }
}

/// One block: annotations, visibility and inner type shared by the names
/// that it declares.
#[derive(Debug)]
pub struct MicrotypeDecl {
    pub attrs: Vec<Attr>,
    pub inner: Vec<Token>,
    pub idents: Vec<AttrIdent>,
    pub vis: Vec<Token>,
}

/// The value of a block.
pub struct DeclV {
    pub attrs: Seq<AttrV>,
    pub inner: Seq<Tok>,
    pub idents: Seq<AttrIdentV>,
    pub vis: Seq<Tok>,
}

impl View for MicrotypeDecl {
    type V = DeclV;

    open spec fn view(&self) -> DeclV {
        DeclV {
            attrs: attrs_view(self.attrs@),
            inner: toks(self.inner@),
            idents: self.idents@.map_values(|n: AttrIdent| n@),
            vis: toks(self.vis@),
        }
    }
}

/// A whole invocation: its blocks in source order.
#[derive(Debug)]
pub struct MicrotypeMacro(pub Vec<MicrotypeDecl>);

/// The values of a list of blocks.
pub open spec fn decls_view(s: Seq<MicrotypeDecl>) -> Seq<DeclV> {
    s.map_values(|d: MicrotypeDecl| d@)
}

impl View for MicrotypeMacro {
    type V = Seq<DeclV>;

    open spec fn view(&self) -> Seq<DeclV> {
        decls_view(self.0@)
    }
}

/// The specification of one wrapper type.
#[derive(Debug)]
pub struct Microtype {
    pub inner: Vec<Token>,
    pub name: String,
    pub vis: Vec<Token>,
    pub attrs: Vec<Attr>,
}

/// The value of a wrapper specification.
pub struct MicrotypeV {
    pub inner: Seq<Tok>,
    pub name: Seq<char>,
    pub vis: Seq<Tok>,
    pub attrs: Seq<AttrV>,
}

impl View for Microtype {
    type V = MicrotypeV;

    open spec fn view(&self) -> MicrotypeV {
        MicrotypeV {
            inner: toks(self.inner@),
            name: self.name@,
            vis: toks(self.vis@),
            attrs: attrs_view(self.attrs@),
        }
    }
}

/// The values of a list of wrapper specifications.
pub open spec fn microtypes_view(s: Seq<Microtype>) -> Seq<MicrotypeV> {
    s.map_values(|m: Microtype| m@)
}

/// The specification of the wrapper for name `n` of block `d`: the name's
/// own annotations come first, then the block's.
pub open spec fn spec_of(d: DeclV, n: AttrIdentV) -> MicrotypeV {
    MicrotypeV { inner: d.inner, name: n.ident, vis: d.vis, attrs: n.attributes + d.attrs }
}

/// The specifications of one block, in the order of its names.
pub open spec fn flatten_block(d: DeclV) -> Seq<MicrotypeV> {
    d.idents.map_values(|n: AttrIdentV| spec_of(d, n))
}

/// The specifications of a list of blocks, block after block.
pub open spec fn flatten_spec(ds: Seq<DeclV>) -> Seq<MicrotypeV>
    decreases ds.len(),
{
    if ds.len() == 0 {
        Seq::empty()
    } else {
        flatten_spec(ds.drop_last()) + flatten_block(ds.last())
    }
}

/// The number of names declared in a list of blocks.
pub open spec fn count_names(ds: Seq<DeclV>) -> nat
    decreases ds.len(),
{
    if ds.len() == 0 {
        0
    } else {
        count_names(ds.drop_last()) + ds.last().idents.len()
    }
}

/// Flattening yields one specification per declared name.
pub proof fn lemma_flatten_len(ds: Seq<DeclV>)
    ensures
        flatten_spec(ds).len() == count_names(ds),
    decreases ds.len(),
{
    if ds.len() > 0 {
        lemma_flatten_len(ds.drop_last());
    }
}

/// Flattening keeps the order of blocks and of names within a block, and
/// the specification of name `j` of block `i` carries that name's
/// annotations followed by the block's.
pub proof fn flatten_preserves_order_and_merges(ds: Seq<DeclV>, i: int, j: int)
    requires
        0 <= i < ds.len(),
        0 <= j < ds[i].idents.len(),
    ensures
        count_names(ds.take(i)) + j < flatten_spec(ds).len(),
        flatten_spec(ds)[count_names(ds.take(i)) + j] == spec_of(ds[i], ds[i].idents[j]),
        flatten_spec(ds)[count_names(ds.take(i)) + j].attrs
            == ds[i].idents[j].attributes + ds[i].attrs,
    decreases ds.len(),
{
    lemma_flatten_len(ds);
    let last = ds.len() - 1;
    let init = ds.drop_last();
    lemma_flatten_len(init);
    if i == last {
        assert(ds.take(i) =~= init);
    } else {
        flatten_preserves_order_and_merges(init, i, j);
        assert(init.take(i) =~= ds.take(i));
        lemma_count_prefix(ds, i);
    }
}

/// The names before block `i` are fewer than all the names before the last
/// block, plus block `i`'s own.
proof fn lemma_count_prefix(ds: Seq<DeclV>, i: int)
    requires
        0 <= i < ds.len(),
    ensures
        count_names(ds.take(i)) + ds[i].idents.len() <= count_names(ds),
    decreases ds.len(),
{
    let init = ds.drop_last();
    if i == ds.len() - 1 {
        assert(ds.take(i) =~= init);
    } else {
        lemma_count_prefix(init, i);
        assert(init.take(i) =~= ds.take(i));
    }
}

/// Builds the specification for a declared name of a block.
fn build_microtype(d: &MicrotypeDecl, n: &AttrIdent) -> (r: Microtype)
    ensures
        r@ == spec_of(d@, n@),
{
    let mut attrs: Vec<Attr> = Vec::new();
    extend_attrs(&mut attrs, &n.attributes);
    extend_attrs(&mut attrs, &d.attrs);
    assert(attrs_view(attrs@) =~= n@.attributes + d@.attrs);
    Microtype { inner: copy_tokens(&d.inner), name: n.ident.clone(), vis: copy_tokens(&d.vis), attrs }
}

/// Expands every block into one specification per declared name, in
/// declaration order and then name order.
pub fn flatten(microtype_macro: MicrotypeMacro) -> (r: Vec<Microtype>)
    ensures
        microtypes_view(r@) == flatten_spec(microtype_macro@),
{
    let decls = &microtype_macro.0;
    let mut result: Vec<Microtype> = Vec::new();
    let mut i: usize = 0;
    while i < decls.len()
        invariant
            i <= decls@.len(),
            microtypes_view(result@) == flatten_spec(decls_view(decls@).take(i as int)),
        decreases decls@.len() - i,
    {
        let decl = &decls[i];
        let ghost base = microtypes_view(result@);
        let mut j: usize = 0;
        while j < decl.idents.len()
            invariant
                i < decls@.len(),
                decl == decls@[i as int],
                j <= decl.idents@.len(),
                microtypes_view(result@) == base + flatten_block(decl@).take(j as int),
            decreases decl.idents@.len() - j,
        {
            let m = build_microtype(decl, &decl.idents[j]);
            let ghost before = result@;
            result.push(m);
            assert(result@ == before.push(m));
            assert(decl@.idents[j as int] == decl.idents@[j as int]@);
            assert(flatten_block(decl@)[j as int] == m@);
            assert(microtypes_view(result@) =~= microtypes_view(before).push(m@));
            assert(microtypes_view(result@) =~= base + flatten_block(decl@).take(j + 1));
            j = j + 1;
        }
        let ghost ds = decls_view(decls@).take(i + 1);
        assert(ds.drop_last() =~= decls_view(decls@).take(i as int));
        assert(flatten_block(decl@).take(j as int) =~= flatten_block(decl@));
        i = i + 1;
    }
    assert(decls_view(decls@).take(i as int) =~= decls_view(decls@));
    result
}

} // verus!
